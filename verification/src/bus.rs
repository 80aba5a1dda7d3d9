//! One side of the relay: its obfuscation keys, the frames it sends, and the
//! read that it resumes chunk by chunk.

use vstd::prelude::*;
use crate::frame::{frame, framed, PACKET_HEADER_SIZE, PACKET_LENGTH_SIZE};
use crate::numeric::{
    decode_number, decoded, lemma_decoded_two_bytes_bound, MAX4, MAX_PREFIX_VALUE,
};
use crate::obfuscation::{decode, deobfuscated, encode, obfuscated};
use crate::stream::{add_byte, append, built, get, with_capacity};

verus! {

/// The pair of multiples that key the obfuscation of one connection. Zero is
/// the neutral multiple.
#[derive(Clone, Copy, Debug, PartialEq, Eq, Structural)]
pub struct ObfuscationContext {
    pub encode_multiple: u8,
    pub decode_multiple: u8,
}

impl ObfuscationContext {
    /// The context of a connection before the handshake.
    pub open spec fn neutral() -> ObfuscationContext {
        ObfuscationContext { encode_multiple: 0, decode_multiple: 0 }
    }

    /// The context of the other side of the relay: what one side encodes
    /// with, the other decodes with.
    pub open spec fn mirrored(self) -> ObfuscationContext {
        ObfuscationContext {
            encode_multiple: self.decode_multiple,
            decode_multiple: self.encode_multiple,
        }
    }
}

/// What one non-blocking read on the socket gave.
pub enum ReadOutcome {
    /// The bytes that arrived; none at all means the peer has closed.
    Bytes(Vec<u8>),
    /// The read would have blocked.
    WouldBlock,
    /// The read failed for good.
    Failed,
}

/// Why a connection is over.
#[derive(Clone, Copy, Debug, PartialEq, Eq, Structural)]
pub enum RecvError {
    /// A read returned no bytes: the peer has closed.
    PeerClosed,
    /// The socket failed, or handed over more bytes than were asked for.
    Io,
}

/// Where a read stands between two chunks: the body length being awaited
/// (zero while the length prefix itself is awaited) and the bytes of the
/// current phase gathered so far.
pub struct ReadState {
    pub target: nat,
    pub pending: Seq<u8>,
}

impl ReadState {
    /// Nothing in flight: the next bytes are a length prefix.
    pub open spec fn idle() -> ReadState {
        ReadState { target: 0, pending: Seq::empty() }
    }

    /// Bytes that the current phase takes in all.
    pub open spec fn goal(self) -> nat {
        if self.target == 0 {
            2
        } else {
            self.target
        }
    }

    /// Bytes still missing from the current phase.
    pub open spec fn wanted(self) -> int {
        self.goal() - self.pending.len()
    }

    /// A phase in flight is never complete: completion resets it. The body
    /// awaited is no longer than a prefix can announce.
    pub open spec fn well_formed(self) -> bool {
        self.pending.len() < self.goal() && self.target <= MAX_PREFIX_VALUE
    }

    /// A chunk is taken when it is not empty and does not overrun the phase.
    pub open spec fn accepts(self, chunk: Seq<u8>) -> bool {
        0 < chunk.len() <= self.wanted()
    }

    /// The state after `chunk`. A chunk that is not taken changes nothing; one
    /// that leaves the phase short is appended; one that completes the prefix
    /// starts the body it announces (or the next prefix, where it announces
    /// none); one that completes the body returns to idle.
    pub open spec fn after(self, chunk: Seq<u8>) -> ReadState {
        if !self.accepts(chunk) {
            self
        } else if chunk.len() < self.wanted() {
            ReadState { target: self.target, pending: self.pending + chunk }
        } else if self.target == 0 {
            ReadState { target: decoded(self.pending + chunk) as nat, pending: Seq::empty() }
        } else {
            ReadState::idle()
        }
    }

    /// The packet that `chunk` completes, if it completes a body: the whole
    /// body with the obfuscation under `multiple` removed.
    pub open spec fn yields(self, chunk: Seq<u8>, multiple: u8) -> Option<Seq<u8>> {
        if self.accepts(chunk) && chunk.len() == self.wanted() && self.target != 0 {
            Some(deobfuscated(self.pending + chunk, multiple))
        } else {
            None
        }
    }
}

/// The bytes that a read handed over; none where it handed over nothing.
pub open spec fn chunk_of(outcome: ReadOutcome) -> Seq<u8> {
    match outcome {
        ReadOutcome::Bytes(chunk) => chunk@,
        _ => Seq::empty(),
    }
}

/// What a connection in `state` makes of one read under the decode multiple
/// `multiple`: nothing yet (`None`), the reason it is over, or the packet
/// that the read completed.
pub open spec fn verdict(state: ReadState, outcome: ReadOutcome, multiple: u8) -> Option<
    Result<Seq<u8>, RecvError>,
> {
    match outcome {
        ReadOutcome::WouldBlock => None,
        ReadOutcome::Failed => Some(Err(RecvError::Io)),
        ReadOutcome::Bytes(chunk) => if chunk@.len() == 0 {
            Some(Err(RecvError::PeerClosed))
        } else if chunk@.len() > state.wanted() {
            Some(Err(RecvError::Io))
        } else {
            match state.yields(chunk@, multiple) {
                Some(packet) => Some(Ok(packet)),
                None => None,
            }
        },
    }
}

/// One connection of the relay, without its socket.
pub struct Bus {
    packet_processor: ObfuscationContext,
    name: String,
    packet_length: usize,
    buf: Vec<u8>,
}

impl Bus {
    /// Where the read in flight stands.
    pub closed spec fn read_state(&self) -> ReadState {
        ReadState { target: self.packet_length as nat, pending: self.buf@ }
    }

    /// The keys in force.
    pub closed spec fn context(&self) -> ObfuscationContext {
        self.packet_processor
    }

    /// The diagnostic label.
    pub closed spec fn label(&self) -> Seq<char> {
        self.name@
    }

    /// The read state is well formed.
    pub open spec fn well_formed(&self) -> bool {
        self.read_state().well_formed()
    }

    /// A connection with neutral keys and no read in flight.
    pub fn new(name: String) -> (bus: Bus)
        ensures
            bus.well_formed(),
            bus.context() == ObfuscationContext::neutral(),
            bus.read_state() == ReadState::idle(),
            bus.label() == name@,
    {
        Bus {
            packet_processor: ObfuscationContext { encode_multiple: 0, decode_multiple: 0 },
            name,
            packet_length: 0,
            buf: Vec::new(),
        }
    }

    /// Replaces the keys, as the handshake asks. A read in flight stays as it
    /// is.
    pub fn set_multiples(&mut self, decode_multiple: u8, encode_multiple: u8)
        ensures
            final(self).context() == (ObfuscationContext { encode_multiple, decode_multiple }),
            final(self).read_state() == old(self).read_state(),
            final(self).label() == old(self).label(),
    {
        self.packet_processor = ObfuscationContext { encode_multiple, decode_multiple };
    }

    /// The keys in force.
    pub fn multiples(&self) -> (context: ObfuscationContext)
        ensures
            context == self.context(),
    {
        self.packet_processor
    }

    /// The diagnostic label.
    pub fn name(&self) -> (name: &String)
        ensures
            name@ == self.label(),
    {
        &self.name
    }

    /// The frame for bytes that go out as they are: a length prefix and
    /// `data`, with no header added and no obfuscation.
    pub fn send_raw(&self, data: Vec<u8>) -> (bytes: Vec<u8>)
        requires
            data@.len() <= MAX4,
        ensures
            bytes@ == framed(data@),
    {
        frame(data)
    }

    /// The frame for a packet: the header `action`, `family` and then `data`,
    /// obfuscated under this connection's encode multiple, behind the length
    /// prefix.
    pub fn send(&self, action: u8, family: u8, data: Vec<u8>) -> (bytes: Vec<u8>)
        requires
            data@.len() + PACKET_HEADER_SIZE <= MAX4,
        ensures
            bytes@ == framed(
                obfuscated(seq![action, family] + data@, self.context().encode_multiple),
            ),
            bytes@.len() == PACKET_LENGTH_SIZE + PACKET_HEADER_SIZE + data@.len(),
    {
        let packet_size = PACKET_HEADER_SIZE + data.len();
        let mut builder = with_capacity(PACKET_LENGTH_SIZE + packet_size);
        add_byte(&mut builder, action);
        add_byte(&mut builder, family);
        assert(built(builder) =~= seq![action, family]);
        append(&mut builder, data);
        let mut buf = get(builder);
        encode(&mut buf, self.packet_processor.encode_multiple);
        frame(buf)
    }

    /// Bytes to ask of the socket in the next read.
    pub fn wanted(&self) -> (n: usize)
        requires
            self.well_formed(),
        ensures
            n == self.read_state().wanted(),
            n > 0,
    {
        if self.packet_length == 0 {
            PACKET_LENGTH_SIZE - self.buf.len()
        } else {
            self.packet_length - self.buf.len()
        }
    }

    /// Takes in what one read gave and says what came of it: a whole decoded
    /// packet, nothing yet (`None`), or the end of the connection.
    ///
    /// A read that would block leaves everything as it was. So does each
    /// failure: a failed read, no bytes at all (the peer closed), or more
    /// bytes than were asked for. Any other chunk moves the read state on
    /// as `ReadState::after` says. What is returned is what `verdict` names.
    pub fn recv(&mut self, outcome: ReadOutcome) -> (result: Option<Result<Vec<u8>, RecvError>>)
        requires
            old(self).well_formed(),
        ensures
            final(self).well_formed(),
            final(self).context() == old(self).context(),
            final(self).label() == old(self).label(),
            final(self).read_state() == old(self).read_state().after(chunk_of(outcome)),
            (match verdict(
                old(self).read_state(),
                outcome,
                old(self).context().decode_multiple,
            ) {
                None => result is None,
                Some(Err(e)) => result == Some(Err::<Vec<u8>, RecvError>(e)),
                Some(Ok(packet)) => result matches Some(Ok(bytes)) && bytes@ == packet
                    && bytes@.len() == old(self).read_state().target,
            }),
    {
        match outcome {
            ReadOutcome::WouldBlock => None,
            ReadOutcome::Failed => Some(Err(RecvError::Io)),
            ReadOutcome::Bytes(chunk) => {
                if chunk.len() == 0 {
                    return Some(Err(RecvError::PeerClosed));
                }
                if chunk.len() > self.wanted() {
                    return Some(Err(RecvError::Io));
                }
                match self.read(chunk) {
                    None => None,
                    Some(whole) => {
                        if self.packet_length == 0 {
                            self.packet_length = Self::get_packet_length(&whole);
                            None
                        } else {
                            self.packet_length = 0;
                            let mut packet = whole;
                            decode(&mut packet, self.packet_processor.decode_multiple);
                            Some(Ok(packet))
                        }
                    },
                }
            },
        }
    }

    /// The body length that a complete length prefix announces.
    fn get_packet_length(prefix: &Vec<u8>) -> (length: usize)
        requires
            prefix@.len() <= 2,
        ensures
            length == decoded(prefix@),
            length <= MAX_PREFIX_VALUE,
    {
        proof {
            lemma_decoded_two_bytes_bound(prefix@);
        }
        decode_number(prefix) as usize
    }

    /// Appends a chunk that the current phase has room for. Gives the bytes
    /// of the whole phase, and empties the buffer, once they are all there.
    fn read(&mut self, chunk: Vec<u8>) -> (whole: Option<Vec<u8>>)
        requires
            old(self).well_formed(),
            old(self).read_state().accepts(chunk@),
        ensures
            final(self).packet_processor == old(self).packet_processor,
            final(self).name == old(self).name,
            final(self).packet_length == old(self).packet_length,
            chunk@.len() < old(self).read_state().wanted() ==> whole is None && final(self).buf@
                == old(self).buf@ + chunk@,
            chunk@.len() == old(self).read_state().wanted() ==> final(self).buf@ == Seq::<
                u8,
            >::empty() && (whole matches Some(bytes) && bytes@ == old(self).buf@ + chunk@),
    {
        let complete = chunk.len() == self.wanted();
        let mut rest = chunk;
        self.buf.append(&mut rest);
        if !complete {
            return None;
        }
        let mut whole: Vec<u8> = Vec::new();
        whole.append(&mut self.buf);
        assert(whole@ =~= old(self).buf@ + chunk@);
        assert(self.buf@ =~= Seq::<u8>::empty());
        Some(whole)
    }
}

} // verus!
