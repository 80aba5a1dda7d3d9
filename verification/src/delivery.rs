//! What holds of a frame that reaches a connection in pieces.

use vstd::prelude::*;
use crate::bus::ReadState;
use crate::frame::{framed, prefix};
use crate::numeric::{decoded, lemma_two_digit_round_trip, MAX2};
use crate::obfuscation::deobfuscated;

verus! {

/// The chunks laid end to end.
pub open spec fn joined(chunks: Seq<Seq<u8>>) -> Seq<u8>
    decreases chunks.len(),
{
    if chunks.len() == 0 {
        Seq::empty()
    } else {
        chunks[0] + joined(chunks.drop_first())
    }
}

/// No chunk is empty.
pub open spec fn all_nonempty(chunks: Seq<Seq<u8>>) -> bool {
    forall|i: int| 0 <= i < chunks.len() ==> (#[trigger] chunks[i]).len() > 0
}

/// The read state after the chunks of successive reads, and the packets that
/// they completed, in order.
pub open spec fn delivered(state: ReadState, chunks: Seq<Seq<u8>>, multiple: u8) -> (
    ReadState,
    Seq<Seq<u8>>,
)
    decreases chunks.len(),
{
    if chunks.len() == 0 {
        (state, Seq::empty())
    } else {
        let rest = delivered(state.after(chunks[0]), chunks.drop_first(), multiple);
        match state.yields(chunks[0], multiple) {
            Some(packet) => (rest.0, seq![packet] + rest.1),
            None => (rest.0, rest.1),
        }
    }
}

/// Delivering `first` and then `second` is delivering the two in a row.
pub proof fn lemma_delivered_in_turn(
    state: ReadState,
    first: Seq<Seq<u8>>,
    second: Seq<Seq<u8>>,
    multiple: u8,
)
    ensures
        delivered(state, first + second, multiple).0 == delivered(
            delivered(state, first, multiple).0,
            second,
            multiple,
        ).0,
        delivered(state, first + second, multiple).1 == delivered(state, first, multiple).1
            + delivered(delivered(state, first, multiple).0, second, multiple).1,
    decreases first.len(),
{
    if first.len() == 0 {
        assert(first + second =~= second);
        assert(Seq::<Seq<u8>>::empty() + delivered(state, second, multiple).1 =~= delivered(
            state,
            second,
            multiple,
        ).1);
    } else {
        let whole = first + second;
        assert(whole[0] == first[0]);
        assert(whole.drop_first() =~= first.drop_first() + second);
        lemma_delivered_in_turn(state.after(first[0]), first.drop_first(), second, multiple);
        let head = delivered(state.after(first[0]), first.drop_first(), multiple);
        let tail = delivered(head.0, second, multiple);
        match state.yields(first[0], multiple) {
            Some(packet) => {
                assert(seq![packet] + (head.1 + tail.1) =~= (seq![packet] + head.1) + tail.1);
            },
            None => {},
        }
    }
}

/// Chunks that together fill exactly what a phase still lacks complete that
/// phase at the last chunk and not before, however they are cut: the bytes
/// gathered are the bytes delivered, in order, each once.
pub proof fn lemma_phase_completes(state: ReadState, chunks: Seq<Seq<u8>>, multiple: u8)
    requires
        state.well_formed(),
        chunks.len() > 0,
        all_nonempty(chunks),
        joined(chunks).len() == state.wanted(),
    ensures
        state.target == 0 ==> delivered(state, chunks, multiple) == (
            ReadState {
                target: decoded(state.pending + joined(chunks)) as nat,
                pending: Seq::empty(),
            },
            Seq::<Seq<u8>>::empty(),
        ),
        state.target != 0 ==> delivered(state, chunks, multiple) == (
            ReadState::idle(),
            seq![deobfuscated(state.pending + joined(chunks), multiple)],
        ),
    decreases chunks.len(),
{
    let first = chunks[0];
    let rest = chunks.drop_first();
    assert(first.len() > 0);
    if rest.len() == 0 {
        assert(joined(rest) =~= Seq::<u8>::empty());
        assert(joined(chunks) =~= first);
        assert(delivered(state.after(first), rest, multiple) == (
            state.after(first),
            Seq::<Seq<u8>>::empty(),
        ));
        if state.target != 0 {
            let packet = deobfuscated(state.pending + first, multiple);
            assert(seq![packet] + Seq::<Seq<u8>>::empty() =~= seq![packet]);
        }
    } else {
        assert(rest[0] == chunks[1]);
        assert(rest[0].len() > 0);
        assert(joined(rest).len() >= rest[0].len());
        assert(joined(chunks).len() == first.len() + joined(rest).len());
        let next = state.after(first);
        assert(next == ReadState { target: state.target, pending: state.pending + first });
        assert(all_nonempty(rest)) by {
            assert forall|i: int| 0 <= i < rest.len() implies (#[trigger] rest[i]).len() > 0 by {
                assert(rest[i] == chunks[i + 1]);
            }
        }
        lemma_phase_completes(next, rest, multiple);
        assert(next.pending + joined(rest) =~= state.pending + joined(chunks));
        assert(state.yields(first, multiple) is None);
    }
}

/// A frame that arrives in pieces gives its packet once and whole. Let the
/// two bytes of the length prefix come in any cut (`head`), then the body in
/// any cut (`tail`), no piece empty: starting with no read in flight, the
/// reads complete exactly one packet, the body with the obfuscation removed,
/// and leave no read in flight. Under the neutral multiple the packet is the
/// body byte for byte.
pub proof fn lemma_partial_delivery(
    body: Seq<u8>,
    head: Seq<Seq<u8>>,
    tail: Seq<Seq<u8>>,
    multiple: u8,
)
    requires
        0 < body.len() < MAX2,
        all_nonempty(head),
        all_nonempty(tail),
        joined(head) == prefix(body.len()),
        joined(tail) == body,
    ensures
        joined(head) + joined(tail) == framed(body),
        delivered(ReadState::idle(), head + tail, multiple) == (
            ReadState::idle(),
            seq![deobfuscated(body, multiple)],
        ),
        multiple == 0 ==> delivered(ReadState::idle(), head + tail, multiple).1 == seq![body],
{
    let idle = ReadState::idle();
    lemma_two_digit_round_trip(body.len() as u32);
    assert(prefix(body.len()).len() == 2);
    assert(head.len() > 0) by {
        if head.len() == 0 {
            assert(joined(head).len() == 0);
        }
    }
    assert(tail.len() > 0) by {
        if tail.len() == 0 {
            assert(joined(tail).len() == 0);
        }
    }
    lemma_phase_completes(idle, head, multiple);
    assert(idle.pending + joined(head) =~= prefix(body.len()));
    let awaiting = ReadState { target: body.len(), pending: Seq::empty() };
    assert(delivered(idle, head, multiple).0 == awaiting);
    lemma_phase_completes(awaiting, tail, multiple);
    assert(awaiting.pending + joined(tail) =~= body);
    lemma_delivered_in_turn(idle, head, tail, multiple);
    assert(Seq::<Seq<u8>>::empty() + seq![deobfuscated(body, multiple)] =~= seq![
        deobfuscated(body, multiple),
    ]);
}

/// The socket as a queue of bytes that arrive over time. Each entry of
/// `arrivals` is one read: it finds that many bytes arrived (none: the read
/// would block) and takes as many of them as the connection asks for, and
/// no more than the stream still holds. The result is the read state after
/// the reads, the packets that they completed, and the bytes left unread.
pub open spec fn read_in_turn(
    state: ReadState,
    stream: Seq<u8>,
    arrivals: Seq<nat>,
    multiple: u8,
) -> (ReadState, Seq<Seq<u8>>, Seq<u8>)
    decreases arrivals.len(),
{
    if arrivals.len() == 0 {
        (state, Seq::empty(), stream)
    } else {
        let chunk = stream.take(taken(state, stream, arrivals[0]));
        let rest = read_in_turn(
            state.after(chunk),
            stream.skip(taken(state, stream, arrivals[0])),
            arrivals.drop_first(),
            multiple,
        );
        match state.yields(chunk, multiple) {
            Some(packet) => (rest.0, seq![packet] + rest.1, rest.2),
            None => rest,
        }
    }
}

/// Bytes that one read takes when `arrived` bytes have arrived: the least of
/// what arrived, what the stream holds and what the connection asks for.
pub open spec fn taken(state: ReadState, stream: Seq<u8>, arrived: nat) -> int {
    let available = if arrived <= stream.len() {
        arrived as int
    } else {
        stream.len() as int
    };
    if available <= state.wanted() {
        available
    } else {
        state.wanted()
    }
}

/// The read is in its prefix phase and what it holds, with what is still
/// unread, makes up the frame of `body`.
pub open spec fn awaiting_prefix(state: ReadState, stream: Seq<u8>, body: Seq<u8>) -> bool {
    state.target == 0 && state.pending.len() < 2 && state.pending + stream == framed(body)
}

/// The read is in its body phase and what it holds, with what is still
/// unread, makes up `body`.
pub open spec fn awaiting_body(state: ReadState, stream: Seq<u8>, body: Seq<u8>) -> bool {
    state.target == body.len() && state.pending.len() < body.len() && state.pending + stream
        == body
}

/// From any point of a frame's delivery, further reads complete the one
/// packet when they have taken the last byte, and nothing before.
proof fn lemma_read_in_turn_from(
    state: ReadState,
    stream: Seq<u8>,
    arrivals: Seq<nat>,
    body: Seq<u8>,
    multiple: u8,
)
    requires
        0 < body.len() < MAX2,
        awaiting_prefix(state, stream, body) || awaiting_body(state, stream, body),
    ensures
        ({
            let outcome = read_in_turn(state, stream, arrivals, multiple);
            &&& outcome.2.len() > 0 ==> outcome.1 == Seq::<Seq<u8>>::empty()
            &&& outcome.2.len() == 0 ==> outcome.0 == ReadState::idle() && outcome.1 == seq![
                deobfuscated(body, multiple),
            ]
        }),
    decreases arrivals.len(),
{
    lemma_two_digit_round_trip(body.len() as u32);
    assert(framed(body).len() == body.len() + 2);
    assert(framed(body).take(2) =~= prefix(body.len()));
    assert(framed(body).skip(2) =~= body);
    if awaiting_prefix(state, stream, body) {
        assert((state.pending + stream).len() == state.pending.len() + stream.len());
    } else {
        assert((state.pending + stream).len() == state.pending.len() + stream.len());
    }
    assert(stream.len() > 0);
    if arrivals.len() > 0 {
        let n = taken(state, stream, arrivals[0]);
        let chunk = stream.take(n);
        let left = stream.skip(n);
        let next = state.after(chunk);
        if n == 0 {
            assert(left =~= stream);
            assert(next == state);
            lemma_read_in_turn_from(next, left, arrivals.drop_first(), body, multiple);
        } else if n < state.wanted() {
            assert(next.pending + left =~= state.pending + stream);
            lemma_read_in_turn_from(next, left, arrivals.drop_first(), body, multiple);
        } else if state.target == 0 {
            assert(state.pending + chunk =~= (state.pending + stream).take(2));
            assert(next == ReadState { target: body.len(), pending: Seq::empty() });
            assert(next.pending + left =~= (state.pending + stream).skip(2));
            lemma_read_in_turn_from(next, left, arrivals.drop_first(), body, multiple);
        } else {
            assert(chunk =~= stream);
            assert(left =~= Seq::<u8>::empty());
            assert(next == ReadState::idle());
            lemma_nothing_left_to_read(arrivals.drop_first(), multiple);
            assert(seq![deobfuscated(body, multiple)] + Seq::<Seq<u8>>::empty() =~= seq![
                deobfuscated(body, multiple),
            ]);
        }
    }
}

/// Reads on a drained stream with no read in flight give nothing.
proof fn lemma_nothing_left_to_read(arrivals: Seq<nat>, multiple: u8)
    ensures
        read_in_turn(ReadState::idle(), Seq::empty(), arrivals, multiple) == (
            ReadState::idle(),
            Seq::<Seq<u8>>::empty(),
            Seq::<u8>::empty(),
        ),
    decreases arrivals.len(),
{
    if arrivals.len() > 0 {
        let idle = ReadState::idle();
        let stream = Seq::<u8>::empty();
        assert(taken(idle, stream, arrivals[0]) == 0);
        assert(stream.take(0) =~= stream);
        assert(stream.skip(0) =~= stream);
        lemma_nothing_left_to_read(arrivals.drop_first(), multiple);
    }
}

/// However the bytes of a frame arrive, the packet comes out once and whole.
/// Let the frame of `body` be on its way to a connection with no read in
/// flight, and let any number of reads find any number of bytes arrived
/// each. While bytes of the frame are still unread no packet has come out;
/// once the last byte is read exactly one has, the body with the
/// obfuscation removed, and no read is in flight.
pub proof fn lemma_frame_read_in_turn(body: Seq<u8>, arrivals: Seq<nat>, multiple: u8)
    requires
        0 < body.len() < MAX2,
    ensures
        ({
            let outcome = read_in_turn(ReadState::idle(), framed(body), arrivals, multiple);
            &&& outcome.2.len() > 0 ==> outcome.1 == Seq::<Seq<u8>>::empty()
            &&& outcome.2.len() == 0 ==> outcome.0 == ReadState::idle() && outcome.1 == seq![
                deobfuscated(body, multiple),
            ]
        }),
{
    assert(ReadState::idle().pending + framed(body) =~= framed(body));
    lemma_read_in_turn_from(ReadState::idle(), framed(body), arrivals, body, multiple);
}

} // verus!
