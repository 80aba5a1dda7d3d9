//! The pair of connections of one proxied player: its queues, what it has
//! learnt of the player, and the decisions of the relay loop.

use std::collections::VecDeque;
use vstd::prelude::*;
use crate::bus::{chunk_of, verdict, Bus, ObfuscationContext, ReadOutcome, ReadState};
use crate::dispatch::{Dispatch, Rule};
use crate::frame::{deframed, framed, lemma_frame_round_trip};
use crate::numeric::{MAX2, MAX4, MAX_PREFIX_VALUE};
use crate::obfuscation::obfuscated;

verus! {

/// The side that a packet came from.
#[derive(Clone, Copy, Debug, PartialEq, Eq, Structural)]
pub enum Direction {
    FromClient,
    FromServer,
}

/// What observers are told of a session.
#[derive(Debug, PartialEq, Eq)]
pub enum Event {
    /// A session began.
    AddPlayer,
    /// The session of this player ended.
    RemovePlayer(u32),
    /// The server gave the player this id.
    SetPlayerId(u32),
    /// A packet was taken from a queue, as it was read.
    Packet { player_id: u32, from: Direction, buf: Vec<u8> },
}

/// One entry of a reply's list of nearby items.
#[derive(Clone, Copy, Debug, PartialEq, Eq, Structural)]
pub struct ItemMapInfo {
    pub uid: u16,
    pub id: u16,
    pub x: u8,
    pub y: u8,
    pub amount: u32,
}

/// What the payload decoder made of a packet from the server, as far as the
/// rules read it.
#[derive(Debug)]
pub enum Decoded {
    /// Nothing: no decoder was run, or the payload did not parse.
    Unread,
    /// A handshake reply with the status OK.
    InitOk { player_id: u16, encoding_multiples: (u8, u8) },
    /// A handshake reply with any other status.
    InitRefused,
    /// A welcome reply that selects a character.
    SelectCharacter { name: String },
    /// A welcome reply of any other kind.
    WelcomeOther,
    /// A map-info reply, serialised again with its list of nearby items
    /// augmented.
    Rewritten(Vec<u8>),
}

/// What leaves the relay for one packet taken from a queue.
#[derive(Debug, PartialEq, Eq)]
pub struct Relayed {
    /// The packet as it was read, for the observers.
    pub seen: Event,
    /// The id that the packet gave the player, for the observers.
    pub assigned: Option<Event>,
    /// The bytes to write to the other side.
    pub frame: Vec<u8>,
}

/// The item that the map-info rule adds.
pub open spec fn synthetic_item() -> ItemMapInfo {
    ItemMapInfo { uid: 0, id: 1, x: 11, y: 8, amount: 10000 }
}

/// Adds the synthetic item at the end of a reply's nearby items, once.
pub fn augment_nearby_items(items: &mut Vec<ItemMapInfo>)
    ensures
        final(items)@ == old(items)@.push(synthetic_item()),
        old(items)@.len() == 0 ==> final(items)@ == seq![synthetic_item()],
{
    items.push(ItemMapInfo { uid: 0, id: 1, x: 11, y: 8, amount: 10000 });
    assert(old(items)@.len() == 0 ==> items@ =~= seq![synthetic_item()]);
}

/// A session as the contracts see it.
pub struct SessionView {
    /// Keys of the connection to the client.
    pub client: ObfuscationContext,
    /// Keys of the connection to the server.
    pub server: ObfuscationContext,
    /// The read in flight on the connection to the client.
    pub client_read: ReadState,
    /// The read in flight on the connection to the server.
    pub server_read: ReadState,
    /// Packets read from the client and not yet forwarded, oldest first.
    pub client_queue: Seq<Seq<u8>>,
    /// Packets read from the server and not yet forwarded, oldest first.
    pub server_queue: Seq<Seq<u8>>,
    /// The player's id; zero until the handshake gives one.
    pub player_id: u16,
    /// The character selected, once one is.
    pub character_name: Option<Seq<char>>,
    /// Whether the handshake has set the keys.
    pub keyed: bool,
    /// Whether the session is over.
    pub terminated: bool,
}

impl SessionView {
    /// Both reads are well formed and no queued packet is longer than a
    /// prefix can announce.
    pub open spec fn well_formed(self) -> bool {
        &&& self.client_read.well_formed()
        &&& self.server_read.well_formed()
        &&& forall|i: int|
            0 <= i < self.client_queue.len() ==> (#[trigger] self.client_queue[i]).len()
                <= MAX_PREFIX_VALUE
        &&& forall|i: int|
            0 <= i < self.server_queue.len() ==> (#[trigger] self.server_queue[i]).len()
                <= MAX_PREFIX_VALUE
    }

    /// The queue of the packets that came from `from`.
    pub open spec fn queue(self, from: Direction) -> Seq<Seq<u8>> {
        match from {
            Direction::FromClient => self.client_queue,
            Direction::FromServer => self.server_queue,
        }
    }

    /// The read in flight on the side `from`.
    pub open spec fn read(self, from: Direction) -> ReadState {
        match from {
            Direction::FromClient => self.client_read,
            Direction::FromServer => self.server_read,
        }
    }

    /// The keys of the side `from`.
    pub open spec fn keys(self, from: Direction) -> ObfuscationContext {
        match from {
            Direction::FromClient => self.client,
            Direction::FromServer => self.server,
        }
    }

    /// The session with the read on the side `from` moved to `state`.
    pub open spec fn with_read(self, from: Direction, state: ReadState) -> SessionView {
        match from {
            Direction::FromClient => SessionView { client_read: state, ..self },
            Direction::FromServer => SessionView { server_read: state, ..self },
        }
    }

    /// The session with `packet` at the back of the queue of `from`.
    pub open spec fn enqueued(self, from: Direction, packet: Seq<u8>) -> SessionView {
        match from {
            Direction::FromClient => SessionView {
                client_queue: self.client_queue.push(packet),
                ..self
            },
            Direction::FromServer => SessionView {
                server_queue: self.server_queue.push(packet),
                ..self
            },
        }
    }

    /// The session without the packet at the front of the queue of `from`.
    pub open spec fn dequeued(self, from: Direction) -> SessionView {
        match from {
            Direction::FromClient => SessionView {
                client_queue: self.client_queue.drop_first(),
                ..self
            },
            Direction::FromServer => SessionView {
                server_queue: self.server_queue.drop_first(),
                ..self
            },
        }
    }

    /// The session once it is over.
    pub open spec fn torn_down(self) -> SessionView {
        SessionView { terminated: true, ..self }
    }

    /// What tearing the session down tells the observers: the removal of
    /// the player, unless the session was over already.
    pub open spec fn removal(self) -> Option<Event> {
        if self.terminated {
            None
        } else {
            Some(Event::RemovePlayer(self.player_id as u32))
        }
    }

    /// Whether a read on the side `from` ends a running session.
    pub open spec fn ends_on(self, from: Direction, outcome: ReadOutcome) -> bool {
        !self.terminated && verdict(
            self.read(from),
            outcome,
            self.keys(from).decode_multiple,
        ) matches Some(Err(_))
    }

    /// The session after a read on the side `from`. A session that is over
    /// ignores it. A read that ends the connection ends the session.
    /// Otherwise the read in flight moves on, and a packet that it completed
    /// joins the back of that side's queue.
    pub open spec fn after_read(self, from: Direction, outcome: ReadOutcome) -> SessionView {
        if self.terminated {
            self
        } else {
            match verdict(self.read(from), outcome, self.keys(from).decode_multiple) {
                None => self.with_read(from, self.read(from).after(chunk_of(outcome))),
                Some(Ok(packet)) => self.with_read(
                    from,
                    self.read(from).after(chunk_of(outcome)),
                ).enqueued(from, packet),
                Some(Err(_)) => self.torn_down(),
            }
        }
    }

    /// Whether nothing is forwarded from the side `from`: the session is
    /// over, or that side's queue is empty.
    pub open spec fn idle(self, from: Direction) -> bool {
        self.terminated || self.queue(from).len() == 0
    }

    /// The session after one packet, if there is one, was forwarded from the
    /// client: the oldest packet has left that queue.
    pub open spec fn relayed_from_client(self) -> SessionView {
        if self.idle(Direction::FromClient) {
            self
        } else {
            self.dequeued(Direction::FromClient)
        }
    }

    /// The session after one packet, if there is one, was forwarded from the
    /// server: the oldest packet has left that queue, and the rule for its
    /// header has looked at `decoded`.
    pub open spec fn relayed_from_server(self, dispatch: Dispatch, decoded: Decoded) -> SessionView {
        if self.idle(Direction::FromServer) {
            self
        } else {
            self.dequeued(Direction::FromServer).intercepted(
                dispatch.classified(self.server_queue[0]),
                decoded,
            )
        }
    }

    /// Whether the handshake rule takes the keys from `decoded`: it does so
    /// from an OK reply, once.
    pub open spec fn takes_keys(self, rule: Option<Rule>, decoded: Decoded) -> bool {
        rule == Some(Rule::Handshake) && decoded is InitOk && !self.keyed
    }

    /// The session after `rule` has looked at `decoded`. The handshake rule
    /// gives the connection to the server the reply's two multiples as its
    /// encode and decode keys, the connection to the client the same two the
    /// other way round, and records the player's id. The character rule
    /// records the name. Nothing else changes the session.
    pub open spec fn intercepted(self, rule: Option<Rule>, decoded: Decoded) -> SessionView {
        if self.takes_keys(rule, decoded) {
            let server = ObfuscationContext {
                encode_multiple: decoded->encoding_multiples.0,
                decode_multiple: decoded->encoding_multiples.1,
            };
            SessionView {
                server,
                client: server.mirrored(),
                player_id: decoded->player_id,
                keyed: true,
                ..self
            }
        } else if rule == Some(Rule::CharacterSelection) && decoded is SelectCharacter {
            SessionView { character_name: Some(decoded->name@), ..self }
        } else {
            self
        }
    }
}

/// The payload that goes out for a classified `packet`: the rewritten one
/// where the map-info rule was handed one that a frame can hold, and else the
/// packet's own.
pub open spec fn payload_out(packet: Seq<u8>, rule: Rule, decoded: Decoded) -> Seq<u8> {
    if rule == Rule::MapInfoAugmentation && decoded is Rewritten && decoded->Rewritten_0@.len()
        + 2 <= MAX4 {
        decoded->Rewritten_0@
    } else {
        packet.subrange(2, packet.len() as int)
    }
}

/// The frame that forwards `packet` under the encode multiple `multiple`. An
/// unclassified packet goes out byte for byte behind a new length prefix. A
/// classified one keeps its header, takes the payload `payload`, and is
/// obfuscated.
pub open spec fn forwarded(packet: Seq<u8>, classified: bool, payload: Seq<u8>, multiple: u8) -> Seq<
    u8,
> {
    if classified {
        framed(obfuscated(seq![packet[0], packet[1]] + payload, multiple))
    } else {
        framed(packet)
    }
}

/// The two connections of one proxied player, the packets read from each
/// that wait to be forwarded, and what the relay knows of the player.
pub struct Session {
    client_bus: Bus,
    server_bus: Bus,
    client_queue: VecDeque<Vec<u8>>,
    server_queue: VecDeque<Vec<u8>>,
    player_id: u16,
    character_name: Option<String>,
    keyed: bool,
    terminated: bool,
}

impl View for Session {
    type V = SessionView;

    closed spec fn view(&self) -> SessionView {
        SessionView {
            client: self.client_bus.context(),
            server: self.server_bus.context(),
            client_read: self.client_bus.read_state(),
            server_read: self.server_bus.read_state(),
            client_queue: self.client_queue@.map_values(|packet: Vec<u8>| packet@),
            server_queue: self.server_queue@.map_values(|packet: Vec<u8>| packet@),
            player_id: self.player_id,
            character_name: match self.character_name {
                Some(name) => Some(name@),
                None => None,
            },
            keyed: self.keyed,
            terminated: self.terminated,
        }
    }
}

impl Session {
    /// A running session over two connections, with empty queues and nothing
    /// known of the player, and the event that announces it.
    pub fn new(client_bus: Bus, server_bus: Bus) -> (opened: (Session, Event))
        requires
            client_bus.well_formed(),
            server_bus.well_formed(),
        ensures
            opened.1 == Event::AddPlayer,
            opened.0@.well_formed(),
            opened.0@ == (SessionView {
                client: client_bus.context(),
                server: server_bus.context(),
                client_read: client_bus.read_state(),
                server_read: server_bus.read_state(),
                client_queue: Seq::empty(),
                server_queue: Seq::empty(),
                player_id: 0,
                character_name: None,
                keyed: false,
                terminated: false,
            }),
    {
        let session = Session {
            client_bus,
            server_bus,
            client_queue: VecDeque::new(),
            server_queue: VecDeque::new(),
            player_id: 0,
            character_name: None,
            keyed: false,
            terminated: false,
        };
        assert(session@.client_queue =~= Seq::empty());
        assert(session@.server_queue =~= Seq::empty());
        (session, Event::AddPlayer)
    }

    /// Ends the session. The first call returns the removal of the player;
    /// later ones return nothing and change nothing.
    pub fn teardown(&mut self) -> (event: Option<Event>)
        ensures
            final(self)@ == old(self)@.torn_down(),
            event == old(self)@.removal(),
    {
        if self.terminated {
            return None;
        }
        self.terminated = true;
        Some(Event::RemovePlayer(self.player_id as u32))
    }

    /// Bytes to ask of the socket on the side `from` in the next read.
    pub fn wanted(&self, from: Direction) -> (n: usize)
        requires
            self@.well_formed(),
        ensures
            n == self@.read(from).wanted(),
            n > 0,
    {
        match from {
            Direction::FromClient => self.client_bus.wanted(),
            Direction::FromServer => self.server_bus.wanted(),
        }
    }

    /// Takes in what one read on the side `from` gave. A packet that the read
    /// completed joins that side's queue; a read that ends the connection
    /// ends the session, and the removal of the player is returned.
    pub fn on_read(&mut self, from: Direction, outcome: ReadOutcome) -> (event: Option<Event>)
        requires
            old(self)@.well_formed(),
        ensures
            final(self)@.well_formed(),
            final(self)@ == old(self)@.after_read(from, outcome),
            event == (if old(self)@.ends_on(from, outcome) {
                old(self)@.removal()
            } else {
                None
            }),
    {
        if self.terminated {
            return None;
        }
        let result = match from {
            Direction::FromClient => self.client_bus.recv(outcome),
            Direction::FromServer => self.server_bus.recv(outcome),
        };
        match result {
            None => None,
            Some(Ok(packet)) => {
                let ghost before = self@;
                match from {
                    Direction::FromClient => {
                        self.client_queue.push_back(packet);
                        assert(self@.client_queue =~= before.client_queue.push(packet@));
                    },
                    Direction::FromServer => {
                        self.server_queue.push_back(packet);
                        assert(self@.server_queue =~= before.server_queue.push(packet@));
                    },
                }
                None
            },
            Some(Err(_)) => {
                assert(self@ == old(self)@);
                self.teardown()
            },
        }
    }

    /// The packet that will be forwarded next from the side `from`, if the
    /// session runs and that side's queue holds one.
    pub fn front(&self, from: Direction) -> (packet: Option<&Vec<u8>>)
        ensures
            packet.is_some() == !self@.idle(from),
            packet matches Some(bytes) ==> bytes@ == self@.queue(from)[0],
    {
        if self.terminated {
            return None;
        }
        match from {
            Direction::FromClient => {
                if self.client_queue.len() == 0 {
                    None
                } else {
                    Some(&self.client_queue[0])
                }
            },
            Direction::FromServer => {
                if self.server_queue.len() == 0 {
                    None
                } else {
                    Some(&self.server_queue[0])
                }
            },
        }
    }

    /// Forwards the oldest packet that came from the client, if the session
    /// runs and there is one. No rule applies in this direction: a classified
    /// packet goes out under the encode key of the connection to the server,
    /// an unclassified one byte for byte.
    pub fn relay_from_client(&mut self, dispatch: &Dispatch) -> (relayed: Option<Relayed>)
        requires
            old(self)@.well_formed(),
        ensures
            final(self)@.well_formed(),
            final(self)@ == old(self)@.relayed_from_client(),
            relayed.is_some() == !old(self)@.idle(Direction::FromClient),
            relayed matches Some(r) ==> ({
                let packet = old(self)@.client_queue[0];
                &&& r.seen matches Event::Packet { player_id, from, buf }
                &&& player_id == old(self)@.player_id
                &&& from == Direction::FromClient
                &&& buf@ == packet
                &&& r.assigned is None
                &&& r.frame@ == forwarded(
                    packet,
                    dispatch.classified(packet) is Some,
                    packet.subrange(2, packet.len() as int),
                    old(self)@.server.encode_multiple,
                )
            }),
    {
        if self.terminated {
            return None;
        }
        let ghost before = self@;
        let packet = match self.client_queue.pop_front() {
            None => {
                return None;
            },
            Some(packet) => packet,
        };
        assert(packet@ == before.client_queue[0]);
        assert(self@.client_queue =~= before.client_queue.drop_first());
        let seen = Event::Packet {
            player_id: self.player_id as u32,
            from: Direction::FromClient,
            buf: packet.clone(),
        };
        let frame = match dispatch.classify(&packet) {
            None => self.server_bus.send_raw(packet),
            Some(_) => {
                let mut head = packet;
                let payload = head.split_off(2);
                self.server_bus.send(head[0], head[1], payload)
            },
        };
        Some(Relayed { seen, assigned: None, frame })
    }

    /// Forwards the oldest packet that came from the server, if the session
    /// runs and there is one. The rule that `dispatch` holds for the packet's
    /// header looks at `decoded`, which is what the payload decoder made of
    /// this packet; where the two do not fit, the packet passes unchanged.
    /// A classified packet goes out under the encode key that the connection
    /// to the client has once the rule has run, an unclassified one byte for
    /// byte.
    pub fn relay_from_server(&mut self, dispatch: &Dispatch, decoded: Decoded) -> (relayed: Option<
        Relayed,
    >)
        requires
            old(self)@.well_formed(),
        ensures
            final(self)@.well_formed(),
            final(self)@ == old(self)@.relayed_from_server(*dispatch, decoded),
            relayed.is_some() == !old(self)@.idle(Direction::FromServer),
            relayed matches Some(r) ==> ({
                let packet = old(self)@.server_queue[0];
                let rule = dispatch.classified(packet);
                &&& r.seen matches Event::Packet { player_id, from, buf }
                &&& player_id == old(self)@.player_id
                &&& from == Direction::FromServer
                &&& buf@ == packet
                &&& r.assigned == (if old(self)@.takes_keys(rule, decoded) {
                    Some(Event::SetPlayerId(final(self)@.player_id as u32))
                } else {
                    None
                })
                &&& r.frame@ == forwarded(
                    packet,
                    rule is Some,
                    payload_out(packet, rule.unwrap_or(Rule::PassThrough), decoded),
                    final(self)@.client.encode_multiple,
                )
            }),
    {
        if self.terminated {
            return None;
        }
        let ghost before = self@;
        let packet = match self.server_queue.pop_front() {
            None => {
                return None;
            },
            Some(packet) => packet,
        };
        assert(packet@ == before.server_queue[0]);
        assert(self@.server_queue =~= before.server_queue.drop_first());
        let seen = Event::Packet {
            player_id: self.player_id as u32,
            from: Direction::FromServer,
            buf: packet.clone(),
        };
        let rule = match dispatch.classify(&packet) {
            None => {
                let frame = self.client_bus.send_raw(packet);
                return Some(Relayed { seen, assigned: None, frame });
            },
            Some(rule) => rule,
        };
        let mut head = packet;
        let mut payload = head.split_off(2);
        let mut assigned: Option<Event> = None;
        match decoded {
            Decoded::InitOk { player_id, encoding_multiples } => {
                if matches!(rule, Rule::Handshake) && !self.keyed {
                    self.server_bus.set_multiples(encoding_multiples.1, encoding_multiples.0);
                    self.client_bus.set_multiples(encoding_multiples.0, encoding_multiples.1);
                    self.player_id = player_id;
                    self.keyed = true;
                    assigned = Some(Event::SetPlayerId(player_id as u32));
                }
            },
            Decoded::SelectCharacter { name } => {
                if matches!(rule, Rule::CharacterSelection) {
                    self.character_name = Some(name);
                }
            },
            Decoded::Rewritten(bytes) => {
                if matches!(rule, Rule::MapInfoAugmentation) && bytes.len() <= (MAX4 - 2) as usize {
                    payload = bytes;
                }
            },
            _ => {},
        }
        let frame = self.client_bus.send(head[0], head[1], payload);
        Some(Relayed { seen, assigned, frame })
    }

    /// The player's id; zero until the handshake gives one.
    pub fn player_id(&self) -> (id: u16)
        ensures
            id == self@.player_id,
    {
        self.player_id
    }

    /// The character selected, once one is.
    pub fn character_name(&self) -> (name: Option<&String>)
        ensures
            name.is_some() == self@.character_name.is_some(),
            name matches Some(text) ==> self@.character_name == Some(text@),
    {
        self.character_name.as_ref()
    }

    /// Whether the handshake has set the keys.
    pub fn is_keyed(&self) -> (keyed: bool)
        ensures
            keyed == self@.keyed,
    {
        self.keyed
    }

    /// Whether the session is over.
    pub fn is_terminated(&self) -> (terminated: bool)
        ensures
            terminated == self@.terminated,
    {
        self.terminated
    }

    /// The keys of the connection on the side `from`.
    pub fn multiples(&self, from: Direction) -> (context: ObfuscationContext)
        ensures
            context == self@.keys(from),
    {
        match from {
            Direction::FromClient => self.client_bus.multiples(),
            Direction::FromServer => self.server_bus.multiples(),
        }
    }

    /// How many packets from the side `from` wait to be forwarded.
    pub fn queued(&self, from: Direction) -> (n: usize)
        ensures
            n == self@.queue(from).len(),
    {
        match from {
            Direction::FromClient => self.client_queue.len(),
            Direction::FromServer => self.server_queue.len(),
        }
    }
}

/// What happens on the server's side of a session between two packets from
/// the client.
pub enum ServerTraffic {
    /// A read on the connection to the server gave this.
    Arrival(ReadOutcome),
    /// The oldest packet from the server was forwarded, with this handed to
    /// its rule.
    Departure(Decoded),
}

/// The session after `traffic` on the server's side, in order.
pub open spec fn after_server_traffic(
    session: SessionView,
    dispatch: Dispatch,
    traffic: Seq<ServerTraffic>,
) -> SessionView
    decreases traffic.len(),
{
    if traffic.len() == 0 {
        session
    } else {
        let next = match traffic[0] {
            ServerTraffic::Arrival(outcome) => session.after_read(Direction::FromServer, outcome),
            ServerTraffic::Departure(decoded) => session.relayed_from_server(dispatch, decoded),
        };
        after_server_traffic(next, dispatch, traffic.drop_first())
    }
}

/// Traffic on the server's side leaves the queue of the client's packets as
/// it is.
pub proof fn lemma_server_traffic_keeps_client_queue(
    session: SessionView,
    dispatch: Dispatch,
    traffic: Seq<ServerTraffic>,
)
    ensures
        after_server_traffic(session, dispatch, traffic).client_queue == session.client_queue,
    decreases traffic.len(),
{
    if traffic.len() > 0 {
        let next = match traffic[0] {
            ServerTraffic::Arrival(outcome) => session.after_read(Direction::FromServer, outcome),
            ServerTraffic::Departure(decoded) => session.relayed_from_server(dispatch, decoded),
        };
        assert(next.client_queue == session.client_queue);
        lemma_server_traffic_keeps_client_queue(next, dispatch, traffic.drop_first());
    }
}

/// Packets from the client leave in the order in which they came. Let `first`
/// and then `second` join the client's queue, with any traffic on the
/// server's side before, between and after them: the queue then holds what it
/// held, then `first`, then `second`. Where it held nothing, the next packet
/// forwarded to the server is `first` and the one after it `second`.
pub proof fn lemma_client_packets_keep_order(
    session: SessionView,
    dispatch: Dispatch,
    first: Seq<u8>,
    second: Seq<u8>,
    before: Seq<ServerTraffic>,
    between: Seq<ServerTraffic>,
    after: Seq<ServerTraffic>,
)
    ensures
        ({
            let arrived = after_server_traffic(
                after_server_traffic(
                    after_server_traffic(session, dispatch, before).enqueued(
                        Direction::FromClient,
                        first,
                    ),
                    dispatch,
                    between,
                ).enqueued(Direction::FromClient, second),
                dispatch,
                after,
            );
            &&& arrived.client_queue == session.client_queue.push(first).push(second)
            &&& session.client_queue.len() == 0 ==> arrived.client_queue[0] == first
                && arrived.dequeued(Direction::FromClient).client_queue[0] == second
        }),
{
    let a = after_server_traffic(session, dispatch, before);
    lemma_server_traffic_keeps_client_queue(session, dispatch, before);
    let b = after_server_traffic(a.enqueued(Direction::FromClient, first), dispatch, between);
    lemma_server_traffic_keeps_client_queue(
        a.enqueued(Direction::FromClient, first),
        dispatch,
        between,
    );
    lemma_server_traffic_keeps_client_queue(
        b.enqueued(Direction::FromClient, second),
        dispatch,
        after,
    );
}

/// The handshake mirrors the keys. When the handshake rule sees an OK reply
/// that carries the multiples `(a, b)` in a session not yet keyed, the
/// connection to the server encodes with `a` and decodes with `b`, the
/// connection to the client encodes with `b` and decodes with `a`, and the
/// player's id is the reply's. A reply with another status changes nothing.
pub proof fn lemma_handshake_mirrors_keys(session: SessionView, a: u8, b: u8, player_id: u16)
    requires
        !session.keyed,
    ensures
        ({
            let keyed = session.intercepted(
                Some(Rule::Handshake),
                Decoded::InitOk { player_id, encoding_multiples: (a, b) },
            );
            &&& keyed.server == (ObfuscationContext { encode_multiple: a, decode_multiple: b })
            &&& keyed.client == (ObfuscationContext { encode_multiple: b, decode_multiple: a })
            &&& keyed.client == keyed.server.mirrored()
            &&& keyed.player_id == player_id
            &&& keyed.keyed
        }),
        session.intercepted(Some(Rule::Handshake), Decoded::InitRefused) == session,
{
}

/// Tearing down is idempotent: a second teardown changes nothing and tells
/// the observers nothing, and neither does a read of no bytes, or any other
/// read, on a session that is over.
pub proof fn lemma_teardown_once(session: SessionView, from: Direction, outcome: ReadOutcome)
    ensures
        session.torn_down().torn_down() == session.torn_down(),
        session.torn_down().removal() is None,
        session.torn_down().after_read(from, outcome) == session.torn_down(),
        !session.torn_down().ends_on(from, outcome),
        session.torn_down().idle(Direction::FromClient),
        session.torn_down().idle(Direction::FromServer),
{
}

/// A read of no bytes on either side of a running session ends it and
/// reports the removal of the player, once.
pub proof fn lemma_closed_peer_ends_session(session: SessionView, from: Direction, chunk: Vec<u8>)
    requires
        !session.terminated,
        chunk@.len() == 0,
    ensures
        session.ends_on(from, ReadOutcome::Bytes(chunk)),
        session.after_read(from, ReadOutcome::Bytes(chunk)) == session.torn_down(),
        session.removal() == Some(Event::RemovePlayer(session.player_id as u32)),
{
}

/// A packet that cannot be classified goes out as it came in: its frame
/// holds the packet byte for byte, whatever the keys and whatever a decoder
/// made of it.
pub proof fn lemma_unclassified_passes_through(packet: Seq<u8>, payload: Seq<u8>, multiple: u8)
    requires
        packet.len() < MAX2,
    ensures
        forwarded(packet, false, payload, multiple) == framed(packet),
        deframed(forwarded(packet, false, payload, multiple)) == Some(packet),
{
    lemma_frame_round_trip(packet);
}

/// Before the handshake the relay is transparent: under the neutral key a
/// packet goes out as it came in, whether or not it can be classified.
pub proof fn lemma_unkeyed_relay_is_transparent(dispatch: Dispatch, packet: Seq<u8>)
    ensures
        forwarded(
            packet,
            dispatch.classified(packet) is Some,
            packet.subrange(2, packet.len() as int),
            0,
        ) == framed(packet),
{
    if dispatch.classified(packet) is Some {
        assert(packet.len() >= 2);
        assert(seq![packet[0], packet[1]] + packet.subrange(2, packet.len() as int) =~= packet);
    }
}

} // verus!
