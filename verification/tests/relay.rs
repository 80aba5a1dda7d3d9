use eoproxy::bus::{Bus, ObfuscationContext, ReadOutcome};
use eoproxy::dispatch::{Dispatch, Rule};
use eoproxy::outgoing::{Outgoing, WriteError, WriteOutcome};
use eoproxy::session::{
    augment_nearby_items, Decoded, Direction, Event, ItemMapInfo, Relayed, Session,
};
use eoproxy::settings::{Proxy, Server, Settings};

const INIT: u8 = 255;
const REPLY: u8 = 3;
const WELCOME: u8 = 5;
const MAP_INFO: u8 = 29;

fn dispatch() -> Dispatch {
    let mut dispatch = Dispatch::new();
    for action in [1u8, 2, REPLY, 21, INIT] {
        dispatch.allow_action(action);
    }
    dispatch.register(INIT, INIT, Rule::Handshake);
    dispatch.register(WELCOME, REPLY, Rule::CharacterSelection);
    dispatch.register(MAP_INFO, REPLY, Rule::MapInfoAugmentation);
    dispatch
}

fn session() -> Session {
    let (session, event) =
        Session::new(Bus::new("Client".to_string()), Bus::new("Server".to_string()));
    assert_eq!(event, Event::AddPlayer);
    session
}

fn arrive(session: &mut Session, from: Direction, packet: &[u8]) {
    let len = packet.len() as u8;
    assert_eq!(session.on_read(from, ReadOutcome::Bytes(vec![len + 1, 254])), None);
    assert_eq!(session.on_read(from, ReadOutcome::Bytes(packet.to_vec())), None);
}

fn framed(body: &[u8]) -> Vec<u8> {
    let mut bytes = vec![body.len() as u8 + 1, 254];
    bytes.extend_from_slice(body);
    bytes
}

#[test]
fn new_session_knows_nothing() {
    let session = session();
    assert_eq!(session.player_id(), 0);
    assert_eq!(session.character_name(), None);
    assert!(!session.is_keyed());
    assert!(!session.is_terminated());
    assert_eq!(session.queued(Direction::FromClient), 0);
    assert_eq!(session.queued(Direction::FromServer), 0);
    assert_eq!(session.wanted(Direction::FromClient), 2);
    assert_eq!(session.front(Direction::FromClient), None);
}

#[test]
fn dispatch_defaults_to_pass_through() {
    let dispatch = Dispatch::new();
    assert!(!dispatch.is_known(1));
    assert_eq!(dispatch.lookup(5, 3), Rule::PassThrough);
    assert_eq!(dispatch.classify(&vec![1, 5, 0]), None);
}

#[test]
fn dispatch_finds_registered_rules() {
    let dispatch = dispatch();
    assert!(dispatch.is_known(REPLY));
    assert!(!dispatch.is_known(77));
    assert_eq!(dispatch.lookup(INIT, INIT), Rule::Handshake);
    assert_eq!(dispatch.lookup(WELCOME, REPLY), Rule::CharacterSelection);
    assert_eq!(dispatch.lookup(MAP_INFO, REPLY), Rule::MapInfoAugmentation);
    assert_eq!(dispatch.lookup(REPLY, WELCOME), Rule::PassThrough);
    assert_eq!(dispatch.classify(&vec![REPLY, WELCOME, 9]), Some(Rule::CharacterSelection));
    assert_eq!(dispatch.classify(&vec![21, 18]), Some(Rule::PassThrough));
    assert_eq!(dispatch.classify(&vec![77, WELCOME, 9]), None);
    assert_eq!(dispatch.classify(&vec![REPLY]), None);
    assert_eq!(dispatch.classify(&Vec::new()), None);
}

#[test]
fn dispatch_latest_registration_wins() {
    let mut dispatch = dispatch();
    dispatch.register(WELCOME, REPLY, Rule::PassThrough);
    assert_eq!(dispatch.lookup(WELCOME, REPLY), Rule::PassThrough);
    assert_eq!(dispatch.lookup(INIT, INIT), Rule::Handshake);
}

#[test]
fn handshake_mirrors_the_keys() {
    let dispatch = dispatch();
    let mut session = session();
    let packet = [INIT, INIT, 2, 9, 9, 8, 11, 5, 1];
    arrive(&mut session, Direction::FromServer, &packet);
    assert_eq!(session.front(Direction::FromServer), Some(&packet.to_vec()));
    let relayed = session
        .relay_from_server(
            &dispatch,
            Decoded::InitOk { player_id: 4, encoding_multiples: (8, 11) },
        )
        .unwrap();
    assert_eq!(
        session.multiples(Direction::FromServer),
        ObfuscationContext { encode_multiple: 8, decode_multiple: 11 }
    );
    assert_eq!(
        session.multiples(Direction::FromClient),
        ObfuscationContext { encode_multiple: 11, decode_multiple: 8 }
    );
    assert_eq!(session.player_id(), 4);
    assert!(session.is_keyed());
    assert_eq!(
        relayed,
        Relayed {
            seen: Event::Packet { player_id: 0, from: Direction::FromServer, buf: packet.to_vec() },
            assigned: Some(Event::SetPlayerId(4)),
            frame: framed(&packet),
        }
    );
}

#[test]
fn handshake_refused_changes_nothing() {
    let dispatch = dispatch();
    let mut session = session();
    let packet = [INIT, INIT, 1, 0];
    arrive(&mut session, Direction::FromServer, &packet);
    let relayed = session.relay_from_server(&dispatch, Decoded::InitRefused).unwrap();
    assert_eq!(relayed.assigned, None);
    assert_eq!(relayed.frame, framed(&packet));
    assert!(!session.is_keyed());
    assert_eq!(session.player_id(), 0);
    assert_eq!(
        session.multiples(Direction::FromServer),
        ObfuscationContext { encode_multiple: 0, decode_multiple: 0 }
    );
}

#[test]
fn handshake_happens_once() {
    let dispatch = dispatch();
    let mut session = session();
    let packet = [INIT, INIT, 2];
    arrive(&mut session, Direction::FromServer, &packet);
    session
        .relay_from_server(
            &dispatch,
            Decoded::InitOk { player_id: 4, encoding_multiples: (8, 11) },
        )
        .unwrap();
    let mut wire = packet.to_vec();
    eoproxy::obfuscation::encode(&mut wire, 8);
    arrive(&mut session, Direction::FromServer, &wire);
    let relayed = session
        .relay_from_server(
            &dispatch,
            Decoded::InitOk { player_id: 9, encoding_multiples: (6, 7) },
        )
        .unwrap();
    assert_eq!(relayed.assigned, None);
    assert_eq!(session.player_id(), 4);
    assert_eq!(
        session.multiples(Direction::FromServer),
        ObfuscationContext { encode_multiple: 8, decode_multiple: 11 }
    );
}

#[test]
fn other_rules_ignore_a_handshake_reply() {
    let dispatch = dispatch();
    let mut session = session();
    arrive(&mut session, Direction::FromServer, &[REPLY, WELCOME, 1]);
    let relayed = session
        .relay_from_server(
            &dispatch,
            Decoded::InitOk { player_id: 4, encoding_multiples: (8, 11) },
        )
        .unwrap();
    assert_eq!(relayed.assigned, None);
    assert!(!session.is_keyed());
    assert_eq!(session.player_id(), 0);
}

#[test]
fn character_selection_records_the_name() {
    let dispatch = dispatch();
    let mut session = session();
    let packet = [REPLY, WELCOME, 1, 2, 3];
    arrive(&mut session, Direction::FromServer, &packet);
    let relayed = session
        .relay_from_server(&dispatch, Decoded::SelectCharacter { name: "robot".to_string() })
        .unwrap();
    assert_eq!(session.character_name(), Some(&"robot".to_string()));
    assert_eq!(relayed.frame, framed(&packet));
    arrive(&mut session, Direction::FromServer, &packet);
    session.relay_from_server(&dispatch, Decoded::WelcomeOther).unwrap();
    assert_eq!(session.character_name(), Some(&"robot".to_string()));
}

#[test]
fn character_name_is_not_taken_by_another_rule() {
    let dispatch = dispatch();
    let mut session = session();
    arrive(&mut session, Direction::FromServer, &[21, 18, 1]);
    session
        .relay_from_server(&dispatch, Decoded::SelectCharacter { name: "robot".to_string() })
        .unwrap();
    assert_eq!(session.character_name(), None);
}

#[test]
fn map_info_item_is_appended_once() {
    let mut items: Vec<ItemMapInfo> = Vec::new();
    augment_nearby_items(&mut items);
    assert_eq!(items, vec![ItemMapInfo { uid: 0, id: 1, x: 11, y: 8, amount: 10000 }]);
    let mut more = vec![ItemMapInfo { uid: 3, id: 4, x: 1, y: 2, amount: 5 }];
    augment_nearby_items(&mut more);
    assert_eq!(
        more,
        vec![
            ItemMapInfo { uid: 3, id: 4, x: 1, y: 2, amount: 5 },
            ItemMapInfo { uid: 0, id: 1, x: 11, y: 8, amount: 10000 },
        ]
    );
}

#[test]
fn map_info_reply_goes_out_rewritten() {
    let dispatch = dispatch();
    let mut session = session();
    let packet = [REPLY, MAP_INFO, 7, 7];
    arrive(&mut session, Direction::FromServer, &packet);
    let relayed =
        session.relay_from_server(&dispatch, Decoded::Rewritten(vec![7, 7, 1, 2, 12, 9])).unwrap();
    assert_eq!(relayed.frame, framed(&[REPLY, MAP_INFO, 7, 7, 1, 2, 12, 9]));
    assert_eq!(
        relayed.seen,
        Event::Packet { player_id: 0, from: Direction::FromServer, buf: packet.to_vec() }
    );
}

#[test]
fn undecoded_payload_passes_unchanged() {
    let dispatch = dispatch();
    let mut session = session();
    let packet = [REPLY, MAP_INFO, 7, 7];
    arrive(&mut session, Direction::FromServer, &packet);
    let relayed = session.relay_from_server(&dispatch, Decoded::Unread).unwrap();
    assert_eq!(relayed.frame, framed(&packet));
}

#[test]
fn rewritten_payload_is_ignored_by_other_rules() {
    let dispatch = dispatch();
    let mut session = session();
    let packet = [REPLY, WELCOME, 7, 7];
    arrive(&mut session, Direction::FromServer, &packet);
    let relayed = session.relay_from_server(&dispatch, Decoded::Rewritten(vec![1])).unwrap();
    assert_eq!(relayed.frame, framed(&packet));
}

#[test]
fn unclassified_packet_is_forwarded_byte_for_byte() {
    let dispatch = dispatch();
    let mut session = session();
    let packet = [77, WELCOME, 1, 2, 3];
    arrive(&mut session, Direction::FromServer, &packet);
    let relayed = session
        .relay_from_server(&dispatch, Decoded::Rewritten(vec![9, 9]))
        .unwrap();
    assert_eq!(relayed.frame, framed(&packet));
    arrive(&mut session, Direction::FromClient, &packet);
    let relayed = session.relay_from_client(&dispatch).unwrap();
    assert_eq!(relayed.frame, framed(&packet));
    arrive(&mut session, Direction::FromClient, &[REPLY]);
    let relayed = session.relay_from_client(&dispatch).unwrap();
    assert_eq!(relayed.frame, vec![2, 254, REPLY]);
}

#[test]
fn unclassified_packet_is_not_obfuscated_after_the_handshake() {
    let dispatch = dispatch();
    let mut session = session();
    arrive(&mut session, Direction::FromServer, &[INIT, INIT, 2]);
    session
        .relay_from_server(
            &dispatch,
            Decoded::InitOk { player_id: 4, encoding_multiples: (8, 11) },
        )
        .unwrap();
    let packet = [77, 18, 145, 72, 101, 108, 108, 111];
    arrive(&mut session, Direction::FromClient, &packet);
    let seen = session.front(Direction::FromClient).unwrap().clone();
    let relayed = session.relay_from_client(&dispatch).unwrap();
    let mut expected = vec![9, 254];
    expected.extend_from_slice(&seen);
    assert_eq!(relayed.frame, expected);
}

#[test]
fn client_packets_are_obfuscated_with_the_server_key() {
    let dispatch = dispatch();
    let mut session = session();
    arrive(&mut session, Direction::FromServer, &[INIT, INIT, 2]);
    session
        .relay_from_server(&dispatch, Decoded::InitOk { player_id: 4, encoding_multiples: (6, 0) })
        .unwrap();
    let plain = [21, 18, 145, 72, 101, 108, 108, 111, 44, 32, 119, 111, 114, 108, 100, 33];
    let wire = [149, 161, 146, 228, 17, 242, 200, 236, 229, 239, 236, 247, 236, 160, 239, 172];
    arrive(&mut session, Direction::FromClient, &wire);
    assert_eq!(session.front(Direction::FromClient), Some(&plain.to_vec()));
    let relayed = session.relay_from_client(&dispatch).unwrap();
    assert_eq!(relayed.frame, framed(&wire));
    assert_eq!(
        relayed.seen,
        Event::Packet { player_id: 4, from: Direction::FromClient, buf: plain.to_vec() }
    );
    assert_eq!(relayed.assigned, None);
}

#[test]
fn client_packets_leave_in_order() {
    let dispatch = dispatch();
    let mut session = session();
    let first = [1u8, 4, 10];
    let second = [2u8, 4, 20];
    arrive(&mut session, Direction::FromClient, &first);
    arrive(&mut session, Direction::FromServer, &[REPLY, WELCOME, 1]);
    arrive(&mut session, Direction::FromClient, &second);
    assert_eq!(session.queued(Direction::FromClient), 2);
    session.relay_from_server(&dispatch, Decoded::WelcomeOther).unwrap();
    assert_eq!(session.relay_from_client(&dispatch).unwrap().frame, framed(&first));
    arrive(&mut session, Direction::FromServer, &[21, 18, 1]);
    assert_eq!(session.relay_from_client(&dispatch).unwrap().frame, framed(&second));
    assert_eq!(session.relay_from_client(&dispatch), None);
    assert_eq!(session.queued(Direction::FromServer), 1);
}

#[test]
fn empty_queue_relays_nothing() {
    let dispatch = dispatch();
    let mut session = session();
    assert_eq!(session.relay_from_client(&dispatch), None);
    assert_eq!(session.relay_from_server(&dispatch, Decoded::Unread), None);
}

#[test]
fn closed_peer_tears_down_once() {
    let dispatch = dispatch();
    for from in [Direction::FromClient, Direction::FromServer] {
        let mut session = session();
        arrive(&mut session, Direction::FromClient, &[1, 2, 3]);
        assert_eq!(
            session.on_read(from, ReadOutcome::Bytes(Vec::new())),
            Some(Event::RemovePlayer(0))
        );
        assert!(session.is_terminated());
        assert_eq!(session.on_read(from, ReadOutcome::Bytes(Vec::new())), None);
        assert_eq!(session.on_read(Direction::FromClient, ReadOutcome::Bytes(vec![3, 254])), None);
        assert_eq!(session.wanted(Direction::FromClient), 2);
        assert_eq!(session.teardown(), None);
        assert_eq!(session.front(Direction::FromClient), None);
        assert_eq!(session.relay_from_client(&dispatch), None);
        assert_eq!(session.queued(Direction::FromClient), 1);
    }
}

#[test]
fn failed_read_tears_down_with_the_player_id() {
    let dispatch = dispatch();
    let mut session = session();
    arrive(&mut session, Direction::FromServer, &[INIT, INIT, 2]);
    session
        .relay_from_server(
            &dispatch,
            Decoded::InitOk { player_id: 321, encoding_multiples: (0, 0) },
        )
        .unwrap();
    assert_eq!(session.on_read(Direction::FromServer, ReadOutcome::WouldBlock), None);
    assert!(!session.is_terminated());
    assert_eq!(
        session.on_read(Direction::FromServer, ReadOutcome::Failed),
        Some(Event::RemovePlayer(321))
    );
    assert_eq!(session.teardown(), None);
}

#[test]
fn teardown_is_idempotent() {
    let mut session = session();
    assert_eq!(session.teardown(), Some(Event::RemovePlayer(0)));
    assert_eq!(session.teardown(), None);
    assert!(session.is_terminated());
}

#[test]
fn outgoing_frame_is_written_in_pieces() {
    let mut outgoing = Outgoing::new(vec![1, 2, 3, 4, 5]);
    assert!(!outgoing.is_done());
    assert_eq!(outgoing.pending(), &[1, 2, 3, 4, 5]);
    assert_eq!(outgoing.on_write(WriteOutcome::Written(2)), Ok(false));
    assert_eq!(outgoing.pending(), &[3, 4, 5]);
    assert_eq!(outgoing.on_write(WriteOutcome::WouldBlock), Ok(false));
    assert_eq!(outgoing.pending(), &[3, 4, 5]);
    assert_eq!(outgoing.on_write(WriteOutcome::Written(3)), Ok(true));
    assert!(outgoing.is_done());
    assert!(outgoing.pending().is_empty());
}

#[test]
fn outgoing_write_faults() {
    let mut outgoing = Outgoing::new(vec![1, 2, 3]);
    assert_eq!(outgoing.on_write(WriteOutcome::Written(4)), Err(WriteError::SizeMismatch));
    assert_eq!(outgoing.on_write(WriteOutcome::Written(0)), Err(WriteError::Io));
    assert_eq!(outgoing.on_write(WriteOutcome::Failed), Err(WriteError::Io));
    assert_eq!(outgoing.pending(), &[1, 2, 3]);
    let mut empty = Outgoing::new(Vec::new());
    assert!(empty.is_done());
    assert_eq!(empty.on_write(WriteOutcome::Written(0)), Ok(true));
    assert_eq!(empty.on_write(WriteOutcome::WouldBlock), Ok(true));
}

#[test]
fn settings_give_socket_addresses() {
    let settings = Settings {
        server: Server { host: "game.example".to_string(), port: "8078".to_string() },
        proxy: Proxy { host: "127.0.0.1".to_string(), port: "8079".to_string() },
    };
    assert_eq!(settings.server.address(), "game.example:8078");
    assert_eq!(settings.proxy.address(), "127.0.0.1:8079");
}
