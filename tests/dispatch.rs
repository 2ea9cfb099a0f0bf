use mcrouter::codec::{read_string, write_long, write_string, write_varint};
use mcrouter::config::{
    find_action, Action, Config, ForwardAction, Hostname, LoginAction, ServerAddr, StaticAction,
    StatusAction, VirtualHost,
};
use mcrouter::frame::{read_frame, write_frame};
use mcrouter::handshake::ForgeHandshake;
use mcrouter::session::{ClientSession, Phase, Step};

fn handshake_frame(protocol: i32, address: &str, port: u16, next: i32) -> Vec<u8> {
    let mut payload = Vec::new();
    write_varint(&mut payload, protocol);
    write_string(&mut payload, address);
    payload.extend_from_slice(&port.to_be_bytes());
    write_varint(&mut payload, next);
    let mut out = Vec::new();
    write_frame(&mut out, 0, &payload);
    out
}

fn static_action() -> StaticAction {
    StaticAction {
        version_name: None,
        protocol_version: None,
        cur_players: None,
        max_players: None,
        description: None,
        kick_message: None,
    }
}

fn host(name: &str, action: Action) -> VirtualHost {
    VirtualHost { hostname: Hostname::from_str(name).unwrap(), action }
}

fn forward(target: &str) -> Action {
    Action::Forward { forward: ForwardAction(ServerAddr::from_str(target).unwrap()) }
}

fn string_payload(frame: &[u8]) -> (i32, String) {
    let (id, start, end) = read_frame(frame, 0).unwrap();
    assert_eq!(end, frame.len());
    let (s, _) = read_string(&frame[start..end], 0, 32767).unwrap();
    (id, s)
}

#[test]
fn status_forward_replays_handshake() {
    let config = Config::new(None, vec![host("mc.example.com", forward("10.0.0.5:25565"))]);
    let frame = handshake_frame(4, "mc.example.com", 25565, 1);
    let mut session = ClientSession::new();
    session.feed(&frame);
    session.feed(&[0x01, 0x00]);
    let (session, step) = session.step(&config);
    match step {
        Step::Connect { target, replay } => {
            assert_eq!(target.to_text(), "10.0.0.5:25565");
            assert_eq!(&replay[..frame.len()], frame.as_slice());
            assert_eq!(&replay[frame.len()..], &[0x01, 0x00]);
        }
        other => panic!("unexpected step {:?}", other),
    }
    assert_eq!(session.phase(), Phase::Proxy);
}

#[test]
fn static_status_and_ping() {
    let config = Config::new(None, vec![host("mc.example.com", Action::Static { static_action: static_action() })]);
    let mut session = ClientSession::new();
    session.feed(&handshake_frame(47, "mc.example.com", 25565, 1));
    let (mut session, step) = session.step(&config);
    assert!(matches!(step, Step::Continue));
    session.feed(&[0x01, 0x00]);
    let (mut session, step) = session.step(&config);
    let reply = match step {
        Step::Send(bytes) => bytes,
        other => panic!("unexpected step {:?}", other),
    };
    let (id, json) = string_payload(&reply);
    assert_eq!(id, 0);
    assert_eq!(
        json,
        "{\"version\":{\"name\":\"router\",\"protocol\":47},\"players\":{\"max\":20,\"online\":0},\"description\":{\"text\":\"A Minecraft Server\"}}"
    );
    let mut payload = Vec::new();
    write_long(&mut payload, 0x0123456789ABCDEF);
    let mut ping = Vec::new();
    write_frame(&mut ping, 1, &payload);
    session.feed(&ping);
    let (session, step) = session.step(&config);
    match step {
        Step::SendAndClose(bytes) => assert_eq!(bytes, ping),
        other => panic!("unexpected step {:?}", other),
    }
    assert_eq!(session.phase(), Phase::Closed);
}

#[test]
fn login_kick_with_message() {
    let mut kick = static_action();
    kick.kick_message = Some("down".to_string());
    let config = Config::new(None, vec![host("mc.example.com", Action::Static { static_action: kick })]);
    let mut session = ClientSession::new();
    session.feed(&handshake_frame(47, "mc.example.com", 25565, 2));
    session.feed(&[0x07, 0x00, 0x05, b'a', b'l', b'i', b'c', b'e']);
    let (session, step) = session.step(&config);
    assert!(matches!(step, Step::Continue));
    let (session, step) = session.step(&config);
    match step {
        Step::SendAndClose(bytes) => {
            let (id, json) = string_payload(&bytes);
            assert_eq!(id, 0);
            assert_eq!(json, "{\"text\":\"down\"}");
        }
        other => panic!("unexpected step {:?}", other),
    }
    assert_eq!(session.username().map(|s| s.as_str()), Some("alice"));
    assert_eq!(session.phase(), Phase::Closed);
}

#[test]
fn login_forward_replays_everything() {
    let config = Config::new(None, vec![host("mc.example.com", forward("backend.local:25566"))]);
    let mut bytes = handshake_frame(47, "mc.example.com", 25565, 2);
    bytes.extend_from_slice(&[0x07, 0x00, 0x05, b'a', b'l', b'i', b'c', b'e']);
    let mut session = ClientSession::new();
    session.feed(&bytes);
    let (session, _) = session.step(&config);
    let (session, step) = session.step(&config);
    match step {
        Step::Connect { target, replay } => {
            assert_eq!(target.host().as_str(), "backend.local");
            assert_eq!(target.port(), 25566);
            assert_eq!(replay, bytes);
        }
        other => panic!("unexpected step {:?}", other),
    }
    assert_eq!(session.phase(), Phase::Proxy);
}

#[test]
fn unknown_host_closes_without_reply() {
    let config = Config::new(None, vec![host("mc.example.com", forward("10.0.0.5"))]);
    let mut session = ClientSession::new();
    session.feed(&handshake_frame(47, "unknown.host", 25565, 1));
    let (session, step) = session.step(&config);
    assert!(matches!(step, Step::Close));
    assert_eq!(session.phase(), Phase::Closed);
}

#[test]
fn forge_handshake_routes_by_host_part() {
    let config = Config::new(None, vec![host("mc.example.com", forward("10.0.0.5"))]);
    let frame = handshake_frame(340, "mc.example.com\0FML\0", 25565, 2);
    let mut session = ClientSession::new();
    session.feed(&frame);
    let (session, step) = session.step(&config);
    assert!(matches!(step, Step::Continue));
    let h = session.handshake().unwrap();
    assert_eq!(h.server_address, "mc.example.com");
    assert_eq!(h.forge, ForgeHandshake::Version1);
}

#[test]
fn handshake_in_pieces_needs_more() {
    let config = Config::default();
    let frame = handshake_frame(47, "mc.example.com", 25565, 1);
    let mut session = ClientSession::new();
    session.feed(&frame[..4]);
    let (session, step) = session.step(&config);
    assert!(matches!(step, Step::NeedMore));
    assert_eq!(session.phase(), Phase::Handshaking);
}

#[test]
fn garbage_first_frame_fails() {
    let config = Config::default();
    let mut session = ClientSession::new();
    session.feed(&[0x02, 0x05, 0x00]);
    let (session, step) = session.step(&config);
    assert!(matches!(step, Step::Fail(_)));
    assert_eq!(session.phase(), Phase::Closed);
}

#[test]
fn unknown_next_state_closes() {
    let config = Config::new(None, vec![host("mc.example.com", forward("10.0.0.5"))]);
    let mut session = ClientSession::new();
    session.feed(&handshake_frame(47, "mc.example.com", 25565, 3));
    let (_, step) = session.step(&config);
    assert!(matches!(step, Step::Close));
}

#[test]
fn find_action_prefers_exact_then_default() {
    let default = Hostname::from_str("fallback.net").unwrap();
    let config = Config::new(
        Some(default),
        vec![host("mc.example.com", forward("10.0.0.5")), host("fallback.net", forward("10.0.0.6:1"))],
    );
    match find_action(&config, "mc.example.com") {
        Some(Action::Forward { forward }) => assert_eq!(forward.0.to_text(), "10.0.0.5:25565"),
        other => panic!("unexpected {:?}", other),
    }
    match find_action(&config, "other.org") {
        Some(Action::Forward { forward }) => assert_eq!(forward.0.to_text(), "10.0.0.6:1"),
        other => panic!("unexpected {:?}", other),
    }
    let bare = Config::new(None, vec![host("mc.example.com", forward("10.0.0.5"))]);
    assert!(find_action(&bare, "other.org").is_none());
    assert!(bare.get_default_host().is_none());
    assert_eq!(config.get_default_host().unwrap().hostname.as_str(), "fallback.net");
}

#[test]
fn later_host_entry_wins() {
    let config = Config::new(None, vec![host("a.com", forward("10.0.0.1")), host("a.com", forward("10.0.0.2"))]);
    match find_action(&config, "a.com") {
        Some(Action::Forward { forward }) => assert_eq!(forward.0.to_text(), "10.0.0.2:25565"),
        other => panic!("unexpected {:?}", other),
    }
}

#[test]
fn flow_actions_collapse() {
    let a = forward("10.0.0.5:1");
    assert!(matches!(a.get_status_action(), StatusAction::Forward { .. }));
    assert!(matches!(a.get_login_action(), LoginAction::Forward { .. }));
    let c = Action::Conditional {
        status: StatusAction::Static { static_action: static_action() },
        login: LoginAction::Forward { forward: ForwardAction(ServerAddr::from_str("x.org").unwrap()) },
    };
    assert!(matches!(c.get_status_action(), StatusAction::Static { .. }));
    assert!(matches!(c.get_login_action(), LoginAction::Forward { .. }));
}

#[test]
fn wrong_packet_in_status_fails() {
    let config = Config::new(None, vec![host("mc.example.com", Action::Static { static_action: static_action() })]);
    let mut session = ClientSession::new();
    session.feed(&handshake_frame(47, "mc.example.com", 25565, 1));
    let (mut session, _) = session.step(&config);
    session.feed(&[0x01, 0x05]);
    let (session, step) = session.step(&config);
    match step {
        Step::Fail(e) => assert_eq!(e, mcrouter::codec::ProtoError::WrongPacketId { expected: 0, got: 5 }),
        other => panic!("unexpected step {:?}", other),
    }
    assert_eq!(session.phase(), Phase::Closed);
}
