use mcrouter::config::{parse_port, Hostname, PortError, ServerAddr, StaticAction};
use mcrouter::multi_version::{
    protocol_table, Disconnect, LoginLayout, LoginStart, SignatureData, StatusNaming, StatusResponse,
    Uuid, LATEST_PROTOCOL,
};
use mcrouter::text::int_to_string;

#[test]
fn hostname_validation() {
    assert!(Hostname::from_str("mc.example.com").is_ok());
    assert!(Hostname::from_str("10.0.0.5").is_ok());
    assert_eq!(Hostname::from_str("-bad.com").unwrap_err(), "hostname is invalid");
    assert!(Hostname::from_str("").is_err());
    assert!(Hostname::from_str("a..b").is_err());
    assert!(Hostname::from_str("mc.example.com").unwrap().eq_str("mc.example.com"));
}

#[test]
fn server_addr_parsing() {
    assert_eq!(ServerAddr::from_str("mc.example.com").unwrap().to_text(), "mc.example.com:25565");
    assert_eq!(ServerAddr::from_str("10.0.0.5:1234").unwrap().port(), 1234);
    assert_eq!(ServerAddr::from_str("h.org:1:2").unwrap().port(), 1);
    assert_eq!(ServerAddr::from_str("h.org:").unwrap_err(), "port cannot be blank");
    assert_eq!(ServerAddr::from_str("h.org:8x").unwrap_err(), "port can only contain digits");
    assert_eq!(ServerAddr::from_str("h.org:70000").unwrap_err(), "port must be in range 0-65535");
    assert_eq!(ServerAddr::from_str("bad_host:1").unwrap_err(), "hostname is invalid");
}

#[test]
fn port_parsing() {
    assert_eq!(parse_port("25565"), Ok(25565));
    assert_eq!(parse_port("+80"), Ok(80));
    assert_eq!(parse_port("+"), Err(PortError::InvalidDigit));
    assert_eq!(parse_port(""), Err(PortError::Empty));
    assert_eq!(parse_port("-1"), Err(PortError::InvalidDigit));
    assert_eq!(parse_port("65536"), Err(PortError::Overflow));
    assert_eq!(parse_port("65535"), Ok(65535));
}

#[test]
fn decimal_text() {
    assert_eq!(int_to_string(0), "0");
    assert_eq!(int_to_string(-45), "-45");
    assert_eq!(int_to_string(i64::MIN), "-9223372036854775808");
    assert_eq!(int_to_string(1234567), "1234567");
}

#[test]
fn status_json_from_static_fields() {
    let s = StaticAction {
        version_name: Some("1.20".to_string()),
        protocol_version: Some(763),
        cur_players: Some(3),
        max_players: Some(-1),
        description: Some("say \"hi\" \\o/".to_string()),
        kick_message: None,
    };
    let r = StatusResponse::from_static(&s, 47);
    assert_eq!(
        r.to_json(),
        "{\"version\":{\"name\":\"1.20\",\"protocol\":763},\"players\":{\"max\":-1,\"online\":3},\"description\":{\"text\":\"say \\\"hi\\\" \\\\o/\"}}"
    );
    assert_eq!(Disconnect::from_static(&s).to_json(), "{\"text\":\"Disconnected\"}");
}

#[test]
fn protocol_tables() {
    let (t, known) = protocol_table(47);
    assert!(known);
    assert_eq!(t.status_naming, StatusNaming::Legacy);
    assert_eq!(t.login_layout, LoginLayout::NameOnly);
    let (t, known) = protocol_table(760);
    assert!(known);
    assert_eq!(t.login_layout, LoginLayout::WithSignatureAndUuid);
    let (t, known) = protocol_table(12345);
    assert!(!known);
    assert_eq!(t.version, LATEST_PROTOCOL);
    assert_eq!(t.status_naming, StatusNaming::Modern);
    assert_eq!(t.login_layout, LoginLayout::RequiredUuid);
    assert!(!protocol_table(3).1);
}

#[test]
fn login_start_layouts() {
    let name = [5u8, b'a', b'l', b'i', b'c', b'e'];
    let ls = LoginStart::parse(LoginLayout::NameOnly, &name).unwrap();
    assert_eq!(ls.username, "alice");
    assert!(ls.uuid.is_none());
    let mut with_uuid = name.to_vec();
    with_uuid.extend_from_slice(&[0, 0, 0, 0, 0, 0, 0, 1, 0, 0, 0, 0, 0, 0, 0, 2]);
    let ls = LoginStart::parse(LoginLayout::RequiredUuid, &with_uuid).unwrap();
    assert_eq!(ls.uuid.map(|u| (u.high, u.low)), Some((1, 2)));
    let mut flagged = name.to_vec();
    flagged.push(0);
    let ls = LoginStart::parse(LoginLayout::OptionalUuid, &flagged).unwrap();
    assert!(ls.uuid.is_none());
    let mut signed = name.to_vec();
    signed.push(1);
    signed.extend_from_slice(&[0, 0, 0, 0, 0, 0, 0, 9, 2, 0xAA, 0xBB, 1, 0xCC]);
    signed.push(0);
    let ls = LoginStart::parse(LoginLayout::WithSignatureAndUuid, &signed).unwrap();
    let sig = ls.signature_data.unwrap();
    assert_eq!(sig.timestamp, 9);
    assert_eq!(sig.public_key, vec![0xAA, 0xBB]);
    assert_eq!(sig.signature, vec![0xCC]);
    assert!(LoginStart::parse(LoginLayout::RequiredUuid, &name).is_err());
}

#[test]
fn login_start_to_payload_and_back() {
    let ls = LoginStart {
        username: "alice".to_string(),
        uuid: Some(Uuid { high: 7, low: 9 }),
        signature_data: Some(SignatureData { timestamp: -3, public_key: vec![1, 2], signature: vec![3] }),
    };
    for layout in [
        LoginLayout::NameOnly,
        LoginLayout::WithSignature,
        LoginLayout::WithSignatureAndUuid,
        LoginLayout::OptionalUuid,
        LoginLayout::RequiredUuid,
    ] {
        let payload = ls.to_payload(layout).unwrap();
        let back = LoginStart::parse(layout, &payload).unwrap();
        assert_eq!(back.username, "alice");
        let keeps_uuid = !matches!(layout, LoginLayout::NameOnly | LoginLayout::WithSignature);
        assert_eq!(back.uuid.is_some(), keeps_uuid);
        let keeps_sig = matches!(layout, LoginLayout::WithSignature | LoginLayout::WithSignatureAndUuid);
        assert_eq!(back.signature_data.is_some(), keeps_sig);
    }
    let no_uuid = LoginStart { username: "bob".to_string(), uuid: None, signature_data: None };
    assert!(no_uuid.to_payload(LoginLayout::RequiredUuid).is_none());
    assert_eq!(no_uuid.to_payload(LoginLayout::OptionalUuid).unwrap(), vec![3, b'b', b'o', b'b', 0]);
}

#[test]
fn version_agnostic_conversions() {
    let req = mcrouter::multi_version::PingRequest::from(mcrouter::packet::Ping { data: 42 });
    assert_eq!(req.payload, 42);
    let pong = mcrouter::packet::Pong::from(mcrouter::multi_version::PingResponse { payload: req.payload });
    assert_eq!(pong.data, 42);
    let _ = mcrouter::multi_version::StatusRequest::from(mcrouter::packet::Request);
    let packet = Disconnect { reason: "bye \"now\"".to_string() }.into_packet();
    assert_eq!(packet.reason, "{\"text\":\"bye \\\"now\\\"\"}");
}

#[test]
fn server_addr_text_round_trip() {
    for (host, port) in [("mc.example.com", 25565u16), ("10.0.0.5", 0), ("a-b.c", 65535), ("x", 80)] {
        let addr = ServerAddr::new(Hostname::from_str(host).unwrap(), port);
        let back = ServerAddr::from_str(&addr.to_text()).unwrap();
        assert_eq!(back.host().as_str(), host);
        assert_eq!(back.port(), port);
    }
}
