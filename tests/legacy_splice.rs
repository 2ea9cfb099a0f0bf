use mcrouter::legacy::{classify_legacy, legacy_kick_packet, legacy_status_line, Legacy16PingRequest, LegacyPing};
use mcrouter::splice::{Direction, PumpAction, ReadOutcome, Splice};

fn utf16be(s: &str) -> Vec<u8> {
    s.encode_utf16().flat_map(|u| u.to_be_bytes()).collect()
}

fn ping16_request(host: &str, port: i32) -> Vec<u8> {
    let mut rest = vec![74u8];
    rest.extend_from_slice(&(host.encode_utf16().count() as u16).to_be_bytes());
    rest.extend_from_slice(&utf16be(host));
    rest.extend_from_slice(&port.to_be_bytes());
    let mut out = Vec::new();
    out.extend_from_slice(&11u16.to_be_bytes());
    out.extend_from_slice(&utf16be("MC|PingHost"));
    out.extend_from_slice(&((rest.len() - 0) as u16).to_be_bytes());
    out.extend_from_slice(&rest);
    out
}

#[test]
fn legacy_prefixes() {
    assert_eq!(classify_legacy(&[0xFE]), Some(LegacyPing::Beta));
    assert_eq!(classify_legacy(&[0xFE, 0x01]), Some(LegacyPing::V14));
    assert_eq!(classify_legacy(&[0xFE, 0x01, 0xFA]), Some(LegacyPing::V16));
    assert_eq!(classify_legacy(&[0x10, 0x00, 0x04]), None);
    assert_eq!(classify_legacy(&[0xFE, 0x02]), None);
}

#[test]
fn legacy_16_ping() {
    let bytes = ping16_request("x", 25565);
    assert!(Legacy16PingRequest::parse(&bytes[..bytes.len() - 1]).is_none());
    let (req, n) = Legacy16PingRequest::parse(&bytes).unwrap();
    assert_eq!(n, bytes.len());
    assert_eq!(req.plugin_message_id, "MC|PingHost");
    assert!(req.ping_host);
    assert_eq!(req.hostname, "x");
    assert_eq!(req.port, 25565);
    assert_eq!(req.protocol_version, 74);
    let line = legacy_status_line(LegacyPing::V16);
    let kick = legacy_kick_packet(&line);
    assert_eq!(kick[0], 0xFF);
    let count = u16::from_be_bytes([kick[1], kick[2]]) as usize;
    assert_eq!(kick.len(), 3 + 2 * count);
    let units: Vec<u16> = kick[3..].chunks(2).map(|c| u16::from_be_bytes([c[0], c[1]])).collect();
    let text = String::from_utf16(&units).unwrap();
    assert!(text.starts_with("\u{a7}1"));
    let fields: Vec<&str> = text.split('\0').collect();
    assert_eq!(fields, vec!["\u{a7}1", "73", "1.6.1", "A Minecraft Server", "0", "16"]);
}

#[test]
fn legacy_beta_line() {
    let line = legacy_status_line(LegacyPing::Beta);
    assert_eq!(line, "A Minecraft Server\u{a7}0\u{a7}13");
    let kick = legacy_kick_packet(&line);
    assert_eq!(&kick[..3], &[0xFF, 0x00, 23]);
    assert_eq!(&kick[3..5], &[0x00, b'A']);
}

#[test]
fn legacy_kick_uses_surrogates() {
    assert_eq!(legacy_kick_packet("\u{1F600}"), vec![0xFF, 0, 2, 0xD8, 0x3D, 0xDE, 0x00]);
}

#[test]
fn backend_close_ends_splice() {
    let mut s = Splice::new();
    assert_eq!(s.on_read(Direction::ClientToBackend, ReadOutcome::Data(10)), PumpAction::Write(10));
    assert_eq!(s.on_read(Direction::BackendToClient, ReadOutcome::Eof), PumpAction::ShutdownDestination);
    assert!(s.client_shut);
    assert!(!s.is_finished());
    assert_eq!(s.on_read(Direction::ClientToBackend, ReadOutcome::Data(0)), PumpAction::ShutdownDestination);
    assert!(s.is_finished());
    assert_eq!(s.on_read(Direction::BackendToClient, ReadOutcome::Data(3)), PumpAction::Idle);
}

#[test]
fn failed_read_stops_copier() {
    let mut s = Splice::new();
    assert_eq!(s.on_read(Direction::ClientToBackend, ReadOutcome::Failed), PumpAction::ShutdownDestination);
    assert!(s.backend_shut);
    assert!(!s.client_to_backend);
}
