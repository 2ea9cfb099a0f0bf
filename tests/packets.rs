use mcrouter::cached::CachedReader;
use mcrouter::codec::ProtoError;
use mcrouter::handshake::{ForgeHandshake, Handshake, NextState};
use mcrouter::packet::{Packet, PacketRead, PacketWrite, Ping, Pong, Request, Response};

fn handshake(address: &str, forge: ForgeHandshake, next_state: NextState) -> Handshake {
    Handshake {
        protocol_version: 47,
        server_address: address.to_string(),
        server_port: 25565,
        next_state,
        forge,
    }
}

#[test]
fn handshake_wire_bytes() {
    let mut out = Vec::new();
    handshake("mc.example.com", ForgeHandshake::Absent, NextState::Status).write(&mut out);
    let mut expected = vec![0x14, 0x00, 0x2f, 0x0e];
    expected.extend_from_slice(b"mc.example.com");
    expected.extend_from_slice(&[0x63, 0xdd, 0x01]);
    assert_eq!(out, expected);
}

#[test]
fn handshake_round_trip_values() {
    for (addr, forge, next) in [
        ("mc.example.com", ForgeHandshake::Absent, NextState::Status),
        ("mc.example.com", ForgeHandshake::Version1, NextState::Login),
        ("play.x.org", ForgeHandshake::Version2, NextState::Login),
    ] {
        let h = handshake(addr, forge, next);
        let mut out = Vec::new();
        h.write(&mut out);
        let n = out.len();
        out.extend_from_slice(&[0x01, 0x00]);
        let (back, k) = Handshake::read(&out, 0).unwrap();
        assert_eq!(k, n);
        assert_eq!(back.server_address, addr);
        assert_eq!(back.forge, forge);
        assert_eq!(back.next_state, next);
        assert_eq!(back.protocol_version, 47);
        assert_eq!(back.server_port, 25565);
    }
}

#[test]
fn transfer_needs_protocol_765() {
    assert_eq!(NextState::from_wire(3, 765), NextState::Transfer);
    assert_eq!(NextState::from_wire(3, 764), NextState::Unknown(3));
    assert_eq!(NextState::from_wire(9, 765), NextState::Unknown(9));
    assert_eq!(NextState::Transfer.to_wire(), 3);
}

#[test]
fn forge_split_and_join_the_three_forms() {
    for (a, host, flavor) in [
        ("mc.x.com", "mc.x.com", ForgeHandshake::Absent),
        ("mc.x.com\0FML\0", "mc.x.com", ForgeHandshake::Version1),
        ("mc.x.com\0FML2\0", "mc.x.com", ForgeHandshake::Version2),
    ] {
        let (h, f) = ForgeHandshake::separate_address(a.to_string());
        assert_eq!(h, host);
        assert_eq!(f, flavor);
        assert_eq!(format!("{}{}", h, f.net_id()), a);
    }
}

#[test]
fn forge_unknown_suffix_is_dropped() {
    let (h, f) = ForgeHandshake::separate_address("mc.x.com\0junk".to_string());
    assert_eq!(h, "mc.x.com");
    assert_eq!(f, ForgeHandshake::Absent);
}

#[test]
fn modified_address_appends_marker() {
    let h = handshake("mc.example.com", ForgeHandshake::Version2, NextState::Login);
    assert_eq!(h.modified_address(), "mc.example.com\0FML2\0");
}

#[test]
fn wrong_packet_id_is_reported() {
    let mut out = Vec::new();
    Ping { data: 5 }.write(&mut out);
    assert_eq!(
        Request::read(&out, 0).map(|r| r.1),
        Err(ProtoError::WrongPacketId { expected: 0, got: 1 })
    );
}

#[test]
fn status_packets_round_trip() {
    let mut out = Vec::new();
    Request.write(&mut out);
    assert_eq!(out, vec![1, 0]);
    assert_eq!(Request::read(&out, 0).map(|r| r.1), Ok(2));
    let mut out = Vec::new();
    Pong { data: -7 }.write(&mut out);
    let (p, _) = Pong::read(&out, 0).unwrap();
    assert_eq!(p.data, -7);
    let mut out = Vec::new();
    Response { response: "{}".to_string() }.write(&mut out);
    let (r, _) = Response::read(&out, 0).unwrap();
    assert_eq!(r.response, "{}");
    assert_eq!(<Ping as Packet>::packet_id(), 1);
}

#[test]
fn cached_replay_equals_reencoding() {
    let h = handshake("mc.example.com", ForgeHandshake::Version1, NextState::Login);
    let mut frame = Vec::new();
    h.write(&mut frame);
    let mut reader = CachedReader::new(());
    reader.fill(&frame[..3]);
    assert_eq!(reader.read_handshake().map(|_| ()), Err(ProtoError::UnexpectedEof));
    reader.fill(&frame[3..]);
    reader.fill(&[0x07, 0x00]);
    let back = reader.read_handshake().unwrap();
    assert_eq!(back.server_address, "mc.example.com");
    assert_eq!(&reader.cache()[..frame.len()], frame.as_slice());
    assert_eq!(reader.available(), 2);
    let mut again = Vec::new();
    back.write(&mut again);
    assert_eq!(again, frame);
}

#[test]
fn cached_reader_serves_in_order() {
    let mut reader = CachedReader::new(7u8);
    assert!(reader.needs_fill(1));
    reader.fill(&[1, 2, 3]);
    assert!(!reader.needs_fill(3));
    assert_eq!(reader.read(2), vec![1, 2]);
    assert_eq!(reader.read(5), vec![3]);
    assert_eq!(reader.cache(), &[1, 2, 3]);
    assert_eq!(reader.into_inner(), 7);
}
