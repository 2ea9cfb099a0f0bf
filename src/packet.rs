//! The packet traits, and the packets of the Status and Login states.

use vstd::prelude::*;
use vstd::utf8::*;
use crate::codec::{
    long_bytes, read_long, read_string, signed64_of, be_value, string_bytes, string_decode,
    write_long, write_string, ProtoError,
};
use crate::frame::{frame_bytes, frame_decode, payload_fits, read_frame, write_frame};

verus! {

/// The longest string, in UTF-8 bytes, that the packets accept.
pub const MAX_STRING_BYTES: usize = 32767;

/// A packet kind, identified on the wire by a constant id.
pub trait Packet: Sized {
    /// The id of this kind of packet.
    spec fn id_spec() -> i32;

    /// The id of this kind of packet.
    fn packet_id() -> (r: i32)
        ensures
            r == Self::id_spec(),
    ;
}

/// Reading a whole frame at the start of `s`, expecting packet id `expected`
/// and reading its payload with `parse`: the packet and the number of bytes
/// the frame took.
pub open spec fn packet_decode_with<V>(
    s: Seq<u8>,
    expected: i32,
    parse: spec_fn(Seq<u8>) -> Result<V, ProtoError>,
) -> Result<(V, nat), ProtoError> {
    match frame_decode(s) {
        Err(e) => Err(e),
        Ok((id, payload, n)) => if id != expected {
            Err(ProtoError::WrongPacketId { expected, got: id })
        } else {
            match parse(payload) {
                Ok(v) => Ok((v, n)),
                Err(e) => Err(e),
            }
        },
    }
}

/// A packet that can be read from a frame.
pub trait PacketRead: Packet + View {
    /// What the payload of a frame of this kind reads as.
    spec fn parse_spec(payload: Seq<u8>) -> Result<Self::V, ProtoError>;

    /// Reads a frame of this kind at `pos`: the packet and the number of
    /// bytes the frame took.
    fn read(buf: &[u8], pos: usize) -> (r: Result<(Self, usize), ProtoError>)
        requires
            pos <= buf@.len(),
        ensures
            match r {
                Ok((p, n)) => packet_decode_with(
                    buf@.subrange(pos as int, buf@.len() as int),
                    Self::id_spec(),
                    |b: Seq<u8>| Self::parse_spec(b),
                ) == Ok::<(Self::V, nat), ProtoError>((p@, n as nat)),
                Err(e) => packet_decode_with(
                    buf@.subrange(pos as int, buf@.len() as int),
                    Self::id_spec(),
                    |b: Seq<u8>| Self::parse_spec(b),
                ) == Err::<(Self::V, nat), ProtoError>(e),
            },
            r is Ok ==> r->Ok_0.1 <= buf@.len() - pos,
    ;
}

/// Reading a whole frame of packet `P` at the start of `s`: the packet and
/// the number of bytes the frame took.
pub open spec fn packet_decode<P: PacketRead>(s: Seq<u8>) -> Result<(P::V, nat), ProtoError> {
    packet_decode_with(s, P::id_spec(), |b: Seq<u8>| P::parse_spec(b))
}

/// A packet that can be written as a frame.
pub trait PacketWrite: Packet + View {
    /// The payload that a packet with this view is written as.
    spec fn payload_spec(v: Self::V) -> Seq<u8>;

    /// Whether the packet is small enough to be framed.
    spec fn writable(&self) -> bool;

    /// Appends the packet's frame.
    fn write(&self, out: &mut Vec<u8>)
        requires
            self.writable(),
        ensures
            final(out)@ == old(out)@ + frame_bytes(Self::id_spec(), Self::payload_spec(self@)),
    ;
}

/// Checks the id of the frame at `pos`: where its payload starts and where it ends.
pub fn expect_frame(buf: &[u8], pos: usize, expected: i32) -> (r: Result<(usize, usize), ProtoError>)
    requires
        pos <= buf@.len(),
    ensures
        match r {
            Ok((start, end)) => {
                &&& pos <= start <= end <= buf@.len()
                &&& frame_decode(buf@.subrange(pos as int, buf@.len() as int)) == Ok::<(i32, Seq<u8>, nat), ProtoError>(
                    (expected, buf@.subrange(start as int, end as int), (end - pos) as nat),
                )
            },
            Err(e) => match frame_decode(buf@.subrange(pos as int, buf@.len() as int)) {
                Err(fe) => e == fe,
                Ok((id, _, _)) => id != expected && e == ProtoError::WrongPacketId { expected, got: id },
            },
        },
{
    let (id, start, end) = match read_frame(buf, pos) {
        Ok(v) => v,
        Err(e) => return Err(e),
    };
    if id != expected {
        return Err(ProtoError::WrongPacketId { expected, got: id });
    }
    Ok((start, end))
}

/// What a string payload reads as: the string, with anything after it ignored.
pub open spec fn string_payload(payload: Seq<u8>) -> Result<Seq<char>, ProtoError> {
    match string_decode(payload, MAX_STRING_BYTES as nat) {
        Ok((s, _)) => Ok(s),
        Err(e) => Err(e),
    }
}

/// What an `i64` payload reads as.
pub open spec fn long_payload(payload: Seq<u8>) -> Result<i64, ProtoError> {
    if payload.len() < 8 {
        Err(ProtoError::UnexpectedEof)
    } else {
        Ok(signed64_of(be_value(payload.subrange(0, 8))))
    }
}

/// Reads a string payload held in `buf[start..end]`.
fn read_string_payload(buf: &[u8], start: usize, end: usize) -> (r: Result<String, ProtoError>)
    requires
        start <= end <= buf@.len(),
    ensures
        match r {
            Ok(s) => string_payload(buf@.subrange(start as int, end as int)) == Ok::<Seq<char>, ProtoError>(s@),
            Err(e) => string_payload(buf@.subrange(start as int, end as int)) == Err::<Seq<char>, ProtoError>(e),
        },
{
    let payload = &buf[start..end];
    assert(payload@.subrange(0, payload@.len() as int) =~= payload@);
    match read_string(payload, 0, MAX_STRING_BYTES) {
        Ok((s, _)) => Ok(s),
        Err(e) => Err(e),
    }
}

/// Reads an `i64` payload held in `buf[start..end]`.
fn read_long_payload(buf: &[u8], start: usize, end: usize) -> (r: Result<i64, ProtoError>)
    requires
        start <= end <= buf@.len(),
    ensures
        match r {
            Ok(v) => long_payload(buf@.subrange(start as int, end as int)) == Ok::<i64, ProtoError>(v),
            Err(e) => long_payload(buf@.subrange(start as int, end as int)) == Err::<i64, ProtoError>(e),
        },
{
    let payload = &buf[start..end];
    assert(payload@.subrange(0, 8) =~= buf@.subrange(start as int, end as int).subrange(0, 8));
    read_long(payload, 0)
}

/// Status request (Status, client to server, id 0): an empty payload.
#[derive(Debug, Clone, Copy, PartialEq, Eq)]
pub struct Request;

/// Status response (Status, server to client, id 0): the status as JSON text.
#[derive(Debug)]
pub struct Response {
    pub response: String,
}

/// Ping (Status, client to server, id 1): a payload to be echoed.
#[derive(Debug, Clone, Copy, PartialEq, Eq)]
pub struct Ping {
    pub data: i64,
}

/// Pong (Status, server to client, id 1): the echoed ping payload.
#[derive(Debug, Clone, Copy, PartialEq, Eq)]
pub struct Pong {
    pub data: i64,
}

/// Login start (Login, client to server, id 0): the player's name.
#[derive(Debug)]
pub struct LoginStart {
    pub username: String,
}

/// Disconnect (Login, server to client, id 0): the reason as JSON text.
#[derive(Debug)]
pub struct Disconnect {
    pub reason: String,
}

impl View for Request {
    type V = ();

    open spec fn view(&self) -> () {
        ()
    }
}

impl View for Response {
    type V = Seq<char>;

    open spec fn view(&self) -> Seq<char> {
        self.response@
    }
}

impl View for Ping {
    type V = i64;

    open spec fn view(&self) -> i64 {
        self.data
    }
}

impl View for Pong {
    type V = i64;

    open spec fn view(&self) -> i64 {
        self.data
    }
}

impl View for LoginStart {
    type V = Seq<char>;

    open spec fn view(&self) -> Seq<char> {
        self.username@
    }
}

impl View for Disconnect {
    type V = Seq<char>;

    open spec fn view(&self) -> Seq<char> {
        self.reason@
    }
}

impl Packet for Request {
    open spec fn id_spec() -> i32 {
        0
    }

    fn packet_id() -> (r: i32) {
        0
    }
}

impl Packet for Response {
    open spec fn id_spec() -> i32 {
        0
    }

    fn packet_id() -> (r: i32) {
        0
    }
}

impl Packet for Ping {
    open spec fn id_spec() -> i32 {
        1
    }

    fn packet_id() -> (r: i32) {
        1
    }
}

impl Packet for Pong {
    open spec fn id_spec() -> i32 {
        1
    }

    fn packet_id() -> (r: i32) {
        1
    }
}

impl Packet for LoginStart {
    open spec fn id_spec() -> i32 {
        0
    }

    fn packet_id() -> (r: i32) {
        0
    }
}

impl Packet for Disconnect {
    open spec fn id_spec() -> i32 {
        0
    }

    fn packet_id() -> (r: i32) {
        0
    }
}

impl PacketRead for Request {
    open spec fn parse_spec(payload: Seq<u8>) -> Result<(), ProtoError> {
        Ok(())
    }

    fn read(buf: &[u8], pos: usize) -> (r: Result<(Request, usize), ProtoError>) {
        let (_, end) = match expect_frame(buf, pos, 0) {
            Ok(v) => v,
            Err(e) => return Err(e),
        };
        Ok((Request, end - pos))
    }
}

impl PacketRead for Response {
    open spec fn parse_spec(payload: Seq<u8>) -> Result<Seq<char>, ProtoError> {
        string_payload(payload)
    }

    fn read(buf: &[u8], pos: usize) -> (r: Result<(Response, usize), ProtoError>) {
        let (start, end) = match expect_frame(buf, pos, 0) {
            Ok(v) => v,
            Err(e) => return Err(e),
        };
        match read_string_payload(buf, start, end) {
            Ok(response) => Ok((Response { response }, end - pos)),
            Err(e) => Err(e),
        }
    }
}

impl PacketRead for Ping {
    open spec fn parse_spec(payload: Seq<u8>) -> Result<i64, ProtoError> {
        long_payload(payload)
    }

    fn read(buf: &[u8], pos: usize) -> (r: Result<(Ping, usize), ProtoError>) {
        let (start, end) = match expect_frame(buf, pos, 1) {
            Ok(v) => v,
            Err(e) => return Err(e),
        };
        match read_long_payload(buf, start, end) {
            Ok(data) => Ok((Ping { data }, end - pos)),
            Err(e) => Err(e),
        }
    }
}

impl PacketRead for Pong {
    open spec fn parse_spec(payload: Seq<u8>) -> Result<i64, ProtoError> {
        long_payload(payload)
    }

    fn read(buf: &[u8], pos: usize) -> (r: Result<(Pong, usize), ProtoError>) {
        let (start, end) = match expect_frame(buf, pos, 1) {
            Ok(v) => v,
            Err(e) => return Err(e),
        };
        match read_long_payload(buf, start, end) {
            Ok(data) => Ok((Pong { data }, end - pos)),
            Err(e) => Err(e),
        }
    }
}

impl PacketRead for LoginStart {
    open spec fn parse_spec(payload: Seq<u8>) -> Result<Seq<char>, ProtoError> {
        string_payload(payload)
    }

    fn read(buf: &[u8], pos: usize) -> (r: Result<(LoginStart, usize), ProtoError>) {
        let (start, end) = match expect_frame(buf, pos, 0) {
            Ok(v) => v,
            Err(e) => return Err(e),
        };
        match read_string_payload(buf, start, end) {
            Ok(username) => Ok((LoginStart { username }, end - pos)),
            Err(e) => Err(e),
        }
    }
}

impl PacketWrite for Request {
    open spec fn payload_spec(v: ()) -> Seq<u8> {
        seq![]
    }

    open spec fn writable(&self) -> bool {
        true
    }

    fn write(&self, out: &mut Vec<u8>) {
        let payload: Vec<u8> = Vec::new();
        write_frame(out, 0, payload.as_slice());
    }
}

/// A string whose frame fits the VarInt length of a frame.
pub open spec fn string_writable(s: Seq<char>) -> bool {
    encode_utf8(s).len() + 10 <= i32::MAX
}

/// Appends the frame of a packet whose payload is the string `s`.
fn write_string_packet(out: &mut Vec<u8>, id: i32, s: &String)
    requires
        string_writable(s@),
    ensures
        final(out)@ == old(out)@ + frame_bytes(id, string_bytes(s@)),
{
    let mut payload: Vec<u8> = Vec::new();
    write_string(&mut payload, s.as_str());
    proof {
        crate::codec::lemma_varint_round_trip(encode_utf8(s@).len() as i32, seq![]);
    }
    write_frame(out, id, payload.as_slice());
}

impl PacketWrite for Response {
    open spec fn payload_spec(v: Seq<char>) -> Seq<u8> {
        string_bytes(v)
    }

    open spec fn writable(&self) -> bool {
        string_writable(self.response@)
    }

    fn write(&self, out: &mut Vec<u8>) {
        write_string_packet(out, 0, &self.response);
    }
}

impl PacketWrite for Disconnect {
    open spec fn payload_spec(v: Seq<char>) -> Seq<u8> {
        string_bytes(v)
    }

    open spec fn writable(&self) -> bool {
        string_writable(self.reason@)
    }

    fn write(&self, out: &mut Vec<u8>) {
        write_string_packet(out, 0, &self.reason);
    }
}

impl PacketWrite for LoginStart {
    open spec fn payload_spec(v: Seq<char>) -> Seq<u8> {
        string_bytes(v)
    }

    open spec fn writable(&self) -> bool {
        string_writable(self.username@)
    }

    fn write(&self, out: &mut Vec<u8>) {
        write_string_packet(out, 0, &self.username);
    }
}

/// Appends the frame of a packet whose payload is the `i64` `data`.
fn write_long_packet(out: &mut Vec<u8>, id: i32, data: i64)
    ensures
        final(out)@ == old(out)@ + frame_bytes(id, long_bytes(data)),
{
    let mut payload: Vec<u8> = Vec::new();
    write_long(&mut payload, data);
    proof {
        crate::codec::lemma_long_round_trip(data);
    }
    write_frame(out, id, payload.as_slice());
}

impl PacketWrite for Ping {
    open spec fn payload_spec(v: i64) -> Seq<u8> {
        long_bytes(v)
    }

    open spec fn writable(&self) -> bool {
        true
    }

    fn write(&self, out: &mut Vec<u8>) {
        write_long_packet(out, 1, self.data);
    }
}

impl PacketWrite for Pong {
    open spec fn payload_spec(v: i64) -> Seq<u8> {
        long_bytes(v)
    }

    open spec fn writable(&self) -> bool {
        true
    }

    fn write(&self, out: &mut Vec<u8>) {
        write_long_packet(out, 1, self.data);
    }
}

} // verus!
