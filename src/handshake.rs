//! The Handshake packet, which opens every connection, and the Forge marker
//! that modded clients append to its address field.

use vstd::prelude::*;
use vstd::string::*;
use vstd::utf8::*;
use crate::codec::{
    be_value, lemma_string_round_trip, lemma_ushort_round_trip, lemma_varint_round_trip,
    read_string, read_ushort, read_varint, string_bytes, string_decode, ushort_bytes,
    varint_bytes, varint_decode, write_string, write_ushort, write_varint, ProtoError,
};
use crate::frame::{frame_bytes, lemma_frame_round_trip, write_frame};
use crate::text::same_text;
use crate::packet::{expect_frame, packet_decode, Packet, PacketRead, PacketWrite};

verus! {

/// The longest server address, in UTF-8 bytes, that a Handshake may carry.
pub const MAX_ADDRESS_BYTES: usize = 255;

/// The Forge flavor a client announced through its address field.
#[derive(Debug, Clone, Copy, PartialEq, Eq, Structural)]
pub enum ForgeHandshake {
    /// No marker: a vanilla client.
    Absent,
    /// `\0FML\0`: Forge for 1.7 to 1.12.
    Version1,
    /// `\0FML2\0`: Forge for 1.13 and later.
    Version2,
}

/// The marker that `f` appends to the address.
pub open spec fn forge_suffix(f: ForgeHandshake) -> Seq<char> {
    match f {
        ForgeHandshake::Absent => seq![],
        ForgeHandshake::Version1 => seq!['\0', 'F', 'M', 'L', '\0'],
        ForgeHandshake::Version2 => seq!['\0', 'F', 'M', 'L', '2', '\0'],
    }
}

/// The index of the first NUL of `a` at or after `i`.
pub open spec fn first_nul_from(a: Seq<char>, i: nat) -> Option<nat>
    decreases a.len() - i,
{
    if i >= a.len() {
        None
    } else if a[i as int] == '\0' {
        Some(i)
    } else {
        first_nul_from(a, i + 1)
    }
}

/// Whether `a` holds no NUL.
pub open spec fn nul_free(a: Seq<char>) -> bool {
    forall|i: int| 0 <= i < a.len() ==> a[i] != '\0'
}

/// An address split at its first NUL into the host part and the Forge
/// flavor that the rest names; a rest that names none is dropped.
pub open spec fn split_address(a: Seq<char>) -> (Seq<char>, ForgeHandshake) {
    match first_nul_from(a, 0) {
        None => (a, ForgeHandshake::Absent),
        Some(i) => {
            let tail = a.subrange(i as int, a.len() as int);
            let f = if tail == forge_suffix(ForgeHandshake::Version1) {
                ForgeHandshake::Version1
            } else if tail == forge_suffix(ForgeHandshake::Version2) {
                ForgeHandshake::Version2
            } else {
                ForgeHandshake::Absent
            };
            (a.subrange(0, i as int), f)
        },
    }
}

/// An address whose split can be undone: it has no NUL, or what follows its
/// first NUL is exactly a Forge marker.
pub open spec fn forge_well_formed(a: Seq<char>) -> bool {
    match first_nul_from(a, 0) {
        None => true,
        Some(i) => {
            let tail = a.subrange(i as int, a.len() as int);
            tail == forge_suffix(ForgeHandshake::Version1) || tail == forge_suffix(ForgeHandshake::Version2)
        },
    }
}

proof fn lemma_first_nul_from(a: Seq<char>, i: nat)
    requires
        i <= a.len(),
        forall|j: int| 0 <= j < i ==> a[j] != '\0',
    ensures
        match first_nul_from(a, i) {
            None => nul_free(a),
            Some(k) => k < a.len() && a[k as int] == '\0' && forall|j: int| 0 <= j < k ==> a[j] != '\0',
        },
    decreases a.len() - i,
{
    if i < a.len() && a[i as int] != '\0' {
        lemma_first_nul_from(a, i + 1);
    }
}

/// Splitting a NUL-free host with a marker appended gives back the host and
/// the flavor.
pub proof fn lemma_split_joined(host: Seq<char>, f: ForgeHandshake)
    requires
        nul_free(host),
    ensures
        split_address(host + forge_suffix(f)) == (host, f),
{
    let a = host + forge_suffix(f);
    lemma_first_nul_from(a, 0);
    if f != ForgeHandshake::Absent {
        assert(a[host.len() as int] == '\0');
        assert(first_nul_from(a, 0) == Some(host.len()));
        assert(a.subrange(0, host.len() as int) =~= host);
        assert(a.subrange(host.len() as int, a.len() as int) =~= forge_suffix(f));
        assert(forge_suffix(ForgeHandshake::Version1) != forge_suffix(ForgeHandshake::Version2)) by {
            assert(forge_suffix(ForgeHandshake::Version1).len() != forge_suffix(ForgeHandshake::Version2).len());
        }
    } else {
        assert(a =~= host);
        assert(first_nul_from(a, 0) is None);
    }
}

/// Appending the marker of the flavor found to the host part gives the
/// address back exactly when the address is well formed.
pub proof fn lemma_join_split(a: Seq<char>)
    ensures
        (split_address(a).0 + forge_suffix(split_address(a).1) == a) <==> forge_well_formed(a),
{
    lemma_first_nul_from(a, 0);
    match first_nul_from(a, 0) {
        None => {
            assert(a + seq![] =~= a);
        },
        Some(i) => {
            let tail = a.subrange(i as int, a.len() as int);
            let (h, f) = split_address(a);
            assert(a =~= h + tail);
            if f == ForgeHandshake::Absent {
                assert(h + forge_suffix(f) =~= h);
                assert(h.len() < a.len());
                if forge_well_formed(a) {
                    assert(tail == forge_suffix(ForgeHandshake::Version1) || tail == forge_suffix(ForgeHandshake::Version2));
                }
            } else {
                assert(h + forge_suffix(f) =~= a);
            }
        },
    }
}

/// Reads the first NUL of `s`.
fn find_nul(s: &str) -> (r: Option<usize>)
    ensures
        match first_nul_from(s@, 0) {
            None => r is None,
            Some(i) => r == Some(i as usize),
        },
{
    let n = s.unicode_len();
    let mut i: usize = 0;
    while i < n
        invariant
            n == s@.len(),
            i <= n,
            first_nul_from(s@, i as nat) == first_nul_from(s@, 0),
        decreases n - i,
    {
        if s.get_char(i) == '\0' {
            return Some(i);
        }
        i = i + 1;
    }
    None
}

impl ForgeHandshake {
    /// Splits an address at its first NUL into the host part and the Forge
    /// flavor named by what follows.
    pub fn separate_address(address: String) -> (r: (String, ForgeHandshake))
        ensures
            (r.0@, r.1) == split_address(address@),
    {
        proof {
            lemma_first_nul_from(address@, 0);
        }
        match find_nul(address.as_str()) {
            None => (address, ForgeHandshake::Absent),
            Some(i) => {
                let s = address.as_str();
                let n = s.unicode_len();
                let host = s.substring_char(0, i).to_owned();
                let tail = s.substring_char(i, n);
                let v1 = "\0FML\0";
                let v2 = "\0FML2\0";
                proof {
                    reveal_strlit("\0FML\0");
                    reveal_strlit("\0FML2\0");
                    assert(v1@ =~= forge_suffix(ForgeHandshake::Version1));
                    assert(v2@ =~= forge_suffix(ForgeHandshake::Version2));
                }
                let forge = if same_text(tail, v1) {
                    ForgeHandshake::Version1
                } else if same_text(tail, v2) {
                    ForgeHandshake::Version2
                } else {
                    ForgeHandshake::Absent
                };
                (host, forge)
            },
        }
    }

    /// The marker this flavor appends to the address.
    pub fn net_id(&self) -> (r: &'static str)
        ensures
            r@ == forge_suffix(*self),
    {
        proof {
            reveal_strlit("");
            reveal_strlit("\0FML\0");
            reveal_strlit("\0FML2\0");
        }
        match self {
            ForgeHandshake::Absent => {
                assert(""@ =~= forge_suffix(*self));
                ""
            },
            ForgeHandshake::Version1 => {
                assert("\0FML\0"@ =~= forge_suffix(*self));
                "\0FML\0"
            },
            ForgeHandshake::Version2 => {
                assert("\0FML2\0"@ =~= forge_suffix(*self));
                "\0FML2\0"
            },
        }
    }
}

/// The state a client asks for in its Handshake.
#[derive(Debug, Clone, Copy, PartialEq, Eq, Structural)]
pub enum NextState {
    /// 1: server-list ping.
    Status,
    /// 2: joining the game.
    Login,
    /// 3, from protocol 765 on: arriving from another server.
    Transfer,
    /// Anything else.
    Unknown(i32),
}

/// The first protocol version with the Transfer state.
pub const TRANSFER_MIN_PROTOCOL: i32 = 765;

/// The state that the wire value `v` names under protocol `protocol`.
pub open spec fn next_state_of(v: i32, protocol: i32) -> NextState {
    if v == 1 {
        NextState::Status
    } else if v == 2 {
        NextState::Login
    } else if v == 3 && protocol >= TRANSFER_MIN_PROTOCOL {
        NextState::Transfer
    } else {
        NextState::Unknown(v)
    }
}

/// The wire value of a state.
pub open spec fn next_state_wire(s: NextState) -> i32 {
    match s {
        NextState::Status => 1,
        NextState::Login => 2,
        NextState::Transfer => 3,
        NextState::Unknown(v) => v,
    }
}

impl NextState {
    /// The state that the wire value `v` names under protocol `protocol`.
    pub fn from_wire(v: i32, protocol: i32) -> (r: NextState)
        ensures
            r == next_state_of(v, protocol),
    {
        if v == 1 {
            NextState::Status
        } else if v == 2 {
            NextState::Login
        } else if v == 3 && protocol >= TRANSFER_MIN_PROTOCOL {
            NextState::Transfer
        } else {
            NextState::Unknown(v)
        }
    }

    /// The wire value of this state.
    pub fn to_wire(&self) -> (r: i32)
        ensures
            r == next_state_wire(*self),
    {
        match self {
            NextState::Status => 1,
            NextState::Login => 2,
            NextState::Transfer => 3,
            NextState::Unknown(v) => *v,
        }
    }
}

/// Handshake (Handshaking, client to server, id 0).
#[derive(Debug)]
pub struct Handshake {
    pub protocol_version: i32,
    /// The host part of the address field, without any Forge marker.
    pub server_address: String,
    pub server_port: u16,
    pub next_state: NextState,
    pub forge: ForgeHandshake,
}

/// What a Handshake holds.
pub struct HandshakeView {
    pub protocol_version: i32,
    pub server_address: Seq<char>,
    pub server_port: u16,
    pub next_state: NextState,
    pub forge: ForgeHandshake,
}

impl View for Handshake {
    type V = HandshakeView;

    open spec fn view(&self) -> HandshakeView {
        HandshakeView {
            protocol_version: self.protocol_version,
            server_address: self.server_address@,
            server_port: self.server_port,
            next_state: self.next_state,
            forge: self.forge,
        }
    }
}

/// The address field as sent: the host with the Forge marker appended.
pub open spec fn wire_address(h: HandshakeView) -> Seq<char> {
    h.server_address + forge_suffix(h.forge)
}

/// The payload of a Handshake.
pub open spec fn handshake_payload(h: HandshakeView) -> Seq<u8> {
    varint_bytes(h.protocol_version) + string_bytes(wire_address(h)) + ushort_bytes(h.server_port)
        + varint_bytes(next_state_wire(h.next_state))
}

/// What a Handshake payload reads as.
pub open spec fn handshake_parse(b: Seq<u8>) -> Result<HandshakeView, ProtoError> {
    match varint_decode(b) {
        Err(e) => Err(e),
        Ok((pv, k1)) => match string_decode(b.subrange(k1 as int, b.len() as int), MAX_ADDRESS_BYTES as nat) {
            Err(e) => Err(e),
            Ok((addr, k2)) => {
                let p = k1 + k2;
                if p + 2 > b.len() {
                    Err(ProtoError::UnexpectedEof)
                } else {
                    match varint_decode(b.subrange((p + 2) as int, b.len() as int)) {
                        Err(e) => Err(e),
                        Ok((ns, _)) => Ok(
                            HandshakeView {
                                protocol_version: pv,
                                server_address: split_address(addr).0,
                                server_port: be_value(b.subrange(p as int, (p + 2) as int)) as u16,
                                next_state: next_state_of(ns, pv),
                                forge: split_address(addr).1,
                            },
                        ),
                    }
                }
            },
        },
    }
}

/// A Handshake that reads back as itself: a NUL-free host, an address
/// field of at most 255 bytes, and a next state that its protocol knows.
pub open spec fn handshake_valid(h: HandshakeView) -> bool {
    &&& nul_free(h.server_address)
    &&& encode_utf8(wire_address(h)).len() <= MAX_ADDRESS_BYTES
    &&& next_state_of(next_state_wire(h.next_state), h.protocol_version) == h.next_state
}

/// The frame of a Handshake.
pub open spec fn handshake_frame(h: HandshakeView) -> Seq<u8> {
    frame_bytes(0, handshake_payload(h))
}

/// Every valid Handshake, written as a frame and followed by anything,
/// reads back as itself, taking exactly its frame.
pub proof fn lemma_handshake_round_trip(h: HandshakeView, rest: Seq<u8>)
    requires
        handshake_valid(h),
    ensures
        packet_decode::<Handshake>(handshake_frame(h) + rest) == Ok::<(HandshakeView, nat), ProtoError>(
            (h, handshake_frame(h).len()),
        ),
{
    let payload = handshake_payload(h);
    let a = wire_address(h);
    let ns = next_state_wire(h.next_state);
    let pv = varint_bytes(h.protocol_version);
    let sb = string_bytes(a);
    let ub = ushort_bytes(h.server_port);
    let nb = varint_bytes(ns);
    lemma_varint_round_trip(h.protocol_version, sb + ub + nb);
    lemma_varint_round_trip(encode_utf8(a).len() as i32, encode_utf8(a));
    lemma_varint_round_trip(ns, seq![]);
    lemma_ushort_round_trip(h.server_port);
    assert(payload =~= pv + (sb + ub + nb));
    lemma_frame_round_trip(0, payload, rest);
    let k1 = pv.len();
    assert(payload.subrange(k1 as int, payload.len() as int) =~= sb + (ub + nb));
    lemma_string_round_trip(a, MAX_ADDRESS_BYTES as nat, ub + nb);
    let p: int = (k1 + sb.len()) as int;
    assert(payload.subrange(p, p + 2) =~= ub);
    assert(payload.subrange(p + 2, payload.len() as int) =~= nb + seq![]);
    lemma_split_joined(h.server_address, h.forge);
    assert(handshake_parse(payload) == Ok::<HandshakeView, ProtoError>(h));
}

impl Handshake {
    /// The address field as sent: the host with the Forge marker appended.
    pub fn modified_address(&self) -> (r: String)
        ensures
            r@ == wire_address(self@),
    {
        self.server_address.clone().concat(self.forge.net_id())
    }
}

impl Packet for Handshake {
    open spec fn id_spec() -> i32 {
        0
    }

    fn packet_id() -> (r: i32) {
        0
    }
}

impl PacketRead for Handshake {
    open spec fn parse_spec(payload: Seq<u8>) -> Result<HandshakeView, ProtoError> {
        handshake_parse(payload)
    }

    fn read(buf: &[u8], pos: usize) -> (r: Result<(Handshake, usize), ProtoError>) {
        let (start, end) = match expect_frame(buf, pos, 0) {
            Ok(v) => v,
            Err(e) => return Err(e),
        };
        let b = &buf[start..end];
        let ghost bs = b@;
        assert(bs.subrange(0, bs.len() as int) =~= bs);
        let (protocol_version, k1) = match read_varint(b, 0) {
            Ok(v) => v,
            Err(e) => return Err(e),
        };
        let (address, k2) = match read_string(b, k1, MAX_ADDRESS_BYTES) {
            Ok(v) => v,
            Err(e) => return Err(e),
        };
        let p = k1 + k2;
        let server_port = match read_ushort(b, p) {
            Ok(v) => v,
            Err(e) => return Err(e),
        };
        let (ns, _) = match read_varint(b, p + 2) {
            Ok(v) => v,
            Err(e) => return Err(e),
        };
        let (server_address, forge) = ForgeHandshake::separate_address(address);
        let h = Handshake {
            protocol_version,
            server_address,
            server_port,
            next_state: NextState::from_wire(ns, protocol_version),
            forge,
        };
        Ok((h, end - pos))
    }
}

impl PacketWrite for Handshake {
    open spec fn payload_spec(v: HandshakeView) -> Seq<u8> {
        handshake_payload(v)
    }

    open spec fn writable(&self) -> bool {
        encode_utf8(wire_address(self@)).len() <= 0x7fff_0000
    }

    fn write(&self, out: &mut Vec<u8>) {
        let mut payload: Vec<u8> = Vec::new();
        write_varint(&mut payload, self.protocol_version);
        let address = self.modified_address();
        write_string(&mut payload, address.as_str());
        write_ushort(&mut payload, self.server_port);
        write_varint(&mut payload, self.next_state.to_wire());
        proof {
            lemma_varint_round_trip(self.protocol_version, seq![]);
            lemma_varint_round_trip(encode_utf8(address@).len() as i32, seq![]);
            lemma_varint_round_trip(next_state_wire(self.next_state), seq![]);
            lemma_ushort_round_trip(self.server_port);
            assert(payload@ =~= handshake_payload(self@));
        }
        write_frame(out, 0, payload.as_slice());
    }
}

} // verus!
