//! Server-list pings of clients older than the framed protocol: recognised
//! by their first bytes, and answered with a kick packet whose UTF-16 text
//! carries the status.

use vstd::prelude::*;
use vstd::string::*;
use crate::codec::{be_bytes, be_value, lemma_be_round_trip};

verus! {

/// The kinds of pre-framing server-list ping.
#[derive(Debug, Clone, Copy, PartialEq, Eq, Structural)]
pub enum LegacyPing {
    /// A lone `0xFE`: beta 1.8 to 1.3.
    Beta,
    /// `0xFE 0x01`: 1.4 and 1.5.
    V14,
    /// `0xFE 0x01 0xFA`: 1.6, followed by a plugin message.
    V16,
}

/// The kind of legacy ping that the first bytes `peeked` start, if any.
pub open spec fn legacy_kind(peeked: Seq<u8>) -> Option<LegacyPing> {
    if peeked == seq![0xFEu8] {
        Some(LegacyPing::Beta)
    } else if peeked == seq![0xFEu8, 0x01u8] {
        Some(LegacyPing::V14)
    } else if peeked.len() >= 3 && peeked[0] == 0xFE && peeked[1] == 0x01 && peeked[2] == 0xFA {
        Some(LegacyPing::V16)
    } else {
        None
    }
}

/// The kind of legacy ping that the first bytes `peeked` start, if any.
pub fn classify_legacy(peeked: &[u8]) -> (r: Option<LegacyPing>)
    ensures
        r == legacy_kind(peeked@),
{
    let n = peeked.len();
    if n == 1 && peeked[0] == 0xFE {
        assert(peeked@ =~= seq![0xFEu8]);
        return Some(LegacyPing::Beta);
    }
    if n == 2 && peeked[0] == 0xFE && peeked[1] == 0x01 {
        assert(peeked@ =~= seq![0xFEu8, 0x01u8]);
        return Some(LegacyPing::V14);
    }
    if n >= 3 && peeked[0] == 0xFE && peeked[1] == 0x01 && peeked[2] == 0xFA {
        return Some(LegacyPing::V16);
    }
    proof {
        if peeked@ == seq![0xFEu8] {
            assert(peeked@[0] == 0xFE);
        }
        if peeked@ == seq![0xFEu8, 0x01u8] {
            assert(peeked@[0] == 0xFE && peeked@[1] == 0x01);
        }
    }
    None
}

/// The status line each kind is answered with.
pub open spec fn legacy_status_text(kind: LegacyPing) -> Seq<char> {
    match kind {
        LegacyPing::Beta => "A Minecraft Server\u{a7}0\u{a7}13"@,
        LegacyPing::V14 => "\u{a7}1\047\01.4.2\0A Minecraft Server\00\014"@,
        LegacyPing::V16 => "\u{a7}1\073\01.6.1\0A Minecraft Server\00\016"@,
    }
}

/// The status line each kind is answered with: `motd§online§max` for the
/// oldest clients, `§1`, protocol, version, motd, online and max separated
/// by NULs for the others.
pub fn legacy_status_line(kind: LegacyPing) -> (r: String)
    ensures
        r@ == legacy_status_text(kind),
{
    match kind {
        LegacyPing::Beta => String::from_str("A Minecraft Server\u{a7}0\u{a7}13"),
        LegacyPing::V14 => String::from_str("\u{a7}1\047\01.4.2\0A Minecraft Server\00\014"),
        LegacyPing::V16 => String::from_str("\u{a7}1\073\01.6.1\0A Minecraft Server\00\016"),
    }
}

/// The UTF-16 code units of one character.
pub open spec fn utf16_units(c: char) -> Seq<u16> {
    if (c as u32) < 0x10000 {
        seq![c as u16]
    } else {
        seq![
            (0xD800 + ((c as u32) - 0x10000) / 0x400) as u16,
            (0xDC00 + ((c as u32) - 0x10000) % 0x400) as u16,
        ]
    }
}

/// The UTF-16 code units of a text.
pub open spec fn utf16_of(s: Seq<char>) -> Seq<u16>
    decreases s.len(),
{
    if s.len() == 0 {
        seq![]
    } else {
        utf16_of(s.drop_last()) + utf16_units(s.last())
    }
}

/// Code units as big-endian bytes.
pub open spec fn units_bytes(u: Seq<u16>) -> Seq<u8>
    decreases u.len(),
{
    if u.len() == 0 {
        seq![]
    } else {
        units_bytes(u.drop_last()) + be_bytes(u.last() as nat, 2)
    }
}

/// The legacy kick packet: `0xFF`, the number of UTF-16 code units as a
/// big-endian `u16`, then the code units, big-endian.
pub open spec fn legacy_kick_bytes(s: Seq<char>) -> Seq<u8> {
    seq![0xFFu8] + be_bytes(utf16_of(s).len(), 2) + units_bytes(utf16_of(s))
}

proof fn lemma_utf16_len_bound(s: Seq<char>)
    ensures
        utf16_of(s).len() <= 2 * s.len(),
    decreases s.len(),
{
    if s.len() > 0 {
        lemma_utf16_len_bound(s.drop_last());
    }
}

fn push_unit(out: &mut Vec<u8>, u: u16)
    ensures
        final(out)@ == old(out)@ + be_bytes(u as nat, 2),
{
    out.push((u / 256) as u8);
    out.push((u % 256) as u8);
    proof {
        reveal_with_fuel(be_bytes, 3);
        assert((u as nat / 256) / 256 == 0);
    }
    assert(out@ =~= old(out)@ + be_bytes(u as nat, 2));
}

/// The legacy kick packet that carries `status_line`.
pub fn legacy_kick_packet(status_line: &str) -> (r: Vec<u8>)
    requires
        utf16_of(status_line@).len() <= 0xFFFF,
    ensures
        r@ == legacy_kick_bytes(status_line@),
{
    let n = status_line.unicode_len();
    let mut units: Vec<u16> = Vec::new();
    let mut i: usize = 0;
    while i < n
        invariant
            n == status_line@.len(),
            i <= n,
            units@ == utf16_of(status_line@.subrange(0, i as int)),
        decreases n - i,
    {
        let c = status_line.get_char(i);
        let v = c as u32;
        if v < 0x10000 {
            units.push(v as u16);
        } else {
            units.push((0xD800 + (v - 0x10000) / 0x400) as u16);
            units.push((0xDC00 + (v - 0x10000) % 0x400) as u16);
        }
        proof {
            let next = status_line@.subrange(0, i + 1);
            assert(next.drop_last() =~= status_line@.subrange(0, i as int));
            assert(next.last() == c);
        }
        i = i + 1;
        assert(units@ =~= utf16_of(status_line@.subrange(0, i as int)));
    }
    assert(status_line@.subrange(0, n as int) =~= status_line@);
    let count = units.len();
    let mut out: Vec<u8> = Vec::new();
    out.push(0xFF);
    push_unit(&mut out, count as u16);
    let mut j: usize = 0;
    while j < count
        invariant
            count == units@.len(),
            units@ == utf16_of(status_line@),
            j <= count,
            out@ == seq![0xFFu8] + be_bytes(count as nat, 2) + units_bytes(units@.subrange(0, j as int)),
        decreases count - j,
    {
        push_unit(&mut out, units[j]);
        proof {
            let next = units@.subrange(0, j + 1);
            assert(next.drop_last() =~= units@.subrange(0, j as int));
        }
        j = j + 1;
        assert(out@ =~= seq![0xFFu8] + be_bytes(count as nat, 2) + units_bytes(units@.subrange(0, j as int)));
    }
    assert(units@.subrange(0, count as int) =~= units@);
    out
}

/// A name for what `String::from_utf16_lossy` makes of some code units.
pub uninterp spec fn utf16_lossy(units: Seq<u16>) -> Seq<char>;

/// Relies on `String::from_utf16_lossy`: decodes UTF-16, each invalid code
/// unit becoming U+FFFD; the result depends on the code units alone.
#[verifier::external_body]
fn string_from_utf16_lossy(units: &[u16]) -> (r: String)
    ensures
        r@ == utf16_lossy(units@),
{
    String::from_utf16_lossy(units)
}

/// The plugin message of a 1.6 ping, after its three-byte prefix.
#[derive(Debug)]
pub struct Legacy16PingRequest {
    pub plugin_message_id: String,
    pub plugin_message_length: u16,
    pub protocol_version: u8,
    pub hostname: String,
    pub port: i32,
    /// The plugin message id is `MC|PingHost`.
    pub ping_host: bool,
    /// The declared message length matches the bytes that were read.
    pub length_consistent: bool,
}

/// Reading a string of UTF-16 code units, counted by a big-endian `u16`,
/// at `pos`: its code units and the position after it; none if the bytes
/// run out.
pub open spec fn utf16_string_at(b: Seq<u8>, pos: int) -> Option<(Seq<u16>, int)> {
    if pos + 2 > b.len() {
        None
    } else {
        let count = be_value(b.subrange(pos as int, pos + 2));
        if pos + 2 + 2 * count > b.len() {
            None
        } else {
            Some(
                (
                    Seq::new(count, |k: int| be_value(b.subrange(pos + 2 + 2 * k, pos + 4 + 2 * k)) as u16),
                    pos + 2 + 2 * count,
                ),
            )
        }
    }
}

/// The fields of a 1.6 ping's plugin message, and its length in bytes.
pub struct Legacy16View {
    pub id_units: Seq<u16>,
    pub message_length: u16,
    pub protocol_version: u8,
    pub host_units: Seq<u16>,
    pub port: i32,
    pub len: int,
}

/// What the bytes after a 1.6 ping's prefix read as; none while they are
/// incomplete.
pub open spec fn legacy16_parse(b: Seq<u8>) -> Option<Legacy16View> {
    match utf16_string_at(b, 0) {
        None => None,
        Some((id, p)) => if p + 3 > b.len() {
            None
        } else {
            match utf16_string_at(b, p + 3) {
                None => None,
                Some((host, q)) => if q + 4 > b.len() {
                    None
                } else {
                    Some(
                        Legacy16View {
                            id_units: id,
                            message_length: be_value(b.subrange(p as int, p + 2)) as u16,
                            protocol_version: b[p + 2],
                            host_units: host,
                            port: be_value(b.subrange(q as int, q + 4)) as u32 as i32,
                            len: q + 4,
                        },
                    )
                },
            }
        },
    }
}

fn read_u16_at(b: &[u8], pos: usize) -> (r: u16)
    requires
        pos + 2 <= b@.len(),
    ensures
        r == be_value(b@.subrange(pos as int, pos + 2)),
{
    let ghost s = b@.subrange(pos as int, pos + 2);
    proof {
        reveal_with_fuel(be_value, 3);
        assert(s.drop_last().drop_last() =~= seq![]);
        assert(s.drop_last() =~= seq![b@[pos as int]]);
    }
    (b[pos] as u16) * 256 + b[pos + 1] as u16
}

fn read_utf16_string_at(b: &[u8], pos: usize) -> (r: Option<(Vec<u16>, usize)>)
    requires
        pos <= b@.len(),
    ensures
        match utf16_string_at(b@, pos as int) {
            None => r is None,
            Some((u, p)) => r is Some && r->Some_0.0@ == u && r->Some_0.1 == p,
        },
{
    let total = b.len();
    if b.len() - pos < 2 {
        return None;
    }
    let count = read_u16_at(b, pos) as usize;
    if count > (b.len() - pos - 2) / 2 {
        return None;
    }
    let mut units: Vec<u16> = Vec::new();
    let mut k: usize = 0;
    while k < count
        invariant
            total == b@.len(),
            pos + 2 + 2 * count <= b@.len(),
            k <= count,
            units@.len() == k,
            forall|m: int| 0 <= m < k ==> units@[m] == be_value(b@.subrange(pos + 2 + 2 * m, pos + 4 + 2 * m)) as u16,
        decreases count - k,
    {
        let u = read_u16_at(b, pos + 2 + 2 * k);
        units.push(u);
        k = k + 1;
    }
    let ghost spec_units = Seq::new(count as nat, |m: int| be_value(b@.subrange(pos + 2 + 2 * m, pos + 4 + 2 * m)) as u16);
    assert(units@ =~= spec_units);
    Some((units, pos + 2 + 2 * count))
}

fn read_i32_at(b: &[u8], pos: usize) -> (r: i32)
    requires
        pos + 4 <= b@.len(),
    ensures
        r == be_value(b@.subrange(pos as int, pos + 4)) as u32 as i32,
{
    let total = b.len();
    let hi = read_u16_at(b, pos) as u32;
    let lo = read_u16_at(b, pos + 2) as u32;
    let ghost s = b@.subrange(pos as int, pos + 4);
    proof {
        reveal_with_fuel(be_value, 5);
        assert(s.drop_last().drop_last() =~= b@.subrange(pos as int, pos + 2));
        assert(s.drop_last().drop_last().drop_last() =~= seq![b@[pos as int]]);
        assert(b@.subrange(pos as int, pos + 2).drop_last() =~= seq![b@[pos as int]]);
        assert(b@.subrange(pos + 2, pos + 4).drop_last() =~= seq![b@[pos + 2]]);
        assert(s.drop_last() =~= b@.subrange(pos as int, pos + 2).push(b@[pos + 2]));
    }
    (hi * 65536 + lo) as i32
}

/// Whether two unit sequences are equal.
fn same_units(a: &[u16], b: &[u16]) -> (r: bool)
    ensures
        r == (a@ == b@),
{
    if a.len() != b.len() {
        return false;
    }
    let mut i: usize = 0;
    while i < a.len()
        invariant
            a@.len() == b@.len(),
            i <= a@.len(),
            a@.subrange(0, i as int) == b@.subrange(0, i as int),
        decreases a@.len() - i,
    {
        if a[i] != b[i] {
            assert(a@[i as int] != b@[i as int]);
            return false;
        }
        i = i + 1;
        assert(a@.subrange(0, i as int) =~= a@.subrange(0, i as int - 1).push(a@[i as int - 1]));
        assert(b@.subrange(0, i as int) =~= b@.subrange(0, i as int - 1).push(b@[i as int - 1]));
    }
    assert(a@ =~= a@.subrange(0, a@.len() as int));
    assert(b@ =~= b@.subrange(0, b@.len() as int));
    true
}

/// The code units of `MC|PingHost`.
pub open spec fn ping_host_units() -> Seq<u16> {
    seq![77u16, 67, 124, 80, 105, 110, 103, 72, 111, 115, 116]
}

/// The length that the message declares for itself: the id's length field
/// and units, the length field, and the length it gives.
pub open spec fn declared_len(v: Legacy16View) -> int {
    2 + 2 * v.id_units.len() + 2 + v.message_length
}

impl Legacy16PingRequest {
    /// Reads the plugin message that follows a 1.6 ping's prefix: the
    /// request and the number of bytes it took, or none while incomplete.
    pub fn parse(b: &[u8]) -> (r: Option<(Legacy16PingRequest, usize)>)
        ensures
            match legacy16_parse(b@) {
                None => r is None,
                Some(v) => r is Some && {
                    let (req, n) = r->Some_0;
                    &&& n == v.len
                    &&& req.plugin_message_id@ == utf16_lossy(v.id_units)
                    &&& req.plugin_message_length == v.message_length
                    &&& req.protocol_version == v.protocol_version
                    &&& req.hostname@ == utf16_lossy(v.host_units)
                    &&& req.port == v.port
                    &&& req.ping_host == (v.id_units == ping_host_units())
                    &&& req.length_consistent == (v.len == declared_len(v))
                },
            },
    {
        let total = b.len();
        let (id_units, p) = match read_utf16_string_at(b, 0) {
            Some(v) => v,
            None => return None,
        };
        if b.len() - p < 3 {
            return None;
        }
        let plugin_message_length = read_u16_at(b, p);
        let protocol_version = b[p + 2];
        let (host_units, q) = match read_utf16_string_at(b, p + 3) {
            Some(v) => v,
            None => return None,
        };
        if b.len() - q < 4 {
            return None;
        }
        let port = read_i32_at(b, q);
        let expected: Vec<u16> = vec![77u16, 67, 124, 80, 105, 110, 103, 72, 111, 115, 116];
        assert(expected@ =~= ping_host_units());
        let ping_host = same_units(id_units.as_slice(), expected.as_slice());
        let len = q + 4;
        let length_consistent = (len as u128) == 4 + 2 * (id_units.len() as u128) + plugin_message_length as u128;
        let req = Legacy16PingRequest {
            plugin_message_id: string_from_utf16_lossy(id_units.as_slice()),
            plugin_message_length,
            protocol_version,
            hostname: string_from_utf16_lossy(host_units.as_slice()),
            port,
            ping_host,
            length_consistent,
        };
        Some((req, len))
    }
}

} // verus!
