//! Primitive wire codec: VarInt, big-endian fixed-width integers, booleans
//! and length-prefixed UTF-8 strings.

use vstd::prelude::*;
use vstd::utf8::*;
use vstd::string::*;

verus! {

/// Structural violations of the wire format.
#[derive(Debug, Clone, Copy, PartialEq, Eq, Structural)]
pub enum ProtoError {
    /// The input ended in the middle of a value or a frame.
    UnexpectedEof,
    /// A VarInt still had its continuation bit set on its fifth byte.
    VarIntTooLong,
    /// A string length was negative or above the limit, or its bytes were not UTF-8.
    BadString,
    /// A frame carried another packet than the one expected.
    WrongPacketId { expected: i32, got: i32 },
    /// A handshake declared a next state that is not understood.
    InvalidNextState,
}

/// The 32-bit pattern of `x`, read as an unsigned number.
pub open spec fn unsigned_of(x: i32) -> nat {
    if x >= 0 {
        x as nat
    } else {
        (x + 0x1_0000_0000) as nat
    }
}

/// The low 32 bits of `u`, read as a two's complement number.
pub open spec fn signed_of(u: nat) -> i32 {
    let w = u % 0x1_0000_0000;
    if w < 0x8000_0000 {
        w as i32
    } else {
        (w - 0x1_0000_0000) as i32
    }
}

/// Seven-bit groups of `v`, least significant first; every byte but the last
/// has its high bit set.
pub open spec fn varint_digits(v: nat) -> Seq<u8>
    decreases v,
{
    if v < 128 {
        seq![v as u8]
    } else {
        seq![(v % 128 + 128) as u8] + varint_digits(v / 128)
    }
}

/// The VarInt encoding of `x`.
pub open spec fn varint_bytes(x: i32) -> Seq<u8> {
    varint_digits(unsigned_of(x))
}

/// Scanning a VarInt from position `i` of `s`, with `acc` the value of the
/// groups already read and `mult` the weight of the next group. At most five
/// bytes are read; the result is the raw value and the index after the VarInt.
pub open spec fn varint_scan(s: Seq<u8>, i: nat, acc: nat, mult: nat) -> Result<(nat, nat), ProtoError>
    decreases 5 - i,
{
    if i >= 5 {
        Err(ProtoError::VarIntTooLong)
    } else if i >= s.len() {
        Err(ProtoError::UnexpectedEof)
    } else if s[i as int] < 128 {
        Ok(((acc + s[i as int] * mult) as nat, i + 1))
    } else {
        varint_scan(s, i + 1, (acc + (s[i as int] - 128) * mult) as nat, mult * 128)
    }
}

/// Decoding a VarInt at the start of `s`: its value and the number of bytes it took.
pub open spec fn varint_decode(s: Seq<u8>) -> Result<(i32, nat), ProtoError> {
    match varint_scan(s, 0, 0, 1) {
        Ok((v, n)) => Ok((signed_of(v), n)),
        Err(e) => Err(e),
    }
}

proof fn lemma_digits_scan(s: Seq<u8>, i: nat, acc: nat, mult: nat, v: nat)
    requires
        i + varint_digits(v).len() <= 5,
        i + varint_digits(v).len() <= s.len(),
        s.subrange(i as int, (i + varint_digits(v).len()) as int) == varint_digits(v),
    ensures
        varint_scan(s, i, acc, mult) == Ok::<(nat, nat), ProtoError>((acc + mult * v, i + varint_digits(v).len())),
    decreases v,
{
    let d = varint_digits(v);
    assert(s[i as int] == d[0]);
    if v < 128 {
        assert(s[i as int] == v);
        assert(s[i as int] * mult == mult * v) by (nonlinear_arith)
            requires s[i as int] == v;
    } else {
        assert(s[i as int] - 128 == v % 128);
        let rest = varint_digits(v / 128);
        assert(d == seq![(v % 128 + 128) as u8] + rest);
        assert(s.subrange((i + 1) as int, (i + 1 + rest.len()) as int) =~= rest) by {
            assert forall|k: int| 0 <= k < rest.len() implies s[i + 1 + k] == rest[k] by {
                assert(s.subrange(i as int, (i + d.len()) as int)[k + 1] == d[k + 1]);
            }
        }
        lemma_digits_scan(s, i + 1, acc + (v % 128) * mult, mult * 128, v / 128);
        assert(acc + (v % 128) * mult + mult * 128 * (v / 128) == acc + mult * v) by (nonlinear_arith);
    }
}

proof fn lemma_digits_len(v: nat, k: nat)
    requires
        1 <= k,
        v < pow128(k),
    ensures
        1 <= varint_digits(v).len() <= k,
    decreases v,
{
    if v >= 128 {
        if k == 1 {
            assert(pow128(1) == 128 * pow128(0));
        } else {
            assert(pow128(k) == 128 * pow128((k - 1) as nat));
            assert(v / 128 < pow128((k - 1) as nat)) by (nonlinear_arith)
                requires v < 128 * pow128((k - 1) as nat);
            lemma_digits_len(v / 128, (k - 1) as nat);
        }
    }
}

/// `128` raised to `k`.
pub open spec fn pow128(k: nat) -> nat
    decreases k,
{
    if k == 0 {
        1
    } else {
        128 * pow128((k - 1) as nat)
    }
}

proof fn lemma_pow128_values()
    ensures
        pow128(0) == 1,
        pow128(1) == 0x80,
        pow128(2) == 0x4000,
        pow128(3) == 0x20_0000,
        pow128(4) == 0x1000_0000,
        pow128(5) == 0x8_0000_0000,
{
    reveal_with_fuel(pow128, 6);
}

/// Decoding the encoding of any `i32`, followed by anything, gives back the
/// value and the encoding's length, which is between one and five bytes.
pub proof fn lemma_varint_round_trip(x: i32, rest: Seq<u8>)
    ensures
        1 <= varint_bytes(x).len() <= 5,
        varint_decode(varint_bytes(x) + rest) == Ok::<(i32, nat), ProtoError>((x, varint_bytes(x).len())),
{
    let u = unsigned_of(x);
    lemma_pow128_values();
    lemma_digits_len(u, 5);
    let s = varint_bytes(x) + rest;
    assert(s.subrange(0, varint_bytes(x).len() as int) =~= varint_bytes(x));
    lemma_digits_scan(s, 0, 0, 1, u);
    assert(signed_of(u) == x);
}

/// Five bytes with their continuation bits set are never a VarInt.
pub proof fn lemma_varint_too_long(s: Seq<u8>)
    requires
        s.len() >= 5,
        forall|k: int| 0 <= k < 5 ==> s[k] >= 128,
    ensures
        varint_decode(s) == Err::<(i32, nat), ProtoError>(ProtoError::VarIntTooLong),
{
    assert(varint_scan(s, 5, 0, 1) is Err);
    reveal_with_fuel(varint_scan, 6);
}

/// Appends the VarInt encoding of `value` and returns its length.
pub fn write_varint(out: &mut Vec<u8>, value: i32) -> (r: usize)
    ensures
        final(out)@ == old(out)@ + varint_bytes(value),
        r == varint_bytes(value).len(),
{
    let start_len = out.len();
    let mut input: u64 = if value >= 0 {
        value as u64
    } else {
        (value as i64 + 0x1_0000_0000) as u64
    };
    let ghost start = out@;
    while input >= 128
        invariant
            input <= 0xFFFF_FFFF,
            start + varint_bytes(value) == out@ + varint_digits(input as nat),
        decreases input,
    {
        let byte: u8 = (input % 128 + 128) as u8;
        let ghost before = out@;
        out.push(byte);
        proof {
            assert(varint_digits(input as nat) == seq![byte] + varint_digits((input / 128) as nat));
            assert(out@ + varint_digits((input / 128) as nat) =~= before + varint_digits(input as nat));
        }
        input = input / 128;
    }
    out.push(input as u8);
    assert(out@ =~= start + varint_bytes(value));
    out.len() - start_len
}

/// Reads a VarInt from `buf` at `pos`: its value and the number of bytes it took.
pub fn read_varint(buf: &[u8], pos: usize) -> (r: Result<(i32, usize), ProtoError>)
    requires
        pos <= buf@.len(),
    ensures
        match r {
            Ok((v, n)) => varint_decode(buf@.subrange(pos as int, buf@.len() as int)) == Ok::<(i32, nat), ProtoError>((v, n as nat)),
            Err(e) => varint_decode(buf@.subrange(pos as int, buf@.len() as int)) == Err::<(i32, nat), ProtoError>(e),
        },
        r is Ok ==> 1 <= r->Ok_0.1 <= buf@.len() - pos,
{
    let ghost s = buf@.subrange(pos as int, buf@.len() as int);
    let mut i: usize = 0;
    let mut acc: u64 = 0;
    let mut mult: u64 = 1;
    while i < 5
        invariant
            i <= 5,
            pos <= buf@.len(),
            s == buf@.subrange(pos as int, buf@.len() as int),
            mult == pow128(i as nat),
            acc < mult,
            varint_scan(s, i as nat, acc as nat, mult as nat) == varint_scan(s, 0, 0, 1),
        decreases 5 - i,
    {
        if i >= buf.len() - pos {
            return Err(ProtoError::UnexpectedEof);
        }
        let byte = buf[pos + i];
        assert(s[i as int] == byte);
        assert(mult <= 0x1000_0000) by {
            lemma_pow128_values();
        }
        assert((byte as u64) * mult <= 0x10_0000_0000) by (nonlinear_arith)
            requires byte < 256, mult <= 0x1000_0000;
        if byte < 128 {
            let value: u64 = acc + (byte as u64) * mult;
            assert(value < 0x8_0000_0000) by (nonlinear_arith)
                requires value == acc + (byte as u64) * mult, acc < mult, byte < 128, mult <= 0x1000_0000;
            let low: u64 = value % 0x1_0000_0000;
            let v: i32 = if low < 0x8000_0000 {
                low as i32
            } else {
                (low as i64 - 0x1_0000_0000) as i32
            };
            return Ok((v, i + 1));
        }
        assert(acc + ((byte - 128) as u64) * mult < mult * 128) by (nonlinear_arith)
            requires acc < mult, byte < 256, byte >= 128;
        let next: u64 = acc + ((byte - 128) as u64) * mult;
        acc = next;
        mult = mult * 128;
        i = i + 1;
    }
    Err(ProtoError::VarIntTooLong)
}

/// `256` raised to `n`.
pub open spec fn pow256(n: nat) -> nat
    decreases n,
{
    if n == 0 {
        1
    } else {
        256 * pow256((n - 1) as nat)
    }
}

/// The low `n` bytes of `v`, most significant first.
pub open spec fn be_bytes(v: nat, n: nat) -> Seq<u8>
    decreases n,
{
    if n == 0 {
        seq![]
    } else {
        be_bytes(v / 256, (n - 1) as nat).push((v % 256) as u8)
    }
}

/// The number whose big-endian bytes are `s`.
pub open spec fn be_value(s: Seq<u8>) -> nat
    decreases s.len(),
{
    if s.len() == 0 {
        0
    } else {
        (be_value(s.drop_last()) * 256 + s.last()) as nat
    }
}

proof fn lemma_be_value_bound(s: Seq<u8>)
    ensures
        be_value(s) < pow256(s.len()),
    decreases s.len(),
{
    if s.len() > 0 {
        lemma_be_value_bound(s.drop_last());
        let h = be_value(s.drop_last());
        let p = pow256((s.len() - 1) as nat);
        assert(h * 256 + s.last() < 256 * p) by (nonlinear_arith)
            requires h < p, s.last() < 256;
    }
}

/// Reading back `n` big-endian bytes of a number below `256^n` gives the number.
pub proof fn lemma_be_round_trip(v: nat, n: nat)
    requires
        v < pow256(n),
    ensures
        be_bytes(v, n).len() == n,
        be_value(be_bytes(v, n)) == v,
    decreases n,
{
    if n > 0 {
        let p = pow256((n - 1) as nat);
        assert(v / 256 < p) by (nonlinear_arith)
            requires v < 256 * p;
        lemma_be_round_trip(v / 256, (n - 1) as nat);
        assert(be_bytes(v, n).drop_last() == be_bytes(v / 256, (n - 1) as nat));
    } else {
        assert(v == 0);
    }
}

proof fn lemma_pow256_values()
    ensures
        pow256(1) == 0x100,
        pow256(2) == 0x1_0000,
        pow256(4) == 0x1_0000_0000,
        pow256(7) == 0x100_0000_0000_0000,
        pow256(8) == 0x1_0000_0000_0000_0000,
{
    reveal_with_fuel(pow256, 9);
}

/// Appends the low `n` bytes of `v`, most significant first.
fn write_be(out: &mut Vec<u8>, v: u64, n: usize)
    requires
        n <= 8,
    ensures
        final(out)@ == old(out)@ + be_bytes(v as nat, n as nat),
    decreases n,
{
    if n > 0 {
        write_be(out, v / 256, n - 1);
        out.push((v % 256) as u8);
        assert(out@ =~= old(out)@ + be_bytes(v as nat, n as nat)) by {
            assert(be_bytes(v as nat, n as nat) == be_bytes((v / 256) as nat, (n - 1) as nat).push((v % 256) as u8));
        }
    } else {
        assert(out@ =~= old(out)@ + be_bytes(v as nat, n as nat));
    }
}

/// Reads `n` big-endian bytes of `buf` at `pos`.
fn read_be(buf: &[u8], pos: usize, n: usize) -> (r: u64)
    requires
        n <= 8,
        pos + n <= buf@.len(),
    ensures
        r == be_value(buf@.subrange(pos as int, pos + n)),
    decreases n,
{
    if n == 0 {
        0
    } else {
        let total = buf.len();
        let hi = read_be(buf, pos, n - 1);
        let ghost s = buf@.subrange(pos as int, pos + n);
        proof {
            assert(s.drop_last() =~= buf@.subrange(pos as int, pos + n - 1));
            lemma_be_value_bound(s.drop_last());
            assert(pow256((n - 1) as nat) <= 0x100_0000_0000_0000) by {
                reveal_with_fuel(pow256, 8);
            }
        }
        hi * 256 + buf[pos + (n - 1)] as u64
    }
}

/// The 64-bit pattern of `x`, read as an unsigned number.
pub open spec fn unsigned64_of(x: i64) -> nat {
    if x >= 0 {
        x as nat
    } else {
        (x + 0x1_0000_0000_0000_0000) as nat
    }
}

/// The 64-bit pattern `u`, read as a two's complement number.
pub open spec fn signed64_of(u: nat) -> i64 {
    if u < 0x8000_0000_0000_0000 {
        u as i64
    } else {
        (u - 0x1_0000_0000_0000_0000) as i64
    }
}

/// The encoding of an `i64`: eight bytes, big-endian, two's complement.
pub open spec fn long_bytes(x: i64) -> Seq<u8> {
    be_bytes(unsigned64_of(x), 8)
}

/// The encoding of a `u16`: two bytes, big-endian.
pub open spec fn ushort_bytes(x: u16) -> Seq<u8> {
    be_bytes(x as nat, 2)
}

/// Appends `x` as two big-endian bytes.
pub fn write_ushort(out: &mut Vec<u8>, x: u16)
    ensures
        final(out)@ == old(out)@ + ushort_bytes(x),
{
    write_be(out, x as u64, 2);
}

/// Reads a big-endian `u16` at `pos`.
pub fn read_ushort(buf: &[u8], pos: usize) -> (r: Result<u16, ProtoError>)
    requires
        pos <= buf@.len(),
    ensures
        buf@.len() - pos < 2 ==> r == Err::<u16, ProtoError>(ProtoError::UnexpectedEof),
        buf@.len() - pos >= 2 ==> r is Ok && r->Ok_0 as nat == be_value(buf@.subrange(pos as int, pos + 2)),
{
    if buf.len() - pos < 2 {
        return Err(ProtoError::UnexpectedEof);
    }
    let v = read_be(buf, pos, 2);
    proof {
        lemma_be_value_bound(buf@.subrange(pos as int, pos + 2));
        lemma_pow256_values();
    }
    Ok(v as u16)
}

/// Appends `x` as eight big-endian bytes.
pub fn write_long(out: &mut Vec<u8>, x: i64)
    ensures
        final(out)@ == old(out)@ + long_bytes(x),
{
    let u: u64 = if x >= 0 {
        x as u64
    } else {
        (x as i128 + 0x1_0000_0000_0000_0000) as u64
    };
    write_be(out, u, 8);
}

/// Reads a big-endian `i64` at `pos`.
pub fn read_long(buf: &[u8], pos: usize) -> (r: Result<i64, ProtoError>)
    requires
        pos <= buf@.len(),
    ensures
        buf@.len() - pos < 8 ==> r == Err::<i64, ProtoError>(ProtoError::UnexpectedEof),
        buf@.len() - pos >= 8 ==> r == Ok::<i64, ProtoError>(signed64_of(be_value(buf@.subrange(pos as int, pos + 8)))),
{
    if buf.len() - pos < 8 {
        return Err(ProtoError::UnexpectedEof);
    }
    let u = read_be(buf, pos, 8);
    if u < 0x8000_0000_0000_0000 {
        Ok(u as i64)
    } else {
        Ok((u as i128 - 0x1_0000_0000_0000_0000) as i64)
    }
}

/// Eight bytes written by `write_long` read back as the same `i64`.
pub proof fn lemma_long_round_trip(x: i64)
    ensures
        long_bytes(x).len() == 8,
        signed64_of(be_value(long_bytes(x))) == x,
{
    lemma_pow256_values();
    lemma_be_round_trip(unsigned64_of(x), 8);
}

/// Two bytes written by `write_ushort` read back as the same `u16`.
pub proof fn lemma_ushort_round_trip(x: u16)
    ensures
        ushort_bytes(x).len() == 2,
        be_value(ushort_bytes(x)) == x,
{
    lemma_pow256_values();
    lemma_be_round_trip(x as nat, 2);
}

/// Appends `x` as eight big-endian bytes.
pub fn write_u64(out: &mut Vec<u8>, x: u64)
    ensures
        final(out)@ == old(out)@ + be_bytes(x as nat, 8),
{
    write_be(out, x, 8);
}

/// Reads a big-endian `u64` at `pos`.
pub fn read_u64(buf: &[u8], pos: usize) -> (r: Result<u64, ProtoError>)
    requires
        pos <= buf@.len(),
    ensures
        buf@.len() - pos < 8 ==> r == Err::<u64, ProtoError>(ProtoError::UnexpectedEof),
        buf@.len() - pos >= 8 ==> r == Ok::<u64, ProtoError>(be_value(buf@.subrange(pos as int, pos + 8)) as u64),
{
    if buf.len() - pos < 8 {
        return Err(ProtoError::UnexpectedEof);
    }
    let v = read_be(buf, pos, 8);
    Ok(v)
}

/// Appends a boolean as one byte, `1` or `0`.
pub fn write_boolean(out: &mut Vec<u8>, b: bool)
    ensures
        final(out)@ == old(out)@.push(if b { 1u8 } else { 0u8 }),
{
    out.push(if b { 1u8 } else { 0u8 });
}

/// Reads a boolean at `pos`: true when the low bit of the byte is set.
pub fn read_boolean(buf: &[u8], pos: usize) -> (r: Result<bool, ProtoError>)
    requires
        pos <= buf@.len(),
    ensures
        pos == buf@.len() ==> r == Err::<bool, ProtoError>(ProtoError::UnexpectedEof),
        pos < buf@.len() ==> r == Ok::<bool, ProtoError>(buf@[pos as int] % 2 == 1),
{
    if pos == buf.len() {
        return Err(ProtoError::UnexpectedEof);
    }
    Ok(buf[pos] % 2 == 1)
}

/// Appends every byte of `bytes`.
pub fn append_bytes(out: &mut Vec<u8>, bytes: &[u8])
    ensures
        final(out)@ == old(out)@ + bytes@,
{
    let mut i: usize = 0;
    while i < bytes.len()
        invariant
            i <= bytes@.len(),
            out@ == old(out)@ + bytes@.subrange(0, i as int),
        decreases bytes@.len() - i,
    {
        out.push(bytes[i]);
        i = i + 1;
        assert(out@ =~= old(out)@ + bytes@.subrange(0, i as int));
    }
    assert(bytes@.subrange(0, i as int) =~= bytes@);
}

/// Copies `buf[from..to]` into a new vector.
pub fn copy_range(buf: &[u8], from: usize, to: usize) -> (r: Vec<u8>)
    requires
        from <= to <= buf@.len(),
    ensures
        r@ == buf@.subrange(from as int, to as int),
{
    let mut r: Vec<u8> = Vec::new();
    let mut i: usize = from;
    while i < to
        invariant
            from <= i <= to <= buf@.len(),
            r@ == buf@.subrange(from as int, i as int),
        decreases to - i,
    {
        r.push(buf[i]);
        i = i + 1;
        assert(r@ =~= buf@.subrange(from as int, i as int));
    }
    r
}

/// The encoding of a string: its UTF-8 byte length as a VarInt, then the bytes.
pub open spec fn string_bytes(s: Seq<char>) -> Seq<u8> {
    varint_bytes(encode_utf8(s).len() as i32) + encode_utf8(s)
}

/// Decoding a string of at most `max` bytes at the start of `s`: its
/// characters and the number of bytes it took.
pub open spec fn string_decode(s: Seq<u8>, max: nat) -> Result<(Seq<char>, nat), ProtoError> {
    match varint_decode(s) {
        Err(e) => Err(e),
        Ok((len, k)) => if len < 0 || len > max {
            Err(ProtoError::BadString)
        } else if k + len > s.len() {
            Err(ProtoError::UnexpectedEof)
        } else if !valid_utf8(s.subrange(k as int, k + len)) {
            Err(ProtoError::BadString)
        } else {
            Ok((decode_utf8(s.subrange(k as int, k + len)), (k + len) as nat))
        },
    }
}

/// Relies on `String::from_utf8`: it succeeds exactly on valid UTF-8, and
/// the string it returns holds the characters those bytes encode.
#[verifier::external_body]
fn string_from_utf8(bytes: Vec<u8>) -> (r: Option<String>)
    ensures
        r is Some <==> valid_utf8(bytes@),
        r is Some ==> r->Some_0@ == decode_utf8(bytes@),
{
    String::from_utf8(bytes).ok()
}

/// Appends `s` as a length-prefixed UTF-8 string.
pub fn write_string(out: &mut Vec<u8>, s: &str)
    requires
        encode_utf8(s@).len() <= i32::MAX,
    ensures
        final(out)@ == old(out)@ + string_bytes(s@),
{
    let bytes = s.as_bytes();
    write_varint(out, bytes.len() as i32);
    append_bytes(out, bytes);
    assert(out@ =~= old(out)@ + string_bytes(s@));
}

/// Reads a length-prefixed UTF-8 string of at most `max` bytes at `pos`:
/// the string and the number of bytes it took.
pub fn read_string(buf: &[u8], pos: usize, max: usize) -> (r: Result<(String, usize), ProtoError>)
    requires
        pos <= buf@.len(),
    ensures
        match string_decode(buf@.subrange(pos as int, buf@.len() as int), max as nat) {
            Ok((text, n)) => r is Ok && r->Ok_0.0@ == text && r->Ok_0.1 == n,
            Err(e) => r == Err::<(String, usize), ProtoError>(e),
        },
{
    let ghost s = buf@.subrange(pos as int, buf@.len() as int);
    let (len, k) = match read_varint(buf, pos) {
        Ok(v) => v,
        Err(e) => return Err(e),
    };
    assert(varint_decode(s) == Ok::<(i32, nat), ProtoError>((len, k as nat)));
    if len < 0 || len as usize > max {
        return Err(ProtoError::BadString);
    }
    let len = len as usize;
    if len > buf.len() - pos - k {
        return Err(ProtoError::UnexpectedEof);
    }
    let bytes = copy_range(buf, pos + k, pos + k + len);
    assert(bytes@ =~= buf@.subrange(pos as int, buf@.len() as int).subrange(k as int, k + len));
    match string_from_utf8(bytes) {
        Some(text) => Ok((text, k + len)),
        None => Err(ProtoError::BadString),
    }
}

/// Every string of at most `max` UTF-8 bytes, followed by anything, decodes
/// back to itself.
pub proof fn lemma_string_round_trip(s: Seq<char>, max: nat, rest: Seq<u8>)
    requires
        encode_utf8(s).len() <= max,
        encode_utf8(s).len() <= i32::MAX,
    ensures
        string_decode(string_bytes(s) + rest, max) == Ok::<(Seq<char>, nat), ProtoError>((s, string_bytes(s).len())),
{
    let b = encode_utf8(s);
    let l = b.len() as i32;
    lemma_varint_round_trip(l, b + rest);
    assert(string_bytes(s) + rest =~= varint_bytes(l) + (b + rest));
    let all = string_bytes(s) + rest;
    let k = varint_bytes(l).len();
    assert(all.subrange(k as int, k + l) =~= b);
    encode_utf8_valid_utf8(s);
    encode_utf8_decode_utf8(s);
}

} // verus!
