//! Length-prefixed packet frames: `VarInt(length) || VarInt(id) || payload`.

use vstd::prelude::*;
use crate::codec::{
    append_bytes, lemma_varint_round_trip, read_varint, varint_bytes, varint_decode, write_varint,
    ProtoError,
};

verus! {

/// The frame of a packet with id `id` and payload `payload`.
pub open spec fn frame_bytes(id: i32, payload: Seq<u8>) -> Seq<u8> {
    varint_bytes((varint_bytes(id).len() + payload.len()) as i32) + varint_bytes(id) + payload
}

/// Reading one frame at the start of `s`: the packet id, the payload, and
/// the number of bytes the frame took.
pub open spec fn frame_decode(s: Seq<u8>) -> Result<(i32, Seq<u8>, nat), ProtoError> {
    match varint_decode(s) {
        Err(e) => Err(e),
        Ok((len, k)) => if len < 0 || k + len > s.len() {
            Err(ProtoError::UnexpectedEof)
        } else {
            let body = s.subrange(k as int, k + len);
            match varint_decode(body) {
                Err(e) => Err(e),
                Ok((id, j)) => Ok((id, body.subrange(j as int, body.len() as int), (k + len) as nat)),
            }
        },
    }
}

/// A payload short enough for its frame length to be a VarInt.
pub open spec fn payload_fits(payload: Seq<u8>) -> bool {
    payload.len() + 5 <= i32::MAX
}

/// A frame, followed by anything, reads back as its id and payload.
pub proof fn lemma_frame_round_trip(id: i32, payload: Seq<u8>, rest: Seq<u8>)
    requires
        payload_fits(payload),
    ensures
        frame_decode(frame_bytes(id, payload) + rest) == Ok::<(i32, Seq<u8>, nat), ProtoError>(
            (id, payload, frame_bytes(id, payload).len()),
        ),
{
    let idb = varint_bytes(id);
    lemma_varint_round_trip(id, payload);
    let len = (idb.len() + payload.len()) as i32;
    let body = idb + payload;
    lemma_varint_round_trip(len, body + rest);
    let s = frame_bytes(id, payload) + rest;
    assert(s =~= varint_bytes(len) + (body + rest));
    let k = varint_bytes(len).len();
    assert(s.subrange(k as int, k + len) =~= body);
    assert(body.subrange(idb.len() as int, body.len() as int) =~= payload);
}

/// Appends the frame of a packet with id `id` and payload `payload`.
pub fn write_frame(out: &mut Vec<u8>, id: i32, payload: &[u8])
    requires
        payload_fits(payload@),
    ensures
        final(out)@ == old(out)@ + frame_bytes(id, payload@),
{
    let mut body: Vec<u8> = Vec::new();
    write_varint(&mut body, id);
    append_bytes(&mut body, payload);
    proof {
        lemma_varint_round_trip(id, seq![]);
    }
    write_varint(out, body.len() as i32);
    append_bytes(out, body.as_slice());
    assert(out@ =~= old(out)@ + frame_bytes(id, payload@));
}

/// Reads the frame at `pos`: the packet id, where its payload starts, and
/// where the frame ends.
pub fn read_frame(buf: &[u8], pos: usize) -> (r: Result<(i32, usize, usize), ProtoError>)
    requires
        pos <= buf@.len(),
    ensures
        match r {
            Ok((id, start, end)) => {
                &&& pos <= start <= end <= buf@.len()
                &&& frame_decode(buf@.subrange(pos as int, buf@.len() as int)) == Ok::<(i32, Seq<u8>, nat), ProtoError>(
                    (id, buf@.subrange(start as int, end as int), (end - pos) as nat),
                )
            },
            Err(e) => frame_decode(buf@.subrange(pos as int, buf@.len() as int)) == Err::<(i32, Seq<u8>, nat), ProtoError>(e),
        },
{
    let ghost s = buf@.subrange(pos as int, buf@.len() as int);
    let (len, k) = match read_varint(buf, pos) {
        Ok(v) => v,
        Err(e) => return Err(e),
    };
    if len < 0 || len as usize > buf.len() - pos - k {
        return Err(ProtoError::UnexpectedEof);
    }
    let end = pos + k + len as usize;
    let body = &buf[pos + k..end];
    assert(body@ =~= s.subrange(k as int, k + len));
    let (id, j) = match read_varint(body, 0) {
        Ok(v) => v,
        Err(e) => {
            assert(body@.subrange(0, body@.len() as int) =~= body@);
            return Err(e);
        },
    };
    assert(body@.subrange(0, body@.len() as int) =~= body@);
    assert(body@.subrange(j as int, body@.len() as int) =~= buf@.subrange((pos + k + j) as int, end as int));
    Ok((id, pos + k + j, end))
}

} // verus!
