//! A reader that records every byte it hands out, so that what was read
//! while deciding where a connection goes can be replayed verbatim.

use vstd::prelude::*;
use crate::codec::{append_bytes, copy_range, ProtoError};
use crate::handshake::{handshake_frame, handshake_valid, lemma_handshake_round_trip, Handshake, HandshakeView};
use crate::packet::{packet_decode, PacketRead};

verus! {

/// Wraps a byte source; every byte that arrives from it is kept in a cache,
/// and reads are served from that cache in order.
#[derive(Debug)]
pub struct CachedReader<R> {
    reader: R,
    buffer: Vec<u8>,
    offset: usize,
}

/// What reading a Handshake from `cache` at `offset` gives: the Handshake
/// and the number of bytes its frame took.
pub open spec fn handshake_read_outcome(cache: Seq<u8>, offset: nat) -> Result<(HandshakeView, nat), ProtoError> {
    packet_decode::<Handshake>(cache.subrange(offset as int, cache.len() as int))
}

impl<R> CachedReader<R> {
    /// Every byte that arrived from the source, in order.
    pub closed spec fn cached(&self) -> Seq<u8> {
        self.buffer@
    }

    /// How many of the cached bytes were already read.
    pub closed spec fn position(&self) -> nat {
        self.offset as nat
    }

    /// The wrapped source.
    pub closed spec fn source(&self) -> R {
        self.reader
    }

    /// The read position lies within the cache.
    pub closed spec fn wf(&self) -> bool {
        self.offset <= self.buffer@.len()
    }

    /// Wraps `inner`, with nothing cached yet.
    pub fn new(inner: R) -> (r: CachedReader<R>)
        ensures
            r.wf(),
            r.cached() == Seq::<u8>::empty(),
            r.position() == 0,
            r.source() == inner,
    {
        CachedReader { reader: inner, buffer: vec![], offset: 0 }
    }

    /// Every byte that arrived from the source, in order.
    pub fn cache(&self) -> (r: &[u8])
        ensures
            r@ == self.cached(),
    {
        self.buffer.as_slice()
    }

    /// Gives back the wrapped source.
    pub fn into_inner(self) -> (r: R)
        ensures
            r == self.source(),
    {
        self.reader
    }

    /// How many cached bytes are not read yet.
    pub fn available(&self) -> (r: usize)
        requires
            self.wf(),
        ensures
            r == self.cached().len() - self.position(),
    {
        self.buffer.len() - self.offset
    }

    /// Whether a read of `want` bytes must first fetch more from the source.
    pub fn needs_fill(&self, want: usize) -> (r: bool)
        requires
            self.wf(),
        ensures
            r == (want > self.cached().len() - self.position()),
    {
        want > self.buffer.len() - self.offset
    }

    /// Records bytes that arrived from the source.
    pub fn fill(&mut self, chunk: &[u8])
        requires
            old(self).wf(),
        ensures
            final(self).wf(),
            final(self).cached() == old(self).cached() + chunk@,
            final(self).position() == old(self).position(),
            final(self).source() == old(self).source(),
    {
        append_bytes(&mut self.buffer, chunk);
    }

    /// Reads up to `want` cached bytes.
    pub fn read(&mut self, want: usize) -> (r: Vec<u8>)
        requires
            old(self).wf(),
        ensures
            final(self).wf(),
            final(self).cached() == old(self).cached(),
            final(self).source() == old(self).source(),
            r@.len() == if want <= old(self).cached().len() - old(self).position() {
                want as int
            } else {
                old(self).cached().len() - old(self).position()
            },
            final(self).position() == old(self).position() + r@.len(),
            r@ == old(self).cached().subrange(old(self).position() as int, final(self).position() as int),
    {
        let avail = self.buffer.len() - self.offset;
        let len = if want <= avail {
            want
        } else {
            avail
        };
        let out = copy_range(self.buffer.as_slice(), self.offset, self.offset + len);
        self.offset = self.offset + len;
        out
    }

    /// Reads a Handshake frame from the unread cached bytes. On success the
    /// read position moves past the frame; on failure it stays.
    pub fn read_handshake(&mut self) -> (r: Result<Handshake, ProtoError>)
        requires
            old(self).wf(),
        ensures
            final(self).wf(),
            final(self).cached() == old(self).cached(),
            final(self).source() == old(self).source(),
            match r {
                Ok(h) => handshake_read_outcome(old(self).cached(), old(self).position())
                    == Ok::<(HandshakeView, nat), ProtoError>((h@, (final(self).position() - old(self).position()) as nat)),
                Err(e) => {
                    &&& handshake_read_outcome(old(self).cached(), old(self).position()) == Err::<(HandshakeView, nat), ProtoError>(e)
                    &&& final(self).position() == old(self).position()
                },
            },
    {
        let total = self.buffer.len();
        match Handshake::read(self.buffer.as_slice(), self.offset) {
            Ok((h, n)) => {
                self.offset = self.offset + n;
                Ok(h)
            },
            Err(e) => Err(e),
        }
    }
}

/// Reading a valid Handshake from a cache that starts with its frame
/// consumes exactly that frame: the consumed part of the cache is the
/// Handshake written again.
pub proof fn lemma_cached_replay(h: HandshakeView, rest: Seq<u8>)
    requires
        handshake_valid(h),
    ensures
        handshake_read_outcome(handshake_frame(h) + rest, 0) == Ok::<(HandshakeView, nat), ProtoError>(
            (h, handshake_frame(h).len()),
        ),
        (handshake_frame(h) + rest).subrange(0, handshake_frame(h).len() as int) == handshake_frame(h),
{
    let c = handshake_frame(h) + rest;
    assert(c.subrange(0, c.len() as int) =~= c);
    lemma_handshake_round_trip(h, rest);
    assert(c.subrange(0, handshake_frame(h).len() as int) =~= handshake_frame(h));
}

} // verus!
