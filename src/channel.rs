//! A connection typed by its protocol state: only the packets that a state
//! declares readable can be read in it, and only those it declares
//! writable can be written.

use vstd::prelude::*;
use crate::cached::CachedReader;
use crate::codec::{copy_range, ProtoError};
use crate::frame::frame_bytes;
use crate::handshake::Handshake;
use crate::multi_version::{login_start_parse, LoginLayout, LoginStart as VersionedLoginStart, LoginStartView};
use crate::packet::{
    expect_frame, packet_decode_with, Disconnect, LoginStart, PacketRead, PacketWrite, Ping, Pong,
    Request, Response,
};

verus! {

/// A protocol state.
pub trait NetworkState {}

/// A packet that may be read in state `S`.
pub trait StateReadPacket<S: NetworkState>: PacketRead {}

/// A packet that may be written in state `S`.
pub trait StateWritePacket<S: NetworkState>: PacketWrite {}

/// The first state of every connection.
#[derive(Debug, Clone, Copy, PartialEq, Eq)]
pub struct Handshaking;

/// The server-list ping state.
#[derive(Debug, Clone, Copy, PartialEq, Eq)]
pub struct Status;

/// The login state.
#[derive(Debug, Clone, Copy, PartialEq, Eq)]
pub struct Login;

impl NetworkState for Handshaking {}

impl NetworkState for Status {}

impl NetworkState for Login {}

impl StateReadPacket<Handshaking> for Handshake {}

impl StateReadPacket<Status> for Request {}

impl StateWritePacket<Status> for Response {}

impl StateReadPacket<Status> for Ping {}

impl StateWritePacket<Status> for Pong {}

impl StateReadPacket<Login> for LoginStart {}

impl StateWritePacket<Login> for Disconnect {}

/// What reading a Login Start laid out as `layout` from `s` gives: the
/// packet and the number of bytes its frame took.
pub open spec fn login_start_decode(layout: LoginLayout, s: Seq<u8>) -> Result<(LoginStartView, nat), ProtoError> {
    packet_decode_with(s, 0, |b: Seq<u8>| login_start_parse(layout, b))
}

/// One side of a connection in state `S`: the bytes received, cached so
/// that they can be replayed, and the bytes waiting to be sent.
#[derive(Debug)]
pub struct Connection<S: NetworkState> {
    input: CachedReader<()>,
    output: Vec<u8>,
    state: S,
}

impl<S: NetworkState> Connection<S> {
    /// Every byte received, in order.
    pub closed spec fn received(&self) -> Seq<u8> {
        self.input.cached()
    }

    /// How many received bytes were consumed by reads.
    pub closed spec fn consumed(&self) -> nat {
        self.input.position()
    }

    /// The bytes waiting to be sent.
    pub closed spec fn outbox(&self) -> Seq<u8> {
        self.output@
    }

    /// The unread received bytes.
    pub open spec fn unread(&self) -> Seq<u8> {
        self.received().subrange(self.consumed() as int, self.received().len() as int)
    }

    /// The read position lies within what was received.
    pub closed spec fn wf(&self) -> bool {
        self.input.wf()
    }

    /// Records bytes that arrived from the peer.
    pub fn feed(&mut self, bytes: &[u8])
        requires
            old(self).wf(),
        ensures
            final(self).wf(),
            final(self).received() == old(self).received() + bytes@,
            final(self).consumed() == old(self).consumed(),
            final(self).outbox() == old(self).outbox(),
    {
        self.input.fill(bytes);
    }

    /// Reads a packet that this state declares readable. On success the
    /// read position moves past its frame; on failure it stays.
    pub fn read<P: StateReadPacket<S>>(&mut self) -> (r: Result<P, ProtoError>)
        requires
            old(self).wf(),
        ensures
            final(self).wf(),
            final(self).received() == old(self).received(),
            final(self).outbox() == old(self).outbox(),
            final(self).consumed() >= old(self).consumed(),
            match r {
                Ok(p) => packet_decode_with(old(self).unread(), P::id_spec(), |b: Seq<u8>| P::parse_spec(b))
                    == Ok::<(P::V, nat), ProtoError>((p@, (final(self).consumed() - old(self).consumed()) as nat)),
                Err(e) => {
                    &&& packet_decode_with(old(self).unread(), P::id_spec(), |b: Seq<u8>| P::parse_spec(b))
                        == Err::<(P::V, nat), ProtoError>(e)
                    &&& final(self).consumed() == old(self).consumed()
                },
            },
    {
        let buf = self.input.cache();
        let pos = self.input.available();
        let total = buf.len();
        let start = total - pos;
        match P::read(buf, start) {
            Ok((p, n)) => {
                let _ = self.input.read(n);
                Ok(p)
            },
            Err(e) => Err(e),
        }
    }

    /// Queues a packet that this state declares writable.
    pub fn write<P: StateWritePacket<S>>(&mut self, packet: &P)
        requires
            old(self).wf(),
            packet.writable(),
        ensures
            final(self).wf(),
            final(self).received() == old(self).received(),
            final(self).consumed() == old(self).consumed(),
            final(self).outbox() == old(self).outbox() + frame_bytes(P::id_spec(), P::payload_spec(packet@)),
            old(self).outbox().len() == 0 ==> final(self).outbox() == frame_bytes(P::id_spec(), P::payload_spec(packet@)),
    {
        packet.write(&mut self.output);
        assert(old(self).outbox().len() == 0 ==> self.output@ =~= frame_bytes(P::id_spec(), P::payload_spec(packet@)));
    }

    /// Hands out the queued bytes, leaving none queued.
    pub fn take_output(&mut self) -> (r: Vec<u8>)
        requires
            old(self).wf(),
        ensures
            final(self).wf(),
            r@ == old(self).outbox(),
            final(self).outbox() == Seq::<u8>::empty(),
            final(self).received() == old(self).received(),
            final(self).consumed() == old(self).consumed(),
    {
        let mut out: Vec<u8> = Vec::new();
        std::mem::swap(&mut out, &mut self.output);
        out
    }

    /// A copy of every byte received, to replay to a backend.
    pub fn replay(&self) -> (r: Vec<u8>)
        requires
            self.wf(),
        ensures
            r@ == self.received(),
    {
        let buf = self.input.cache();
        let r = copy_range(buf, 0, buf.len());
        assert(buf@.subrange(0, buf@.len() as int) =~= buf@);
        r
    }
}

impl Connection<Handshaking> {
    /// A fresh connection: nothing received, nothing to send.
    pub fn new() -> (r: Connection<Handshaking>)
        ensures
            r.wf(),
            r.received() == Seq::<u8>::empty(),
            r.consumed() == 0,
            r.outbox() == Seq::<u8>::empty(),
    {
        Connection { input: CachedReader::new(()), output: Vec::new(), state: Handshaking }
    }

    /// Moves to the Status state.
    pub fn status(self) -> (r: Connection<Status>)
        requires
            self.wf(),
        ensures
            r.wf(),
            r.received() == self.received(),
            r.consumed() == self.consumed(),
            r.outbox() == self.outbox(),
    {
        Connection { input: self.input, output: self.output, state: Status }
    }

    /// Moves to the Login state.
    pub fn login(self) -> (r: Connection<Login>)
        requires
            self.wf(),
        ensures
            r.wf(),
            r.received() == self.received(),
            r.consumed() == self.consumed(),
            r.outbox() == self.outbox(),
    {
        Connection { input: self.input, output: self.output, state: Login }
    }
}

impl Connection<Login> {
    /// Reads a Login Start laid out as `layout`. On success the read
    /// position moves past its frame; on failure it stays.
    pub fn read_login_start(&mut self, layout: LoginLayout) -> (r: Result<VersionedLoginStart, ProtoError>)
        requires
            old(self).wf(),
        ensures
            final(self).wf(),
            final(self).received() == old(self).received(),
            final(self).outbox() == old(self).outbox(),
            final(self).consumed() >= old(self).consumed(),
            match r {
                Ok(p) => login_start_decode(layout, old(self).unread())
                    == Ok::<(LoginStartView, nat), ProtoError>((p@, (final(self).consumed() - old(self).consumed()) as nat)),
                Err(e) => {
                    &&& login_start_decode(layout, old(self).unread()) == Err::<(LoginStartView, nat), ProtoError>(e)
                    &&& final(self).consumed() == old(self).consumed()
                },
            },
    {
        let buf = self.input.cache();
        let pos = self.input.available();
        let total = buf.len();
        let start = total - pos;
        let (payload_start, end) = match expect_frame(buf, start, 0) {
            Ok(v) => v,
            Err(e) => return Err(e),
        };
        let payload = &buf[payload_start..end];
        match VersionedLoginStart::parse(layout, payload) {
            Ok(p) => {
                let _ = self.input.read(end - start);
                Ok(p)
            },
            Err(e) => Err(e),
        }
    }
}

} // verus!
