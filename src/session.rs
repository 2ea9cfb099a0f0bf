//! The per-connection dispatcher, as a state machine: the caller feeds the
//! bytes the client sends and performs the step that comes back (reply,
//! connect to a backend and splice, or close).

use vstd::prelude::*;
use vstd::utf8::*;
use vstd::string::*;
use crate::cached::handshake_read_outcome;
use crate::channel::{login_start_decode, Connection, Handshaking, Login, Status};
use crate::codec::{long_bytes, string_bytes, ProtoError};
use crate::config::{
    find_action, login_action_of, resolve_action, status_action_of, Action, ActionView, Config,
    ConfigView, FlowActionView, LoginAction, ServerAddr, StatusAction,
};
use crate::frame::frame_bytes;
use crate::handshake::{Handshake, HandshakeView, NextState};
use crate::multi_version::{
    disconnect_json, kick_reason_of, known_protocol, protocol_table, status_json,
    status_response_of, table_of, Disconnect as KickReason, PingRequest, PingResponse,
    StatusResponse, LATEST_PROTOCOL,
};
use crate::packet::{packet_decode, Ping, Pong, Request};

verus! {

/// Where a client connection stands.
#[derive(Debug, Clone, Copy, PartialEq, Eq, Structural)]
pub enum Phase {
    /// Waiting for the Handshake.
    Handshaking,
    /// Status answered in-proxy: waiting for the status request.
    AwaitStatusRequest,
    /// Status answered in-proxy: waiting for the ping.
    AwaitPing,
    /// Waiting for the Login Start.
    AwaitLoginStart,
    /// Handed to a backend.
    Proxy,
    /// Done with.
    Closed,
}

/// What the caller is to do next.
#[derive(Debug)]
pub enum Step {
    /// More bytes from the client are needed.
    NeedMore,
    /// The state moved on with nothing to send: step again.
    Continue,
    /// Send these bytes to the client, then step again.
    Send(Vec<u8>),
    /// Send these bytes to the client, then close the connection.
    SendAndClose(Vec<u8>),
    /// Connect to `target`, send it `replay`, then splice the two sockets.
    Connect { target: ServerAddr, replay: Vec<u8> },
    /// Close the connection without a reply.
    Close,
    /// The client broke the protocol: close the connection.
    Fail(ProtoError),
}

/// What a step holds.
pub enum StepView {
    NeedMore,
    Continue,
    Send(Seq<u8>),
    SendAndClose(Seq<u8>),
    Connect((Seq<char>, u16), Seq<u8>),
    Close,
    Fail(ProtoError),
}

impl View for Step {
    type V = StepView;

    open spec fn view(&self) -> StepView {
        match self {
            Step::NeedMore => StepView::NeedMore,
            Step::Continue => StepView::Continue,
            Step::Send(b) => StepView::Send(b@),
            Step::SendAndClose(b) => StepView::SendAndClose(b@),
            Step::Connect { target, replay } => StepView::Connect(target@, replay@),
            Step::Close => StepView::Close,
            Step::Fail(e) => StepView::Fail(*e),
        }
    }
}

#[derive(Debug)]
enum Link {
    Handshaking(Connection<Handshaking>),
    Status(Connection<Status>),
    Login(Connection<Login>),
}

/// One client connection, from its first byte to its hand-off or close.
#[derive(Debug)]
pub struct ClientSession {
    link: Link,
    phase: Phase,
    handshake: Option<Handshake>,
    action: Option<Action>,
    username: Option<String>,
}

/// What a session holds.
pub struct SessionView {
    pub phase: Phase,
    /// Every byte received from the client.
    pub received: Seq<u8>,
    /// How many of them were consumed.
    pub consumed: nat,
    pub handshake: Option<HandshakeView>,
    pub action: Option<ActionView>,
    pub username: Option<Seq<char>>,
}

/// The unread bytes of a session.
pub open spec fn unread(v: SessionView) -> Seq<u8> {
    v.received.subrange(v.consumed as int, v.received.len() as int)
}

/// A text small enough to be framed as a string packet.
pub open spec fn frameable(s: Seq<char>) -> bool {
    encode_utf8(s).len() <= i32::MAX - 10
}

/// The protocol version whose table serves a client speaking `v`.
pub open spec fn served_protocol(v: i32) -> i32 {
    if known_protocol(v) {
        v
    } else {
        LATEST_PROTOCOL
    }
}

/// The step from the Handshaking phase.
pub open spec fn handshaking_step(v: SessionView, c: ConfigView) -> (SessionView, StepView) {
    match handshake_read_outcome(v.received, v.consumed) {
        Err(ProtoError::UnexpectedEof) => (v, StepView::NeedMore),
        Err(e) => (SessionView { phase: Phase::Closed, ..v }, StepView::Fail(e)),
        Ok((h, n)) => {
            let v1 = SessionView { consumed: v.consumed + n, handshake: Some(h), ..v };
            match resolve_action(c, h.server_address) {
                None => (SessionView { phase: Phase::Closed, ..v1 }, StepView::Close),
                Some(a) => match h.next_state {
                    NextState::Status => match status_action_of(a) {
                        FlowActionView::Forward(t) => (
                            SessionView { phase: Phase::Proxy, action: Some(a), ..v1 },
                            StepView::Connect(t, v.received),
                        ),
                        FlowActionView::Static(_) => (
                            SessionView { phase: Phase::AwaitStatusRequest, action: Some(a), ..v1 },
                            StepView::Continue,
                        ),
                    },
                    NextState::Login => (
                        SessionView { phase: Phase::AwaitLoginStart, action: Some(a), ..v1 },
                        StepView::Continue,
                    ),
                    _ => (SessionView { phase: Phase::Closed, action: Some(a), ..v1 }, StepView::Close),
                },
            }
        },
    }
}

/// The step from the AwaitStatusRequest phase: the canned status.
pub open spec fn status_request_step(v: SessionView) -> (SessionView, StepView) {
    match packet_decode::<Request>(unread(v)) {
        Err(ProtoError::UnexpectedEof) => (v, StepView::NeedMore),
        Err(e) => (SessionView { phase: Phase::Closed, ..v }, StepView::Fail(e)),
        Ok((_, n)) => match status_action_of(v.action.unwrap()) {
            FlowActionView::Static(s) => {
                let json = status_json(status_response_of(s, v.handshake.unwrap().protocol_version));
                if frameable(json) {
                    (
                        SessionView { phase: Phase::AwaitPing, consumed: v.consumed + n, ..v },
                        StepView::Send(frame_bytes(0, string_bytes(json))),
                    )
                } else {
                    (
                        SessionView { phase: Phase::Closed, consumed: v.consumed + n, ..v },
                        StepView::Fail(ProtoError::BadString),
                    )
                }
            },
            FlowActionView::Forward(_) => (v, StepView::Close),
        },
    }
}

/// The step from the AwaitPing phase: the ping echoed, then closing.
pub open spec fn ping_step(v: SessionView) -> (SessionView, StepView) {
    match packet_decode::<Ping>(unread(v)) {
        Err(ProtoError::UnexpectedEof) => (v, StepView::NeedMore),
        Err(e) => (SessionView { phase: Phase::Closed, ..v }, StepView::Fail(e)),
        Ok((p, n)) => (
            SessionView { phase: Phase::Closed, consumed: v.consumed + n, ..v },
            StepView::SendAndClose(frame_bytes(1, long_bytes(p))),
        ),
    }
}

/// The step from the AwaitLoginStart phase: a kick, or a hand-off.
pub open spec fn login_start_step(v: SessionView) -> (SessionView, StepView) {
    let layout = table_of(served_protocol(v.handshake.unwrap().protocol_version)).login_layout;
    match login_start_decode(layout, unread(v)) {
        Err(ProtoError::UnexpectedEof) => (v, StepView::NeedMore),
        Err(e) => (SessionView { phase: Phase::Closed, ..v }, StepView::Fail(e)),
        Ok((ls, n)) => {
            let v1 = SessionView { consumed: v.consumed + n, username: Some(ls.username), ..v };
            match login_action_of(v.action.unwrap()) {
                FlowActionView::Static(s) => {
                    let json = disconnect_json(kick_reason_of(s));
                    if frameable(json) {
                        (SessionView { phase: Phase::Closed, ..v1 }, StepView::SendAndClose(frame_bytes(0, string_bytes(json))))
                    } else {
                        (SessionView { phase: Phase::Closed, ..v1 }, StepView::Fail(ProtoError::BadString))
                    }
                },
                FlowActionView::Forward(t) => (SessionView { phase: Phase::Proxy, ..v1 }, StepView::Connect(t, v.received)),
            }
        },
    }
}

/// One step of the dispatcher under configuration `c`.
pub open spec fn session_step(v: SessionView, c: ConfigView) -> (SessionView, StepView) {
    match v.phase {
        Phase::Handshaking => handshaking_step(v, c),
        Phase::AwaitStatusRequest => status_request_step(v),
        Phase::AwaitPing => ping_step(v),
        Phase::AwaitLoginStart => login_start_step(v),
        Phase::Proxy => (v, StepView::Close),
        Phase::Closed => (v, StepView::Close),
    }
}

impl View for ClientSession {
    type V = SessionView;

    closed spec fn view(&self) -> SessionView {
        SessionView {
            phase: self.phase,
            received: match self.link {
                Link::Handshaking(c) => c.received(),
                Link::Status(c) => c.received(),
                Link::Login(c) => c.received(),
            },
            consumed: match self.link {
                Link::Handshaking(c) => c.consumed(),
                Link::Status(c) => c.consumed(),
                Link::Login(c) => c.consumed(),
            },
            handshake: match self.handshake {
                Some(h) => Some(h@),
                None => None,
            },
            action: match self.action {
                Some(a) => Some(a@),
                None => None,
            },
            username: match self.username {
                Some(u) => Some(u@),
                None => None,
            },
        }
    }
}

impl ClientSession {
    /// The session's parts agree with its phase.
    pub closed spec fn wf(&self) -> bool {
        &&& match self.link {
            Link::Handshaking(c) => c.wf() && c.outbox().len() == 0 && self.phase != Phase::AwaitStatusRequest
                && self.phase != Phase::AwaitPing && self.phase != Phase::AwaitLoginStart,
            Link::Status(c) => c.wf() && c.outbox().len() == 0 && self.phase != Phase::Handshaking
                && self.phase != Phase::AwaitLoginStart,
            Link::Login(c) => c.wf() && c.outbox().len() == 0 && self.phase != Phase::Handshaking
                && self.phase != Phase::AwaitStatusRequest && self.phase != Phase::AwaitPing,
        }
        &&& self.phase == Phase::Handshaking ==> self.link is Handshaking
        &&& (self.phase == Phase::AwaitStatusRequest || self.phase == Phase::AwaitPing) ==> {
            &&& self.link is Status
            &&& self.handshake is Some
            &&& self.action is Some
            &&& status_action_of(self.action->Some_0@) is Static
        }
        &&& self.phase == Phase::AwaitLoginStart ==> {
            &&& self.link is Login
            &&& self.handshake is Some
            &&& self.action is Some
        }
    }

    /// A session for a client that has sent nothing yet.
    pub fn new() -> (r: ClientSession)
        ensures
            r.wf(),
            r@.phase == Phase::Handshaking,
            r@.received == Seq::<u8>::empty(),
            r@.consumed == 0,
            r@.handshake is None,
            r@.action is None,
            r@.username is None,
    {
        ClientSession {
            link: Link::Handshaking(Connection::new()),
            phase: Phase::Handshaking,
            handshake: None,
            action: None,
            username: None,
        }
    }

    /// Where the session stands.
    pub fn phase(&self) -> (r: Phase)
        ensures
            r == self@.phase,
    {
        self.phase
    }

    /// The Handshake, once read.
    pub fn handshake(&self) -> (r: Option<&Handshake>)
        ensures
            match r {
                Some(h) => self@.handshake == Some(h@),
                None => self@.handshake is None,
            },
    {
        match &self.handshake {
            Some(h) => Some(h),
            None => None,
        }
    }

    /// The player's name, once the Login Start is read.
    pub fn username(&self) -> (r: Option<&String>)
        ensures
            match r {
                Some(u) => self@.username == Some(u@),
                None => self@.username is None,
            },
    {
        match &self.username {
            Some(u) => Some(u),
            None => None,
        }
    }

    /// Records bytes that arrived from the client.
    pub fn feed(&mut self, bytes: &[u8])
        requires
            old(self).wf(),
        ensures
            final(self).wf(),
            final(self)@ == (SessionView { received: old(self)@.received + bytes@, ..old(self)@ }),
    {
        match &mut self.link {
            Link::Handshaking(c) => c.feed(bytes),
            Link::Status(c) => c.feed(bytes),
            Link::Login(c) => c.feed(bytes),
        }
    }

    fn step_handshaking(self, config: &Config) -> (r: (ClientSession, Step))
        requires
            self.wf(),
            self.phase == Phase::Handshaking,
        ensures
            r.0.wf(),
            (r.0@, r.1@) == handshaking_step(self@, config@),
    {
        let ClientSession { link, phase, handshake, action, username } = self;
        let mut c = match link {
            Link::Handshaking(c) => c,
            other => return (ClientSession { link: other, phase, handshake, action, username }, Step::Close),
        };
        match c.read::<Handshake>() {
            Err(ProtoError::UnexpectedEof) => (
                ClientSession { link: Link::Handshaking(c), phase, handshake, action, username },
                Step::NeedMore,
            ),
            Err(e) => (
                ClientSession { link: Link::Handshaking(c), phase: Phase::Closed, handshake, action, username },
                Step::Fail(e),
            ),
            Ok(h) => {
                let found = find_action(config, h.server_address.as_str());
                match found {
                    None => (
                        ClientSession {
                            link: Link::Handshaking(c),
                            phase: Phase::Closed,
                            handshake: Some(h),
                            action,
                            username,
                        },
                        Step::Close,
                    ),
                    Some(a) => match h.next_state {
                        NextState::Status => match a.get_status_action() {
                            StatusAction::Forward { forward } => {
                                let replay = c.replay();
                                (
                                    ClientSession {
                                        link: Link::Handshaking(c),
                                        phase: Phase::Proxy,
                                        handshake: Some(h),
                                        action: Some(a),
                                        username,
                                    },
                                    Step::Connect { target: forward.0, replay },
                                )
                            },
                            StatusAction::Static { .. } => (
                                ClientSession {
                                    link: Link::Status(c.status()),
                                    phase: Phase::AwaitStatusRequest,
                                    handshake: Some(h),
                                    action: Some(a),
                                    username,
                                },
                                Step::Continue,
                            ),
                        },
                        NextState::Login => (
                            ClientSession {
                                link: Link::Login(c.login()),
                                phase: Phase::AwaitLoginStart,
                                handshake: Some(h),
                                action: Some(a),
                                username,
                            },
                            Step::Continue,
                        ),
                        _ => (
                            ClientSession {
                                link: Link::Handshaking(c),
                                phase: Phase::Closed,
                                handshake: Some(h),
                                action: Some(a),
                                username,
                            },
                            Step::Close,
                        ),
                    },
                }
            },
        }
    }

    fn step_status_request(self) -> (r: (ClientSession, Step))
        requires
            self.wf(),
            self.phase == Phase::AwaitStatusRequest,
        ensures
            r.0.wf(),
            (r.0@, r.1@) == status_request_step(self@),
    {
        let ClientSession { link, phase, handshake, action, username } = self;
        let mut c = match link {
            Link::Status(c) => c,
            other => return (ClientSession { link: other, phase, handshake, action, username }, Step::Close),
        };
        match c.read::<Request>() {
            Err(ProtoError::UnexpectedEof) => (
                ClientSession { link: Link::Status(c), phase, handshake, action, username },
                Step::NeedMore,
            ),
            Err(e) => (
                ClientSession { link: Link::Status(c), phase: Phase::Closed, handshake, action, username },
                Step::Fail(e),
            ),
            Ok(_) => {
                let protocol = match &handshake {
                    Some(h) => h.protocol_version,
                    None => 0,
                };
                let flow = match &action {
                    Some(a) => a.get_status_action(),
                    None => return (
                        ClientSession { link: Link::Status(c), phase, handshake, action, username },
                        Step::Close,
                    ),
                };
                match flow {
                    StatusAction::Static { static_action } => {
                        let response = StatusResponse::from_static(&static_action, protocol).into_packet();
                        if response.response.as_str().as_bytes().len() > (i32::MAX - 10) as usize {
                            return (
                                ClientSession { link: Link::Status(c), phase: Phase::Closed, handshake, action, username },
                                Step::Fail(ProtoError::BadString),
                            );
                        }
                        c.write(&response);
                        let out = c.take_output();
                        (
                            ClientSession { link: Link::Status(c), phase: Phase::AwaitPing, handshake, action, username },
                            Step::Send(out),
                        )
                    },
                    StatusAction::Forward { .. } => (
                        ClientSession { link: Link::Status(c), phase, handshake, action, username },
                        Step::Close,
                    ),
                }
            },
        }
    }

    fn step_ping(self) -> (r: (ClientSession, Step))
        requires
            self.wf(),
            self.phase == Phase::AwaitPing,
        ensures
            r.0.wf(),
            (r.0@, r.1@) == ping_step(self@),
    {
        let ClientSession { link, phase, handshake, action, username } = self;
        let mut c = match link {
            Link::Status(c) => c,
            other => return (ClientSession { link: other, phase, handshake, action, username }, Step::Close),
        };
        match c.read::<Ping>() {
            Err(ProtoError::UnexpectedEof) => (
                ClientSession { link: Link::Status(c), phase, handshake, action, username },
                Step::NeedMore,
            ),
            Err(e) => (
                ClientSession { link: Link::Status(c), phase: Phase::Closed, handshake, action, username },
                Step::Fail(e),
            ),
            Ok(p) => {
                let request = PingRequest::from(p);
                c.write(&Pong::from(PingResponse { payload: request.payload }));
                let out = c.take_output();
                (
                    ClientSession { link: Link::Status(c), phase: Phase::Closed, handshake, action, username },
                    Step::SendAndClose(out),
                )
            },
        }
    }

    fn step_login_start(self) -> (r: (ClientSession, Step))
        requires
            self.wf(),
            self.phase == Phase::AwaitLoginStart,
        ensures
            r.0.wf(),
            (r.0@, r.1@) == login_start_step(self@),
    {
        let ClientSession { link, phase, handshake, action, username } = self;
        let mut c = match link {
            Link::Login(c) => c,
            other => return (ClientSession { link: other, phase, handshake, action, username }, Step::Close),
        };
        let protocol = match &handshake {
            Some(h) => h.protocol_version,
            None => 0,
        };
        let (table, _) = protocol_table(protocol);
        match c.read_login_start(table.login_layout) {
            Err(ProtoError::UnexpectedEof) => (
                ClientSession { link: Link::Login(c), phase, handshake, action, username },
                Step::NeedMore,
            ),
            Err(e) => (
                ClientSession { link: Link::Login(c), phase: Phase::Closed, handshake, action, username },
                Step::Fail(e),
            ),
            Ok(login_start) => {
                let name = Some(login_start.username);
                let flow = match &action {
                    Some(a) => a.get_login_action(),
                    None => return (
                        ClientSession { link: Link::Login(c), phase, handshake, action, username: name },
                        Step::Close,
                    ),
                };
                match flow {
                    LoginAction::Static { static_action } => {
                        let kick = KickReason::from_static(&static_action).into_packet();
                        if kick.reason.as_str().as_bytes().len() > (i32::MAX - 10) as usize {
                            return (
                                ClientSession { link: Link::Login(c), phase: Phase::Closed, handshake, action, username: name },
                                Step::Fail(ProtoError::BadString),
                            );
                        }
                        c.write(&kick);
                        let out = c.take_output();
                        (
                            ClientSession { link: Link::Login(c), phase: Phase::Closed, handshake, action, username: name },
                            Step::SendAndClose(out),
                        )
                    },
                    LoginAction::Forward { forward } => {
                        let replay = c.replay();
                        (
                            ClientSession { link: Link::Login(c), phase: Phase::Proxy, handshake, action, username: name },
                            Step::Connect { target: forward.0, replay },
                        )
                    },
                }
            },
        }
    }

    /// Takes one step under `config`: reads what the current phase waits
    /// for from the bytes received, and says what to do.
    pub fn step(self, config: &Config) -> (r: (ClientSession, Step))
        requires
            self.wf(),
        ensures
            r.0.wf(),
            (r.0@, r.1@) == session_step(self@, config@),
    {
        match self.phase {
            Phase::Handshaking => self.step_handshaking(config),
            Phase::AwaitStatusRequest => self.step_status_request(),
            Phase::AwaitPing => self.step_ping(),
            Phase::AwaitLoginStart => self.step_login_start(),
            _ => (self, Step::Close),
        }
    }
}

} // verus!
