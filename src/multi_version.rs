//! The protocol-version-agnostic view of the Status and Login packets, the
//! table of known protocol versions, and the per-version Login Start layouts.

use vstd::prelude::*;
use vstd::string::*;
use vstd::utf8::*;
use crate::codec::{
    append_bytes, be_bytes, be_value, copy_range, long_bytes, read_long, read_string, read_u64,
    read_varint, signed64_of, string_bytes, string_decode, varint_bytes, varint_decode,
    write_boolean, write_long, write_string, write_u64, write_varint, ProtoError,
};
use crate::config::{StaticAction, StaticActionView};
use crate::packet::{Disconnect as DisconnectPacket, Ping, Pong, Request, Response, MAX_STRING_BYTES};
use crate::text::{append_json_escaped, int_text, int_to_string, json_escaped};

verus! {

/// A request for the server status.
#[derive(Debug, Clone, Copy, PartialEq, Eq)]
pub struct StatusRequest;

/// The server status shown in the client's server list.
#[derive(Debug)]
pub struct StatusResponse {
    pub version_name: String,
    pub protocol_version: i32,
    pub max_players: i64,
    pub online_players: i64,
    pub description: String,
}

/// What a status holds.
pub struct StatusResponseView {
    pub version_name: Seq<char>,
    pub protocol_version: i32,
    pub max_players: i64,
    pub online_players: i64,
    pub description: Seq<char>,
}

impl View for StatusResponse {
    type V = StatusResponseView;

    open spec fn view(&self) -> StatusResponseView {
        StatusResponseView {
            version_name: self.version_name@,
            protocol_version: self.protocol_version,
            max_players: self.max_players,
            online_players: self.online_players,
            description: self.description@,
        }
    }
}

/// The JSON text of a status, with its text fields escaped.
pub open spec fn status_json(r: StatusResponseView) -> Seq<char> {
    "{\"version\":{\"name\":\""@ + json_escaped(r.version_name) + "\",\"protocol\":"@ + int_text(
        r.protocol_version as int,
    ) + "},\"players\":{\"max\":"@ + int_text(r.max_players as int) + ",\"online\":"@ + int_text(
        r.online_players as int,
    ) + "},\"description\":{\"text\":\""@ + json_escaped(r.description) + "\"}}"@
}

/// The value of `o`, or `d` when it is absent.
pub open spec fn or_default<T>(o: Option<T>, d: T) -> T {
    match o {
        Some(v) => v,
        None => d,
    }
}

/// The status that a canned answer shows to a client speaking `protocol`:
/// each absent field takes its default.
pub open spec fn status_response_of(s: StaticActionView, protocol: i32) -> StatusResponseView {
    StatusResponseView {
        version_name: or_default(s.version_name, "router"@),
        protocol_version: or_default(s.protocol_version, protocol),
        max_players: or_default(s.max_players, 20),
        online_players: or_default(s.cur_players, 0),
        description: or_default(s.description, "A Minecraft Server"@),
    }
}

fn text_or(o: &Option<String>, d: &str) -> (r: String)
    ensures
        r@ == or_default(crate::config::opt_text(*o), d@),
{
    match o {
        Some(s) => s.clone(),
        None => String::from_str(d),
    }
}

impl StatusResponse {
    /// The status as JSON text.
    pub fn to_json(&self) -> (r: String)
        ensures
            r@ == status_json(self@),
    {
        let mut s = String::from_str("{\"version\":{\"name\":\"");
        append_json_escaped(&mut s, self.version_name.as_str());
        s.append("\",\"protocol\":");
        let protocol = int_to_string(self.protocol_version as i64);
        s.append(protocol.as_str());
        s.append("},\"players\":{\"max\":");
        let max = int_to_string(self.max_players);
        s.append(max.as_str());
        s.append(",\"online\":");
        let online = int_to_string(self.online_players);
        s.append(online.as_str());
        s.append("},\"description\":{\"text\":\"");
        append_json_escaped(&mut s, self.description.as_str());
        s.append("\"}}");
        s
    }

    /// The status as the packet that carries it.
    pub fn into_packet(self) -> (r: Response)
        ensures
            r@ == status_json(self@),
    {
        Response { response: self.to_json() }
    }

    /// The status that `s` shows to a client speaking `protocol`.
    pub fn from_static(s: &StaticAction, protocol: i32) -> (r: StatusResponse)
        ensures
            r@ == status_response_of(s@, protocol),
    {
        StatusResponse {
            version_name: text_or(&s.version_name, "router"),
            protocol_version: match s.protocol_version {
                Some(p) => p,
                None => protocol,
            },
            max_players: match s.max_players {
                Some(m) => m,
                None => 20,
            },
            online_players: match s.cur_players {
                Some(c) => c,
                None => 0,
            },
            description: text_or(&s.description, "A Minecraft Server"),
        }
    }
}

/// A latency probe.
#[derive(Debug, Clone, Copy, PartialEq, Eq)]
pub struct PingRequest {
    pub payload: i64,
}

/// The answer to a latency probe: the same payload.
#[derive(Debug, Clone, Copy, PartialEq, Eq)]
pub struct PingResponse {
    pub payload: i64,
}

impl From<Request> for StatusRequest {
    fn from(r: Request) -> (s: StatusRequest) {
        StatusRequest
    }
}

impl vstd::std_specs::convert::FromSpecImpl<Request> for StatusRequest {
    open spec fn obeys_from_spec() -> bool {
        true
    }

    open spec fn from_spec(r: Request) -> StatusRequest {
        StatusRequest
    }
}

impl From<Ping> for PingRequest {
    fn from(p: Ping) -> (r: PingRequest) {
        PingRequest { payload: p.data }
    }
}

impl vstd::std_specs::convert::FromSpecImpl<Ping> for PingRequest {
    open spec fn obeys_from_spec() -> bool {
        true
    }

    open spec fn from_spec(p: Ping) -> PingRequest {
        PingRequest { payload: p.data }
    }
}

impl From<PingResponse> for Pong {
    fn from(p: PingResponse) -> (r: Pong) {
        Pong { data: p.payload }
    }
}

impl vstd::std_specs::convert::FromSpecImpl<PingResponse> for Pong {
    open spec fn obeys_from_spec() -> bool {
        true
    }

    open spec fn from_spec(p: PingResponse) -> Pong {
        Pong { data: p.payload }
    }
}

/// A player id, as its high and low 64 bits.
#[derive(Debug, Clone, Copy, PartialEq, Eq, Structural)]
pub struct Uuid {
    pub high: u64,
    pub low: u64,
}

/// The chat-signing key a 1.19 client may send when logging in.
#[derive(Debug)]
pub struct SignatureData {
    pub timestamp: i64,
    pub public_key: Vec<u8>,
    pub signature: Vec<u8>,
}

/// What signing data holds.
pub struct SignatureDataView {
    pub timestamp: i64,
    pub public_key: Seq<u8>,
    pub signature: Seq<u8>,
}

impl View for SignatureData {
    type V = SignatureDataView;

    open spec fn view(&self) -> SignatureDataView {
        SignatureDataView { timestamp: self.timestamp, public_key: self.public_key@, signature: self.signature@ }
    }
}

/// The start of a login, whatever the protocol version sent.
#[derive(Debug)]
pub struct LoginStart {
    pub username: String,
    pub uuid: Option<Uuid>,
    pub signature_data: Option<SignatureData>,
}

/// What a login start holds.
pub struct LoginStartView {
    pub username: Seq<char>,
    pub uuid: Option<Uuid>,
    pub signature_data: Option<SignatureDataView>,
}

impl View for LoginStart {
    type V = LoginStartView;

    open spec fn view(&self) -> LoginStartView {
        LoginStartView {
            username: self.username@,
            uuid: self.uuid,
            signature_data: match self.signature_data {
                Some(d) => Some(d@),
                None => None,
            },
        }
    }
}

/// A refusal to log in, with the reason shown to the player.
#[derive(Debug)]
pub struct Disconnect {
    pub reason: String,
}

/// The JSON text component of a disconnect reason.
pub open spec fn disconnect_json(reason: Seq<char>) -> Seq<char> {
    "{\"text\":\""@ + json_escaped(reason) + "\"}"@
}

/// The reason a canned answer kicks with, `Disconnected` by default.
pub open spec fn kick_reason_of(s: StaticActionView) -> Seq<char> {
    or_default(s.kick_message, "Disconnected"@)
}

impl Disconnect {
    /// The reason as a JSON text component.
    pub fn to_json(&self) -> (r: String)
        ensures
            r@ == disconnect_json(self.reason@),
    {
        let mut s = String::from_str("{\"text\":\"");
        append_json_escaped(&mut s, self.reason.as_str());
        s.append("\"}");
        s
    }

    /// The disconnect as the packet that carries it.
    pub fn into_packet(self) -> (r: DisconnectPacket)
        ensures
            r@ == disconnect_json(self.reason@),
    {
        DisconnectPacket { reason: self.to_json() }
    }

    /// The disconnect that `s` kicks with.
    pub fn from_static(s: &StaticAction) -> (r: Disconnect)
        ensures
            r.reason@ == kick_reason_of(s@),
    {
        Disconnect { reason: text_or(&s.kick_message, "Disconnected") }
    }
}

/// How a protocol version names its status packets.
#[derive(Debug, Clone, Copy, PartialEq, Eq, Structural)]
pub enum StatusNaming {
    /// Request, Response, Ping, Pong: up to 758.
    Legacy,
    /// StatusRequest, StatusResponse, PingRequest, PingResponse: from 759.
    Modern,
}

/// What follows the user name in a Login Start.
#[derive(Debug, Clone, Copy, PartialEq, Eq, Structural)]
pub enum LoginLayout {
    /// Nothing: up to 758.
    NameOnly,
    /// Optional signing data: 759.
    WithSignature,
    /// Optional signing data, then an optional player id: 760.
    WithSignatureAndUuid,
    /// An optional player id: 761 to 763.
    OptionalUuid,
    /// A player id: from 764.
    RequiredUuid,
}

/// The wire layout of one protocol version.
#[derive(Debug, Clone, Copy, PartialEq, Eq, Structural)]
pub struct ProtocolTable {
    pub version: i32,
    pub status_naming: StatusNaming,
    pub login_layout: LoginLayout,
}

/// The newest protocol version known; unknown versions are served with it.
pub const LATEST_PROTOCOL: i32 = 767;

/// The protocol versions with a table of their own.
pub open spec fn known_protocol(v: i32) -> bool {
    v == 4 || v == 5 || v == 47 || v == 107 || v == 108 || v == 109 || v == 110 || v == 210
        || v == 315 || v == 316 || v == 335 || v == 338 || v == 340 || v == 393 || v == 401
        || v == 404 || v == 477 || v == 480 || v == 485 || v == 490 || v == 498 || v == 573
        || v == 575 || v == 578 || v == 735 || v == 736 || v == 751 || v == 753 || v == 754
        || v == 755 || v == 756 || v == 757 || v == 758 || (759 <= v && v <= 767)
}

/// The layout of the known protocol version `v`.
pub open spec fn table_of(v: i32) -> ProtocolTable {
    ProtocolTable {
        version: v,
        status_naming: if v >= 759 {
            StatusNaming::Modern
        } else {
            StatusNaming::Legacy
        },
        login_layout: if v <= 758 {
            LoginLayout::NameOnly
        } else if v == 759 {
            LoginLayout::WithSignature
        } else if v == 760 {
            LoginLayout::WithSignatureAndUuid
        } else if v <= 763 {
            LoginLayout::OptionalUuid
        } else {
            LoginLayout::RequiredUuid
        },
    }
}

/// Whether `v` is a protocol version with a table of its own.
pub fn is_known_protocol(v: i32) -> (r: bool)
    ensures
        r == known_protocol(v),
{
    v == 4 || v == 5 || v == 47 || v == 107 || v == 108 || v == 109 || v == 110 || v == 210
        || v == 315 || v == 316 || v == 335 || v == 338 || v == 340 || v == 393 || v == 401
        || v == 404 || v == 477 || v == 480 || v == 485 || v == 490 || v == 498 || v == 573
        || v == 575 || v == 578 || v == 735 || v == 736 || v == 751 || v == 753 || v == 754
        || v == 755 || v == 756 || v == 757 || v == 758 || (759 <= v && v <= 767)
}

/// The table for protocol version `version`, and whether it is known; an
/// unknown version gets the newest table.
pub fn protocol_table(version: i32) -> (r: (ProtocolTable, bool))
    ensures
        r.1 == known_protocol(version),
        r.0 == table_of(if known_protocol(version) { version } else { LATEST_PROTOCOL }),
{
    let known = is_known_protocol(version);
    let v = if known {
        version
    } else {
        LATEST_PROTOCOL
    };
    let status_naming = if v >= 759 {
        StatusNaming::Modern
    } else {
        StatusNaming::Legacy
    };
    let login_layout = if v <= 758 {
        LoginLayout::NameOnly
    } else if v == 759 {
        LoginLayout::WithSignature
    } else if v == 760 {
        LoginLayout::WithSignatureAndUuid
    } else if v <= 763 {
        LoginLayout::OptionalUuid
    } else {
        LoginLayout::RequiredUuid
    };
    (ProtocolTable { version: v, status_naming, login_layout }, known)
}

/// Reading a string at `pos` of `b`: it and the position after it.
pub open spec fn string_at(b: Seq<u8>, pos: nat) -> Result<(Seq<char>, nat), ProtoError> {
    match string_decode(b.subrange(pos as int, b.len() as int), MAX_STRING_BYTES as nat) {
        Ok((s, n)) => Ok((s, pos + n)),
        Err(e) => Err(e),
    }
}

/// Reading a boolean at `pos` of `b`.
pub open spec fn bool_at(b: Seq<u8>, pos: nat) -> Result<(bool, nat), ProtoError> {
    if pos >= b.len() {
        Err(ProtoError::UnexpectedEof)
    } else {
        Ok((b[pos as int] % 2 == 1, pos + 1))
    }
}

/// Reading a player id at `pos` of `b`.
pub open spec fn uuid_at(b: Seq<u8>, pos: nat) -> Result<(Uuid, nat), ProtoError> {
    if pos + 16 > b.len() {
        Err(ProtoError::UnexpectedEof)
    } else {
        Ok(
            (
                Uuid {
                    high: be_value(b.subrange(pos as int, (pos + 8) as int)) as u64,
                    low: be_value(b.subrange((pos + 8) as int, (pos + 16) as int)) as u64,
                },
                pos + 16,
            ),
        )
    }
}

/// Reading a byte array, a VarInt length and then the bytes, at `pos` of `b`.
pub open spec fn bytes_at(b: Seq<u8>, pos: nat) -> Result<(Seq<u8>, nat), ProtoError> {
    match varint_decode(b.subrange(pos as int, b.len() as int)) {
        Err(e) => Err(e),
        Ok((len, k)) => if len < 0 || pos + k + len > b.len() {
            Err(ProtoError::UnexpectedEof)
        } else {
            Ok((b.subrange((pos + k) as int, pos + k + len), (pos + k + len) as nat))
        },
    }
}

/// Reading signing data at `pos` of `b`: timestamp, public key, signature.
pub open spec fn signature_at(b: Seq<u8>, pos: nat) -> Result<(SignatureDataView, nat), ProtoError> {
    if pos + 8 > b.len() {
        Err(ProtoError::UnexpectedEof)
    } else {
        let timestamp = signed64_of(be_value(b.subrange(pos as int, (pos + 8) as int)));
        match bytes_at(b, pos + 8) {
            Err(e) => Err(e),
            Ok((key, p)) => match bytes_at(b, p) {
                Err(e) => Err(e),
                Ok((sig, q)) => Ok((SignatureDataView { timestamp, public_key: key, signature: sig }, q)),
            },
        }
    }
}

/// Reading a flag at `pos` of `b` and, when it is set, a player id.
pub open spec fn opt_uuid_at(b: Seq<u8>, pos: nat) -> Result<(Option<Uuid>, nat), ProtoError> {
    match bool_at(b, pos) {
        Err(e) => Err(e),
        Ok((false, p)) => Ok((None, p)),
        Ok((true, p)) => match uuid_at(b, p) {
            Err(e) => Err(e),
            Ok((u, q)) => Ok((Some(u), q)),
        },
    }
}

/// Reading a flag at `pos` of `b` and, when it is set, signing data.
pub open spec fn opt_signature_at(b: Seq<u8>, pos: nat) -> Result<(Option<SignatureDataView>, nat), ProtoError> {
    match bool_at(b, pos) {
        Err(e) => Err(e),
        Ok((false, p)) => Ok((None, p)),
        Ok((true, p)) => match signature_at(b, p) {
            Err(e) => Err(e),
            Ok((d, q)) => Ok((Some(d), q)),
        },
    }
}

/// What a Login Start payload in layout `layout` reads as.
pub open spec fn login_start_parse(layout: LoginLayout, b: Seq<u8>) -> Result<LoginStartView, ProtoError> {
    match string_at(b, 0) {
        Err(e) => Err(e),
        Ok((name, p)) => match layout {
            LoginLayout::NameOnly => Ok(LoginStartView { username: name, uuid: None, signature_data: None }),
            LoginLayout::RequiredUuid => match uuid_at(b, p) {
                Err(e) => Err(e),
                Ok((u, _)) => Ok(LoginStartView { username: name, uuid: Some(u), signature_data: None }),
            },
            LoginLayout::OptionalUuid => match opt_uuid_at(b, p) {
                Err(e) => Err(e),
                Ok((u, _)) => Ok(LoginStartView { username: name, uuid: u, signature_data: None }),
            },
            LoginLayout::WithSignature => match opt_signature_at(b, p) {
                Err(e) => Err(e),
                Ok((d, _)) => Ok(LoginStartView { username: name, uuid: None, signature_data: d }),
            },
            LoginLayout::WithSignatureAndUuid => match opt_signature_at(b, p) {
                Err(e) => Err(e),
                Ok((d, q)) => match opt_uuid_at(b, q) {
                    Err(e) => Err(e),
                    Ok((u, _)) => Ok(LoginStartView { username: name, uuid: u, signature_data: d }),
                },
            },
        },
    }
}

fn read_bool_at(b: &[u8], pos: usize) -> (r: Result<(bool, usize), ProtoError>)
    requires
        pos <= b@.len(),
    ensures
        match r {
            Ok((v, p)) => bool_at(b@, pos as nat) == Ok::<(bool, nat), ProtoError>((v, p as nat)) && p <= b@.len(),
            Err(e) => bool_at(b@, pos as nat) == Err::<(bool, nat), ProtoError>(e),
        },
{
    if pos >= b.len() {
        return Err(ProtoError::UnexpectedEof);
    }
    Ok((b[pos] % 2 == 1, pos + 1))
}

fn read_uuid_at(b: &[u8], pos: usize) -> (r: Result<(Uuid, usize), ProtoError>)
    requires
        pos <= b@.len(),
    ensures
        match r {
            Ok((v, p)) => uuid_at(b@, pos as nat) == Ok::<(Uuid, nat), ProtoError>((v, p as nat)) && p <= b@.len(),
            Err(e) => uuid_at(b@, pos as nat) == Err::<(Uuid, nat), ProtoError>(e),
        },
{
    if b.len() - pos < 16 {
        return Err(ProtoError::UnexpectedEof);
    }
    let high = match read_u64(b, pos) {
        Ok(v) => v,
        Err(e) => return Err(e),
    };
    let low = match read_u64(b, pos + 8) {
        Ok(v) => v,
        Err(e) => return Err(e),
    };
    Ok((Uuid { high, low }, pos + 16))
}

fn read_bytes_at(b: &[u8], pos: usize) -> (r: Result<(Vec<u8>, usize), ProtoError>)
    requires
        pos <= b@.len(),
    ensures
        match r {
            Ok((v, p)) => bytes_at(b@, pos as nat) == Ok::<(Seq<u8>, nat), ProtoError>((v@, p as nat)) && p <= b@.len(),
            Err(e) => bytes_at(b@, pos as nat) == Err::<(Seq<u8>, nat), ProtoError>(e),
        },
{
    let (len, k) = match read_varint(b, pos) {
        Ok(v) => v,
        Err(e) => return Err(e),
    };
    if len < 0 || len as usize > b.len() - pos - k {
        return Err(ProtoError::UnexpectedEof);
    }
    let end = pos + k + len as usize;
    let bytes = copy_range(b, pos + k, end);
    Ok((bytes, end))
}

fn read_signature_at(b: &[u8], pos: usize) -> (r: Result<(SignatureData, usize), ProtoError>)
    requires
        pos <= b@.len(),
    ensures
        match r {
            Ok((v, p)) => signature_at(b@, pos as nat) == Ok::<(SignatureDataView, nat), ProtoError>((v@, p as nat)) && p <= b@.len(),
            Err(e) => signature_at(b@, pos as nat) == Err::<(SignatureDataView, nat), ProtoError>(e),
        },
{
    let total = b.len();
    let timestamp = match read_long(b, pos) {
        Ok(v) => v,
        Err(e) => return Err(e),
    };
    let (public_key, p) = match read_bytes_at(b, pos + 8) {
        Ok(v) => v,
        Err(e) => return Err(e),
    };
    let (signature, q) = match read_bytes_at(b, p) {
        Ok(v) => v,
        Err(e) => return Err(e),
    };
    Ok((SignatureData { timestamp, public_key, signature }, q))
}

fn read_opt_uuid_at(b: &[u8], pos: usize) -> (r: Result<(Option<Uuid>, usize), ProtoError>)
    requires
        pos <= b@.len(),
    ensures
        match r {
            Ok((v, p)) => opt_uuid_at(b@, pos as nat) == Ok::<(Option<Uuid>, nat), ProtoError>((v, p as nat)) && p <= b@.len(),
            Err(e) => opt_uuid_at(b@, pos as nat) == Err::<(Option<Uuid>, nat), ProtoError>(e),
        },
{
    let (present, p) = match read_bool_at(b, pos) {
        Ok(v) => v,
        Err(e) => return Err(e),
    };
    if !present {
        return Ok((None, p));
    }
    match read_uuid_at(b, p) {
        Ok((u, q)) => Ok((Some(u), q)),
        Err(e) => Err(e),
    }
}

fn read_opt_signature_at(b: &[u8], pos: usize) -> (r: Result<(Option<SignatureData>, usize), ProtoError>)
    requires
        pos <= b@.len(),
    ensures
        match r {
            Ok((v, p)) => opt_signature_at(b@, pos as nat) == Ok::<(Option<SignatureDataView>, nat), ProtoError>(
                (
                    match v {
                        Some(d) => Some(d@),
                        None => None,
                    },
                    p as nat,
                ),
            ) && p <= b@.len(),
            Err(e) => opt_signature_at(b@, pos as nat) == Err::<(Option<SignatureDataView>, nat), ProtoError>(e),
        },
{
    let (present, p) = match read_bool_at(b, pos) {
        Ok(v) => v,
        Err(e) => return Err(e),
    };
    if !present {
        return Ok((None, p));
    }
    match read_signature_at(b, p) {
        Ok((d, q)) => Ok((Some(d), q)),
        Err(e) => Err(e),
    }
}

/// A byte array: its length as a VarInt, then the bytes.
pub open spec fn bytes_field(b: Seq<u8>) -> Seq<u8> {
    varint_bytes(b.len() as i32) + b
}

/// Signing data: timestamp, public key, signature.
pub open spec fn signature_bytes(d: SignatureDataView) -> Seq<u8> {
    long_bytes(d.timestamp) + bytes_field(d.public_key) + bytes_field(d.signature)
}

/// A player id: its high and then its low 64 bits, big-endian.
pub open spec fn uuid_bytes(u: Uuid) -> Seq<u8> {
    be_bytes(u.high as nat, 8) + be_bytes(u.low as nat, 8)
}

/// A presence flag, then the signing data if present.
pub open spec fn opt_signature_bytes(o: Option<SignatureDataView>) -> Seq<u8> {
    match o {
        None => seq![0u8],
        Some(d) => seq![1u8] + signature_bytes(d),
    }
}

/// A presence flag, then the player id if present.
pub open spec fn opt_uuid_bytes(o: Option<Uuid>) -> Seq<u8> {
    match o {
        None => seq![0u8],
        Some(u) => seq![1u8] + uuid_bytes(u),
    }
}

/// The payload of a Login Start in layout `layout`: the fields the layout
/// has no room for are left out; none if it requires a player id and there
/// is none.
pub open spec fn login_start_payload(layout: LoginLayout, v: LoginStartView) -> Option<Seq<u8>> {
    let name = string_bytes(v.username);
    match layout {
        LoginLayout::NameOnly => Some(name),
        LoginLayout::WithSignature => Some(name + opt_signature_bytes(v.signature_data)),
        LoginLayout::WithSignatureAndUuid => Some(
            name + opt_signature_bytes(v.signature_data) + opt_uuid_bytes(v.uuid),
        ),
        LoginLayout::OptionalUuid => Some(name + opt_uuid_bytes(v.uuid)),
        LoginLayout::RequiredUuid => match v.uuid {
            Some(u) => Some(name + uuid_bytes(u)),
            None => None,
        },
    }
}

/// The part of a Login Start that layout `layout` carries.
pub open spec fn carried(layout: LoginLayout, v: LoginStartView) -> LoginStartView {
    match layout {
        LoginLayout::NameOnly => LoginStartView { username: v.username, uuid: None, signature_data: None },
        LoginLayout::WithSignature => LoginStartView { username: v.username, uuid: None, signature_data: v.signature_data },
        LoginLayout::WithSignatureAndUuid => v,
        LoginLayout::OptionalUuid => LoginStartView { username: v.username, uuid: v.uuid, signature_data: None },
        LoginLayout::RequiredUuid => LoginStartView { username: v.username, uuid: v.uuid, signature_data: None },
    }
}

/// A Login Start whose name is a readable string and whose byte arrays
/// have lengths that a VarInt holds.
pub open spec fn login_start_writable(v: LoginStartView) -> bool {
    &&& encode_utf8(v.username).len() <= MAX_STRING_BYTES
    &&& match v.signature_data {
        Some(d) => d.public_key.len() <= i32::MAX && d.signature.len() <= i32::MAX,
        None => true,
    }
}

proof fn lemma_string_at(pre: Seq<u8>, name: Seq<char>, rest: Seq<u8>)
    requires
        encode_utf8(name).len() <= MAX_STRING_BYTES,
    ensures
        string_at(pre + string_bytes(name) + rest, pre.len()) == Ok::<(Seq<char>, nat), ProtoError>(
            (name, pre.len() + string_bytes(name).len()),
        ),
{
    let b = pre + string_bytes(name) + rest;
    assert(b.subrange(pre.len() as int, b.len() as int) =~= string_bytes(name) + rest);
    crate::codec::lemma_string_round_trip(name, MAX_STRING_BYTES as nat, rest);
}

proof fn lemma_bool_at(pre: Seq<u8>, flag: u8, rest: Seq<u8>)
    requires
        flag == 0 || flag == 1,
    ensures
        bool_at(pre + seq![flag] + rest, pre.len()) == Ok::<(bool, nat), ProtoError>((flag == 1, pre.len() + 1)),
{
    assert((pre + seq![flag] + rest)[pre.len() as int] == flag);
}

proof fn lemma_uuid_at(pre: Seq<u8>, u: Uuid, rest: Seq<u8>)
    ensures
        uuid_bytes(u).len() == 16,
        uuid_at(pre + uuid_bytes(u) + rest, pre.len()) == Ok::<(Uuid, nat), ProtoError>((u, pre.len() + 16)),
{
    let b = pre + uuid_bytes(u) + rest;
    let p = pre.len() as int;
    assert(crate::codec::pow256(8) == 0x1_0000_0000_0000_0000) by {
        reveal_with_fuel(crate::codec::pow256, 9);
    }
    crate::codec::lemma_be_round_trip(u.high as nat, 8);
    crate::codec::lemma_be_round_trip(u.low as nat, 8);
    assert(b.subrange(p, p + 8) =~= be_bytes(u.high as nat, 8));
    assert(b.subrange(p + 8, p + 16) =~= be_bytes(u.low as nat, 8));
}

proof fn lemma_bytes_at(pre: Seq<u8>, x: Seq<u8>, rest: Seq<u8>)
    requires
        x.len() <= i32::MAX,
    ensures
        bytes_at(pre + bytes_field(x) + rest, pre.len()) == Ok::<(Seq<u8>, nat), ProtoError>(
            (x, pre.len() + bytes_field(x).len()),
        ),
{
    let b = pre + bytes_field(x) + rest;
    let p = pre.len() as int;
    crate::codec::lemma_varint_round_trip(x.len() as i32, x + rest);
    assert(b.subrange(p, b.len() as int) =~= varint_bytes(x.len() as i32) + (x + rest));
    let k = varint_bytes(x.len() as i32).len() as int;
    assert(b.subrange(p + k, p + k + x.len()) =~= x);
}

proof fn lemma_signature_at(pre: Seq<u8>, d: SignatureDataView, rest: Seq<u8>)
    requires
        d.public_key.len() <= i32::MAX,
        d.signature.len() <= i32::MAX,
    ensures
        signature_at(pre + signature_bytes(d) + rest, pre.len()) == Ok::<(SignatureDataView, nat), ProtoError>(
            (d, pre.len() + signature_bytes(d).len()),
        ),
{
    let b = pre + signature_bytes(d) + rest;
    let p = pre.len() as int;
    crate::codec::lemma_long_round_trip(d.timestamp);
    assert(b.subrange(p, p + 8) =~= long_bytes(d.timestamp));
    let pre1 = pre + long_bytes(d.timestamp);
    assert(b =~= pre1 + bytes_field(d.public_key) + (bytes_field(d.signature) + rest));
    lemma_bytes_at(pre1, d.public_key, bytes_field(d.signature) + rest);
    let pre2 = pre1 + bytes_field(d.public_key);
    assert(b =~= pre2 + bytes_field(d.signature) + rest);
    lemma_bytes_at(pre2, d.signature, rest);
}

proof fn lemma_opt_signature_at(pre: Seq<u8>, o: Option<SignatureDataView>, rest: Seq<u8>)
    requires
        match o {
            Some(d) => d.public_key.len() <= i32::MAX && d.signature.len() <= i32::MAX,
            None => true,
        },
    ensures
        opt_signature_at(pre + opt_signature_bytes(o) + rest, pre.len()) == Ok::<(Option<SignatureDataView>, nat), ProtoError>(
            (o, pre.len() + opt_signature_bytes(o).len()),
        ),
{
    let b = pre + opt_signature_bytes(o) + rest;
    match o {
        None => {
            lemma_bool_at(pre, 0, rest);
        },
        Some(d) => {
            assert(b =~= pre + seq![1u8] + (signature_bytes(d) + rest));
            lemma_bool_at(pre, 1, signature_bytes(d) + rest);
            assert(b =~= (pre + seq![1u8]) + signature_bytes(d) + rest);
            lemma_signature_at(pre + seq![1u8], d, rest);
        },
    }
}

proof fn lemma_opt_uuid_at(pre: Seq<u8>, o: Option<Uuid>, rest: Seq<u8>)
    ensures
        opt_uuid_at(pre + opt_uuid_bytes(o) + rest, pre.len()) == Ok::<(Option<Uuid>, nat), ProtoError>(
            (o, pre.len() + opt_uuid_bytes(o).len()),
        ),
{
    let b = pre + opt_uuid_bytes(o) + rest;
    match o {
        None => {
            lemma_bool_at(pre, 0, rest);
        },
        Some(u) => {
            assert(b =~= pre + seq![1u8] + (uuid_bytes(u) + rest));
            lemma_bool_at(pre, 1, uuid_bytes(u) + rest);
            assert(b =~= (pre + seq![1u8]) + uuid_bytes(u) + rest);
            lemma_uuid_at(pre + seq![1u8], u, rest);
        },
    }
}

/// Writing a Login Start in a layout and reading it back in the same
/// layout gives what the layout carries of it.
pub proof fn lemma_login_start_round_trip(layout: LoginLayout, v: LoginStartView)
    requires
        login_start_writable(v),
        login_start_payload(layout, v) is Some,
    ensures
        login_start_parse(layout, login_start_payload(layout, v)->Some_0) == Ok::<LoginStartView, ProtoError>(
            carried(layout, v),
        ),
{
    let b = login_start_payload(layout, v)->Some_0;
    let name = string_bytes(v.username);
    let e: Seq<u8> = seq![];
    match layout {
        LoginLayout::NameOnly => {
            assert(b =~= e + name + e);
            lemma_string_at(e, v.username, e);
        },
        LoginLayout::WithSignature => {
            let t = opt_signature_bytes(v.signature_data);
            assert(b =~= e + name + t);
            lemma_string_at(e, v.username, t);
            assert(b =~= name + t + e);
            lemma_opt_signature_at(name, v.signature_data, e);
        },
        LoginLayout::WithSignatureAndUuid => {
            let t = opt_signature_bytes(v.signature_data);
            let w = opt_uuid_bytes(v.uuid);
            assert(b =~= e + name + (t + w));
            lemma_string_at(e, v.username, t + w);
            assert(b =~= name + t + w);
            lemma_opt_signature_at(name, v.signature_data, w);
            assert(b =~= (name + t) + w + e);
            lemma_opt_uuid_at(name + t, v.uuid, e);
        },
        LoginLayout::OptionalUuid => {
            let w = opt_uuid_bytes(v.uuid);
            assert(b =~= e + name + w);
            lemma_string_at(e, v.username, w);
            assert(b =~= name + w + e);
            lemma_opt_uuid_at(name, v.uuid, e);
        },
        LoginLayout::RequiredUuid => {
            let u = v.uuid->Some_0;
            let w = uuid_bytes(u);
            assert(b =~= e + name + w);
            lemma_string_at(e, v.username, w);
            assert(b =~= name + w + e);
            lemma_uuid_at(name, u, e);
        },
    }
}

fn write_bytes_field(out: &mut Vec<u8>, b: &[u8])
    requires
        b@.len() <= i32::MAX,
    ensures
        final(out)@ == old(out)@ + bytes_field(b@),
{
    write_varint(out, b.len() as i32);
    append_bytes(out, b);
    assert(out@ =~= old(out)@ + bytes_field(b@));
}

fn write_opt_signature(out: &mut Vec<u8>, o: &Option<SignatureData>)
    requires
        match o {
            Some(d) => d.public_key@.len() <= i32::MAX && d.signature@.len() <= i32::MAX,
            None => true,
        },
    ensures
        final(out)@ == old(out)@ + opt_signature_bytes(
            match o {
                Some(d) => Some(d@),
                None => None,
            },
        ),
{
    match o {
        None => {
            write_boolean(out, false);
            assert(out@ =~= old(out)@ + seq![0u8]);
        },
        Some(d) => {
            write_boolean(out, true);
            write_long(out, d.timestamp);
            write_bytes_field(out, d.public_key.as_slice());
            write_bytes_field(out, d.signature.as_slice());
            assert(out@ =~= old(out)@ + (seq![1u8] + signature_bytes(d@)));
        },
    }
}

fn write_uuid(out: &mut Vec<u8>, u: Uuid)
    ensures
        final(out)@ == old(out)@ + uuid_bytes(u),
{
    write_u64(out, u.high);
    write_u64(out, u.low);
    assert(out@ =~= old(out)@ + uuid_bytes(u));
}

fn write_opt_uuid(out: &mut Vec<u8>, o: Option<Uuid>)
    ensures
        final(out)@ == old(out)@ + opt_uuid_bytes(o),
{
    match o {
        None => {
            write_boolean(out, false);
            assert(out@ =~= old(out)@ + seq![0u8]);
        },
        Some(u) => {
            write_boolean(out, true);
            write_uuid(out, u);
            assert(out@ =~= old(out)@ + (seq![1u8] + uuid_bytes(u)));
        },
    }
}

impl LoginStart {
    /// The payload of this Login Start in layout `layout`, leaving out what
    /// the layout has no room for; none if the layout requires a player id
    /// and there is none.
    pub fn to_payload(&self, layout: LoginLayout) -> (r: Option<Vec<u8>>)
        requires
            login_start_writable(self@),
        ensures
            match login_start_payload(layout, self@) {
                None => r is None,
                Some(p) => r is Some && r->Some_0@ == p,
            },
    {
        let mut out: Vec<u8> = Vec::new();
        write_string(&mut out, self.username.as_str());
        match layout {
            LoginLayout::NameOnly => {},
            LoginLayout::WithSignature => {
                write_opt_signature(&mut out, &self.signature_data);
            },
            LoginLayout::WithSignatureAndUuid => {
                write_opt_signature(&mut out, &self.signature_data);
                write_opt_uuid(&mut out, self.uuid);
            },
            LoginLayout::OptionalUuid => {
                write_opt_uuid(&mut out, self.uuid);
            },
            LoginLayout::RequiredUuid => match self.uuid {
                Some(u) => write_uuid(&mut out, u),
                None => return None,
            },
        }
        assert(out@ =~= login_start_payload(layout, self@)->Some_0);
        Some(out)
    }

    /// Reads a Login Start payload laid out as `layout`.
    pub fn parse(layout: LoginLayout, b: &[u8]) -> (r: Result<LoginStart, ProtoError>)
        ensures
            match r {
                Ok(v) => login_start_parse(layout, b@) == Ok::<LoginStartView, ProtoError>(v@),
                Err(e) => login_start_parse(layout, b@) == Err::<LoginStartView, ProtoError>(e),
            },
    {
        let (username, n) = match read_string(b, 0, MAX_STRING_BYTES) {
            Ok(v) => v,
            Err(e) => {
                assert(b@.subrange(0, b@.len() as int) =~= b@);
                return Err(e);
            },
        };
        assert(b@.subrange(0, b@.len() as int) =~= b@);
        match layout {
            LoginLayout::NameOnly => Ok(LoginStart { username, uuid: None, signature_data: None }),
            LoginLayout::RequiredUuid => match read_uuid_at(b, n) {
                Ok((u, _)) => Ok(LoginStart { username, uuid: Some(u), signature_data: None }),
                Err(e) => Err(e),
            },
            LoginLayout::OptionalUuid => match read_opt_uuid_at(b, n) {
                Ok((u, _)) => Ok(LoginStart { username, uuid: u, signature_data: None }),
                Err(e) => Err(e),
            },
            LoginLayout::WithSignature => match read_opt_signature_at(b, n) {
                Ok((d, _)) => Ok(LoginStart { username, uuid: None, signature_data: d }),
                Err(e) => Err(e),
            },
            LoginLayout::WithSignatureAndUuid => match read_opt_signature_at(b, n) {
                Ok((d, q)) => match read_opt_uuid_at(b, q) {
                    Ok((u, _)) => Ok(LoginStart { username, uuid: u, signature_data: d }),
                    Err(e) => Err(e),
                },
                Err(e) => Err(e),
            },
        }
    }
}

} // verus!
