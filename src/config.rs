//! The routing configuration: virtual hosts keyed by hostname, each with
//! the action to take for connections that ask for it.

use vstd::prelude::*;
use vstd::string::*;
use crate::text::{digit_char, find_char, index_of_from, nat_text, nat_to_string, same_text};

verus! {

/// The port a server address gets when it names none.
pub const DEFAULT_PORT: u16 = 25565;

/// A character that may appear in a host name.
pub open spec fn dns_char(c: char) -> bool {
    ('a' <= c && c <= 'z') || ('A' <= c && c <= 'Z') || ('0' <= c && c <= '9') || c == '-' || c == '.'
}

/// A host name by RFC 1123: 1 to 253 characters from letters, digits, `-`
/// and `.`, split by `.` into labels of 1 to 63 characters that neither start
/// nor end with `-`.
pub open spec fn valid_dns_name(s: Seq<char>) -> bool {
    &&& 0 < s.len() <= 253
    &&& forall|i: int| 0 <= i < s.len() ==> dns_char(#[trigger] s[i])
    &&& s[0] != '.' && s[0] != '-' && s.last() != '.' && s.last() != '-'
    &&& forall|i: int| 0 <= i < s.len() - 1 && #[trigger] s[i] == '.' ==> s[i + 1] != '.' && s[i + 1] != '-'
    &&& forall|i: int| 0 <= i < s.len() - 1 && #[trigger] s[i + 1] == '.' ==> s[i] != '-'
    &&& forall|n: nat| n <= s.len() ==> #[trigger] label_run(s, n) <= 63
}

/// The number of characters other than `.` that directly precede position `n`.
pub open spec fn label_run(s: Seq<char>, n: nat) -> nat
    decreases n,
{
    if n == 0 || s[n - 1] == '.' {
        0
    } else {
        1 + label_run(s, (n - 1) as nat)
    }
}

/// Relies on `hostname_validator::is_valid`, which checks exactly the rules
/// of `valid_dns_name`: allowed characters, total length, and label shape, with `label_run` measuring label length.
#[verifier::external_body]
fn dns_name_ok(s: &str) -> (r: bool)
    ensures
        r == valid_dns_name(s@),
{
    hostname_validator::is_valid(s)
}

/// A validated host name, compared exactly.
#[derive(Debug, PartialEq, Eq, Hash)]
pub struct Hostname(pub String);

impl View for Hostname {
    type V = Seq<char>;

    open spec fn view(&self) -> Seq<char> {
        self.0@
    }
}

/// The message of a rejected host name.
pub open spec fn invalid_hostname_message() -> Seq<char> {
    "hostname is invalid"@
}

impl Hostname {
    /// Accepts `hostname` when it is a valid host name. A dotted IPv4
    /// literal is always one, so it needs no check of its own.
    pub fn from_str(hostname: &str) -> (r: Result<Hostname, String>)
        ensures
            r is Ok <==> valid_dns_name(hostname@),
            r is Ok ==> r->Ok_0@ == hostname@,
            r is Err ==> r->Err_0@ == invalid_hostname_message(),
    {
        if !dns_name_ok(hostname) {
            return Err(String::from_str("hostname is invalid"));
        }
        Ok(Hostname(hostname.to_owned()))
    }

    /// The name as text.
    pub fn as_str(&self) -> (r: &str)
        ensures
            r@ == self@,
    {
        self.0.as_str()
    }

    /// Whether the name is exactly `other`.
    pub fn eq_str(&self, other: &str) -> (r: bool)
        ensures
            r == (self@ == other@),
    {
        same_text(self.0.as_str(), other)
    }

    /// A copy of the name.
    pub fn duplicate(&self) -> (r: Hostname)
        ensures
            r@ == self@,
    {
        Hostname(self.0.clone())
    }
}

/// Why a port did not parse.
#[derive(Debug, Clone, Copy, PartialEq, Eq, Structural)]
pub enum PortError {
    Empty,
    InvalidDigit,
    Overflow,
}

/// Whether `c` is a decimal digit.
pub open spec fn is_digit(c: char) -> bool {
    '0' <= c && c <= '9'
}

/// Reading decimal digits of `s` from `i` on, with `acc` the value so far;
/// the first character that is no digit, or the first digit that takes the
/// value past 65535, stops the scan.
pub open spec fn port_scan(s: Seq<char>, i: nat, acc: nat) -> Result<u16, PortError>
    decreases s.len() - i,
{
    if i >= s.len() {
        Ok(acc as u16)
    } else if !is_digit(s[i as int]) {
        Err(PortError::InvalidDigit)
    } else if acc * 10 + (s[i as int] as nat - '0' as nat) > 65535 {
        Err(PortError::Overflow)
    } else {
        port_scan(s, i + 1, (acc * 10 + (s[i as int] as nat - '0' as nat)) as nat)
    }
}

/// A port: an optional `+` and then decimal digits, at most 65535.
pub open spec fn parse_port_spec(s: Seq<char>) -> Result<u16, PortError> {
    if s.len() == 0 {
        Err(PortError::Empty)
    } else if s[0] == '+' {
        if s.len() == 1 {
            Err(PortError::InvalidDigit)
        } else {
            port_scan(s, 1, 0)
        }
    } else {
        port_scan(s, 0, 0)
    }
}

/// Parses a port: an optional `+` and then decimal digits, at most 65535.
pub fn parse_port(s: &str) -> (r: Result<u16, PortError>)
    ensures
        r == parse_port_spec(s@),
{
    let n = s.unicode_len();
    if n == 0 {
        return Err(PortError::Empty);
    }
    let mut i: usize = 0;
    if s.get_char(0) == '+' {
        if n == 1 {
            return Err(PortError::InvalidDigit);
        }
        i = 1;
    }
    let ghost start = i;
    let mut acc: u32 = 0;
    while i < n
        invariant
            n == s@.len(),
            start <= i <= n,
            acc <= 65535,
            parse_port_spec(s@) == port_scan(s@, i as nat, acc as nat),
        decreases n - i,
    {
        let c = s.get_char(i);
        if c < '0' || c > '9' {
            return Err(PortError::InvalidDigit);
        }
        let d = (c as u32) - ('0' as u32);
        if acc * 10 + d > 65535 {
            return Err(PortError::Overflow);
        }
        acc = acc * 10 + d;
        i = i + 1;
    }
    Ok(acc as u16)
}

/// The message of a port that did not parse.
pub open spec fn port_error_message(e: PortError) -> Seq<char> {
    match e {
        PortError::Empty => "port cannot be blank"@,
        PortError::InvalidDigit => "port can only contain digits"@,
        PortError::Overflow => "port must be in range 0-65535"@,
    }
}

fn port_error_text(e: PortError) -> (r: String)
    ensures
        r@ == port_error_message(e),
{
    match e {
        PortError::Empty => String::from_str("port cannot be blank"),
        PortError::InvalidDigit => String::from_str("port can only contain digits"),
        PortError::Overflow => String::from_str("port must be in range 0-65535"),
    }
}

/// The host part of `host[:port[:...]]`.
pub open spec fn host_part(s: Seq<char>) -> Seq<char> {
    match index_of_from(s, ':', 0) {
        None => s,
        Some(i) => s.subrange(0, i as int),
    }
}

/// The port part of `host[:port[:...]]`, if there is a `:`.
pub open spec fn port_part(s: Seq<char>) -> Option<Seq<char>> {
    match index_of_from(s, ':', 0) {
        None => None,
        Some(i) => match index_of_from(s, ':', i + 1) {
            None => Some(s.subrange((i + 1) as int, s.len() as int)),
            Some(j) => Some(s.subrange((i + 1) as int, j as int)),
        },
    }
}

/// What `host[:port]` parses as: the host and port, or the message of
/// the first problem found. Text after a second `:` is ignored.
pub open spec fn server_addr_parse(s: Seq<char>) -> Result<(Seq<char>, u16), Seq<char>> {
    if !valid_dns_name(host_part(s)) {
        Err(invalid_hostname_message())
    } else {
        match port_part(s) {
            None => Ok((host_part(s), DEFAULT_PORT)),
            Some(p) => match parse_port_spec(p) {
                Ok(port) => Ok((host_part(s), port)),
                Err(e) => Err(port_error_message(e)),
            },
        }
    }
}

proof fn lemma_index_of_found(s: Seq<char>, c: char, i: nat, k: nat)
    requires
        i <= k < s.len(),
        s[k as int] == c,
        forall|j: int| i <= j < k ==> s[j] != c,
    ensures
        index_of_from(s, c, i) == Some(k),
    decreases k - i,
{
    if i < k {
        lemma_index_of_found(s, c, i + 1, k);
    }
}

proof fn lemma_index_of_absent(s: Seq<char>, c: char, i: nat)
    requires
        forall|j: int| i <= j < s.len() ==> s[j] != c,
    ensures
        index_of_from(s, c, i) is None,
    decreases s.len() - i,
{
    if i < s.len() {
        lemma_index_of_absent(s, c, i + 1);
    }
}

proof fn lemma_digit_char(d: nat)
    requires
        d < 10,
    ensures
        is_digit(digit_char(d)),
        digit_char(d) as nat - '0' as nat == d,
{
    if d == 0 {
        assert(digit_char(0) == '0');
    } else if d == 1 {
        assert(digit_char(1) == '1');
    } else if d == 2 {
        assert(digit_char(2) == '2');
    } else if d == 3 {
        assert(digit_char(3) == '3');
    } else if d == 4 {
        assert(digit_char(4) == '4');
    } else if d == 5 {
        assert(digit_char(5) == '5');
    } else if d == 6 {
        assert(digit_char(6) == '6');
    } else if d == 7 {
        assert(digit_char(7) == '7');
    } else if d == 8 {
        assert(digit_char(8) == '8');
    } else {
        assert(digit_char(9) == '9');
    }
}

proof fn lemma_port_scan_push(u: Seq<char>, d: char, i: nat, acc: nat)
    requires
        i <= u.len(),
        acc <= 65535,
        is_digit(d),
    ensures
        port_scan(u.push(d), i, acc) == match port_scan(u, i, acc) {
            Err(e) => Err(e),
            Ok(v) => if v * 10 + (d as nat - '0' as nat) > 65535 {
                Err(PortError::Overflow)
            } else {
                Ok((v * 10 + (d as nat - '0' as nat)) as u16)
            },
        },
    decreases u.len() - i,
{
    let s = u.push(d);
    if i == u.len() {
        assert(s[i as int] == d);
        let next = acc * 10 + (d as nat - '0' as nat);
        if next <= 65535 {
            assert(port_scan(s, i + 1, next as nat) == Ok::<u16, PortError>(next as u16));
        }
    } else {
        assert(s[i as int] == u[i as int]);
        if is_digit(u[i as int]) && acc * 10 + (u[i as int] as nat - '0' as nat) <= 65535 {
            lemma_port_scan_push(u, d, i + 1, (acc * 10 + (u[i as int] as nat - '0' as nat)) as nat);
        }
    }
}

proof fn lemma_nat_text_scan(n: nat)
    requires
        n <= 65535,
    ensures
        port_scan(nat_text(n), 0, 0) == Ok::<u16, PortError>(n as u16),
        nat_text(n).len() >= 1,
        forall|j: int| 0 <= j < nat_text(n).len() ==> is_digit(#[trigger] nat_text(n)[j]),
    decreases n,
{
    if n < 10 {
        lemma_digit_char(n);
        let t = nat_text(n);
        assert(t[0] == digit_char(n));
        assert(port_scan(t, 1, n) == Ok::<u16, PortError>(n as u16));
    } else {
        lemma_nat_text_scan(n / 10);
        lemma_digit_char(n % 10);
        lemma_port_scan_push(nat_text(n / 10), digit_char(n % 10), 0, 0);
        let t = nat_text(n);
        assert(t == nat_text(n / 10).push(digit_char(n % 10)));
        assert forall|j: int| 0 <= j < t.len() implies is_digit(#[trigger] t[j]) by {
            if j < t.len() - 1 {
                assert(t[j] == nat_text(n / 10)[j]);
            }
        }
    }
}

/// Formatting an address with a valid host as `host:port` and parsing the
/// text back gives the same host and port.
pub proof fn lemma_server_addr_round_trip(host: Seq<char>, port: u16)
    requires
        valid_dns_name(host),
    ensures
        server_addr_parse(server_addr_text((host, port))) == Ok::<(Seq<char>, u16), Seq<char>>((host, port)),
{
    let digits = nat_text(port as nat);
    lemma_nat_text_scan(port as nat);
    let s = server_addr_text((host, port));
    assert(s == host + seq![':'] + digits);
    assert forall|j: int| 0 <= j < host.len() implies s[j] != ':' by {
        assert(s[j] == host[j]);
        assert(dns_char(host[j]));
    }
    lemma_index_of_found(s, ':', 0, host.len());
    assert forall|j: int| host.len() + 1 <= j < s.len() implies s[j] != ':' by {
        assert(s[j] == digits[j - host.len() - 1]);
        assert(is_digit(digits[j - host.len() - 1]));
    }
    lemma_index_of_absent(s, ':', host.len() + 1);
    assert(s.subrange(0, host.len() as int) =~= host);
    assert(s.subrange((host.len() + 1) as int, s.len() as int) =~= digits);
    assert(digits[0] != '+') by {
        assert(is_digit(digits[0]));
    }
}

/// A backend address: a host name and a port.
#[derive(Debug)]
pub struct ServerAddr(Hostname, u16);

impl View for ServerAddr {
    type V = (Seq<char>, u16);

    closed spec fn view(&self) -> (Seq<char>, u16) {
        (self.0@, self.1)
    }
}

/// `host:port`.
pub open spec fn server_addr_text(a: (Seq<char>, u16)) -> Seq<char> {
    a.0 + seq![':'] + nat_text(a.1 as nat)
}

impl ServerAddr {
    /// An address from its parts.
    pub fn new(host: Hostname, port: u16) -> (r: ServerAddr)
        ensures
            r@ == (host@, port),
    {
        ServerAddr(host, port)
    }

    /// Parses `host[:port]`; the port is 25565 when absent.
    pub fn from_str(address: &str) -> (r: Result<ServerAddr, String>)
        ensures
            match server_addr_parse(address@) {
                Ok(a) => r is Ok && r->Ok_0@ == a,
                Err(m) => r is Err && r->Err_0@ == m,
            },
    {
        let n = address.unicode_len();
        let first = find_char(address, ':', 0);
        let host_text = match first {
            None => address,
            Some(i) => address.substring_char(0, i),
        };
        let hostname = match Hostname::from_str(host_text) {
            Ok(h) => h,
            Err(e) => return Err(e),
        };
        let port = match first {
            None => DEFAULT_PORT,
            Some(i) => {
                let port_text = match find_char(address, ':', i + 1) {
                    None => address.substring_char(i + 1, n),
                    Some(j) => address.substring_char(i + 1, j),
                };
                match parse_port(port_text) {
                    Ok(p) => p,
                    Err(e) => return Err(port_error_text(e)),
                }
            },
        };
        Ok(ServerAddr(hostname, port))
    }

    /// The host name.
    pub fn host(&self) -> (r: &Hostname)
        ensures
            r@ == self@.0,
    {
        &self.0
    }

    /// The port.
    pub fn port(&self) -> (r: u16)
        ensures
            r == self@.1,
    {
        self.1
    }

    /// The address as `host:port`.
    pub fn to_text(&self) -> (r: String)
        ensures
            r@ == server_addr_text(self@),
    {
        let mut s = self.0.0.clone();
        s.append(":");
        proof {
            reveal_strlit(":");
        }
        let port = nat_to_string(self.1 as u64);
        s.append(port.as_str());
        assert(s@ =~= server_addr_text(self@));
        s
    }

    /// A copy of the address.
    pub fn duplicate(&self) -> (r: ServerAddr)
        ensures
            r@ == self@,
    {
        ServerAddr(self.0.duplicate(), self.1)
    }
}

/// The view of an optional string.
pub open spec fn opt_text(o: Option<String>) -> Option<Seq<char>> {
    match o {
        Some(s) => Some(s@),
        None => None,
    }
}

fn duplicate_text(o: &Option<String>) -> (r: Option<String>)
    ensures
        opt_text(r) == opt_text(*o),
{
    match o {
        Some(s) => Some(s.clone()),
        None => None,
    }
}

/// A canned answer: the status to show and the message to kick with.
/// Every field is optional and has a default where it is used.
#[derive(Debug)]
pub struct StaticAction {
    pub version_name: Option<String>,
    pub protocol_version: Option<i32>,
    pub cur_players: Option<i64>,
    pub max_players: Option<i64>,
    pub description: Option<String>,
    pub kick_message: Option<String>,
}

/// What a canned answer holds.
pub struct StaticActionView {
    pub version_name: Option<Seq<char>>,
    pub protocol_version: Option<i32>,
    pub cur_players: Option<i64>,
    pub max_players: Option<i64>,
    pub description: Option<Seq<char>>,
    pub kick_message: Option<Seq<char>>,
}

impl View for StaticAction {
    type V = StaticActionView;

    open spec fn view(&self) -> StaticActionView {
        StaticActionView {
            version_name: opt_text(self.version_name),
            protocol_version: self.protocol_version,
            cur_players: self.cur_players,
            max_players: self.max_players,
            description: opt_text(self.description),
            kick_message: opt_text(self.kick_message),
        }
    }
}

impl StaticAction {
    /// A copy of the action.
    pub fn duplicate(&self) -> (r: StaticAction)
        ensures
            r@ == self@,
    {
        StaticAction {
            version_name: duplicate_text(&self.version_name),
            protocol_version: self.protocol_version,
            cur_players: self.cur_players,
            max_players: self.max_players,
            description: duplicate_text(&self.description),
            kick_message: duplicate_text(&self.kick_message),
        }
    }
}

/// Forwarding to a backend.
#[derive(Debug)]
pub struct ForwardAction(pub ServerAddr);

impl View for ForwardAction {
    type V = (Seq<char>, u16);

    open spec fn view(&self) -> (Seq<char>, u16) {
        self.0@
    }
}

impl ForwardAction {
    /// A copy of the action.
    pub fn duplicate(&self) -> (r: ForwardAction)
        ensures
            r@ == self@,
    {
        ForwardAction(self.0.duplicate())
    }
}

/// What to do with a Status (server-list ping) connection.
#[derive(Debug)]
pub enum StatusAction {
    Static { static_action: StaticAction },
    Forward { forward: ForwardAction },
}

/// What to do with a Login connection.
#[derive(Debug)]
pub enum LoginAction {
    Static { static_action: StaticAction },
    Forward { forward: ForwardAction },
}

/// The view of an action for one flow: a canned answer or a backend.
pub enum FlowActionView {
    Static(StaticActionView),
    Forward((Seq<char>, u16)),
}

impl View for StatusAction {
    type V = FlowActionView;

    open spec fn view(&self) -> FlowActionView {
        match self {
            StatusAction::Static { static_action } => FlowActionView::Static(static_action@),
            StatusAction::Forward { forward } => FlowActionView::Forward(forward@),
        }
    }
}

impl View for LoginAction {
    type V = FlowActionView;

    open spec fn view(&self) -> FlowActionView {
        match self {
            LoginAction::Static { static_action } => FlowActionView::Static(static_action@),
            LoginAction::Forward { forward } => FlowActionView::Forward(forward@),
        }
    }
}

impl StatusAction {
    /// A copy of the action.
    pub fn duplicate(&self) -> (r: StatusAction)
        ensures
            r@ == self@,
    {
        match self {
            StatusAction::Static { static_action } => StatusAction::Static { static_action: static_action.duplicate() },
            StatusAction::Forward { forward } => StatusAction::Forward { forward: forward.duplicate() },
        }
    }
}

impl LoginAction {
    /// A copy of the action.
    pub fn duplicate(&self) -> (r: LoginAction)
        ensures
            r@ == self@,
    {
        match self {
            LoginAction::Static { static_action } => LoginAction::Static { static_action: static_action.duplicate() },
            LoginAction::Forward { forward } => LoginAction::Forward { forward: forward.duplicate() },
        }
    }
}

/// What to do with connections for a virtual host: one answer for both
/// flows, or one per flow.
#[derive(Debug)]
pub enum Action {
    Conditional { status: StatusAction, login: LoginAction },
    Static { static_action: StaticAction },
    Forward { forward: ForwardAction },
}

/// What an action holds.
pub enum ActionView {
    Conditional { status: FlowActionView, login: FlowActionView },
    Static(StaticActionView),
    Forward((Seq<char>, u16)),
}

impl View for Action {
    type V = ActionView;

    open spec fn view(&self) -> ActionView {
        match self {
            Action::Conditional { status, login } => ActionView::Conditional { status: status@, login: login@ },
            Action::Static { static_action } => ActionView::Static(static_action@),
            Action::Forward { forward } => ActionView::Forward(forward@),
        }
    }
}

/// The action for the Status flow.
pub open spec fn status_action_of(a: ActionView) -> FlowActionView {
    match a {
        ActionView::Conditional { status, login } => status,
        ActionView::Static(s) => FlowActionView::Static(s),
        ActionView::Forward(f) => FlowActionView::Forward(f),
    }
}

/// The action for the Login flow.
pub open spec fn login_action_of(a: ActionView) -> FlowActionView {
    match a {
        ActionView::Conditional { status, login } => login,
        ActionView::Static(s) => FlowActionView::Static(s),
        ActionView::Forward(f) => FlowActionView::Forward(f),
    }
}

impl Action {
    /// The action for the Status flow: the status part of a conditional
    /// action, or a bare one as is.
    pub fn get_status_action(&self) -> (r: StatusAction)
        ensures
            r@ == status_action_of(self@),
    {
        match self {
            Action::Conditional { status, .. } => status.duplicate(),
            Action::Static { static_action } => StatusAction::Static { static_action: static_action.duplicate() },
            Action::Forward { forward } => StatusAction::Forward { forward: forward.duplicate() },
        }
    }

    /// The action for the Login flow: the login part of a conditional
    /// action, or a bare one as is.
    pub fn get_login_action(&self) -> (r: LoginAction)
        ensures
            r@ == login_action_of(self@),
    {
        match self {
            Action::Conditional { login, .. } => login.duplicate(),
            Action::Static { static_action } => LoginAction::Static { static_action: static_action.duplicate() },
            Action::Forward { forward } => LoginAction::Forward { forward: forward.duplicate() },
        }
    }

    /// A deep copy of the action.
    pub fn duplicate(&self) -> (r: Action)
        ensures
            r@ == self@,
    {
        match self {
            Action::Conditional { status, login } => Action::Conditional { status: status.duplicate(), login: login.duplicate() },
            Action::Static { static_action } => Action::Static { static_action: static_action.duplicate() },
            Action::Forward { forward } => Action::Forward { forward: forward.duplicate() },
        }
    }
}

/// A virtual host: a name and the action for it.
#[derive(Debug)]
pub struct VirtualHost {
    pub hostname: Hostname,
    pub action: Action,
}

/// What a virtual host holds.
pub struct VirtualHostView {
    pub hostname: Seq<char>,
    pub action: ActionView,
}

impl View for VirtualHost {
    type V = VirtualHostView;

    open spec fn view(&self) -> VirtualHostView {
        VirtualHostView { hostname: self.hostname@, action: self.action@ }
    }
}

/// The virtual host that `name` maps to: the last one listed with that name,
/// as when the list is loaded into a map in order.
pub open spec fn lookup_host(hosts: Seq<VirtualHostView>, name: Seq<char>) -> Option<VirtualHostView>
    decreases hosts.len(),
{
    if hosts.len() == 0 {
        None
    } else if hosts.last().hostname == name {
        Some(hosts.last())
    } else {
        lookup_host(hosts.drop_last(), name)
    }
}

/// A snapshot of the routing configuration.
#[derive(Debug)]
pub struct Config {
    default_host: Option<Hostname>,
    hosts: Vec<VirtualHost>,
}

/// What a configuration holds.
pub struct ConfigView {
    pub default_host: Option<Seq<char>>,
    pub hosts: Seq<VirtualHostView>,
}

impl View for Config {
    type V = ConfigView;

    closed spec fn view(&self) -> ConfigView {
        ConfigView {
            default_host: match self.default_host {
                Some(h) => Some(h@),
                None => None,
            },
            hosts: self.hosts@.map_values(|v: VirtualHost| v@),
        }
    }
}

/// The action for connections that ask for `name`: that of the host named
/// so if there is one, else that of the default host if it is set and
/// listed, else none.
pub open spec fn resolve_action(c: ConfigView, name: Seq<char>) -> Option<ActionView> {
    match lookup_host(c.hosts, name) {
        Some(v) => Some(v.action),
        None => match c.default_host {
            Some(d) => match lookup_host(c.hosts, d) {
                Some(v) => Some(v.action),
                None => None,
            },
            None => None,
        },
    }
}

/// The index of the virtual host that `name` maps to.
fn find_host(hosts: &Vec<VirtualHost>, name: &str) -> (r: Option<usize>)
    ensures
        match lookup_host(hosts@.map_values(|v: VirtualHost| v@), name@) {
            None => r is None,
            Some(v) => r is Some && r->Some_0 < hosts@.len() && hosts@[r->Some_0 as int]@ == v,
        },
{
    let ghost all = hosts@.map_values(|v: VirtualHost| v@);
    let mut i: usize = hosts.len();
    assert(all.subrange(0, i as int) =~= all);
    while i > 0
        invariant
            i <= hosts@.len(),
            all == hosts@.map_values(|v: VirtualHost| v@),
            lookup_host(all, name@) == lookup_host(all.subrange(0, i as int), name@),
        decreases i,
    {
        let ghost prefix = all.subrange(0, i as int);
        i = i - 1;
        assert(prefix.drop_last() =~= all.subrange(0, i as int));
        if hosts[i].hostname.eq_str(name) {
            return Some(i);
        }
    }
    None
}

impl Default for Config {
    fn default() -> (r: Config)
        ensures
            r@.default_host is None,
            r@.hosts.len() == 0,
    {
        Config { default_host: None, hosts: Vec::new() }
    }
}

impl Config {
    /// A configuration with the given default host and virtual hosts.
    pub fn new(default_host: Option<Hostname>, hosts: Vec<VirtualHost>) -> (r: Config)
        ensures
            r@.default_host == (match default_host {
                Some(h) => Some(h@),
                None => None::<Seq<char>>,
            }),
            r@.hosts == hosts@.map_values(|v: VirtualHost| v@),
    {
        Config { default_host, hosts }
    }

    /// The virtual hosts, in the order they were listed.
    pub fn hosts(&self) -> (r: &Vec<VirtualHost>)
        ensures
            r@.map_values(|v: VirtualHost| v@) == self@.hosts,
    {
        &self.hosts
    }

    /// The default host's name, if one is set.
    pub fn default_host(&self) -> (r: Option<&Hostname>)
        ensures
            match r {
                Some(h) => self@.default_host == Some(h@),
                None => self@.default_host is None,
            },
    {
        match &self.default_host {
            Some(h) => Some(h),
            None => None,
        }
    }

    /// The virtual host that the default host name maps to.
    pub fn get_default_host(&self) -> (r: Option<&VirtualHost>)
        ensures
            match self@.default_host {
                None => r is None,
                Some(d) => match lookup_host(self@.hosts, d) {
                    None => r is None,
                    Some(v) => r is Some && r->Some_0@ == v,
                },
            },
    {
        match &self.default_host {
            None => None,
            Some(d) => match find_host(&self.hosts, d.as_str()) {
                None => None,
                Some(i) => Some(&self.hosts[i]),
            },
        }
    }
}

/// The action for connections that ask for `hostname`, as a copy that
/// outlives the snapshot.
pub fn find_action(config: &Config, hostname: &str) -> (r: Option<Action>)
    ensures
        match resolve_action(config@, hostname@) {
            None => r is None,
            Some(a) => r is Some && r->Some_0@ == a,
        },
{
    match find_host(&config.hosts, hostname) {
        Some(i) => Some(config.hosts[i].action.duplicate()),
        None => match config.get_default_host() {
            Some(v) => Some(v.action.duplicate()),
            None => None,
        },
    }
}

} // verus!
