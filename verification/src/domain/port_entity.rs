//! Wire-level events, port types, and the abstraction of a bound port.
use vstd::prelude::*;
use crate::domain::client::ClientId;
use crate::domain::errors::AppError;
use crate::domain::port::PortNumber;
use crate::domain::text::push_char;
use vstd::string::StrSliceExecFns;

verus! {

/// Events emitted from the network layer towards the WebSocket peer.
#[derive(Debug, Clone, PartialEq, Eq)]
pub enum WsEvent {
    /// A new client connected on the port.
    Connected { client: ClientId, addr: String },
    /// Data arrived from a connected client.
    Data {
        client: ClientId,
        data: String,
        /// `true` if `data` is hex-encoded; `false` for plain text.
        hex: bool,
    },
    /// A client disconnected.
    Closed { client: ClientId },
    /// An error occurred on this port.
    Error { msg: String },
}

/// Internal transport classification (raw TCP / TLS / UDP).
#[derive(Debug, Clone, Copy, PartialEq, Eq, Structural)]
pub enum PortKind {
    Tcp,
    TcpSsl,
    Udp,
}

/// Wire-protocol `type` label exchanged with WebSocket clients.
///
/// Mapping rules:
/// * `"tcp"`       -> `Tcp`
/// * `"udp"`       -> `Udp`
/// * `"tcp_ssl"` /
///   `"ssl-tcp"`   -> `SslTcp` (both spellings accepted for compatibility)
#[derive(Debug, Clone, Copy, PartialEq, Eq, Structural)]
pub enum PortType {
    Tcp,
    Udp,
    SslTcp,
}

/// ASCII lowercase of one character (`char::to_ascii_lowercase`).
pub open spec fn ascii_lower(c: char) -> char {
    if 'A' <= c && c <= 'Z' {
        ((c as u32) + 32) as char
    } else {
        c
    }
}

/// ASCII lowercase of a text (`str::to_ascii_lowercase`).
pub open spec fn ascii_lower_text(s: Seq<char>) -> Seq<char> {
    s.map_values(|c: char| ascii_lower(c))
}

/// The port type a wire label names, case-insensitively.
pub open spec fn spec_parse_port_type(s: Seq<char>) -> Option<PortType> {
    let l = ascii_lower_text(s);
    if l == "tcp"@ {
        Some(PortType::Tcp)
    } else if l == "udp"@ {
        Some(PortType::Udp)
    } else if l == "tcp_ssl"@ || l == "ssl-tcp"@ {
        Some(PortType::SslTcp)
    } else {
        None
    }
}

/// The canonical lowercase wire label of a port type.
pub open spec fn spec_wire_label(t: PortType) -> Seq<char> {
    match t {
        PortType::Tcp => "tcp"@,
        PortType::Udp => "udp"@,
        PortType::SslTcp => "ssl-tcp"@,
    }
}

impl PortType {
    /// Every supported variant.
    pub const ALL: [PortType; 3] = [PortType::Tcp, PortType::Udp, PortType::SslTcp];

    /// Convert to the canonical lowercase wire label.
    pub fn wire_label(self) -> (l: &'static str)
        ensures
            l@ == spec_wire_label(self),
    {
        wire_label(self)
    }
}

pub(crate) fn lower_char(c: char) -> (r: char)
    ensures
        r == ascii_lower(c),
{
    if 'A' <= c && c <= 'Z' {
        let v: u32 = (c as u32) + 32;
        assert(v < 128);
        (v as u8) as char
    } else {
        c
    }
}

/// True iff the characters `v` spell exactly the text `lit`.
pub(crate) fn chars_equal(v: &Vec<char>, lit: &str) -> (b: bool)
    ensures
        b == (v@ == lit@),
{
    let n = lit.unicode_len();
    if v.len() != n {
        return false;
    }
    let mut i: usize = 0;
    while i < n
        invariant
            n == lit@.len(),
            v@.len() == n,
            i <= n,
            forall|k: int| 0 <= k < i ==> v@[k] == lit@[k],
        decreases n - i,
    {
        if v[i] != lit.get_char(i) {
            return false;
        }
        i = i + 1;
    }
    assert(v@ =~= lit@);
    true
}

/// Parse a wire-format `type` string into a [`PortType`].
///
/// Accepts (ASCII case-insensitive) `tcp`, `udp`, `tcp_ssl` and `ssl-tcp`;
/// anything else is [`AppError::BadType`] carrying the lowercased input.
pub fn parse_port_type(s: &str) -> (r: Result<PortType, AppError>)
    ensures
        match spec_parse_port_type(s@) {
            Some(t) => r matches Ok(u) && u == t,
            None => r matches Err(AppError::BadType(m)) && m@ == ascii_lower_text(s@),
        },
{
    let mut lower: Vec<char> = Vec::new();
    let mut text = String::new();
    for c in it: s.chars()
        invariant
            it.seq() == s@,
            lower@ =~= ascii_lower_text(s@.take(it.index() as int)),
            text@ == lower@,
    {
        let l = lower_char(c);
        lower.push(l);
        push_char(&mut text, l);
        assert(s@.take(it.index() as int + 1) =~= s@.take(it.index() as int).push(c));
    }
    assert(s@.take(s@.len() as int) =~= s@);
    if chars_equal(&lower, "tcp") {
        Ok(PortType::Tcp)
    } else if chars_equal(&lower, "udp") {
        Ok(PortType::Udp)
    } else if chars_equal(&lower, "tcp_ssl") || chars_equal(&lower, "ssl-tcp") {
        Ok(PortType::SslTcp)
    } else {
        Err(AppError::BadType(text))
    }
}

/// Canonical lowercase wire label for a [`PortType`].
///
/// Used as the Prometheus `type` label so values stay stable across
/// releases.
pub fn wire_label(t: PortType) -> (l: &'static str)
    ensures
        l@ == spec_wire_label(t),
{
    match t {
        PortType::Tcp => "tcp",
        PortType::Udp => "udp",
        PortType::SslTcp => "ssl-tcp",
    }
}

/// Round trip: every canonical wire label parses back to its port type.
pub proof fn lemma_wire_label_roundtrip(t: PortType)
    ensures
        spec_parse_port_type(spec_wire_label(t)) == Some(t),
{
    reveal_strlit("tcp");
    reveal_strlit("udp");
    reveal_strlit("ssl-tcp");
    reveal_strlit("tcp_ssl");
    let l = spec_wire_label(t);
    assert(ascii_lower_text(l) =~= l);
    match t {
        PortType::Tcp => {
            assert(l != "udp"@ || l[0] != "udp"@[0]);
        },
        PortType::Udp => {
            assert(l[0] != "tcp"@[0]);
        },
        PortType::SslTcp => {
            assert(l.len() != "tcp"@.len());
            assert(l.len() != "udp"@.len());
            assert(l[0] != "tcp_ssl"@[0]);
        },
    }
}

/// Abstraction over a bound port that can accept client connections and
/// fan data in/out of the WebSocket dispatcher. The transports (TCP,
/// TLS-TCP, UDP) implement it, outside the verified code: nothing is
/// assumed of what they do.
pub trait PortEntity {
    /// The port number this entity is bound to.
    fn port(&self) -> PortNumber;

    /// Wire-level port type (TCP / UDP / SSL-TCP).
    fn kind(&self) -> PortType;

    /// Send `data` to a single connected client.
    fn send(&self, client: ClientId, data: &[u8]) -> Result<(), AppError>;

    /// Forcibly close a single client connection.
    fn close_client(&self, client: ClientId) -> Result<(), AppError>;

    /// Tear down the whole port: stop accepting new clients, close all
    /// existing connections, release the OS socket.
    fn shutdown(&self) -> Result<(), AppError>;
}

} // verus!
