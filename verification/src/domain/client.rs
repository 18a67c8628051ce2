//! Identifiers, peer addresses and per-client statistics.
use vstd::prelude::*;
use crate::domain::hex::hex_digit;
use crate::domain::text::{decimal, push_char, push_decimal};
use vstd::string::StringExecFns;

verus! {

/// The `n` lowest hex digits of `v`, most significant first.
pub open spec fn hex_digits(v: nat, n: nat) -> Seq<char>
    decreases n,
{
    if n == 0 {
        Seq::empty()
    } else {
        hex_digits(v / 16, (n - 1) as nat).push(hex_digit(v % 16))
    }
}

/// The hyphenated lowercase form of a 128-bit UUID value:
/// `xxxxxxxx-xxxx-xxxx-xxxx-xxxxxxxxxxxx`.
pub open spec fn uuid_text(v: u128) -> Seq<char> {
    hex_digits(v as nat / 0x1_0000_0000_0000_0000_0000_0000, 8) + "-"@
        + hex_digits(v as nat / 0x1_0000_0000_0000_0000_0000, 4) + "-"@
        + hex_digits(v as nat / 0x1_0000_0000_0000_0000, 4) + "-"@
        + hex_digits(v as nat / 0x1_0000_0000_0000, 4) + "-"@
        + hex_digits(v as nat, 12)
}

/// What `uuid::Uuid::parse_str` gives for a text: the 128-bit value of the
/// UUID it denotes, or `None` where the crate rejects the text.
pub uninterp spec fn uuid_parse(s: Seq<char>) -> Option<u128>;

/// A globally-unique 128-bit identifier (RFC 4122 / 9562 layout).
#[derive(Debug, Clone, Copy, PartialEq, Eq, Hash, Structural)]
pub struct Uuid {
    value: u128,
}

/// `v` is a value `uuid::Uuid::new_v4` returned.
pub closed spec fn drawn_v4(v: u128) -> bool {
    call_ensures(uuid_new_v4_value, (), v)
}

/// A fresh random value from `uuid::Uuid::new_v4`. The crate fills the
/// value from its random source and then sets the version nibble to 4 and
/// the variant bits to `10`; nothing else is known of the value.
#[verifier::external_body]
fn uuid_new_v4_value() -> (v: u128)
    ensures
        (v as nat / 0x1_0000_0000_0000_0000_000) % 16 == 4,
        (v as nat / 0x4000_0000_0000_0000) % 4 == 2,
{
    uuid::Uuid::new_v4().as_u128()
}

/// `uuid::Uuid::parse_str`, giving the value of the parsed UUID.
///
/// The hyphenated lowercase text of a value parses back to that value.
#[verifier::external_body]
fn uuid_parse_str_value(s: &str) -> (r: Option<u128>)
    ensures
        r == uuid_parse(s@),
        forall|v: u128| s@ == #[trigger] uuid_text(v) ==> r == Some(v),
{
    match uuid::Uuid::parse_str(s) {
        Ok(u) => Some(u.as_u128()),
        Err(_) => None,
    }
}

fn hex_char(n: u128) -> (c: char)
    requires
        n < 16,
    ensures
        c == hex_digit(n as nat),
{
    let b: u8 = n as u8;
    if b < 10 {
        (48u8 + b) as char
    } else {
        (87u8 + b) as char
    }
}

fn push_hex_digits(s: &mut String, v: u128, n: u64)
    ensures
        final(s)@ == old(s)@ + hex_digits(v as nat, n as nat),
    decreases n,
{
    if n > 0 {
        push_hex_digits(s, v / 16, n - 1);
        push_char(s, hex_char(v % 16));
        assert(hex_digits(v as nat, n as nat) == hex_digits((v / 16) as nat, (n - 1) as nat).push(
            hex_digit((v % 16) as nat),
        ));
    }
}

impl Uuid {
    /// The 128-bit value of the identifier.
    pub closed spec fn value(self) -> u128 {
        self.value
    }

    /// Two identifiers are the same exactly when their values are.
    pub proof fn lemma_value_eq(a: Uuid, b: Uuid)
        ensures
            (a.value() == b.value()) == (a == b),
    {
    }

    /// The identifier with the given 128-bit value.
    pub fn from_u128(v: u128) -> (u: Uuid)
        ensures
            u.value() == v,
    {
        Uuid { value: v }
    }

    /// The 128-bit value of the identifier.
    pub fn as_u128(&self) -> (v: u128)
        ensures
            v == self.value(),
    {
        self.value
    }

    /// A random version-4 identifier: the value `uuid::Uuid::new_v4` drew.
    pub fn new_v4() -> (u: Uuid)
        ensures
            drawn_v4(u.value()),
            (u.value() as nat / 0x1_0000_0000_0000_0000_000) % 16 == 4,
            (u.value() as nat / 0x4000_0000_0000_0000) % 4 == 2,
    {
        // Called through its function value, so that the call is on record.
        let draw = uuid_new_v4_value;
        let v = draw();
        assert(call_ensures(uuid_new_v4_value, (), v));
        Uuid { value: v }
    }

    /// Parse a textual UUID (the forms `uuid::Uuid::parse_str` accepts).
    /// The text [`Uuid::to_string`] gives parses back to the identifier.
    pub fn parse_str(s: &str) -> (r: Option<Uuid>)
        ensures
            match uuid_parse(s@) {
                Some(v) => r matches Some(u) && u.value() == v,
                None => r is None,
            },
            forall|v: u128| s@ == #[trigger] uuid_text(v) ==> (r matches Some(u) && u.value() == v),
    {
        match uuid_parse_str_value(s) {
            Some(v) => Some(Uuid { value: v }),
            None => None,
        }
    }

    /// The hyphenated lowercase text of the identifier.
    pub fn to_string(&self) -> (s: String)
        ensures
            s@ == uuid_text(self.value()),
    {
        let v = self.value;
        let mut s = String::new();
        push_hex_digits(&mut s, v / 0x1_0000_0000_0000_0000_0000_0000, 8);
        push_char(&mut s, '-');
        push_hex_digits(&mut s, v / 0x1_0000_0000_0000_0000_0000, 4);
        push_char(&mut s, '-');
        push_hex_digits(&mut s, v / 0x1_0000_0000_0000_0000, 4);
        push_char(&mut s, '-');
        push_hex_digits(&mut s, v / 0x1_0000_0000_0000, 4);
        push_char(&mut s, '-');
        push_hex_digits(&mut s, v, 12);
        proof {
            reveal_strlit("-");
        }
        assert(s@ =~= uuid_text(v));
        s
    }
}

/// Opaque, globally-unique client identifier.
pub type ClientId = Uuid;

/// Mint a fresh client id (UUID v4).
pub fn new_client_id() -> (id: ClientId)
    ensures
        drawn_v4(id.value()),
        (id.value() as nat / 0x1_0000_0000_0000_0000_000) % 16 == 4,
{
    Uuid::new_v4()
}

/// A `(ip, port)` peer address, displayed as `ip:port`.
#[derive(Debug, Clone, PartialEq, Eq)]
pub struct ClientEndpoint {
    pub ip: String,
    pub port: u16,
}

/// The text of an endpoint: `ip:port`.
pub open spec fn endpoint_text(ip: Seq<char>, port: u16) -> Seq<char> {
    ip + ":"@ + decimal(port as nat)
}

impl ClientEndpoint {
    /// An endpoint for `ip` and `port`.
    pub fn new(ip: &str, port: u16) -> (e: Self)
        ensures
            e.ip@ == ip@,
            e.port == port,
    {
        Self { ip: String::from_str(ip), port }
    }

    /// The display form `ip:port`.
    pub fn to_string(&self) -> (s: String)
        ensures
            s@ == endpoint_text(self.ip@, self.port),
    {
        let mut s = String::from_str(self.ip.as_str());
        s.append(":");
        push_decimal(&mut s, self.port as u64);
        s
    }
}

/// Milliseconds since the UNIX epoch by the system clock
/// (`SystemTime::now().duration_since(UNIX_EPOCH)`), or `None` when the
/// clock is set before the epoch. The value depends on the clock, so
/// nothing is stated of it.
#[verifier::external_body]
fn system_millis_since_epoch() -> Option<u128> {
    match std::time::SystemTime::now().duration_since(std::time::UNIX_EPOCH) {
        Ok(d) => Some(d.as_millis()),
        Err(_) => None,
    }
}

/// The system clock was read and gave `now` (as
/// `system_millis_since_epoch` reports it).
pub closed spec fn clock_read(now: Option<u128>) -> bool {
    call_ensures(system_millis_since_epoch, (), now)
}

/// The timestamp kept for a clock reading: its low 64 bits, or 0 for a
/// clock set before the epoch.
pub open spec fn stamp(now: Option<u128>) -> u64 {
    match now {
        Some(ms) => ms as u64,
        None => 0,
    }
}

/// Per-client statistics: byte and packet counters, and the time of the
/// last activity. The counters wrap around at `u64::MAX`.
#[derive(Debug, Default)]
pub struct ClientStat {
    tx_bytes: u64,
    rx_bytes: u64,
    tx_count: u64,
    rx_count: u64,
    last_active_ms: u64,
}

/// `a + b` wrapped around at 2^64.
pub open spec fn wrap_add(a: u64, b: u64) -> u64 {
    ((a as nat + b as nat) % 0x1_0000_0000_0000_0000) as u64
}

impl ClientStat {
    pub closed spec fn spec_tx_bytes(&self) -> u64 {
        self.tx_bytes
    }

    pub closed spec fn spec_rx_bytes(&self) -> u64 {
        self.rx_bytes
    }

    pub closed spec fn spec_tx_count(&self) -> u64 {
        self.tx_count
    }

    pub closed spec fn spec_rx_count(&self) -> u64 {
        self.rx_count
    }

    pub closed spec fn spec_last_active_ms(&self) -> u64 {
        self.last_active_ms
    }

    /// Every counter and the timestamp are zero.
    pub open spec fn is_fresh(&self) -> bool {
        &&& self.spec_tx_bytes() == 0
        &&& self.spec_rx_bytes() == 0
        &&& self.spec_tx_count() == 0
        &&& self.spec_rx_count() == 0
        &&& self.spec_last_active_ms() == 0
    }

    /// These statistics are `before` with one more packet of `n` bytes
    /// received (the counters wrap around); the sent side is unchanged.
    pub open spec fn counted_rx(&self, before: ClientStat, n: u64) -> bool {
        &&& self.spec_rx_bytes() == wrap_add(before.spec_rx_bytes(), n)
        &&& self.spec_rx_count() == wrap_add(before.spec_rx_count(), 1)
        &&& self.spec_tx_bytes() == before.spec_tx_bytes()
        &&& self.spec_tx_count() == before.spec_tx_count()
    }

    /// These statistics are `before` with one more packet of `n` bytes sent
    /// (the counters wrap around); the received side is unchanged.
    pub open spec fn counted_tx(&self, before: ClientStat, n: u64) -> bool {
        &&& self.spec_tx_bytes() == wrap_add(before.spec_tx_bytes(), n)
        &&& self.spec_tx_count() == wrap_add(before.spec_tx_count(), 1)
        &&& self.spec_rx_bytes() == before.spec_rx_bytes()
        &&& self.spec_rx_count() == before.spec_rx_count()
    }

    /// Fresh statistics: every counter and the timestamp are zero.
    pub fn new() -> (s: Self)
        ensures
            s.is_fresh(),
    {
        ClientStat { tx_bytes: 0, rx_bytes: 0, tx_count: 0, rx_count: 0, last_active_ms: 0 }
    }

    /// Record `n` bytes transmitted to the client (caller -> client).
    pub fn add_tx(&mut self, n: u64)
        ensures
            final(self).counted_tx(*old(self), n),
            exists|now: Option<u128>| #[trigger] clock_read(now) && final(self).spec_last_active_ms()
                == stamp(now),
    {
        self.tx_bytes = self.tx_bytes.wrapping_add(n);
        self.tx_count = self.tx_count.wrapping_add(1);
        self.touch();
    }

    /// Record `n` bytes received from the client (client -> caller).
    pub fn add_rx(&mut self, n: u64)
        ensures
            final(self).counted_rx(*old(self), n),
            exists|now: Option<u128>| #[trigger] clock_read(now) && final(self).spec_last_active_ms()
                == stamp(now),
    {
        self.rx_bytes = self.rx_bytes.wrapping_add(n);
        self.rx_count = self.rx_count.wrapping_add(1);
        self.touch();
    }

    pub fn tx_bytes(&self) -> (v: u64)
        ensures
            v == self.spec_tx_bytes(),
    {
        self.tx_bytes
    }

    pub fn rx_bytes(&self) -> (v: u64)
        ensures
            v == self.spec_rx_bytes(),
    {
        self.rx_bytes
    }

    pub fn tx_count(&self) -> (v: u64)
        ensures
            v == self.spec_tx_count(),
    {
        self.tx_count
    }

    pub fn rx_count(&self) -> (v: u64)
        ensures
            v == self.spec_rx_count(),
    {
        self.rx_count
    }

    pub fn last_active_ms(&self) -> (v: u64)
        ensures
            v == self.spec_last_active_ms(),
    {
        self.last_active_ms
    }

    /// Set the last-active timestamp from a clock reading `now_ms`
    /// (milliseconds since the UNIX epoch, `None` for a clock set before
    /// it): its low 64 bits, or 0. The counters are unchanged.
    pub fn touch_at(&mut self, now_ms: Option<u128>)
        ensures
            final(self).spec_last_active_ms() == stamp(now_ms),
            final(self).spec_tx_bytes() == old(self).spec_tx_bytes(),
            final(self).spec_rx_bytes() == old(self).spec_rx_bytes(),
            final(self).spec_tx_count() == old(self).spec_tx_count(),
            final(self).spec_rx_count() == old(self).spec_rx_count(),
    {
        self.last_active_ms = match now_ms {
            Some(ms) => ms as u64,
            None => 0,
        };
    }

    /// Refresh the last-active timestamp to "now": the system clock's
    /// milliseconds since the UNIX epoch, as [`ClientStat::touch_at`] takes
    /// them. The counters are unchanged.
    pub fn touch(&mut self)
        ensures
            exists|now: Option<u128>| #[trigger] clock_read(now) && final(self).spec_last_active_ms()
                == stamp(now),
            final(self).spec_tx_bytes() == old(self).spec_tx_bytes(),
            final(self).spec_rx_bytes() == old(self).spec_rx_bytes(),
            final(self).spec_tx_count() == old(self).spec_tx_count(),
            final(self).spec_rx_count() == old(self).spec_rx_count(),
    {
        // Called through its function value, so that the call is on record.
        let read = system_millis_since_epoch;
        let now = read();
        assert(call_ensures(system_millis_since_epoch, (), now));
        assert(clock_read(now));
        self.touch_at(now);
    }
}

} // verus!
