//! The library's error type.
//!
//! Every error of the domain and application layers is an [`AppError`].
//! The two variants that carry an outside error (`Json`, `Io`) are built
//! through `From`, so that `?` works on those error types.
use vstd::prelude::*;
use crate::domain::text::{decimal, push_decimal};
use vstd::string::StringExecFns;

verus! {

#[verifier::external_type_specification]
#[verifier::external_body]
pub struct ExJsonError(serde_json::Error);

#[verifier::external_type_specification]
#[verifier::external_body]
pub struct ExIoError(std::io::Error);

/// All domain-level errors.
#[derive(Debug)]
pub enum AppError {
    /// The configured port pool has been exhausted.
    NoPortAvailable,
    /// The wire-level `type` field could not be parsed into a known variant.
    BadType(String),
    /// A hex string could not be decoded.
    BadHex,
    /// Binding a socket failed at the OS level; carries the underlying message.
    PortBind(String),
    /// The requested port is already bound by something else.
    PortInUse(u16),
    /// A client id could not be found in any registry.
    UnknownClient(String),
    /// The caller supplied a token that does not match the port's token.
    BadToken,
    /// JSON (de)serialisation failure.
    Json(serde_json::Error),
    /// Generic IO failure (read/write/socket etc.).
    Io(std::io::Error),
}

/// The human-readable text of an error. For `Json` and `Io` this is the
/// fixed prefix; the message continues with the wrapped error's own text.
pub open spec fn error_text(e: AppError) -> Seq<char> {
    match e {
        AppError::NoPortAvailable => "no port available in pool"@,
        AppError::BadType(s) => "bad port type: "@ + s@,
        AppError::BadHex => "bad hex input"@,
        AppError::PortBind(s) => "port bind failed: "@ + s@,
        AppError::PortInUse(p) => "port "@ + decimal(p as nat) + " already in use"@,
        AppError::UnknownClient(s) => "unknown client: "@ + s@,
        AppError::BadToken => "bad token"@,
        AppError::Json(_) => "json error: "@,
        AppError::Io(_) => "io error: "@,
    }
}

/// True for the variants whose message is exactly [`error_text`].
pub open spec fn has_plain_text(e: AppError) -> bool {
    !(e is Json) && !(e is Io)
}

/// Display text of a `serde_json::Error` (its `Display` impl). What it holds
/// depends on the parser's position and reason, which the error keeps
/// private; nothing is stated of it.
#[verifier::external_body]
fn json_error_display(e: &serde_json::Error) -> String {
    e.to_string()
}

/// Display text of a `std::io::Error` (its `Display` impl). Nothing is
/// stated of it: it depends on the error's kind and payload.
#[verifier::external_body]
fn io_error_display(e: &std::io::Error) -> String {
    e.to_string()
}

impl AppError {
    /// The error's message, as the server sends it to WebSocket peers.
    pub fn message(&self) -> (s: String)
        ensures
            has_plain_text(*self) ==> s@ == error_text(*self),
            !has_plain_text(*self) ==> s@.len() >= error_text(*self).len() && s@.subrange(
                0,
                error_text(*self).len() as int,
            ) == error_text(*self),
    {
        match self {
            AppError::NoPortAvailable => String::from_str("no port available in pool"),
            AppError::BadType(t) => {
                let mut m = String::from_str("bad port type: ");
                m.append(t.as_str());
                m
            },
            AppError::BadHex => String::from_str("bad hex input"),
            AppError::PortBind(t) => {
                let mut m = String::from_str("port bind failed: ");
                m.append(t.as_str());
                m
            },
            AppError::PortInUse(p) => {
                let mut m = String::from_str("port ");
                push_decimal(&mut m, *p as u64);
                m.append(" already in use");
                m
            },
            AppError::UnknownClient(t) => {
                let mut m = String::from_str("unknown client: ");
                m.append(t.as_str());
                m
            },
            AppError::BadToken => String::from_str("bad token"),
            AppError::Json(e) => {
                let m = String::from_str("json error: ");
                let d = json_error_display(e);
                let r = m.concat(d.as_str());
                assert(r@.subrange(0, error_text(*self).len() as int) =~= error_text(*self));
                r
            },
            AppError::Io(e) => {
                let m = String::from_str("io error: ");
                let d = io_error_display(e);
                let r = m.concat(d.as_str());
                assert(r@.subrange(0, error_text(*self).len() as int) =~= error_text(*self));
                r
            },
        }
    }
}

impl From<serde_json::Error> for AppError {
    fn from(e: serde_json::Error) -> (r: AppError) {
        AppError::Json(e)
    }
}

impl vstd::std_specs::convert::FromSpecImpl<serde_json::Error> for AppError {
    open spec fn obeys_from_spec() -> bool {
        true
    }

    open spec fn from_spec(e: serde_json::Error) -> AppError {
        AppError::Json(e)
    }
}

impl From<std::io::Error> for AppError {
    fn from(e: std::io::Error) -> (r: AppError) {
        AppError::Io(e)
    }
}

impl vstd::std_specs::convert::FromSpecImpl<std::io::Error> for AppError {
    open spec fn obeys_from_spec() -> bool {
        true
    }

    open spec fn from_spec(e: std::io::Error) -> AppError {
        AppError::Io(e)
    }
}

} // verus!
