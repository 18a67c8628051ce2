//! JSON text of the frames the server writes to WebSocket peers.
//!
//! Every frame is a JSON object whose keys come in sorted order (as a
//! `serde_json::Value` object serialises); strings are escaped as
//! `serde_json` escapes them.
use vstd::prelude::*;
use crate::domain::client::{uuid_text, Uuid};
use crate::domain::hex::hex_digit;
use crate::domain::port_entity::WsEvent;
use crate::domain::text::{decimal, push_char, push_decimal};
use vstd::string::StringExecFns;

verus! {

/// The escaped form of one character inside a JSON string.
pub open spec fn json_escape_char(c: char) -> Seq<char> {
    if c == '"' {
        seq!['\\', '"']
    } else if c == '\\' {
        seq!['\\', '\\']
    } else if c == '\n' {
        seq!['\\', 'n']
    } else if c == '\r' {
        seq!['\\', 'r']
    } else if c == '\t' {
        seq!['\\', 't']
    } else if c == '\x08' {
        seq!['\\', 'b']
    } else if c == '\x0c' {
        seq!['\\', 'f']
    } else if (c as u32) < 0x20 {
        seq!['\\', 'u', '0', '0', hex_digit((c as u32 / 16) as nat), hex_digit((c as u32 % 16) as nat)]
    } else {
        seq![c]
    }
}

/// The escaped body of a JSON string (without the quotes).
pub open spec fn json_escape(s: Seq<char>) -> Seq<char>
    decreases s.len(),
{
    if s.len() == 0 {
        Seq::empty()
    } else {
        json_escape(s.drop_last()) + json_escape_char(s.last())
    }
}

/// A JSON string literal for `s`.
pub open spec fn json_string(s: Seq<char>) -> Seq<char> {
    seq!['"'] + json_escape(s) + seq!['"']
}

/// A JSON boolean literal.
pub open spec fn json_bool(b: bool) -> Seq<char> {
    if b {
        "true"@
    } else {
        "false"@
    }
}

/// The text of the `port` frame: `{"action":"port","port":N}`.
pub open spec fn port_frame_text(port: u16) -> Seq<char> {
    "{\"action\":\"port\",\"port\":"@ + decimal(port as nat) + "}"@
}

/// The text of the `error` frame: `{"action":"error","msg":"..."}`.
pub open spec fn error_frame_text(msg: Seq<char>) -> Seq<char> {
    "{\"action\":\"error\",\"msg\":"@ + json_string(msg) + "}"@
}

/// The text of the frame that reports an event to the WebSocket peer.
pub open spec fn event_text(e: WsEvent) -> Seq<char> {
    match e {
        WsEvent::Connected { client, addr } => "{\"action\":\"connected\",\"addr\":"@ + json_string(
            addr@,
        ) + ",\"client\":"@ + json_string(uuid_text(client.value())) + "}"@,
        WsEvent::Data { client, data, hex } => "{\"action\":\"data\",\"client\":"@ + json_string(
            uuid_text(client.value()),
        ) + ",\"data\":"@ + json_string(data@) + ",\"hex\":"@ + json_bool(hex) + "}"@,
        WsEvent::Closed { client } => "{\"action\":\"closed\",\"client\":"@ + json_string(
            uuid_text(client.value()),
        ) + "}"@,
        WsEvent::Error { msg } => error_frame_text(msg@),
    }
}

fn hex_char32(n: u32) -> (c: char)
    requires
        n < 16,
    ensures
        c == hex_digit(n as nat),
{
    let b: u8 = n as u8;
    if b < 10 {
        (48u8 + b) as char
    } else {
        (87u8 + b) as char
    }
}

fn push_escaped_char(out: &mut String, c: char)
    ensures
        final(out)@ == old(out)@ + json_escape_char(c),
{
    let ghost start = out@;
    if c == '"' {
        push_char(out, '\\');
        push_char(out, '"');
    } else if c == '\\' {
        push_char(out, '\\');
        push_char(out, '\\');
    } else if c == '\n' {
        push_char(out, '\\');
        push_char(out, 'n');
    } else if c == '\r' {
        push_char(out, '\\');
        push_char(out, 'r');
    } else if c == '\t' {
        push_char(out, '\\');
        push_char(out, 't');
    } else if c == '\x08' {
        push_char(out, '\\');
        push_char(out, 'b');
    } else if c == '\x0c' {
        push_char(out, '\\');
        push_char(out, 'f');
    } else if (c as u32) < 0x20 {
        let v = c as u32;
        push_char(out, '\\');
        push_char(out, 'u');
        push_char(out, '0');
        push_char(out, '0');
        push_char(out, hex_char32(v / 16));
        push_char(out, hex_char32(v % 16));
    } else {
        push_char(out, c);
    }
    assert(out@ =~= start + json_escape_char(c));
}

/// Appends the JSON string literal for `s` to `out`.
pub fn push_json_string(out: &mut String, s: &str)
    ensures
        final(out)@ == old(out)@ + json_string(s@),
{
    let ghost start = out@;
    push_char(out, '"');
    for c in it: s.chars()
        invariant
            it.seq() == s@,
            out@ == start + seq!['"'] + json_escape(s@.take(it.index() as int)),
    {
        push_escaped_char(out, c);
        proof {
            let t = s@.take(it.index() as int + 1);
            assert(t.drop_last() =~= s@.take(it.index() as int));
            assert(t.last() == c);
        }
    }
    push_char(out, '"');
    assert(s@.take(s@.len() as int) =~= s@);
    assert(out@ =~= start + json_string(s@));
}

/// The JSON text of the `port` frame.
pub fn port_frame(port: u16) -> (s: String)
    ensures
        s@ == port_frame_text(port),
{
    let mut s = String::from_str("{\"action\":\"port\",\"port\":");
    push_decimal(&mut s, port as u64);
    s.append("}");
    s
}

/// The JSON text of the `error` frame.
pub fn error_frame(msg: &str) -> (s: String)
    ensures
        s@ == error_frame_text(msg@),
{
    let mut s = String::from_str("{\"action\":\"error\",\"msg\":");
    push_json_string(&mut s, msg);
    s.append("}");
    s
}

fn push_client(out: &mut String, client: Uuid)
    ensures
        final(out)@ == old(out)@ + json_string(uuid_text(client.value())),
{
    let t = client.to_string();
    push_json_string(out, t.as_str());
}

/// Project a [`WsEvent`] into the wire-format JSON text the JavaScript
/// front-end speaks.
pub fn event_to_json(e: &WsEvent) -> (s: String)
    ensures
        s@ == event_text(*e),
{
    match e {
        WsEvent::Connected { client, addr } => {
            let mut s = String::from_str("{\"action\":\"connected\",\"addr\":");
            push_json_string(&mut s, addr.as_str());
            s.append(",\"client\":");
            push_client(&mut s, *client);
            s.append("}");
            s
        },
        WsEvent::Data { client, data, hex } => {
            let mut s = String::from_str("{\"action\":\"data\",\"client\":");
            push_client(&mut s, *client);
            s.append(",\"data\":");
            push_json_string(&mut s, data.as_str());
            s.append(",\"hex\":");
            if *hex {
                s.append("true");
            } else {
                s.append("false");
            }
            s.append("}");
            s
        },
        WsEvent::Closed { client } => {
            let mut s = String::from_str("{\"action\":\"closed\",\"client\":");
            push_client(&mut s, *client);
            s.append("}");
            s
        },
        WsEvent::Error { msg } => error_frame(msg.as_str()),
    }
}

} // verus!
