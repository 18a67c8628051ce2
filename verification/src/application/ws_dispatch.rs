//! WebSocket message dispatch.
//!
//! [`handle`] takes one decoded inbound envelope (or `None` when the text
//! frame was not a JSON object of the expected shape), routes it by
//! `action`, calls the corresponding operation of the [`PortService`], and
//! returns the frames to write back to the WebSocket peer.
use vstd::prelude::*;
use crate::application::port_service::{
    is_close_client, is_send, text_view, Call, EntityFactory, PortService,
};
use crate::application::wire::{error_frame, error_frame_text, port_frame, port_frame_text};
use crate::domain::client::{uuid_parse, uuid_text, Uuid};
use crate::domain::errors::{error_text, has_plain_text, AppError};
use crate::domain::hex::{decode_hex_to_bytes, spec_decode_hex};
use crate::domain::port_entity::PortEntity;
use crate::domain::text::text_eq;
use vstd::string::{StrSliceExecFns, StringExecFns, StringSliceAdditionalSpecFns};

verus! {

/// Reserved for the keep-alive "empty object" frame; no operation is
/// triggered.
pub const HEARTBEAT_ACTION: &'static str = "";
/// Allocate a new port (`{"action":"newp",...}`).
pub const ACTION_NEWP: &'static str = "newp";
/// Send a payload to a connected client (`{"action":"sendc",...}`).
pub const ACTION_SENDC: &'static str = "sendc";
/// Close a single client connection (`{"action":"closec",...}`).
pub const ACTION_CLOSEC: &'static str = "closec";
/// Update per-session configuration (`{"action":"config",...}`).
pub const ACTION_CONFIG: &'static str = "config";
/// Seconds a session may stay silent before the server hangs up; clients
/// send the heartbeat `{}` to keep an idle session open.
pub const IDLE_TIMEOUT_SECS: u64 = 60;

/// Inbound message envelope. All fields are optional; different actions
/// need different subsets. (`port_type` is the wire field `type`.)
#[derive(Debug)]
pub struct Inbound {
    pub action: String,
    pub port_type: Option<String>,
    pub token: Option<String>,
    pub port: Option<i32>,
    pub client: Option<String>,
    pub data: Option<String>,
    pub hex: Option<bool>,
    pub broadcast: Option<bool>,
}

/// A frame written back to the WebSocket peer.
#[derive(Debug, Clone, PartialEq, Eq)]
pub enum Reply {
    /// `{"action":"port","port":N}` after a successful `newp`.
    Port(u16),
    /// `{"action":"error","msg":"..."}`.
    Error(String),
}

/// The mathematical view of a [`Reply`].
pub ghost enum ReplyView {
    Port(u16),
    Error(Seq<char>),
}

impl View for Reply {
    type V = ReplyView;

    open spec fn view(&self) -> ReplyView {
        match self {
            Reply::Port(p) => ReplyView::Port(*p),
            Reply::Error(m) => ReplyView::Error(m@),
        }
    }
}

/// The JSON text of a reply frame.
pub open spec fn reply_text(r: ReplyView) -> Seq<char> {
    match r {
        ReplyView::Port(p) => port_frame_text(p),
        ReplyView::Error(m) => error_frame_text(m),
    }
}

impl Reply {
    /// The JSON text of the frame.
    pub fn to_json(&self) -> (s: String)
        ensures
            s@ == reply_text(self@),
    {
        match self {
            Reply::Port(p) => port_frame(*p),
            Reply::Error(m) => error_frame(m.as_str()),
        }
    }
}

/// Standard error frame.
pub fn make_error(msg: String) -> (r: Reply)
    ensures
        r@ == ReplyView::Error(msg@),
{
    Reply::Error(msg)
}

/// Standard `port` frame returned after a successful `newp`.
pub fn make_port(port: u16) -> (r: Reply)
    ensures
        r@ == ReplyView::Port(port),
{
    Reply::Port(port)
}

/// The views of a list of replies.
pub open spec fn replies_view(v: Seq<Reply>) -> Seq<ReplyView> {
    v.map_values(|r: Reply| r@)
}

/// The characters of an optional `String`.
pub open spec fn opt_text(o: Option<String>) -> Option<Seq<char>> {
    match o {
        Some(s) => Some(s@),
        None => None,
    }
}

/// The port a `newp` asks for: none for a negative number, otherwise
/// the number taken modulo 2^16 (as `p as u16` does).
pub open spec fn port_request(p: Option<i32>) -> Option<u16> {
    match p {
        Some(v) => if v < 0 {
            None
        } else {
            Some(v as u16)
        },
        None => None,
    }
}

/// A reply that reports an error: its message is the error's message.
pub open spec fn reports_error(e: AppError, r: ReplyView) -> bool {
    r matches ReplyView::Error(m) && (has_plain_text(e) ==> m == error_text(e)) && (!has_plain_text(
        e,
    ) ==> m.len() >= error_text(e).len() && m.subrange(0, error_text(e).len() as int) == error_text(
        e,
    ))
}

/// The reply to the outcome of a `newp`.
pub open spec fn reports_new_port(r: Result<u16, AppError>, rv: ReplyView) -> bool {
    match r {
        Ok(p) => rv == ReplyView::Port(p),
        Err(e) => reports_error(e, rv),
    }
}

/// The bytes a `sendc` carries: the hex-decoded data when `hex` is set,
/// otherwise the UTF-8 bytes of the text.
pub fn sendc_payload(data: &str, hex: bool) -> (r: Result<Vec<u8>, AppError>)
    ensures
        hex ==> match spec_decode_hex(data.spec_bytes()) {
            Some(v) => r matches Ok(w) && w@ == v,
            None => r matches Err(AppError::BadHex),
        },
        !hex ==> (r matches Ok(w) && w@ == data.spec_bytes()),
{
    if hex {
        decode_hex_to_bytes(data)
    } else {
        Ok(data.as_bytes_vec())
    }
}

/// The outcome of reading the `client` field: the identifier it names, or
/// the error frame's message.
pub open spec fn client_field(c: Option<Seq<char>>) -> Result<u128, Seq<char>> {
    match c {
        None => Err("missing client"@),
        Some(t) => if t.len() == 0 {
            Err("missing client"@)
        } else {
            match uuid_parse(t) {
                Some(v) => Ok(v),
                None => Err("bad client uuid: "@ + t),
            }
        },
    }
}

fn read_client(c: &Option<String>) -> (r: Result<Uuid, String>)
    ensures
        match client_field(opt_text(*c)) {
            Ok(v) => r matches Ok(u) && u.value() == v,
            Err(m) => r matches Err(t) && t@ == m,
        },
{
    match c {
        Some(t) => {
            if t.as_str().is_empty() {
                return Err(String::from_str("missing client"));
            }
            match Uuid::parse_str(t.as_str()) {
                Some(u) => Ok(u),
                None => {
                    let mut m = String::from_str("bad client uuid: ");
                    m.append(t.as_str());
                    Err(m)
                },
            }
        },
        None => Err(String::from_str("missing client")),
    }
}

/// What [`handle`] does: the frames it answers with, and the change of the
/// service it makes, for every envelope and every outcome of the calls it
/// makes.
pub open spec fn dispatch_post<E: PortEntity, F: EntityFactory<E>>(
    old: &PortService<E, F>,
    new: &PortService<E, F>,
    s: u128,
    inbound: Option<Inbound>,
    out: Seq<ReplyView>,
) -> bool {
    let same_state = new.same_pool(old) && new.same_sessions(old);
    let unchanged = same_state && new.calls() == old.calls();
    let unknown_client = |v: u128| seq![ReplyView::Error("unknown client: "@ + uuid_text(v))];
    match inbound {
        None => out == seq![ReplyView::Error("bad json"@)] && unchanged,
        Some(i) => {
            let a = i.action@;
            if a.len() == 0 {
                out == Seq::<ReplyView>::empty() && unchanged
            } else if a == ACTION_NEWP@ {
                let ts = match opt_text(i.port_type) {
                    Some(t) => t,
                    None => ""@,
                };
                exists|r: Result<u16, AppError>|
                    PortService::<E, F>::new_port_post(
                        old,
                        new,
                        s,
                        ts,
                        port_request(i.port),
                        opt_text(i.token),
                        r,
                    ) && PortService::<E, F>::new_port_calls(
                        old,
                        new,
                        s,
                        ts,
                        port_request(i.port),
                        opt_text(i.token),
                        r,
                    ) && out.len() == 1 && #[trigger] reports_new_port(r, out[0])
            } else if a == ACTION_SENDC@ {
                match client_field(opt_text(i.client)) {
                    Err(m) => out == seq![ReplyView::Error(m)] && unchanged,
                    Ok(v) => match opt_text(i.data) {
                        None => out == seq![ReplyView::Error("missing data"@)] && unchanged,
                        Some(d) => if i.hex == Some(true) && spec_decode_hex(
                            vstd::utf8::encode_utf8(d),
                        ) is None {
                            out == seq![ReplyView::Error("bad hex input"@)] && unchanged
                        } else {
                            let payload = if i.hex == Some(true) {
                                spec_decode_hex(vstd::utf8::encode_utf8(d)).unwrap()
                            } else {
                                vstd::utf8::encode_utf8(d)
                            };
                            &&& same_state
                            &&& PortService::<E, F>::extends(old, new)
                            &&& old.search_post(
                                PortService::<E, F>::calls_since(old, new),
                                out.len() == 0,
                                |c: Call<E>| is_send(c, v, payload),
                            )
                            &&& (out.len() == 0 || out == unknown_client(v))
                            &&& (!old.holds_any_port() ==> out == unknown_client(v))
                        },
                    },
                }
            } else if a == ACTION_CLOSEC@ {
                match client_field(opt_text(i.client)) {
                    Err(m) => out == seq![ReplyView::Error(m)] && unchanged,
                    Ok(v) => {
                        &&& same_state
                        &&& PortService::<E, F>::extends(old, new)
                        &&& old.search_post(
                            PortService::<E, F>::calls_since(old, new),
                            out.len() == 0,
                            |c: Call<E>| is_close_client(c, v),
                        )
                        &&& (out.len() == 0 || out == unknown_client(v))
                        &&& (!old.holds_any_port() ==> out == unknown_client(v))
                    },
                }
            } else if a == ACTION_CONFIG@ {
                out == Seq::<ReplyView>::empty() && unchanged
            } else {
                out == seq![ReplyView::Error("unknown action "@ + a)] && unchanged
            }
        },
    }
}

/// Process one inbound envelope, returning the frames to write back.
/// `None` stands for a text frame that did not decode as an envelope.
pub fn handle<E: PortEntity, F: EntityFactory<E>>(
    service: &mut PortService<E, F>,
    session_id: Uuid,
    inbound: Option<Inbound>,
) -> (out: Vec<Reply>)
    requires
        old(service).wf(),
    ensures
        final(service).wf(),
        dispatch_post(old(service), final(service), session_id.value(), inbound, replies_view(out@)),
{
    let ghost inb = inbound;
    let inbound = match inbound {
        Some(i) => i,
        None => {
            let v = vec![make_error(String::from_str("bad json"))];
            assert(replies_view(v@) =~= seq![ReplyView::Error("bad json"@)]);
            return v;
        },
    };
    // Heartbeat: an object with no `action` is a keep-alive ping.
    if inbound.action.as_str().is_empty() {
        let v: Vec<Reply> = Vec::new();
        assert(replies_view(v@) =~= Seq::<ReplyView>::empty());
        return v;
    }
    let action = inbound.action.as_str();
    if text_eq(action, ACTION_NEWP) {
        let type_str: &str = match &inbound.port_type {
            Some(t) => t.as_str(),
            None => "",
        };
        let port: Option<u16> = match inbound.port {
            Some(p) => if p < 0 {
                None
            } else {
                Some(p as u16)
            },
            None => None,
        };
        let token: Option<&str> = match &inbound.token {
            Some(t) => Some(t.as_str()),
            None => None,
        };
        assert(text_view(token) == opt_text(inb.unwrap().token));
        let r = service.new_port(session_id, type_str, port, token);
        let reply = match &r {
            Ok(p) => make_port(*p),
            Err(e) => make_error(e.message()),
        };
        let v = vec![reply];
        assert(reports_new_port(r, replies_view(v@)[0]));
        assert(port == port_request(inb.unwrap().port));
        assert(PortService::<E, F>::new_port_calls(
            old(service),
            service,
            session_id.value(),
            type_str@,
            port,
            text_view(token),
            r,
        ));
        return v;
    }
    if text_eq(action, ACTION_SENDC) {
        let client = match read_client(&inbound.client) {
            Ok(c) => c,
            Err(m) => {
                let v = vec![make_error(m)];
                assert(replies_view(v@) =~= seq![v@[0]@]);
                return v;
            },
        };
        let data: &str = match &inbound.data {
            Some(d) => d.as_str(),
            None => {
                let v = vec![make_error(String::from_str("missing data"))];
                assert(replies_view(v@) =~= seq![v@[0]@]);
                return v;
            },
        };
        let hex = match inbound.hex {
            Some(h) => h,
            None => false,
        };
        let bytes = match sendc_payload(data, hex) {
            Ok(b) => b,
            Err(e) => {
                let v = vec![make_error(e.message())];
                assert(replies_view(v@) =~= seq![v@[0]@]);
                return v;
            },
        };
        let v = match service.send(client, bytes.as_slice()) {
            Ok(()) => Vec::new(),
            Err(e) => vec![make_error(e.message())],
        };
        assert(replies_view(v@) =~= Seq::<ReplyView>::empty() || replies_view(v@) =~= seq![v@[0]@]);
        return v;
    }
    if text_eq(action, ACTION_CLOSEC) {
        let client = match read_client(&inbound.client) {
            Ok(c) => c,
            Err(m) => {
                let v = vec![make_error(m)];
                assert(replies_view(v@) =~= seq![v@[0]@]);
                return v;
            },
        };
        let v = match service.close_client(client) {
            Ok(()) => Vec::new(),
            Err(e) => vec![make_error(e.message())],
        };
        assert(replies_view(v@) =~= Seq::<ReplyView>::empty() || replies_view(v@) =~= seq![v@[0]@]);
        return v;
    }
    if text_eq(action, ACTION_CONFIG) {
        let b = match inbound.broadcast {
            Some(b) => b,
            None => false,
        };
        service.set_broadcast(session_id, b);
        let v: Vec<Reply> = Vec::new();
        assert(replies_view(v@) =~= Seq::<ReplyView>::empty());
        return v;
    }
    let mut m = String::from_str("unknown action ");
    m.append(action);
    let v = vec![make_error(m)];
    assert(replies_view(v@) =~= seq![v@[0]@]);
    v
}

/// What a `sendc` for a known client hands the entities: the UTF-8
/// bytes of its text when its `hex` flag is not set (an absent flag is not
/// set), the decoded bytes when it is. Only under the flag is a text
/// that is not hex refused, with no entity asked.
pub proof fn lemma_sendc_payload<E: PortEntity, F: EntityFactory<E>>(
    old: &PortService<E, F>,
    new: &PortService<E, F>,
    s: u128,
    i: Inbound,
    out: Seq<ReplyView>,
    v: u128,
    d: Seq<char>,
)
    requires
        dispatch_post(old, new, s, Some(i), out),
        i.action@ == ACTION_SENDC@,
        client_field(opt_text(i.client)) == Ok::<u128, Seq<char>>(v),
        opt_text(i.data) == Some(d),
    ensures
        i.hex != Some(true) ==> {
            &&& forall|k: int|
                0 <= k < PortService::<E, F>::calls_since(old, new).len() ==> is_send(
                    #[trigger] PortService::<E, F>::calls_since(old, new)[k],
                    v,
                    vstd::utf8::encode_utf8(d),
                )
            &&& out.len() == 0 || out[0] == ReplyView::Error("unknown client: "@ + uuid_text(v))
        },
        i.hex == Some(true) ==> match spec_decode_hex(vstd::utf8::encode_utf8(d)) {
            None => out == seq![ReplyView::Error("bad hex input"@)] && new.calls() == old.calls(),
            Some(b) => forall|k: int|
                0 <= k < PortService::<E, F>::calls_since(old, new).len() ==> is_send(
                    #[trigger] PortService::<E, F>::calls_since(old, new)[k],
                    v,
                    b,
                ),
        },
{
    reveal_strlit("sendc");
    reveal_strlit("newp");
    reveal_strlit("unknown client: ");
    reveal_strlit("bad hex input");
    assert(i.action@.len() != 0);
    assert(i.action@ != ACTION_NEWP@) by {
        assert(i.action@[0] != ACTION_NEWP@[0]);
    }
    let probes = PortService::<E, F>::calls_since(old, new);
    if i.hex != Some(true) {
        assert(("unknown client: "@ + uuid_text(v))[0] == 'u');
        assert("bad hex input"@[0] == 'b');
        assert forall|k: int| 0 <= k < probes.len() implies is_send(#[trigger] probes[k], v, vstd::utf8::encode_utf8(d)) by {
            assert(old.probes_made(probes, |c: Call<E>| is_send(c, v, vstd::utf8::encode_utf8(d))));
        }
    } else if spec_decode_hex(vstd::utf8::encode_utf8(d)) is Some {
        let b = spec_decode_hex(vstd::utf8::encode_utf8(d)).unwrap();
        assert forall|k: int| 0 <= k < probes.len() implies is_send(#[trigger] probes[k], v, b) by {
            assert(old.probes_made(probes, |c: Call<E>| is_send(c, v, b)));
        }
    }
}

} // verus!
