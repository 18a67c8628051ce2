//! Application-level port orchestration.
//!
//! `PortService` owns the [`RandomPortPool`], an [`EntityFactory`] that
//! materialises the transport for a requested port, the per-session
//! `WsEvent` channels, and the session ⇄ port indices, so that
//! `close_session` can release everything a session holds in one call.
use vstd::prelude::*;
use std::collections::HashMap;
use crate::application::metrics;
use crate::application::port_pool::RandomPortPool;
use crate::domain::client::{ClientId, Uuid, uuid_text};
use crate::domain::errors::AppError;
use crate::domain::port::PortNumber;
use crate::domain::port_entity::{
    ascii_lower_text, parse_port_type, spec_parse_port_type, spec_wire_label, wire_label,
    PortEntity, PortType, WsEvent,
};
use crate::domain::text::text_eq;

verus! {

broadcast use vstd::std_specs::hash::group_hash_axioms;

/// Token required when the caller asks for a specific port. A request
/// that pins a port number is only honoured with this token; without it
/// the request falls back to a random port.
pub const PORT_PIN_TOKEN: &'static str = "LuatOS-NetLab";

#[verifier::external_type_specification]
#[verifier::external_body]
#[verifier::reject_recursive_types(T)]
pub struct ExUnboundedSender<T>(tokio::sync::mpsc::UnboundedSender<T>);

#[verifier::external_type_specification]
#[verifier::external_body]
#[verifier::reject_recursive_types(T)]
pub struct ExUnboundedReceiver<T>(tokio::sync::mpsc::UnboundedReceiver<T>);

/// `tokio::sync::mpsc::unbounded_channel`: the two halves of a fresh
/// channel. The halves are opaque; nothing is stated of them.
#[verifier::external_body]
fn new_event_channel() -> (tokio::sync::mpsc::UnboundedSender<WsEvent>, tokio::sync::mpsc::UnboundedReceiver<WsEvent>) {
    tokio::sync::mpsc::unbounded_channel()
}

/// `UnboundedSender::clone`: another handle on the same channel. The handle
/// is opaque; nothing is stated of it.
#[verifier::external_body]
fn clone_sender(tx: &tokio::sync::mpsc::UnboundedSender<WsEvent>) -> tokio::sync::mpsc::UnboundedSender<WsEvent> {
    tx.clone()
}

/// `tx` and `rx` are the two halves of one channel that
/// `tokio::sync::mpsc::unbounded_channel` opened (through
/// `new_event_channel`): what is sent on `tx` is received on `rx`.
pub closed spec fn paired(
    tx: tokio::sync::mpsc::UnboundedSender<WsEvent>,
    rx: tokio::sync::mpsc::UnboundedReceiver<WsEvent>,
) -> bool {
    call_ensures(new_event_channel, (), (tx, rx))
}

/// `c` is a handle that `UnboundedSender::clone` (through `clone_sender`)
/// made of `tx`: it sends on the same channel.
pub closed spec fn cloned_from(
    c: tokio::sync::mpsc::UnboundedSender<WsEvent>,
    tx: tokio::sync::mpsc::UnboundedSender<WsEvent>,
) -> bool {
    call_ensures(clone_sender, (&tx,), c)
}

/// What is sent on `tx` is received on `rx`: `tx` is the sender paired
/// with `rx`, or a clone of it.
pub open spec fn delivers_to(
    tx: tokio::sync::mpsc::UnboundedSender<WsEvent>,
    rx: tokio::sync::mpsc::UnboundedReceiver<WsEvent>,
) -> bool {
    exists|t: tokio::sync::mpsc::UnboundedSender<WsEvent>|
        (t == tx || cloned_from(tx, t)) && #[trigger] paired(t, rx)
}

/// Materialises a concrete [`PortEntity`] for a given (port, kind) pair.
///
/// The transports implement it: the factory binds the socket, starts the
/// accept or read loop, and routes the entity's events into `events`.
pub trait EntityFactory<E> {
    /// Build a new entity bound to `port`, emitting its events through
    /// `events`.
    fn create(
        &self,
        port: PortNumber,
        kind: PortType,
        events: tokio::sync::mpsc::UnboundedSender<WsEvent>,
    ) -> Result<E, AppError>;
}

/// One port held by a session.
pub struct SessionEntry<E> {
    pub port: PortNumber,
    pub kind: PortType,
    pub entity: E,
}

/// The `(port, kind)` pairs of a session's entries, in allocation order.
pub open spec fn entry_ports<E>(v: Seq<SessionEntry<E>>) -> Seq<(u16, PortType)> {
    v.map_values(|e: SessionEntry<E>| (e.port, e.kind))
}

/// The port numbers of a list of `(port, kind)` pairs.
pub open spec fn port_set(ports: Seq<(u16, PortType)>) -> Set<u16> {
    Set::new(|p: u16| exists|i: int| 0 <= i < ports.len() && (#[trigger] ports[i]).0 == p)
}

/// The port a caller asked for, where the request may pin one: only with
/// the pin token.
pub open spec fn pin_requested(port: Option<u16>, token: Option<Seq<char>>) -> Option<u16> {
    match port {
        Some(p) => if token == Some(PORT_PIN_TOKEN@) {
            Some(p)
        } else {
            None
        },
        None => None,
    }
}

/// The characters of an optional text.
pub open spec fn text_view(t: Option<&str>) -> Option<Seq<char>> {
    match t {
        Some(s) => Some(s@),
        None => None,
    }
}

/// A call the service made outside itself, with its arguments and its
/// outcome, as the service's trace records it.
pub ghost enum Call<E> {
    /// `EntityFactory::create` for `port` and `kind`, routing the entity's
    /// events into `events`.
    Create {
        port: u16,
        kind: PortType,
        events: tokio::sync::mpsc::UnboundedSender<WsEvent>,
        result: Result<E, AppError>,
    },
    /// `PortEntity::send` of `data` to the client `client` on `entity`.
    Send { entity: E, client: u128, data: Seq<u8>, result: Result<(), AppError> },
    /// `PortEntity::close_client` of the client `client` on `entity`.
    CloseClient { entity: E, client: u128, result: Result<(), AppError> },
    /// `PortEntity::shutdown` of `entity`.
    Shutdown { entity: E, result: Result<(), AppError> },
    /// `metrics::on_new_port` with the wire label of `kind`.
    NewPortMetric { kind: PortType },
    /// `metrics::on_close_port` with the wire label of `kind`.
    ClosePortMetric { kind: PortType },
}

/// `metrics::on_new_port` was called with the wire label of `kind`.
pub open spec fn new_port_metric_emitted(kind: PortType) -> bool {
    exists|l: &'static str|
        l@ == spec_wire_label(kind) && #[trigger] call_ensures(metrics::on_new_port, (l,), ())
}

/// `metrics::on_close_port` was called with the wire label of `kind`.
pub open spec fn close_port_metric_emitted(kind: PortType) -> bool {
    exists|l: &'static str|
        l@ == spec_wire_label(kind) && #[trigger] call_ensures(metrics::on_close_port, (l,), ())
}

/// `PortEntity::send` was called on `entity` with the client `client`
/// and `data`, and returned `result`.
pub open spec fn send_made<E: PortEntity>(entity: E, client: u128, data: Seq<u8>, result: Result<(), AppError>) -> bool {
    exists|id: ClientId, d: &[u8]|
        id.value() == client && d@ == data && #[trigger] call_ensures(E::send, (&entity, id, d), result)
}

/// `PortEntity::close_client` was called on `entity` with the client
/// `client`, and returned `result`.
pub open spec fn close_client_made<E: PortEntity>(entity: E, client: u128, result: Result<(), AppError>) -> bool {
    exists|id: ClientId| id.value() == client && #[trigger] call_ensures(E::close_client, (&entity, id), result)
}

/// The entity a call to an entity went to.
pub open spec fn probe_entity<E>(c: Call<E>) -> E {
    match c {
        Call::Send { entity, .. } => entity,
        Call::CloseClient { entity, .. } => entity,
        Call::Shutdown { entity, .. } => entity,
        _ => arbitrary(),
    }
}

/// What a call to an entity returned.
pub open spec fn probe_result<E>(c: Call<E>) -> Result<(), AppError> {
    match c {
        Call::Send { result, .. } => result,
        Call::CloseClient { result, .. } => result,
        Call::Shutdown { result, .. } => result,
        _ => arbitrary(),
    }
}

/// `c` is a `send` of exactly `data` to the client `client`.
pub open spec fn is_send<E>(c: Call<E>, client: u128, data: Seq<u8>) -> bool {
    c matches Call::Send { client: id, data: d, .. } && id == client && d == data
}

/// `c` is a `close_client` of the client `client`.
pub open spec fn is_close_client<E>(c: Call<E>, client: u128) -> bool {
    c matches Call::CloseClient { client: id, .. } && id == client
}

/// Some call of `calls` went to `e`.
pub open spec fn probed<E>(calls: Seq<Call<E>>, e: E) -> bool {
    exists|k: int| 0 <= k < calls.len() && probe_entity(#[trigger] calls[k]) == e
}

/// Every entity of the entries `v` was called in `calls`.
pub open spec fn all_probed<E>(calls: Seq<Call<E>>, v: Seq<SessionEntry<E>>) -> bool {
    forall|j: int| 0 <= j < v.len() ==> probed(calls, #[trigger] v[j].entity)
}

/// A call recorded stays recorded when more calls follow.
proof fn lemma_probed_push<E>(calls: Seq<Call<E>>, c: Call<E>, e: E)
    requires
        probed(calls, e),
    ensures
        probed(calls.push(c), e),
{
    let k = choose|k: int| 0 <= k < calls.len() && probe_entity(#[trigger] calls[k]) == e;
    assert(calls.push(c)[k] == calls[k]);
}

/// [`lemma_probed_push`] for every entity of a list of entries.
proof fn lemma_all_probed_push<E>(calls: Seq<Call<E>>, c: Call<E>, v: Seq<SessionEntry<E>>)
    requires
        all_probed(calls, v),
    ensures
        all_probed(calls.push(c), v),
{
    assert forall|j: int| 0 <= j < v.len() implies probed(calls.push(c), #[trigger] v[j].entity) by {
        lemma_probed_push(calls, c, v[j].entity);
    }
}

/// The application-layer port orchestrator.
pub struct PortService<E, F> {
    pool: RandomPortPool,
    factory: F,
    /// session id -> entities created in that session.
    sessions: HashMap<u128, Vec<SessionEntry<E>>>,
    /// port -> session id (reverse index).
    port_to_session: HashMap<u16, u128>,
    /// session id -> sender half of the session's `WsEvent` channel.
    event_senders: HashMap<u128, tokio::sync::mpsc::UnboundedSender<WsEvent>>,
    /// session id -> receiver half of a channel that `new_port` opened
    /// before the session subscribed; `subscribe` hands it out.
    pending: HashMap<u128, tokio::sync::mpsc::UnboundedReceiver<WsEvent>>,
    /// Every call made to the factory and to the entities, in order.
    calls: Ghost<Seq<Call<E>>>,
}

impl<E: PortEntity, F: EntityFactory<E>> PortService<E, F> {
    /// The port pool.
    pub closed spec fn pool(&self) -> RandomPortPool {
        self.pool
    }

    /// The sessions that hold ports.
    pub closed spec fn session_ids(&self) -> Set<u128> {
        self.sessions@.dom()
    }

    /// The `(port, kind)` pairs a session holds, in allocation order (empty
    /// for a session that holds none).
    pub closed spec fn session_ports(&self, s: u128) -> Seq<(u16, PortType)> {
        if self.sessions@.contains_key(s) {
            entry_ports(self.sessions@[s]@)
        } else {
            Seq::empty()
        }
    }

    /// Which session holds each port.
    pub closed spec fn owners(&self) -> Map<u16, u128> {
        self.port_to_session@
    }

    /// The sessions whose event channel has been handed out by `subscribe`.
    pub closed spec fn subscribed(&self) -> Set<u128> {
        self.event_senders@.dom().difference(self.pending@.dom())
    }

    /// The sessions that have an event channel (handed out or not yet).
    pub closed spec fn channels(&self) -> Set<u128> {
        self.event_senders@.dom()
    }

    /// The sender the service keeps for the channel of session `s` (one of
    /// [`PortService::channels`]).
    pub closed spec fn sender_of(&self, s: u128) -> tokio::sync::mpsc::UnboundedSender<WsEvent> {
        self.event_senders@[s]
    }

    /// Every channel `old` has, `new` still has, with the same sender.
    pub open spec fn keeps_senders(old: &Self, new: &Self) -> bool {
        forall|t: u128|
            old.channels().contains(t) ==> new.channels().contains(t) && #[trigger] new.sender_of(t)
                == old.sender_of(t)
    }

    /// What `subscribe` does to the channels: the session has one, with the
    /// sender it had, if any; the others are kept; and a receiver handed out
    /// is the one paired with the session's sender.
    pub open spec fn subscribe_post(
        old: &Self,
        new: &Self,
        s: u128,
        r: Option<tokio::sync::mpsc::UnboundedReceiver<WsEvent>>,
    ) -> bool {
        &&& new.channels().contains(s)
        &&& Self::keeps_senders(old, new)
        &&& r matches Some(rx) ==> paired(new.sender_of(s), rx)
    }

    /// The factory the service builds its entities with.
    pub closed spec fn factory(&self) -> F {
        self.factory
    }

    /// The entities a session holds, in allocation order (empty for a
    /// session that holds none).
    pub closed spec fn session_entities(&self, s: u128) -> Seq<E> {
        if self.sessions@.contains_key(s) {
            self.sessions@[s]@.map_values(|e: SessionEntry<E>| e.entity)
        } else {
            Seq::empty()
        }
    }

    /// Some session holds the entity `e`.
    pub open spec fn holds_entity(&self, e: E) -> bool {
        exists|t: u128, i: int|
            0 <= i < self.session_entities(t).len() && #[trigger] self.session_entities(t)[i] == e
    }

    /// The calls the service has made to its factory and its entities, in
    /// order.
    pub closed spec fn calls(&self) -> Seq<Call<E>> {
        self.calls@
    }

    /// `c` records a call that was made, with its arguments and outcome:
    /// the outside function's contract holds of them.
    pub open spec fn made(&self, c: Call<E>) -> bool {
        match c {
            Call::Create { port, kind, events, result } => call_ensures(
                F::create,
                (&self.factory(), port, kind, events),
                result,
            ),
            Call::Send { entity, client, data, result } => send_made(entity, client, data, result),
            Call::CloseClient { entity, client, result } => close_client_made(entity, client, result),
            Call::Shutdown { entity, result } => call_ensures(E::shutdown, (&entity,), result),
            Call::NewPortMetric { kind } => new_port_metric_emitted(kind),
            Call::ClosePortMetric { kind } => close_port_metric_emitted(kind),
        }
    }

    /// `new`'s trace continues `old`'s.
    pub open spec fn extends(old: &Self, new: &Self) -> bool {
        &&& old.calls().len() <= new.calls().len()
        &&& new.calls().subrange(0, old.calls().len() as int) == old.calls()
    }

    /// The calls `new`'s trace has after `old`'s.
    pub open spec fn calls_since(old: &Self, new: &Self) -> Seq<Call<E>> {
        new.calls().subrange(old.calls().len() as int, new.calls().len() as int)
    }

    /// Every call of `probes` satisfies `op`, was made, and went to an
    /// entity this service holds.
    pub open spec fn probes_made(&self, probes: Seq<Call<E>>, op: spec_fn(Call<E>) -> bool) -> bool {
        forall|k: int|
            #![trigger probes[k]]
            0 <= k < probes.len() ==> op(probes[k]) && self.made(probes[k]) && self.holds_entity(
                probe_entity(probes[k]),
            )
    }

    /// What a search of the held entities did: the `probes` went, in
    /// order, to held entities, each as `op` says; all but the last were
    /// refused; the search succeeded (`ok`) exactly when the last one was
    /// accepted; a search that failed asked every held entity.
    pub open spec fn search_post(&self, probes: Seq<Call<E>>, ok: bool, op: spec_fn(Call<E>) -> bool) -> bool {
        &&& self.probes_made(probes, op)
        &&& forall|k: int| 0 <= k < probes.len() - 1 ==> probe_result(#[trigger] probes[k]) is Err
        &&& ok <==> (probes.len() > 0 && probe_result(probes.last()) is Ok)
        &&& !ok ==> forall|t: u128, i: int|
            0 <= i < self.session_entities(t).len() ==> probed(
                probes,
                #[trigger] self.session_entities(t)[i],
            )
    }

    /// The service's invariant: the pool is well formed; every port a
    /// session holds is in use and indexed back to that session; a session
    /// holds each port once; the reverse index names only ports in use.
    pub closed spec fn wf(&self) -> bool {
        &&& self.pool.wf()
        &&& forall|s: u128, i: int|
            #![trigger self.sessions@[s]@[i]]
            self.sessions@.contains_key(s) && 0 <= i < self.sessions@[s]@.len() ==> {
                let p = self.sessions@[s]@[i].port;
                &&& self.pool.used_ports().contains(p)
                &&& self.port_to_session@.contains_key(p)
                &&& self.port_to_session@[p] == s
            }
        &&& forall|s: u128, i: int, j: int|
            #![trigger self.sessions@[s]@[i], self.sessions@[s]@[j]]
            self.sessions@.contains_key(s) && 0 <= i < self.sessions@[s]@.len() && 0 <= j
                < self.sessions@[s]@.len() && i != j ==> self.sessions@[s]@[i].port
                != self.sessions@[s]@[j].port
        &&& forall|p: u16| #[trigger]
            self.port_to_session@.contains_key(p) ==> self.pool.used_ports().contains(p)
        &&& self.pending@.dom().subset_of(self.event_senders@.dom())
        &&& forall|t: u128| #[trigger]
            self.pending@.contains_key(t) ==> paired(self.event_senders@[t], self.pending@[t])
    }

    /// The pool's free and used ports and its range are the same in both.
    pub open spec fn same_pool(&self, other: &Self) -> bool {
        &&& self.pool().free_ports() == other.pool().free_ports()
        &&& self.pool().used_ports() == other.pool().used_ports()
        &&& self.pool().port_range() == other.pool().port_range()
    }

    /// Sessions and their entities, owners, subscriptions and the factory
    /// are the same in both.
    pub open spec fn same_sessions(&self, other: &Self) -> bool {
        &&& self.session_ids() == other.session_ids()
        &&& forall|s: u128| #[trigger] self.session_ports(s) == other.session_ports(s)
        &&& self.owners() == other.owners()
        &&& self.subscribed() == other.subscribed()
        &&& self.channels() == other.channels()
        &&& forall|s: u128| #[trigger] self.session_entities(s) == other.session_entities(s)
        &&& self.factory() == other.factory()
    }

    /// What `new_port` does, for every outcome of the factory.
    pub open spec fn new_port_post(
        old: &Self,
        new: &Self,
        s: u128,
        ts: Seq<char>,
        port: Option<u16>,
        token: Option<Seq<char>>,
        r: Result<u16, AppError>,
    ) -> bool {
        match spec_parse_port_type(ts) {
            None => (r matches Err(AppError::BadType(m)) && m@ == ascii_lower_text(ts))
                && new.same_pool(old) && new.same_sessions(old),
            Some(kind) => {
                let pin = pin_requested(port, token);
                if pin matches Some(p) && !old.pool().free_ports().contains(p) {
                    (r matches Err(AppError::PortInUse(q)) && Some(q) == pin) && new.same_pool(old)
                        && new.same_sessions(old)
                } else if pin is None && old.pool().free_ports().is_empty() {
                    (r matches Err(AppError::NoPortAvailable)) && new.same_pool(old)
                        && new.same_sessions(old)
                } else {
                    &&& new.pool().port_range() == old.pool().port_range()
                    &&& new.subscribed() == old.subscribed()
                    &&& new.channels() == old.channels().insert(s)
                    &&& match r {
                        Ok(q) => {
                            &&& (pin matches Some(p) ==> q == p)
                            &&& old.pool().free_ports().contains(q)
                            &&& new.pool().free_ports() == old.pool().free_ports().remove(q)
                            &&& new.pool().used_ports() == old.pool().used_ports().insert(q)
                            &&& new.session_ids() == old.session_ids().insert(s)
                            &&& new.session_ports(s) == old.session_ports(s).push((q, kind))

                            &&& forall|t: u128|
                                t != s ==> #[trigger] new.session_ports(t) == old.session_ports(t)
                            &&& new.owners() == old.owners().insert(q, s)
                        },
                        Err(_) => {
                            &&& new.pool().free_ports() == old.pool().free_ports()
                            &&& new.pool().used_ports() == old.pool().used_ports()
                            &&& new.session_ids() == old.session_ids()
                            &&& forall|t: u128| #[trigger]
                                new.session_ports(t) == old.session_ports(t)
                            &&& new.owners() == old.owners()
                        },
                    }
                }
            },
        }
    }

    /// The calls `new_port` makes: none when the type does not parse or no
    /// port can be taken; otherwise exactly one `create`, for the taken
    /// port and the parsed type. Its outcome is the request's: the entity
    /// it built is the session's newest, and the new-port metric of the type
    /// follows, once; or its error is returned, and nothing follows.
    pub open spec fn new_port_calls(
        old: &Self,
        new: &Self,
        s: u128,
        ts: Seq<char>,
        port: Option<u16>,
        token: Option<Seq<char>>,
        r: Result<u16, AppError>,
    ) -> bool {
        let made_now = Self::calls_since(old, new);
        &&& Self::extends(old, new)
        &&& new.factory() == old.factory()
        &&& match spec_parse_port_type(ts) {
            None => made_now.len() == 0,
            Some(kind) => {
                let pin = pin_requested(port, token);
                if (pin matches Some(p) && !old.pool().free_ports().contains(p)) || (pin is None
                    && old.pool().free_ports().is_empty()) {
                    made_now.len() == 0
                } else {
                    &&& made_now.len() == (if r is Ok { 2int } else { 1int })
                    &&& old.made(made_now[0])
                    &&& made_now[0] matches Call::Create { port: q, kind: k, events, result }
                    &&& k == kind
                    &&& new.channels().contains(s)
                    &&& cloned_from(events, new.sender_of(s))
                    &&& old.pool().free_ports().contains(q)
                    &&& (pin matches Some(p) ==> q == p)
                    &&& match r {
                        Ok(q2) => {
                            &&& q2 == q
                            &&& result == Ok::<E, AppError>(new.session_entities(s).last())
                            &&& made_now[1] == Call::<E>::NewPortMetric { kind }
                            &&& old.made(made_now[1])
                        },
                        Err(e) => result == Err::<E, AppError>(e),
                    }
                }
            },
        }
    }

    /// Every port a session holds is in use in the pool and indexed back to
    /// that session; so no port is held by two sessions, and a port that
    /// is free is held by none.
    pub proof fn lemma_held_ports_in_use(&self, s: u128, i: int)
        requires
            self.wf(),
            0 <= i < self.session_ports(s).len(),
        ensures
            self.pool().used_ports().contains(self.session_ports(s)[i].0),
            self.owners().contains_key(self.session_ports(s)[i].0),
            self.owners()[self.session_ports(s)[i].0] == s,
            !self.pool().free_ports().contains(self.session_ports(s)[i].0),
    {
        assert(self.sessions@.contains_key(s));
        assert(self.session_ports(s)[i].0 == self.sessions@[s]@[i].port);
        self.pool.lemma_partition();
    }

    /// Closing a session undoes a `new_port` made for it when it held no
    /// port before: the pool, the reverse index and every other session are
    /// as they were, and the session is gone with its channel.
    pub proof fn lemma_close_session_undoes_new_port(
        a: &Self,
        b: &Self,
        c: &Self,
        s: u128,
        ts: Seq<char>,
        port: Option<u16>,
        token: Option<Seq<char>>,
        r: Result<u16, AppError>,
    )
        requires
            a.wf(),
            b.wf(),
            a.session_ports(s).len() == 0,
            Self::new_port_post(a, b, s, ts, port, token, r),
            Self::close_session_post(b, c, s),
        ensures
            c.pool().free_ports() == a.pool().free_ports(),
            c.pool().used_ports() == a.pool().used_ports(),
            c.pool().port_range() == a.pool().port_range(),
            c.owners() == a.owners(),
            forall|t: u128| #[trigger] c.session_ports(t) == a.session_ports(t),
            c.session_ids() == a.session_ids().remove(s),
            c.subscribed() == a.subscribed().remove(s),
            c.channels() == a.channels().remove(s),
    {
        a.pool.lemma_partition();
        let held = port_set(b.session_ports(s));
        match r {
            Ok(q) => {
                let kind = spec_parse_port_type(ts).unwrap();
                assert(b.session_ports(s) =~= seq![(q, kind)]);
                assert(held =~= set![q]) by {
                    assert(b.session_ports(s)[0].0 == q);
                }
                assert(!a.pool().used_ports().contains(q));
                assert(!a.owners().contains_key(q));
                assert(c.pool().used_ports() =~= a.pool().used_ports());
                assert(c.pool().free_ports() =~= a.pool().free_ports());
                assert(c.owners() =~= a.owners());
                assert(c.session_ports(s) =~= a.session_ports(s));
                assert(c.subscribed() =~= a.subscribed().remove(s));
                assert(c.channels() =~= a.channels().remove(s));
                assert(c.session_ids() =~= a.session_ids().remove(s));
            },
            Err(_) => {
                assert(b.session_ports(s) == a.session_ports(s));
                assert(held =~= Set::<u16>::empty());
                assert(c.pool().used_ports() =~= a.pool().used_ports());
                assert(c.pool().free_ports() =~= a.pool().free_ports());
                assert(c.owners() =~= a.owners());
                assert(c.session_ports(s) =~= a.session_ports(s));
                assert(c.subscribed() =~= a.subscribed().remove(s));
                assert(c.channels() =~= a.channels().remove(s));
                assert(c.session_ids() =~= a.session_ids().remove(s));
            },
        }
    }

    /// A `new_port` leaves the session's subscription as it was: a session
    /// that had not subscribed still has not, so `subscribe` then hands
    /// its channel out; and a port allocated for it opened that channel.
    pub proof fn lemma_new_port_then_subscribe(
        a: &Self,
        b: &Self,
        s: u128,
        ts: Seq<char>,
        port: Option<u16>,
        token: Option<Seq<char>>,
        r: Result<u16, AppError>,
    )
        requires
            Self::new_port_post(a, b, s, ts, port, token, r),
        ensures
            b.subscribed() == a.subscribed(),
            r is Ok ==> b.channels().contains(s),
    {
    }

    /// A session that subscribed and then asked for a port hears that
    /// port: the sender `new_port` hands the factory for the entity's
    /// events delivers to the receiver `subscribe` returned.
    pub proof fn lemma_subscribe_then_new_port_delivers(
        a: &Self,
        b: &Self,
        c: &Self,
        s: u128,
        rx: tokio::sync::mpsc::UnboundedReceiver<WsEvent>,
        ts: Seq<char>,
        port: Option<u16>,
        token: Option<Seq<char>>,
        r: Result<u16, AppError>,
    )
        requires
            Self::subscribe_post(a, b, s, Some(rx)),
            Self::new_port_calls(b, c, s, ts, port, token, r),
            Self::keeps_senders(b, c),
            Self::calls_since(b, c).len() > 0,
        ensures
            Self::calls_since(b, c)[0] matches Call::Create { events, .. } && delivers_to(events, rx),
    {
        let call = Self::calls_since(b, c)[0];
        let t = b.sender_of(s);
        assert(c.sender_of(s) == t);
        assert(call matches Call::Create { events, .. } && cloned_from(events, t) && paired(t, rx));
    }

    /// A session that asked for a port and then subscribed hears that port
    /// too: the receiver `subscribe` hands out is the one the sender given
    /// to the factory delivers to.
    pub proof fn lemma_new_port_then_subscribe_delivers(
        a: &Self,
        b: &Self,
        c: &Self,
        s: u128,
        ts: Seq<char>,
        port: Option<u16>,
        token: Option<Seq<char>>,
        r: Result<u16, AppError>,
        rx: tokio::sync::mpsc::UnboundedReceiver<WsEvent>,
    )
        requires
            Self::new_port_calls(a, b, s, ts, port, token, r),
            Self::calls_since(a, b).len() > 0,
            Self::subscribe_post(b, c, s, Some(rx)),
        ensures
            Self::calls_since(a, b)[0] matches Call::Create { events, .. } && delivers_to(events, rx),
    {
        let call = Self::calls_since(a, b)[0];
        let t = b.sender_of(s);
        assert(b.channels().contains(s));
        assert(c.sender_of(s) == t);
        assert(call matches Call::Create { events, .. } && cloned_from(events, t) && paired(t, rx));
    }

    /// Build a new service with an all-free pool and no sessions.
    pub fn new(pool: RandomPortPool, factory: F) -> (svc: Self)
        requires
            pool.wf(),
        ensures
            svc.wf(),
            svc.pool() == pool,
            svc.session_ids() == Set::<u128>::empty(),
            forall|s: u128| #[trigger] svc.session_ports(s) == Seq::<(u16, PortType)>::empty(),
            svc.owners() == Map::<u16, u128>::empty(),
            svc.subscribed() == Set::<u128>::empty(),
            svc.channels() == Set::<u128>::empty(),
            svc.factory() == factory,
            forall|s: u128| #[trigger] svc.session_entities(s) == Seq::<E>::empty(),
            svc.calls() == Seq::<Call<E>>::empty(),
    {
        let svc = PortService {
            pool,
            factory,
            sessions: HashMap::new(),
            port_to_session: HashMap::new(),
            event_senders: HashMap::new(),
            pending: HashMap::new(),
            calls: Ghost(Seq::empty()),
        };
        assert(svc.sessions@.dom() =~= Set::<u128>::empty());
        svc
    }

    /// Hand the receiver half of `session_id`'s `WsEvent` channel to the
    /// caller. Returns `None` if the session has already been subscribed.
    /// A channel that `new_port` opened for the session before is the one
    /// handed out, so events of the ports it already holds arrive on it.
    pub fn subscribe(&mut self, session_id: Uuid) -> (r: Option<
        tokio::sync::mpsc::UnboundedReceiver<WsEvent>,
    >)
        requires
            old(self).wf(),
        ensures
            final(self).wf(),
            final(self).same_pool(old(self)),
            final(self).session_ids() == old(self).session_ids(),
            forall|t: u128| #[trigger] final(self).session_ports(t) == old(self).session_ports(t),
            final(self).owners() == old(self).owners(),
            r is Some <==> !old(self).subscribed().contains(session_id.value()),
            final(self).subscribed() == old(self).subscribed().insert(session_id.value()),
            final(self).channels() == old(self).channels().insert(session_id.value()),
            forall|t: u128| #[trigger] final(self).session_entities(t) == old(self).session_entities(t),
            final(self).factory() == old(self).factory(),
            final(self).calls() == old(self).calls(),
            Self::subscribe_post(old(self), final(self), session_id.value(), r),
    {
        let s = session_id.as_u128();
        if let Some(rx) = self.pending.remove(&s) {
            assert(self.event_senders@.dom().insert(s) =~= self.event_senders@.dom());
            assert(self.subscribed() =~= old(self).subscribed().insert(s));
            assert(paired(old(self).event_senders@[s], old(self).pending@[s]));
            return Some(rx);
        }
        if self.event_senders.contains_key(&s) {
            assert(self.event_senders@.dom().insert(s) =~= self.event_senders@.dom());
            assert(self.subscribed() =~= old(self).subscribed().insert(s));
            return None;
        }
        // Called through its function value, so that the call is on record.
        let open = new_event_channel;
        let (tx, rx) = open();
        assert(call_ensures(new_event_channel, (), (tx, rx)));
        assert(paired(tx, rx));
        self.event_senders.insert(s, tx);
        assert(self.subscribed() =~= old(self).subscribed().insert(s));
        Some(rx)
    }

    /// The sender for `s`, opening the channel if necessary (its receiver
    /// waits for `subscribe`).
    fn sender_for(&mut self, s: u128) -> (tx: tokio::sync::mpsc::UnboundedSender<WsEvent>)
        requires
            old(self).wf(),
        ensures
            final(self).wf(),
            final(self).pool == old(self).pool,
            final(self).sessions == old(self).sessions,
            final(self).port_to_session == old(self).port_to_session,
            final(self).factory == old(self).factory,
            final(self).calls == old(self).calls,
            final(self).subscribed() == old(self).subscribed(),
            final(self).channels() == old(self).channels().insert(s),
            Self::keeps_senders(old(self), final(self)),
            cloned_from(tx, final(self).sender_of(s)),
    {
        // Called through their function values, so that the calls are on record.
        let dup = clone_sender;
        let open = new_event_channel;
        match self.event_senders.get(&s) {
            Some(tx) => {
                let c = dup(tx);
                assert(call_ensures(clone_sender, (tx,), c));
                assert(self.event_senders@.dom().insert(s) =~= self.event_senders@.dom());
                c
            },
            None => {
                let (tx, rx) = open();
                assert(call_ensures(new_event_channel, (), (tx, rx)));
                let c = dup(&tx);
                assert(call_ensures(clone_sender, (&tx,), c));
                self.event_senders.insert(s, tx);
                self.pending.insert(s, rx);
                assert(self.subscribed() =~= old(self).subscribed());
                c
            },
        }
    }

    /// Decide the port type and take a port from the pool: the requested
    /// one when the request pins a port and carries the pin token, a random
    /// free one otherwise.
    pub fn allocate_port(&mut self, type_str: &str, port: Option<u16>, token: Option<&str>) -> (r:
        Result<(PortNumber, PortType), AppError>)
        requires
            old(self).wf(),
        ensures
            final(self).wf(),
            final(self).same_sessions(old(self)),
            final(self).pool().port_range() == old(self).pool().port_range(),
            match spec_parse_port_type(type_str@) {
                None => (r matches Err(AppError::BadType(m)) && m@ == ascii_lower_text(type_str@))
                    && final(self).same_pool(old(self)),
                Some(kind) => match pin_requested(port, text_view(token)) {
                    Some(p) => if old(self).pool().free_ports().contains(p) {
                        (r matches Ok((q, k)) && q == p && k == kind)
                            && final(self).pool().free_ports() == old(self).pool().free_ports().remove(p)
                            && final(self).pool().used_ports() == old(self).pool().used_ports().insert(p)
                    } else {
                        (r matches Err(AppError::PortInUse(q)) && q == p) && final(self).same_pool(old(self))
                    },
                    None => if old(self).pool().free_ports().is_empty() {
                        (r matches Err(AppError::NoPortAvailable)) && final(self).same_pool(old(self))
                    } else {
                        (r matches Ok((q, k)) && k == kind && old(self).pool().free_ports().contains(q)
                            && final(self).pool().free_ports() == old(self).pool().free_ports().remove(q)
                            && final(self).pool().used_ports() == old(self).pool().used_ports().insert(q))
                    },
                },
            },
            r matches Ok((q, _)) ==> !old(self).owners().contains_key(q),
            final(self).calls() == old(self).calls(),
            Self::keeps_senders(old(self), final(self)),
    {
        let kind = match parse_port_type(type_str) {
            Ok(k) => k,
            Err(e) => {
                return Err(e);
            },
        };
        let pinned = match port {
            Some(p) => match token {
                Some(t) => if text_eq(t, PORT_PIN_TOKEN) {
                    Some(p)
                } else {
                    None
                },
                None => None,
            },
            None => None,
        };
        let ghost old_used = self.pool.used_ports();
        let taken = match pinned {
            Some(p) => self.pool.take(p),
            None => self.pool.take_random(),
        };
        match taken {
            Ok(q) => {
                proof {
                    assert(!old_used.contains(q)) by {
                        old(self).pool.lemma_partition();
                    }
                    assert forall|s: u128, i: int|
                        #![trigger self.sessions@[s]@[i]]
                        self.sessions@.contains_key(s) && 0 <= i < self.sessions@[s]@.len() implies {
                            let p = self.sessions@[s]@[i].port;
                            &&& self.pool.used_ports().contains(p)
                            &&& self.port_to_session@.contains_key(p)
                            &&& self.port_to_session@[p] == s
                        } by {}
                }
                Ok((q, kind))
            },
            Err(e) => Err(e),
        }
    }

    /// Record the outcome of creating the entity for an allocated port:
    /// on success the port joins the session, on failure it goes back to
    /// the pool and the factory's error is returned.
    pub fn complete_new_port(
        &mut self,
        session_id: Uuid,
        port: PortNumber,
        kind: PortType,
        created: Result<E, AppError>,
    ) -> (r: Result<PortNumber, AppError>)
        requires
            old(self).wf(),
            old(self).pool().used_ports().contains(port),
            !old(self).owners().contains_key(port),
        ensures
            final(self).wf(),
            final(self).subscribed() == old(self).subscribed(),
            final(self).channels() == old(self).channels(),
            final(self).pool().port_range() == old(self).pool().port_range(),
            final(self).factory() == old(self).factory(),
            final(self).calls() == old(self).calls(),
            Self::keeps_senders(old(self), final(self)),
            created matches Ok(e) ==> {
                &&& final(self).session_entities(session_id.value()) == old(self).session_entities(
                    session_id.value(),
                ).push(e)
                &&& new_port_metric_emitted(kind)
            },
            forall|t: u128|
                t != session_id.value() || created is Err ==> #[trigger] final(self).session_entities(t)
                    == old(self).session_entities(t),
            created is Ok ==> {
                &&& r == Ok::<PortNumber, AppError>(port)
                &&& final(self).same_pool(old(self))
                &&& final(self).session_ids() == old(self).session_ids().insert(session_id.value())
                &&& final(self).session_ports(session_id.value()) == old(self).session_ports(
                    session_id.value(),
                ).push((port, kind))

                &&& forall|t: u128|
                    t != session_id.value() ==> #[trigger] final(self).session_ports(t) == old(
                        self,
                    ).session_ports(t)
                &&& final(self).owners() == old(self).owners().insert(port, session_id.value())
            },
            created matches Err(e) ==> {
                &&& r == Err::<PortNumber, AppError>(e)
                &&& final(self).pool().used_ports() == old(self).pool().used_ports().remove(port)
                &&& final(self).pool().free_ports() == old(self).pool().free_ports().insert(port)
                &&& final(self).session_ids() == old(self).session_ids()
                &&& forall|t: u128| #[trigger] final(self).session_ports(t) == old(self).session_ports(t)
                &&& final(self).owners() == old(self).owners()
            },
    {
        let s = session_id.as_u128();
        match created {
            Ok(entity) => {
                let ghost old_sessions = self.sessions@;
                let mut entries = match self.sessions.remove(&s) {
                    Some(v) => v,
                    None => Vec::new(),
                };
                assert(entry_ports(entries@) == old(self).session_ports(s));
                entries.push(SessionEntry { port, kind, entity });
                self.sessions.insert(s, entries);
                self.port_to_session.insert(port, s);
                let label = wire_label(kind);
                // Called through its function value, so that the call is on record.
                let emit = metrics::on_new_port;
                emit(label);
                proof {
                    assert(call_ensures(metrics::on_new_port, (label,), ()));
                    assert(self.session_entities(s) =~= old(self).session_entities(s).push(
                        self.sessions@[s]@.last().entity,
                    ));
                    assert forall|t: u128| t != s implies #[trigger] self.session_entities(t)
                        == old(self).session_entities(t) by {
                        if old_sessions.contains_key(t) {
                            assert(self.sessions@[t] == old_sessions[t]);
                        }
                    }
                    assert(entry_ports(self.sessions@[s]@) =~= old(self).session_ports(s).push(
                        (port, kind),
                    ));
                    assert(self.sessions@.dom() =~= old_sessions.dom().insert(s));
                    assert forall|t: u128|
                        t != s implies #[trigger] self.session_ports(t) == old(self).session_ports(
                            t,
                        ) by {
                        if old_sessions.contains_key(t) {
                            assert(self.sessions@[t] == old_sessions[t]);
                        }
                    }
                    assert forall|t: u128, i: int|
                        #![trigger self.sessions@[t]@[i]]
                        self.sessions@.contains_key(t) && 0 <= i < self.sessions@[t]@.len() implies {
                            let p = self.sessions@[t]@[i].port;
                            &&& self.pool.used_ports().contains(p)
                            &&& self.port_to_session@.contains_key(p)
                            &&& self.port_to_session@[p] == t
                        } by {
                        if t == s && i == self.sessions@[t]@.len() - 1 {
                        } else {
                            assert(self.sessions@[t]@[i] == old_sessions[t]@[i]);
                            assert(old_sessions[t]@[i].port != port);
                        }
                    }
                    assert forall|t: u128, i: int, j: int|
                        #![trigger self.sessions@[t]@[i], self.sessions@[t]@[j]]
                        self.sessions@.contains_key(t) && 0 <= i < self.sessions@[t]@.len() && 0
                            <= j < self.sessions@[t]@.len() && i != j implies self.sessions@[t]@[i].port
                        != self.sessions@[t]@[j].port by {
                        let n = self.sessions@[t]@.len();
                        if t == s && (i == n - 1 || j == n - 1) {
                            let k = if i == n - 1 { j } else { i };
                            assert(old_sessions[t]@[k].port != port);
                        } else {
                            assert(self.sessions@[t]@[i] == old_sessions[t]@[i]);
                            assert(self.sessions@[t]@[j] == old_sessions[t]@[j]);
                        }
                    }
                }
                Ok(port)
            },
            Err(e) => {
                self.pool.recycle(port);
                proof {
                    assert forall|t: u128, i: int|
                        #![trigger self.sessions@[t]@[i]]
                        self.sessions@.contains_key(t) && 0 <= i < self.sessions@[t]@.len() implies {
                            let p = self.sessions@[t]@[i].port;
                            &&& self.pool.used_ports().contains(p)
                            &&& self.port_to_session@.contains_key(p)
                            &&& self.port_to_session@[p] == t
                        } by {
                        assert(self.sessions@[t]@[i].port != port);
                    }
                }
                Err(e)
            },
        }
    }

    /// Allocate a new port for `session_id`.
    ///
    /// `type_str` selects the wire protocol (`tcp` / `udp` / `tcp_ssl`).
    /// `port` is the requested port number: honoured only together with
    /// the correct [`PORT_PIN_TOKEN`], otherwise the request falls back to
    /// a random port. The factory then builds the entity; when it fails,
    /// the port goes back to the pool and the factory's error is returned.
    pub fn new_port(
        &mut self,
        session_id: Uuid,
        type_str: &str,
        port: Option<u16>,
        token: Option<&str>,
    ) -> (r: Result<PortNumber, AppError>)
        requires
            old(self).wf(),
        ensures
            final(self).wf(),
            Self::new_port_post(
                old(self),
                final(self),
                session_id.value(),
                type_str@,
                port,
                text_view(token),
                r,
            ),
            Self::new_port_calls(
                old(self),
                final(self),
                session_id.value(),
                type_str@,
                port,
                text_view(token),
                r,
            ),
            Self::keeps_senders(old(self), final(self)),
    {
        let (q, kind) = match self.allocate_port(type_str, port, token) {
            Ok(a) => a,
            Err(e) => {
                assert(self.calls@.subrange(0, self.calls@.len() as int) =~= self.calls@);
                assert(Self::calls_since(old(self), self).len() == 0);
                return Err(e);
            },
        };
        let ghost after_alloc = *self;
        assert(after_alloc.session_ports(session_id.value()) == old(self).session_ports(session_id.value()));
        let events = self.sender_for(session_id.as_u128());
        let ghost after_sender = *self;
        let ghost ev = events;
        // Called through its function value, so that the call is on record.
        let create = F::create;
        let created = create(&self.factory, q, kind, events);
        let ghost result = created;
        let ghost before = self.calls@;
        let r = self.complete_new_port(session_id, q, kind, created);
        let ghost call = Call::Create { port: q, kind, events: ev, result };
        proof {
            old(self).pool.lemma_partition();
            if r is Err {
                assert(self.pool.free_ports() =~= old(self).pool.free_ports());
                assert(self.pool.used_ports() =~= old(self).pool.used_ports());
            }
            let kind0 = spec_parse_port_type(type_str@).unwrap();
            assert(kind0 == kind);
            let pin = pin_requested(port, text_view(token));
            assert(!(pin matches Some(p) && !old(self).pool().free_ports().contains(p)));
            assert(!(pin is None && old(self).pool().free_ports().is_empty()));
            assert(self.pool().port_range() == old(self).pool().port_range());
            assert(self.subscribed() == old(self).subscribed());
            assert(self.channels() == old(self).channels().insert(session_id.value()));
            if r is Ok {
                assert(old(self).pool().free_ports().contains(q));
                assert(self.session_ids() == old(self).session_ids().insert(session_id.value()));
                assert(self.owners() == old(self).owners().insert(q, session_id.value()));
                assert(self.pool().free_ports() == old(self).pool().free_ports().remove(q));
                assert(self.pool().used_ports() == old(self).pool().used_ports().insert(q));
                assert(self.session_ports(session_id.value()) == old(self).session_ports(session_id.value()).push((q, kind)));
                assert forall|t: u128| t != session_id.value() implies #[trigger] self.session_ports(t) == old(self).session_ports(t) by {
                    assert(after_alloc.session_ports(t) == old(self).session_ports(t));
                }
            } else {
                assert forall|t: u128| #[trigger] self.session_ports(t) == old(self).session_ports(t) by {
                    assert(after_alloc.session_ports(t) == old(self).session_ports(t));
                }
                assert(self.session_ids() == old(self).session_ids());
                assert(self.owners() == old(self).owners());
            }
        }
        let ghost mid = *self;
        proof {
            assert(call_ensures(F::create, (&self.factory, q, kind, ev), result));
            assert(cloned_from(ev, self.sender_of(session_id.value())));

            assert(old(self).made(call));
            if r is Ok {
                let metric = Call::<E>::NewPortMetric { kind };
                assert(old(self).made(metric));
                self.calls@ = self.calls@.push(call).push(metric);
                assert(Self::calls_since(old(self), self) =~= seq![call, metric]);
            } else {
                self.calls@ = self.calls@.push(call);
                assert(Self::calls_since(old(self), self) =~= seq![call]);
            }
            assert(self.calls@.subrange(0, old(self).calls@.len() as int) =~= old(self).calls@);
            assert(forall|t: u128| #[trigger] self.session_ports(t) == mid.session_ports(t));
            assert(forall|t: u128| #[trigger] self.session_entities(t) == mid.session_entities(t));
            assert(self.event_senders == mid.event_senders);
            assert forall|t: u128| old(self).channels().contains(t) implies self.channels().contains(t)
                && #[trigger] self.sender_of(t) == old(self).sender_of(t) by {
                assert(after_alloc.sender_of(t) == old(self).sender_of(t));
                assert(after_sender.sender_of(t) == after_alloc.sender_of(t));
                assert(mid.sender_of(t) == after_sender.sender_of(t));
            }
        }
        r
    }

    /// What `close_session` does: the session's ports go back to the pool
    /// and out of the reverse index, and the session and its channel are
    /// gone.
    pub open spec fn close_session_post(old: &Self, new: &Self, s: u128) -> bool {
        let ports = port_set(old.session_ports(s));
        &&& new.session_ids() == old.session_ids().remove(s)
        &&& new.session_ports(s) == Seq::<(u16, PortType)>::empty()
        &&& forall|t: u128| t != s ==> #[trigger] new.session_ports(t) == old.session_ports(t)
        &&& new.owners() == old.owners().remove_keys(ports)
        &&& new.pool().used_ports() == old.pool().used_ports().difference(ports)
        &&& new.pool().free_ports() == old.pool().free_ports().union(ports)
        &&& new.pool().port_range() == old.pool().port_range()
        &&& new.subscribed() == old.subscribed().remove(s)
        &&& new.channels() == old.channels().remove(s)
    }

    /// The calls `close_session` makes: one shutdown of each entity the
    /// session held, in order, each followed by the close-port metric of
    /// its type.
    pub open spec fn shutdowns(old: &Self, s: u128, calls: Seq<Call<E>>) -> bool {
        &&& calls.len() == 2 * old.session_entities(s).len()
        &&& forall|k: int|
            0 <= k < old.session_entities(s).len() ==> #[trigger] old.closed_pair(
                calls,
                k,
                old.session_entities(s)[k],
                old.session_ports(s)[k].1,
            )
    }

    /// The `k`-th pair of `calls` shuts `entity` down, then emits the
    /// close-port metric of `kind`; both calls were made.
    pub open spec fn closed_pair(&self, calls: Seq<Call<E>>, k: int, entity: E, kind: PortType) -> bool {
        &&& calls[2 * k] matches Call::Shutdown { entity: e, .. } && e == entity
        &&& calls[2 * k + 1] == Call::<E>::ClosePortMetric { kind }
        &&& self.made(calls[2 * k])
        &&& self.made(calls[2 * k + 1])
    }

    /// Shut down every port owned by `session_id`, recycling the port
    /// numbers back into the pool and dropping the session's event sender
    /// (which closes the receiver held by the WebSocket handler).
    pub fn close_session(&mut self, session_id: Uuid)
        requires
            old(self).wf(),
        ensures
            final(self).wf(),
            Self::close_session_post(old(self), final(self), session_id.value()),
            final(self).factory() == old(self).factory(),
            forall|t: u128|
                t != session_id.value() ==> #[trigger] final(self).session_entities(t) == old(
                    self,
                ).session_entities(t),
            Self::extends(old(self), final(self)),
            Self::shutdowns(old(self), session_id.value(), Self::calls_since(old(self), final(self))),
    {
        let s = session_id.as_u128();
        let ghost ports = old(self).session_ports(s);
        let ghost mut closes: Seq<Call<E>> = Seq::empty();
        let removed = self.sessions.remove(&s);
        match removed {
            Some(entries) => {
                let n = entries.len();
                let mut i: usize = 0;
                assert(port_set(ports.take(0)) =~= Set::<u16>::empty());
                assert(self.pool.used_ports().difference(Set::<u16>::empty()) =~= self.pool.used_ports());
                assert(self.pool.free_ports().union(Set::<u16>::empty()) =~= self.pool.free_ports());
                assert(self.port_to_session@.remove_keys(Set::<u16>::empty()) =~= self.port_to_session@);
                while i < n
                    invariant
                        old(self).wf(),
                        n == entries@.len(),
                        i <= n,
                        old(self).sessions@.contains_key(s),
                        entries@ == old(self).sessions@[s]@,
                        ports == entry_ports(entries@),
                        self.pool.wf(),
                        self.pool.port_range() == old(self).pool.port_range(),
                        self.pool.used_ports() == old(self).pool.used_ports().difference(
                            port_set(ports.take(i as int)),
                        ),
                        self.pool.free_ports() == old(self).pool.free_ports().union(
                            port_set(ports.take(i as int)),
                        ),
                        self.port_to_session@ == old(self).port_to_session@.remove_keys(
                            port_set(ports.take(i as int)),
                        ),
                        self.sessions@ == old(self).sessions@.remove(s),
                        self.event_senders@ == old(self).event_senders@,
                        self.pending@ == old(self).pending@,
                        self.factory == old(self).factory,
                        self.calls == old(self).calls,
                        closes.len() == 2 * i,
                        forall|k: int|
                            0 <= k < i ==> #[trigger] old(self).closed_pair(
                                closes,
                                k,
                                entries@[k].entity,
                                entries@[k].kind,
                            ),
                    decreases n - i,
                {
                    let entry = &entries[i];
                    // Called through their function values, so that the calls are on record.
                    let shutdown = E::shutdown;
                    let res = shutdown(&entry.entity);
                    proof {
                        assert(old(self).sessions@[s]@[i as int].port == entry.port);
                        assert forall|k: int| 0 <= k < i implies (#[trigger] ports[k]).0 != entry.port by {
                            assert(old(self).sessions@[s]@[k].port == ports[k].0);
                        }
                        assert(!port_set(ports.take(i as int)).contains(entry.port));
                    }
                    self.pool.recycle(entry.port);
                    self.port_to_session.remove(&entry.port);
                    let label = wire_label(entry.kind);
                    let emit = metrics::on_close_port;
                    emit(label);
                    proof {
                        assert(call_ensures(E::shutdown, (&entry.entity,), res));
                        assert(call_ensures(metrics::on_close_port, (label,), ()));
                        let call = Call::Shutdown { entity: entry.entity, result: res };
                        let metric = Call::<E>::ClosePortMetric { kind: entry.kind };
                        assert(old(self).made(call));
                        assert(old(self).made(metric));
                        let before = closes;
                        closes = closes.push(call).push(metric);
                        assert forall|k: int| 0 <= k < i + 1 implies #[trigger] old(self).closed_pair(
                            closes,
                            k,
                            entries@[k].entity,
                            entries@[k].kind,
                        ) by {
                            if k < i {
                                assert(closes[2 * k] == before[2 * k]);
                                assert(closes[2 * k + 1] == before[2 * k + 1]);
                                assert(old(self).closed_pair(before, k, entries@[k].entity, entries@[k].kind));
                            } else {
                                assert(closes[2 * k] == call);
                                assert(closes[2 * k + 1] == metric);
                            }
                        }
                    }
                    proof {
                        let before = port_set(ports.take(i as int));
                        let after = port_set(ports.take(i as int + 1));
                        assert(ports[i as int].0 == entry.port);
                        assert(after =~= before.insert(entry.port)) by {
                            assert forall|p: u16| after.contains(p) <==> before.contains(p) || p == entry.port by {
                                if after.contains(p) {
                                    let k = choose|k: int| 0 <= k < i + 1 && (#[trigger] ports.take(i as int + 1)[k]).0 == p;
                                    if k < i {
                                        assert(ports.take(i as int)[k] == ports.take(i as int + 1)[k]);
                                    }
                                }
                                if before.contains(p) {
                                    let k = choose|k: int| 0 <= k < i && (#[trigger] ports.take(i as int)[k]).0 == p;
                                    assert(ports.take(i as int + 1)[k] == ports.take(i as int)[k]);
                                }
                                if p == entry.port {
                                    assert(ports.take(i as int + 1)[i as int].0 == p);
                                }
                            }
                        }
                        assert(self.pool.used_ports() =~= old(self).pool.used_ports().difference(after));
                        assert(self.pool.free_ports() =~= old(self).pool.free_ports().union(after));
                        assert(self.port_to_session@ =~= old(self).port_to_session@.remove_keys(after));
                    }
                    i = i + 1;
                }
                proof {
                    assert(ports.take(n as int) =~= ports);
                }
            },
            None => {
                proof {
                    assert(ports =~= Seq::<(u16, PortType)>::empty());
                    assert(port_set(ports) =~= Set::<u16>::empty());
                    assert(self.pool.used_ports().difference(Set::<u16>::empty()) =~= self.pool.used_ports());
                    assert(self.pool.free_ports().union(Set::<u16>::empty()) =~= self.pool.free_ports());
                    assert(self.port_to_session@.remove_keys(Set::<u16>::empty()) =~= self.port_to_session@);
                    assert(self.sessions@ =~= old(self).sessions@.remove(s));
                }
            },
        }
        self.event_senders.remove(&s);
        self.pending.remove(&s);
        proof {
            assert(closes.len() == 2 * old(self).session_entities(s).len());
            assert forall|k: int| 0 <= k < old(self).session_entities(s).len() implies #[trigger] old(self).closed_pair(
                closes,
                k,
                old(self).session_entities(s)[k],
                old(self).session_ports(s)[k].1,
            ) by {
                assert(old(self).sessions@[s]@[k].entity == old(self).session_entities(s)[k]);
                assert(old(self).sessions@[s]@[k].kind == old(self).session_ports(s)[k].1);
            }
            self.calls@ = self.calls@ + closes;
            assert(Self::calls_since(old(self), self) =~= closes);
            assert(self.calls@.subrange(0, old(self).calls@.len() as int) =~= old(self).calls@);
        }
        proof {
            let gone = port_set(ports);
            assert(self.sessions@.dom() =~= old(self).sessions@.dom().remove(s));
            assert forall|t: u128| t != s implies #[trigger] self.session_ports(t) == old(self).session_ports(t) by {
                if old(self).sessions@.contains_key(t) {
                    assert(self.sessions@[t] == old(self).sessions@[t]);
                }
            }
            assert forall|t: u128, i: int|
                #![trigger self.sessions@[t]@[i]]
                self.sessions@.contains_key(t) && 0 <= i < self.sessions@[t]@.len() implies {
                    let p = self.sessions@[t]@[i].port;
                    &&& self.pool.used_ports().contains(p)
                    &&& self.port_to_session@.contains_key(p)
                    &&& self.port_to_session@[p] == t
                } by {
                let p = self.sessions@[t]@[i].port;
                assert(self.sessions@[t] == old(self).sessions@[t]);
                assert(old(self).port_to_session@[p] == t);
                if gone.contains(p) {
                    let k = choose|k: int| 0 <= k < ports.len() && (#[trigger] ports[k]).0 == p;
                    assert(old(self).sessions@[s]@[k].port == p);
                    assert(old(self).port_to_session@[p] == s);
                }
            }
            assert(self.event_senders@.dom() =~= old(self).event_senders@.dom().remove(s));
            assert(self.subscribed() =~= old(self).subscribed().remove(s));
        }
    }

    /// Some session holds at least one port.
    pub open spec fn holds_any_port(&self) -> bool {
        exists|t: u128| #[trigger] self.session_ports(t).len() > 0
    }

    /// Locate the entity that owns `client` and push `data` to it: every
    /// held entity is asked in turn, the first that accepts ends the
    /// search; when none does, the error names the client.
    pub fn send(&mut self, client: ClientId, data: &[u8]) -> (r: Result<(), AppError>)
        requires
            old(self).wf(),
        ensures
            final(self).wf(),
            final(self).same_pool(old(self)),
            final(self).same_sessions(old(self)),
            Self::extends(old(self), final(self)),
            old(self).search_post(
                Self::calls_since(old(self), final(self)),
                r is Ok,
                |c: Call<E>| is_send(c, client.value(), data@),
            ),
            r is Err ==> (r matches Err(AppError::UnknownClient(m)) && m@ == uuid_text(
                client.value(),
            )),
            !old(self).holds_any_port() ==> r is Err,
    {
        let ghost m = self.sessions@;
        let ghost op = |c: Call<E>| is_send(c, client.value(), data@);
        let ghost mut probes: Seq<Call<E>> = Seq::empty();
        for entries in it: self.sessions.values()
            invariant
                *self == *old(self),
                old(self).wf(),
                m == self.sessions@,
                op == (|c: Call<E>| is_send(c, client.value(), data@)),
                it.seq().unref().to_set() == m.values(),
                old(self).probes_made(probes, op),
                forall|k: int| 0 <= k < probes.len() ==> probe_result(#[trigger] probes[k]) is Err,
                forall|k: int| 0 <= k < it.index() ==> all_probed(probes, (*#[trigger] it.seq()[k])@),
            ensures
                old(self).probes_made(probes, op),
                forall|k: int| 0 <= k < probes.len() ==> probe_result(#[trigger] probes[k]) is Err,
                forall|v: Vec<SessionEntry<E>>| #[trigger] m.values().contains(v) ==> all_probed(probes, v@),
        {
            proof {
                let k0 = it.index() as int;
                assert(it.seq().unref()[k0] == *entries);
                assert(it.seq().unref().to_set().contains(*entries));
            }
            let ghost t = choose|t: u128| m.dom().contains(t) && m[t] == *entries;
            for e in ei: entries.iter()
                invariant
                    *self == *old(self),
                    old(self).wf(),
                    m == self.sessions@,
                    op == (|c: Call<E>| is_send(c, client.value(), data@)),
                    m.dom().contains(t) && m[t] == *entries,
                    ei.seq().len() == entries@.len(),
                    forall|j: int| 0 <= j < ei.seq().len() ==> *ei.seq()[j] == entries@[j],
                    old(self).probes_made(probes, op),
                    forall|k: int| 0 <= k < probes.len() ==> probe_result(#[trigger] probes[k]) is Err,
                    forall|k: int| 0 <= k < it.index() ==> all_probed(probes, (*#[trigger] it.seq()[k])@),
                    forall|j: int| 0 <= j < ei.index() ==> probed(probes, #[trigger] entries@[j].entity),
            {
                // Called through its function value, so that the call is on record.
                let send = E::send;
                let res = send(&e.entity, client, data);
                let ghost call = Call::Send { entity: e.entity, client: client.value(), data: data@, result: res };
                let ghost before = probes;
                proof {
                    let j = ei.index() as int;
                    assert(e.entity == entries@[j].entity);
                    assert(call_ensures(E::send, (&e.entity, client, data), res));
                    assert(send_made(e.entity, client.value(), data@, res));
                    assert(old(self).made(call));
                    assert(old(self).session_entities(t)[j] == e.entity);
                    assert(old(self).holds_entity(e.entity));
                    probes = probes.push(call);
                    assert forall|k: int| 0 <= k < it.index() implies all_probed(probes, (*#[trigger] it.seq()[k])@) by {
                        lemma_all_probed_push(before, call, (*it.seq()[k])@);
                    }
                    assert forall|j2: int| 0 <= j2 < ei.index() + 1 implies probed(probes, #[trigger] entries@[j2].entity) by {
                        if j2 < j {
                            lemma_probed_push(before, call, entries@[j2].entity);
                        } else {
                            assert(probe_entity(probes[before.len() as int]) == entries@[j2].entity);
                        }
                    }
                    assert(old(self).probes_made(probes, op)) by {
                        assert forall|k: int| #![trigger probes[k]] 0 <= k < probes.len() implies op(probes[k]) && old(self).made(probes[k])
                            && old(self).holds_entity(probe_entity(probes[k])) by {
                            if k < before.len() {
                                assert(probes[k] == before[k]);
                            } else {
                                assert(probes[k] == call);
                                assert(op(call));
                            }
                        }
                    }
                }
                if res.is_ok() {
                    proof {
                        self.calls@ = self.calls@ + probes;
                        assert(Self::calls_since(old(self), self) =~= probes);
                        assert(self.calls@.subrange(0, old(self).calls@.len() as int) =~= old(self).calls@);
                        assert forall|k: int| 0 <= k < probes.len() - 1 implies probe_result(#[trigger] probes[k]) is Err by {
                            assert(probes[k] == before[k]);
                        }
                        assert(old(self).session_ports(t).len() == entries@.len());
                        assert(old(self).session_ports(t).len() > 0);
                    }
                    return Ok(());
                }
                proof {
                    assert forall|k: int| 0 <= k < probes.len() implies probe_result(#[trigger] probes[k]) is Err by {
                        if k < before.len() {
                            assert(probes[k] == before[k]);
                        }
                    }
                }
            }
            proof {
                let k = it.index() as int;
                assert(*it.seq()[k] == *entries);
                assert(all_probed(probes, (*it.seq()[k])@));
            }
        }
        proof {
            assert forall|t2: u128, i2: int|
                0 <= i2 < old(self).session_entities(t2).len() implies probed(
                    probes,
                    #[trigger] old(self).session_entities(t2)[i2],
                ) by {
                assert(m.values().contains(m[t2]));
                assert(old(self).session_entities(t2)[i2] == m[t2]@[i2].entity);
            }
            self.calls@ = self.calls@ + probes;
            assert(Self::calls_since(old(self), self) =~= probes);
            assert(self.calls@.subrange(0, old(self).calls@.len() as int) =~= old(self).calls@);
        }
        Err(AppError::UnknownClient(client.to_string()))
    }

    /// Locate the entity that owns `client` and close that single
    /// connection: every held entity is asked in turn, the first that
    /// succeeds ends the search; when none does, the error names the client.
    pub fn close_client(&mut self, client: ClientId) -> (r: Result<(), AppError>)
        requires
            old(self).wf(),
        ensures
            final(self).wf(),
            final(self).same_pool(old(self)),
            final(self).same_sessions(old(self)),
            Self::extends(old(self), final(self)),
            old(self).search_post(
                Self::calls_since(old(self), final(self)),
                r is Ok,
                |c: Call<E>| is_close_client(c, client.value()),
            ),
            r is Err ==> (r matches Err(AppError::UnknownClient(m)) && m@ == uuid_text(
                client.value(),
            )),
            !old(self).holds_any_port() ==> r is Err,
    {
        let ghost m = self.sessions@;
        let ghost op = |c: Call<E>| is_close_client(c, client.value());
        let ghost mut probes: Seq<Call<E>> = Seq::empty();
        for entries in it: self.sessions.values()
            invariant
                *self == *old(self),
                old(self).wf(),
                m == self.sessions@,
                op == (|c: Call<E>| is_close_client(c, client.value())),
                it.seq().unref().to_set() == m.values(),
                old(self).probes_made(probes, op),
                forall|k: int| 0 <= k < probes.len() ==> probe_result(#[trigger] probes[k]) is Err,
                forall|k: int| 0 <= k < it.index() ==> all_probed(probes, (*#[trigger] it.seq()[k])@),
            ensures
                old(self).probes_made(probes, op),
                forall|k: int| 0 <= k < probes.len() ==> probe_result(#[trigger] probes[k]) is Err,
                forall|v: Vec<SessionEntry<E>>| #[trigger] m.values().contains(v) ==> all_probed(probes, v@),
        {
            proof {
                let k0 = it.index() as int;
                assert(it.seq().unref()[k0] == *entries);
                assert(it.seq().unref().to_set().contains(*entries));
            }
            let ghost t = choose|t: u128| m.dom().contains(t) && m[t] == *entries;
            for e in ei: entries.iter()
                invariant
                    *self == *old(self),
                    old(self).wf(),
                    m == self.sessions@,
                    op == (|c: Call<E>| is_close_client(c, client.value())),
                    m.dom().contains(t) && m[t] == *entries,
                    ei.seq().len() == entries@.len(),
                    forall|j: int| 0 <= j < ei.seq().len() ==> *ei.seq()[j] == entries@[j],
                    old(self).probes_made(probes, op),
                    forall|k: int| 0 <= k < probes.len() ==> probe_result(#[trigger] probes[k]) is Err,
                    forall|k: int| 0 <= k < it.index() ==> all_probed(probes, (*#[trigger] it.seq()[k])@),
                    forall|j: int| 0 <= j < ei.index() ==> probed(probes, #[trigger] entries@[j].entity),
            {
                // Called through its function value, so that the call is on record.
                let close = E::close_client;
                let res = close(&e.entity, client);
                let ghost call = Call::CloseClient { entity: e.entity, client: client.value(), result: res };
                let ghost before = probes;
                proof {
                    let j = ei.index() as int;
                    assert(e.entity == entries@[j].entity);
                    assert(call_ensures(E::close_client, (&e.entity, client), res));
                    assert(close_client_made(e.entity, client.value(), res));
                    assert(old(self).made(call));
                    assert(old(self).session_entities(t)[j] == e.entity);
                    assert(old(self).holds_entity(e.entity));
                    probes = probes.push(call);
                    assert forall|k: int| 0 <= k < it.index() implies all_probed(probes, (*#[trigger] it.seq()[k])@) by {
                        lemma_all_probed_push(before, call, (*it.seq()[k])@);
                    }
                    assert forall|j2: int| 0 <= j2 < ei.index() + 1 implies probed(probes, #[trigger] entries@[j2].entity) by {
                        if j2 < j {
                            lemma_probed_push(before, call, entries@[j2].entity);
                        } else {
                            assert(probe_entity(probes[before.len() as int]) == entries@[j2].entity);
                        }
                    }
                    assert(old(self).probes_made(probes, op)) by {
                        assert forall|k: int| #![trigger probes[k]] 0 <= k < probes.len() implies op(probes[k]) && old(self).made(probes[k])
                            && old(self).holds_entity(probe_entity(probes[k])) by {
                            if k < before.len() {
                                assert(probes[k] == before[k]);
                            } else {
                                assert(probes[k] == call);
                                assert(op(call));
                            }
                        }
                    }
                }
                if res.is_ok() {
                    proof {
                        self.calls@ = self.calls@ + probes;
                        assert(Self::calls_since(old(self), self) =~= probes);
                        assert(self.calls@.subrange(0, old(self).calls@.len() as int) =~= old(self).calls@);
                        assert forall|k: int| 0 <= k < probes.len() - 1 implies probe_result(#[trigger] probes[k]) is Err by {
                            assert(probes[k] == before[k]);
                        }
                        assert(old(self).session_ports(t).len() == entries@.len());
                        assert(old(self).session_ports(t).len() > 0);
                    }
                    return Ok(());
                }
                proof {
                    assert forall|k: int| 0 <= k < probes.len() implies probe_result(#[trigger] probes[k]) is Err by {
                        if k < before.len() {
                            assert(probes[k] == before[k]);
                        }
                    }
                }
            }
            proof {
                let k = it.index() as int;
                assert(*it.seq()[k] == *entries);
                assert(all_probed(probes, (*it.seq()[k])@));
            }
        }
        proof {
            assert forall|t2: u128, i2: int|
                0 <= i2 < old(self).session_entities(t2).len() implies probed(
                    probes,
                    #[trigger] old(self).session_entities(t2)[i2],
                ) by {
                assert(m.values().contains(m[t2]));
                assert(old(self).session_entities(t2)[i2] == m[t2]@[i2].entity);
            }
            self.calls@ = self.calls@ + probes;
            assert(Self::calls_since(old(self), self) =~= probes);
            assert(self.calls@.subrange(0, old(self).calls@.len() as int) =~= old(self).calls@);
        }
        Err(AppError::UnknownClient(client.to_string()))
    }

    /// Update the per-session broadcast flag. Broadcast is not implemented
    /// yet: the flag is accepted and nothing changes.
    pub fn set_broadcast(&self, session_id: Uuid, b: bool) {
    }
}

} // verus!
