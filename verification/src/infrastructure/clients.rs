//! The clients connected to one bound port, each with the route data reach
//! it by and its traffic statistics.
use vstd::prelude::*;
use std::collections::HashMap;
use crate::domain::client::{ClientId, ClientStat};

verus! {

broadcast use vstd::std_specs::hash::group_hash_axioms;

/// One connected client: its id, how to reach it (a write channel for a
/// TCP connection, the peer address for UDP) and its statistics.
pub struct ClientSlot<R> {
    pub id: ClientId,
    pub route: R,
    pub stat: ClientStat,
}

impl<R> ClientSlot<R> {
    /// A slot for a client seen for the first time: fresh statistics.
    pub fn new(id: ClientId, route: R) -> (s: Self)
        ensures
            s.id == id,
            s.route == route,
            s.stat.is_fresh(),
    {
        ClientSlot { id, route, stat: ClientStat::new() }
    }
}

/// Removing a client undoes registering it: when `id` was not connected,
/// registering it (as [`ClientTable::register`] states) and then removing
/// it (as [`ClientTable::remove`] states) leaves the clients as they were.
pub proof fn lemma_remove_undoes_register<R>(
    before: Map<u128, ClientSlot<R>>,
    registered: Map<u128, ClientSlot<R>>,
    removed: Map<u128, ClientSlot<R>>,
    id: u128,
)
    requires
        !before.contains_key(id),
        registered.dom() == before.dom().insert(id),
        forall|k: u128|
            k != id && #[trigger] before.contains_key(k) ==> registered[k] == before[k],
        removed == registered.remove(id),
    ensures
        removed == before,
{
    assert(removed =~= before);
}

/// The clients of one port, by the value of their id.
pub struct ClientTable<R> {
    slots: HashMap<u128, ClientSlot<R>>,
    /// Every hand-over to a client's write channel, in order: the client,
    /// the bytes, and whether the channel took them.
    deliveries: Ghost<Seq<(u128, Seq<u8>, bool)>>,
}

/// `UnboundedSender::send`: hand `data` to the connection task behind the
/// channel. It fails when that task has ended and dropped its receiver,
/// which depends on the task's timing, so nothing is stated of the result.
#[verifier::external_body]
fn channel_send(tx: &tokio::sync::mpsc::UnboundedSender<Vec<u8>>, data: &[u8]) -> bool {
    tx.send(data.to_vec()).is_ok()
}

/// `channel_send` was called with `tx` and bytes equal to `data`, and
/// reported `sent`.
pub closed spec fn handed(tx: tokio::sync::mpsc::UnboundedSender<Vec<u8>>, data: Seq<u8>, sent: bool) -> bool {
    exists|d: &[u8]| d@ == data && #[trigger] call_ensures(channel_send, (&tx, d), sent)
}

impl<R> ClientTable<R> {
    /// The connected clients, by the value of their id.
    pub closed spec fn clients(&self) -> Map<u128, ClientSlot<R>> {
        self.slots@
    }

    /// Every hand-over to a client's write channel so far, in order: the
    /// client, the bytes, and whether the channel took them.
    pub closed spec fn deliveries(&self) -> Seq<(u128, Seq<u8>, bool)> {
        self.deliveries@
    }

    /// The table's invariant: each client is filed under its own id.
    pub closed spec fn wf(&self) -> bool {
        forall|k: u128| #[trigger] self.slots@.contains_key(k) ==> self.slots@[k].id.value() == k
    }

    /// An empty table.
    pub fn new() -> (t: Self)
        ensures
            t.wf(),
            t.clients() == Map::<u128, ClientSlot<R>>::empty(),
            t.deliveries() == Seq::<(u128, Seq<u8>, bool)>::empty(),
    {
        ClientTable { slots: HashMap::new(), deliveries: Ghost(Seq::empty()) }
    }

    /// The number of connected clients.
    pub fn len(&self) -> (n: usize)
        requires
            self.wf(),
        ensures
            n == self.clients().dom().len(),
    {
        self.slots.len()
    }

    /// True iff the client `id` is connected.
    pub fn contains(&self, id: ClientId) -> (b: bool)
        requires
            self.wf(),
        ensures
            b == self.clients().contains_key(id.value()),
    {
        self.slots.contains_key(&id.as_u128())
    }

    /// Register the client `id`, reached by `route`, with fresh statistics.
    /// A client already registered under `id` is replaced.
    pub fn register(&mut self, id: ClientId, route: R)
        requires
            old(self).wf(),
        ensures
            final(self).wf(),
            final(self).clients().dom() == old(self).clients().dom().insert(id.value()),
            final(self).clients()[id.value()].id == id,
            final(self).clients()[id.value()].route == route,
            final(self).clients()[id.value()].stat.is_fresh(),
            forall|k: u128|
                k != id.value() && #[trigger] old(self).clients().contains_key(k)
                    ==> final(self).clients()[k] == old(self).clients()[k],
    {
        let slot = ClientSlot::new(id, route);
        self.slots.insert(id.as_u128(), slot);
    }

    /// Remove the client `id`, giving back its route; `None` when it is not
    /// connected.
    pub fn remove(&mut self, id: ClientId) -> (r: Option<R>)
        requires
            old(self).wf(),
        ensures
            final(self).wf(),
            final(self).clients() == old(self).clients().remove(id.value()),
            match r {
                Some(route) => old(self).clients().contains_key(id.value()) && route
                    == old(self).clients()[id.value()].route,
                None => !old(self).clients().contains_key(id.value()),
            },
    {
        match self.slots.remove(&id.as_u128()) {
            Some(slot) => Some(slot.route),
            None => None,
        }
    }

    /// Drop every client.
    pub fn clear(&mut self)
        ensures
            final(self).wf(),
            final(self).clients() == Map::<u128, ClientSlot<R>>::empty(),
    {
        self.slots = HashMap::new();
    }

    /// How to reach the client `id`, if it is connected.
    pub fn route(&self, id: ClientId) -> (r: Option<&R>)
        requires
            self.wf(),
        ensures
            match r {
                Some(route) => self.clients().contains_key(id.value()) && *route
                    == self.clients()[id.value()].route,
                None => !self.clients().contains_key(id.value()),
            },
    {
        match self.slots.get(&id.as_u128()) {
            Some(slot) => Some(&slot.route),
            None => None,
        }
    }

    /// The statistics of the client `id`, if it is connected.
    pub fn stat(&self, id: ClientId) -> (r: Option<&ClientStat>)
        requires
            self.wf(),
        ensures
            match r {
                Some(st) => self.clients().contains_key(id.value()) && *st
                    == self.clients()[id.value()].stat,
                None => !self.clients().contains_key(id.value()),
            },
    {
        match self.slots.get(&id.as_u128()) {
            Some(slot) => Some(&slot.stat),
            None => None,
        }
    }

    /// Count `n` bytes received from the client `id`; nothing happens when
    /// it is not connected. Its route and the other clients are unchanged.
    pub fn record_rx(&mut self, id: ClientId, n: u64)
        requires
            old(self).wf(),
        ensures
            final(self).wf(),
            final(self).clients().dom() == old(self).clients().dom(),
            forall|k: u128|
                k != id.value() && #[trigger] old(self).clients().contains_key(k)
                    ==> final(self).clients()[k] == old(self).clients()[k],
            old(self).clients().contains_key(id.value()) ==> {
                let (a, b) = (old(self).clients()[id.value()], final(self).clients()[id.value()]);
                &&& b.id == a.id
                &&& b.route == a.route
                &&& b.stat.counted_rx(a.stat, n)
            },
    {
        let k = id.as_u128();
        if let Some(mut slot) = self.slots.remove(&k) {
            slot.stat.add_rx(n);
            self.slots.insert(k, slot);
            assert(self.slots@.dom() =~= old(self).slots@.dom());
        }
    }

    /// Count `n` bytes sent to the client `id`; nothing happens when it is
    /// not connected. Its route and the other clients are unchanged.
    pub fn record_tx(&mut self, id: ClientId, n: u64)
        requires
            old(self).wf(),
        ensures
            final(self).wf(),
            final(self).clients().dom() == old(self).clients().dom(),
            forall|k: u128|
                k != id.value() && #[trigger] old(self).clients().contains_key(k)
                    ==> final(self).clients()[k] == old(self).clients()[k],
            old(self).clients().contains_key(id.value()) ==> {
                let (a, b) = (old(self).clients()[id.value()], final(self).clients()[id.value()]);
                &&& b.id == a.id
                &&& b.route == a.route
                &&& b.stat.counted_tx(a.stat, n)
            },
            final(self).deliveries() == old(self).deliveries(),
    {
        let k = id.as_u128();
        if let Some(mut slot) = self.slots.remove(&k) {
            slot.stat.add_tx(n);
            self.slots.insert(k, slot);
            assert(self.slots@.dom() =~= old(self).slots@.dom());
        }
    }
}

impl ClientTable<tokio::sync::mpsc::UnboundedSender<Vec<u8>>> {
    /// Hand `data` to the write channel of the client `id`, once, and
    /// record the hand-over: `None` when `id` is not connected, otherwise
    /// whether the channel took the bytes.
    pub fn deliver(&mut self, id: ClientId, data: &[u8]) -> (r: Option<bool>)
        requires
            old(self).wf(),
        ensures
            final(self).wf(),
            final(self).clients() == old(self).clients(),
            match r {
                None => !old(self).clients().contains_key(id.value()) && final(self).deliveries()
                    == old(self).deliveries(),
                Some(sent) => {
                    &&& old(self).clients().contains_key(id.value())
                    &&& final(self).deliveries() == old(self).deliveries().push((id.value(), data@, sent))
                    &&& handed(old(self).clients()[id.value()].route, data@, sent)
                },
            },
    {
        // Called through its function value, so that the call is on record.
        let send = channel_send;
        match self.slots.get(&id.as_u128()) {
            Some(slot) => {
                let sent = send(&slot.route, data);
                assert(call_ensures(channel_send, (&slot.route, data), sent));
                proof {
                    self.deliveries@ = self.deliveries@.push((id.value(), data@, sent));
                }
                Some(sent)
            },
            None => None,
        }
    }
}

impl ClientTable<crate::infrastructure::udp::PeerAddr> {
    /// The client reached at `peer`, if any.
    pub fn find_route(&self, peer: crate::infrastructure::udp::PeerAddr) -> (r: Option<ClientId>)
        requires
            self.wf(),
        ensures
            match r {
                Some(id) => self.clients().contains_key(id.value()) && self.clients()[id.value()].route == peer,
                None => forall|k: u128| #[trigger] self.clients().contains_key(k) ==> self.clients()[k].route != peer,
            },
    {
        let ghost m = self.slots@;
        for slot in it: self.slots.values()
            invariant
                m == self.slots@,
                self.wf(),
                it.seq().unref().to_set() == m.values(),
                forall|k: int| 0 <= k < it.index() ==> (#[trigger] it.seq()[k]).route != peer,
            ensures
                forall|v: ClientSlot<crate::infrastructure::udp::PeerAddr>|
                    #[trigger] m.values().contains(v) ==> v.route != peer,
        {
            if slot.route == peer {
                proof {
                    assert(m.values().contains(*slot));
                    let k = choose|k: u128| m.dom().contains(k) && m[k] == *slot;
                    assert(m[k].id.value() == k);
                }
                return Some(slot.id);
            }
        }
        proof {
            assert forall|k: u128| #[trigger] self.clients().contains_key(k) implies self.clients()[k].route != peer by {
                assert(m.values().contains(m[k]));
            }
        }
        None
    }
}

} // verus!
