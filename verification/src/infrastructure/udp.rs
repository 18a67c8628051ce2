//! The peers of one UDP port. UDP has no connections: a peer becomes a
//! client with its first datagram, and stays one until `close_client`.
use vstd::prelude::*;
use crate::application::metrics;
use crate::domain::client::{new_client_id, uuid_text, ClientId, ClientStat, Uuid};
use crate::domain::errors::AppError;
use crate::domain::hex::{encode_bytes_to_hex, spec_encode_hex};
use crate::domain::port_entity::{wire_label, PortType, WsEvent};
use crate::domain::text::{decimal, push_char, push_decimal};
use crate::infrastructure::clients::{ClientSlot, ClientTable};

verus! {

/// The address of an IPv4 peer: the address as a 32-bit number (first
/// octet highest) and the port.
#[derive(Debug, Clone, Copy, PartialEq, Eq, Structural)]
pub struct PeerAddr {
    pub ip: u32,
    pub port: u16,
}

/// The display form of a peer address, `a.b.c.d:port`.
pub open spec fn peer_text(p: PeerAddr) -> Seq<char> {
    decimal((p.ip / 0x100_0000) as nat) + "."@ + decimal(((p.ip / 0x1_0000) % 256) as nat) + "."@
        + decimal(((p.ip / 0x100) % 256) as nat) + "."@ + decimal((p.ip % 256) as nat) + ":"@
        + decimal(p.port as nat)
}

impl PeerAddr {
    /// The display form `a.b.c.d:port`.
    pub fn to_string(&self) -> (s: String)
        ensures
            s@ == peer_text(*self),
    {
        let mut s = String::new();
        push_decimal(&mut s, (self.ip / 0x100_0000) as u64);
        push_char(&mut s, '.');
        push_decimal(&mut s, ((self.ip / 0x1_0000) % 256) as u64);
        push_char(&mut s, '.');
        push_decimal(&mut s, ((self.ip / 0x100) % 256) as u64);
        push_char(&mut s, '.');
        push_decimal(&mut s, (self.ip % 256) as u64);
        push_char(&mut s, ':');
        push_decimal(&mut s, self.port as u64);
        proof {
            reveal_strlit(".");
            reveal_strlit(":");
        }
        assert(s@ =~= peer_text(*self));
        s
    }
}

/// The bookkeeping of one UDP client (a peer that has sent a datagram).
pub type UdpClientCtx = ClientSlot<PeerAddr>;

/// The client a peer is known as, if any.
pub open spec fn client_at(m: Map<u128, ClientSlot<PeerAddr>>, peer: PeerAddr) -> Option<u128> {
    if exists|k: u128| m.contains_key(k) && m[k].route == peer {
        Some(choose|k: u128| m.contains_key(k) && m[k].route == peer)
    } else {
        None
    }
}

/// No two clients share a peer address.
pub open spec fn peers_distinct(m: Map<u128, ClientSlot<PeerAddr>>) -> bool {
    forall|a: u128, b: u128|
        #![trigger m[a], m[b]]
        m.contains_key(a) && m.contains_key(b) && a != b ==> m[a].route != m[b].route
}

/// The clients of one UDP port, each reached at its peer address.
pub struct UdpClients {
    table: ClientTable<PeerAddr>,
}

impl UdpClients {
    /// The clients, by the value of their id.
    pub closed spec fn clients(&self) -> Map<u128, ClientSlot<PeerAddr>> {
        self.table.clients()
    }

    /// Each client appears once, and each peer is one client.
    pub closed spec fn wf(&self) -> bool {
        self.table.wf() && peers_distinct(self.table.clients())
    }

    /// No clients yet.
    pub fn new() -> (c: Self)
        ensures
            c.wf(),
            c.clients() == Map::<u128, ClientSlot<PeerAddr>>::empty(),
    {
        UdpClients { table: ClientTable::new() }
    }

    /// The number of clients.
    pub fn len(&self) -> (n: usize)
        requires
            self.wf(),
        ensures
            n == self.clients().dom().len(),
    {
        self.table.len()
    }

    /// The client a peer is known as, if any.
    pub fn client_of(&self, peer: PeerAddr) -> (r: Option<ClientId>)
        requires
            self.wf(),
        ensures
            match r {
                Some(id) => client_at(self.clients(), peer) == Some(id.value()),
                None => client_at(self.clients(), peer) is None,
            },
    {
        let r = self.table.find_route(peer);
        proof {
            if let Some(id) = r {
                let m = self.clients();
                assert(m.contains_key(id.value()) && m[id.value()].route == peer);
                let k = choose|k: u128| m.contains_key(k) && m[k].route == peer;
                assert(k == id.value());
            }
        }
        r
    }

    /// Take in a datagram of `data` from `peer`, giving the events it
    /// raises. A peer not seen before becomes a new client, announced by a
    /// `Connected` event with its address before the `Data` event; a known
    /// peer's datagram is counted in its statistics and raises the `Data`
    /// event alone. The data is forwarded hex-encoded.
    pub fn on_datagram(&mut self, peer: PeerAddr, data: &[u8]) -> (events: Vec<WsEvent>)
        requires
            old(self).wf(),
        ensures
            final(self).wf(),
            client_at(final(self).clients(), peer) is Some,
            ({
                let id = client_at(final(self).clients(), peer)->Some_0;
                match client_at(old(self).clients(), peer) {
                    Some(k) => {
                        &&& id == k
                        &&& events@.len() == 1
                        &&& events@[0] matches WsEvent::Data { client, data: d, hex }
                            && client.value() == id && d@ == spec_encode_hex(data@) && hex
                        &&& final(self).clients().dom() == old(self).clients().dom()
                        &&& final(self).clients()[id].stat.counted_rx(
                            old(self).clients()[id].stat,
                            data@.len() as u64,
                        )
                        &&& forall|j: u128|
                            j != id && #[trigger] old(self).clients().contains_key(j)
                                ==> final(self).clients()[j] == old(self).clients()[j]
                    },
                    None => {
                        &&& events@.len() == 2
                        &&& events@[0] matches WsEvent::Connected { client, addr }
                            && client.value() == id && addr@ == peer_text(peer)
                        &&& events@[1] matches WsEvent::Data { client, data: d, hex }
                            && client.value() == id && d@ == spec_encode_hex(data@) && hex
                        &&& final(self).clients()[id].stat.is_fresh()
                        &&& final(self).clients().dom().insert(id) == final(self).clients().dom()
                        &&& forall|j: u128|
                            j != id && #[trigger] final(self).clients().contains_key(j)
                                ==> old(self).clients().contains_key(j)
                                && final(self).clients()[j] == old(self).clients()[j]
                    },
                }
            }),
    {
        let n = data.len() as u64;
        let label = wire_label(PortType::Udp);
        let mut events: Vec<WsEvent> = Vec::new();
        let ghost m0 = self.clients();
        let id = match self.client_of(peer) {
            Some(id) => {
                self.table.record_rx(id, n);
                id
            },
            None => {
                let id = new_client_id();
                self.table.register(id, peer);
                events.push(WsEvent::Connected { client: id, addr: peer.to_string() });
                metrics::on_client_open(label);
                id
            },
        };
        proof {
            let m = self.clients();
            assert(m.contains_key(id.value()) && m[id.value()].route == peer);
            assert forall|a: u128, b: u128|
                #![trigger m[a], m[b]]
                m.contains_key(a) && m.contains_key(b) && a != b implies m[a].route
                    != m[b].route by {
                if a != id.value() && b != id.value() {
                    assert(m0[a] == m[a] && m0[b] == m[b]);
                } else if a == id.value() {
                    assert(m0.contains_key(b) && m0[b] == m[b]);
                    if client_at(m0, peer) is Some {
                        assert(m0[id.value()].route == peer);
                    }
                } else {
                    assert(m0.contains_key(a) && m0[a] == m[a]);
                    if client_at(m0, peer) is Some {
                        assert(m0[id.value()].route == peer);
                    }
                }
            }
            let k = choose|k: u128| m.contains_key(k) && m[k].route == peer;
            assert(k == id.value());
        }
        events.push(WsEvent::Data { client: id, data: encode_bytes_to_hex(data), hex: true });
        metrics::on_data(label, n);
        events
    }

    /// Where to send data for `client`: its peer address. A client the
    /// port does not know is an [`AppError::UnknownClient`] naming it.
    pub fn send_target(&self, client: ClientId) -> (r: Result<PeerAddr, AppError>)
        requires
            self.wf(),
        ensures
            match r {
                Ok(p) => self.clients().contains_key(client.value()) && p == self.clients()[client.value()].route,
                Err(e) => !self.clients().contains_key(client.value()) && (e matches AppError::UnknownClient(m) && m@ == uuid_text(client.value())),
            },
    {
        match self.table.route(client) {
            Some(p) => Ok(*p),
            None => Err(AppError::UnknownClient(client.to_string())),
        }
    }

    /// Count `n` bytes as sent to `client` (once the datagram has left);
    /// nothing happens for a client that is gone.
    pub fn record_sent(&mut self, client: ClientId, n: u64)
        requires
            old(self).wf(),
        ensures
            final(self).wf(),
            final(self).clients().dom() == old(self).clients().dom(),
            old(self).clients().contains_key(client.value()) ==> {
                &&& final(self).clients()[client.value()].route == old(self).clients()[client.value()].route
                &&& final(self).clients()[client.value()].stat.counted_tx(
                    old(self).clients()[client.value()].stat,
                    n,
                )
            },
            forall|j: u128|
                j != client.value() && #[trigger] old(self).clients().contains_key(j)
                    ==> final(self).clients()[j] == old(self).clients()[j],
    {
        let ghost m0 = self.clients();
        self.table.record_tx(client, n);
        proof {
            let m = self.clients();
            assert forall|a: u128, b: u128|
                #![trigger m[a], m[b]]
                m.contains_key(a) && m.contains_key(b) && a != b implies m[a].route
                    != m[b].route by {
                assert(m[a].route == m0[a].route && m[b].route == m0[b].route);
            }
        }
    }

    /// Forget `client`: later datagrams from its peer make a new client. No
    /// event is raised (UDP has no closing). A client the port does not
    /// know is an [`AppError::UnknownClient`] naming it.
    pub fn close_client(&mut self, client: ClientId) -> (r: Result<(), AppError>)
        requires
            old(self).wf(),
        ensures
            final(self).wf(),
            final(self).clients() == old(self).clients().remove(client.value()),
            r is Ok <==> old(self).clients().contains_key(client.value()),
            r is Err ==> (r matches Err(AppError::UnknownClient(m)) && m@ == uuid_text(
                client.value(),
            )),
    {
        let ghost m0 = self.clients();
        let r = match self.table.remove(client) {
            Some(_) => Ok(()),
            None => Err(AppError::UnknownClient(client.to_string())),
        };
        proof {
            let m = self.clients();
            assert forall|a: u128, b: u128|
                #![trigger m[a], m[b]]
                m.contains_key(a) && m.contains_key(b) && a != b implies m[a].route
                    != m[b].route by {
                assert(m[a] == m0[a] && m[b] == m0[b]);
            }
        }
        r
    }

    /// The statistics of `client`, if it is known.
    pub fn stat(&self, client: ClientId) -> (r: Option<&ClientStat>)
        requires
            self.wf(),
        ensures
            match r {
                Some(st) => self.clients().contains_key(client.value()) && *st
                    == self.clients()[client.value()].stat,
                None => !self.clients().contains_key(client.value()),
            },
    {
        self.table.stat(client)
    }
}

} // verus!
