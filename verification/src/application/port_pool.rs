//! The pool of free TCP/UDP port numbers.
//!
//! A pure data structure: it performs no IO and holds no sockets; it only
//! tracks which port numbers of a configured [`PortRange`] are free and
//! which are in use.
use vstd::prelude::*;
use rand::seq::SliceRandom;
use crate::domain::errors::AppError;
use crate::domain::port::{PortNumber, PortRange};

verus! {

#[verifier::external_type_specification]
#[verifier::external_body]
#[verifier::reject_recursive_types(K)]
#[verifier::reject_recursive_types(S)]
pub struct ExDashSet<K, S>(dashmap::DashSet<K, S>);

/// The port numbers a `dashmap::DashSet<u16>` holds.
pub uninterp spec fn dash_set_ports(s: dashmap::DashSet<u16>) -> Set<u16>;

/// `DashSet::new`: an empty set.
#[verifier::external_body]
fn dash_set_new() -> (s: dashmap::DashSet<u16>)
    ensures
        dash_set_ports(s) == Set::<u16>::empty(),
{
    dashmap::DashSet::new()
}

/// `DashSet::insert`: adds `p`; true iff it was not there before.
#[verifier::external_body]
fn dash_set_insert(s: &mut dashmap::DashSet<u16>, p: u16) -> (added: bool)
    ensures
        dash_set_ports(*final(s)) == dash_set_ports(*old(s)).insert(p),
        added == !dash_set_ports(*old(s)).contains(p),
{
    s.insert(p)
}

/// `DashSet::remove`: removes `p`, handing it back iff it was there.
#[verifier::external_body]
fn dash_set_remove(s: &mut dashmap::DashSet<u16>, p: u16) -> (r: Option<u16>)
    ensures
        dash_set_ports(*final(s)) == dash_set_ports(*old(s)).remove(p),
        dash_set_ports(*old(s)).contains(p) ==> r == Some(p),
        !dash_set_ports(*old(s)).contains(p) ==> r is None,
{
    s.remove(&p)
}

/// `DashSet::contains`.
#[verifier::external_body]
fn dash_set_contains(s: &dashmap::DashSet<u16>, p: u16) -> (b: bool)
    ensures
        b == dash_set_ports(*s).contains(p),
{
    s.contains(&p)
}

/// `DashSet::len`: the number of entries.
#[verifier::external_body]
fn dash_set_len(s: &dashmap::DashSet<u16>) -> (n: usize)
    requires
        dash_set_ports(*s).finite(),
    ensures
        n == dash_set_ports(*s).len(),
{
    s.len()
}

/// `SliceRandom::choose` with `rand::thread_rng()`: one element of the
/// slice, picked at random, or `None` for an empty slice. Which element
/// comes back is left open.
#[verifier::external_body]
fn choose_random_port(free: &Vec<u16>) -> (r: Option<u16>)
    ensures
        r is None <==> free@.len() == 0,
        r matches Some(p) ==> free@.contains(p),
{
    free.choose(&mut rand::thread_rng()).copied()
}

/// A pool of port numbers, as the port service sees it.
pub trait PortPool {
    /// The pool's own invariant, kept by every operation.
    spec fn pool_inv(&self) -> bool;

    /// The ports that are free.
    spec fn free_set(&self) -> Set<u16>;

    /// The ports that are in use.
    spec fn used_set(&self) -> Set<u16>;

    /// The number of ports the pool was configured with.
    spec fn size(&self) -> nat;

    /// Take a random free port from the pool; `NoPortAvailable` when none
    /// is free.
    fn take_random(&mut self) -> (r: Result<PortNumber, AppError>)
        requires
            old(self).pool_inv(),
        ensures
            final(self).pool_inv(),
            final(self).size() == old(self).size(),
            old(self).free_set().is_empty() ==> (r matches Err(AppError::NoPortAvailable)
                && final(self).free_set() == old(self).free_set() && final(self).used_set()
                == old(self).used_set()),
            !old(self).free_set().is_empty() ==> (r matches Ok(p) && old(
                self,
            ).free_set().contains(p) && final(self).free_set() == old(self).free_set().remove(p)
                && final(self).used_set() == old(self).used_set().insert(p)),
    ;

    /// Take a specific `port` from the pool; `PortInUse` when it is not
    /// free (in use, or outside the range).
    fn take(&mut self, port: PortNumber) -> (r: Result<PortNumber, AppError>)
        requires
            old(self).pool_inv(),
        ensures
            final(self).pool_inv(),
            final(self).size() == old(self).size(),
            old(self).free_set().contains(port) ==> (r matches Ok(p) && p == port
                && final(self).free_set() == old(self).free_set().remove(port)
                && final(self).used_set() == old(self).used_set().insert(port)),
            !old(self).free_set().contains(port) ==> (r matches Err(AppError::PortInUse(q)) && q
                == port && final(self).free_set() == old(self).free_set()
                && final(self).used_set() == old(self).used_set()),
    ;

    /// Release a previously taken port back to the pool; `true` iff it was
    /// in use.
    fn recycle(&mut self, port: PortNumber) -> (released: bool)
        requires
            old(self).pool_inv(),
        ensures
            final(self).pool_inv(),
            final(self).size() == old(self).size(),
            released == old(self).used_set().contains(port),
            released ==> final(self).used_set() == old(self).used_set().remove(port)
                && final(self).free_set() == old(self).free_set().insert(port),
            !released ==> final(self).used_set() == old(self).used_set()
                && final(self).free_set() == old(self).free_set(),
    ;

    /// Number of ports currently in use.
    fn used(&self) -> (n: usize)
        requires
            self.pool_inv(),
        ensures
            n == self.used_set().len(),
    ;

    /// Number of ports currently free.
    fn available(&self) -> (n: usize)
        requires
            self.pool_inv(),
        ensures
            n == self.free_set().len(),
    ;

    /// Total configured size of the pool (used + available).
    fn capacity(&self) -> (n: usize)
        requires
            self.pool_inv(),
        ensures
            n == self.size(),
    ;
}

/// Default pool: the free ports in a `Vec` (so that a random one can be
/// removed with `swap_remove`) and the ports in use in a `DashSet`.
pub struct RandomPortPool {
    range: PortRange,
    free: Vec<u16>,
    in_use: dashmap::DashSet<u16>,
}

impl RandomPortPool {
    /// The configured range.
    pub closed spec fn port_range(&self) -> PortRange {
        self.range
    }

    /// The ports that are free.
    pub closed spec fn free_ports(&self) -> Set<u16> {
        self.free@.to_set()
    }

    /// The ports that are in use.
    pub closed spec fn used_ports(&self) -> Set<u16> {
        dash_set_ports(self.in_use)
    }

    /// The pool's invariant: every port of the range is either free or in
    /// use, never both, and the free list holds each port once.
    pub closed spec fn wf(&self) -> bool {
        &&& self.range.start <= self.range.end
        &&& self.free@.no_duplicates()
        &&& dash_set_ports(self.in_use).finite()
        &&& forall|p: u16| #[trigger]
            self.range.ports().contains(p) <==> (self.free@.contains(p) || dash_set_ports(
                self.in_use,
            ).contains(p))
        &&& forall|p: u16| #[trigger]
            self.free@.contains(p) ==> !dash_set_ports(self.in_use).contains(p)
        &&& dash_set_ports(self.in_use).len() + self.free@.len() == self.range.end
            - self.range.start
    }

    /// Every port of the range is free and none is in use, and so for every
    /// state the pool reaches: used + free is the whole range, disjointly,
    /// and the counts add up to the range's size.
    pub proof fn lemma_partition(&self)
        requires
            self.wf(),
        ensures
            self.used_ports().finite(),
            self.free_ports().finite(),
            self.used_ports().disjoint(self.free_ports()),
            self.used_ports() + self.free_ports() == self.port_range().ports(),
            self.used_ports().len() + self.free_ports().len() == self.port_range().end
                - self.port_range().start,
    {
        self.free@.unique_seq_to_set();
        assert(self.used_ports() + self.free_ports() =~= self.port_range().ports());
    }

    /// Recycling the port a `take` (or `take_random`) just handed out gives
    /// back the pool as it was before the take.
    pub proof fn lemma_recycle_undoes_take(
        before: &RandomPortPool,
        taken: &RandomPortPool,
        after: &RandomPortPool,
        p: u16,
    )
        requires
            before.wf(),
            before.free_ports().contains(p),
            taken.free_ports() == before.free_ports().remove(p),
            taken.used_ports() == before.used_ports().insert(p),
            after.used_ports() == taken.used_ports().remove(p),
            after.free_ports() == taken.free_ports().insert(p),
        ensures
            after.free_ports() == before.free_ports(),
            after.used_ports() == before.used_ports(),
    {
        before.lemma_partition();
        assert(!before.used_ports().contains(p));
        assert(after.free_ports() =~= before.free_ports());
        assert(after.used_ports() =~= before.used_ports());
    }

    /// Build a pool seeded with every port in `range` (all free).
    pub fn new(range: PortRange) -> (pool: Self)
        requires
            range.start <= range.end,
        ensures
            pool.wf(),
            pool.port_range() == range,
            pool.free_ports() == range.ports(),
            pool.used_ports() == Set::<u16>::empty(),
    {
        let mut free: Vec<u16> = Vec::new();
        let mut p: u16 = range.start;
        while p < range.end
            invariant
                range.start <= p <= range.end,
                free@.len() == p - range.start,
                forall|k: int| 0 <= k < free@.len() ==> #[trigger] free@[k] == range.start + k,
            decreases range.end - p,
        {
            free.push(p);
            p = p + 1;
        }
        let pool = RandomPortPool { range, free, in_use: dash_set_new() };
        assert forall|q: u16| #[trigger] range.ports().contains(q) implies pool.free@.contains(q) by {
            assert(pool.free@[q - range.start] == q);
        }
        assert(pool.free_ports() =~= range.ports());
        assert(pool.free@.no_duplicates());
        pool
    }

    fn position_of(&self, port: u16) -> (r: Option<usize>)
        ensures
            r matches Some(i) ==> i < self.free@.len() && self.free@[i as int] == port,
            r is None ==> !self.free@.contains(port),
    {
        let n = self.free.len();
        let mut i: usize = 0;
        while i < n
            invariant
                n == self.free@.len(),
                i <= n,
                forall|k: int| 0 <= k < i ==> self.free@[k] != port,
            decreases n - i,
        {
            if self.free[i] == port {
                return Some(i);
            }
            i = i + 1;
        }
        None
    }

    /// Moves the free port at index `pos` to the in-use set.
    fn move_to_used(&mut self, pos: usize)
        requires
            old(self).wf(),
            pos < old(self).free@.len(),
        ensures
            final(self).wf(),
            final(self).range == old(self).range,
            final(self).free_ports() == old(self).free_ports().remove(old(self).free@[pos as int]),
            final(self).used_ports() == old(self).used_ports().insert(old(self).free@[pos as int]),
    {
        let ghost old_free = self.free@;
        let port = self.free.swap_remove(pos);
        dash_set_insert(&mut self.in_use, port);
        let ghost new_free = self.free@;
        assert forall|q: u16| new_free.contains(q) <==> (old_free.contains(q) && q != port) by {
            if new_free.contains(q) {
                let k = choose|k: int| 0 <= k < new_free.len() && new_free[k] == q;
                if k == pos {
                    assert(old_free[old_free.len() - 1] == q);
                } else {
                    assert(old_free[k] == q);
                }
            }
            if old_free.contains(q) && q != port {
                let k = choose|k: int| 0 <= k < old_free.len() && old_free[k] == q;
                if k == old_free.len() - 1 {
                    assert(new_free[pos as int] == q);
                } else {
                    assert(new_free[k] == q);
                }
            }
        }
        assert(new_free.no_duplicates()) by {
            assert forall|i: int, j: int|
                0 <= i < new_free.len() && 0 <= j < new_free.len() && i != j implies new_free[i]
                != new_free[j] by {
                let oi = if i == pos { old_free.len() - 1 } else { i };
                let oj = if j == pos { old_free.len() - 1 } else { j };
                assert(new_free[i] == old_free[oi]);
                assert(new_free[j] == old_free[oj]);
            }
        }
        assert(self.free_ports() =~= old(self).free_ports().remove(port));
    }

    /// Take a random free port from the pool.
    ///
    /// Returns [`AppError::NoPortAvailable`] when the pool is exhausted.
    pub fn take_random(&mut self) -> (r: Result<PortNumber, AppError>)
        requires
            old(self).wf(),
        ensures
            final(self).wf(),
            final(self).port_range() == old(self).port_range(),
            old(self).free_ports().is_empty() ==> (r matches Err(AppError::NoPortAvailable)
                && final(self).free_ports() == old(self).free_ports() && final(self).used_ports()
                == old(self).used_ports()),
            !old(self).free_ports().is_empty() ==> (r matches Ok(p) && old(
                self,
            ).free_ports().contains(p) && final(self).free_ports() == old(self).free_ports().remove(p)
                && final(self).used_ports() == old(self).used_ports().insert(p)),
    {
        proof {
            if self.free@.len() > 0 {
                assert(self.free_ports().contains(self.free@[0]));
            }
        }
        let port = match choose_random_port(&self.free) {
            Some(p) => p,
            None => {
                return Err(AppError::NoPortAvailable);
            },
        };
        match self.position_of(port) {
            Some(pos) => {
                self.move_to_used(pos);
                Ok(port)
            },
            None => Err(AppError::NoPortAvailable),
        }
    }

    /// Take a specific `port` from the pool.
    ///
    /// Returns [`AppError::PortInUse`] when the port is outside the
    /// configured range or is already held by the pool.
    pub fn take(&mut self, port: PortNumber) -> (r: Result<PortNumber, AppError>)
        requires
            old(self).wf(),
        ensures
            final(self).wf(),
            final(self).port_range() == old(self).port_range(),
            old(self).free_ports().contains(port) ==> (r matches Ok(p) && p == port
                && final(self).free_ports() == old(self).free_ports().remove(port)
                && final(self).used_ports() == old(self).used_ports().insert(port)),
            !old(self).free_ports().contains(port) ==> (r matches Err(AppError::PortInUse(q)) && q
                == port && final(self).free_ports() == old(self).free_ports()
                && final(self).used_ports() == old(self).used_ports()),
    {
        proof {
            assert(self.range.ports().contains(port) <==> (self.free@.contains(port)
                || dash_set_ports(self.in_use).contains(port)));
        }
        if !(self.range.start <= port && port < self.range.end) {
            return Err(AppError::PortInUse(port));
        }
        if dash_set_contains(&self.in_use, port) {
            return Err(AppError::PortInUse(port));
        }
        match self.position_of(port) {
            Some(pos) => {
                self.move_to_used(pos);
                Ok(port)
            },
            None => Err(AppError::PortInUse(port)),
        }
    }

    /// Release a previously taken port back to the pool.
    ///
    /// Returns `true` if a port was actually released, `false` if the
    /// port was not currently held (including ports outside the range).
    pub fn recycle(&mut self, port: PortNumber) -> (released: bool)
        requires
            old(self).wf(),
        ensures
            final(self).wf(),
            final(self).port_range() == old(self).port_range(),
            released == old(self).used_ports().contains(port),
            released ==> final(self).used_ports() == old(self).used_ports().remove(port)
                && final(self).free_ports() == old(self).free_ports().insert(port),
            !released ==> final(self).used_ports() == old(self).used_ports()
                && final(self).free_ports() == old(self).free_ports(),
    {
        match dash_set_remove(&mut self.in_use, port) {
            Some(_) => {
                let ghost old_free = self.free@;
                self.free.push(port);
                proof {
                    assert(!old_free.contains(port));
                    assert forall|q: u16| self.free@.contains(q) <==> (old_free.contains(q) || q
                        == port) by {
                        if self.free@.contains(q) && q != port {
                            let k = choose|k: int| 0 <= k < self.free@.len() && self.free@[k] == q;
                            assert(old_free[k] == q);
                        }
                        if old_free.contains(q) {
                            let k = choose|k: int| 0 <= k < old_free.len() && old_free[k] == q;
                            assert(self.free@[k] == q);
                        }
                        if q == port {
                            assert(self.free@[old_free.len() as int] == q);
                        }
                    }
                    assert(self.free@.no_duplicates()) by {
                        assert forall|i: int, j: int|
                            0 <= i < self.free@.len() && 0 <= j < self.free@.len() && i
                                != j implies self.free@[i] != self.free@[j] by {
                            if i == old_free.len() {
                                assert(old_free.contains(self.free@[j]) || j == i);
                            } else if j == old_free.len() {
                                assert(old_free.contains(self.free@[i]));
                            }
                        }
                    }
                    assert(self.free_ports() =~= old(self).free_ports().insert(port));
                    let old_used = dash_set_ports(old(self).in_use);
                    let new_used = dash_set_ports(self.in_use);
                    assert(new_used.len() == old_used.len() - 1);
                    assert forall|q: u16| #[trigger]
                        self.range.ports().contains(q) <==> (self.free@.contains(q)
                            || new_used.contains(q)) by {
                        assert(old(self).range.ports().contains(q) <==> (old_free.contains(q)
                            || old_used.contains(q)));
                    }
                    assert forall|q: u16| #[trigger]
                        self.free@.contains(q) implies !new_used.contains(q) by {
                        if q != port {
                            assert(old_free.contains(q));
                        }
                    }
                }
                true
            },
            None => false,
        }
    }

    /// Number of ports currently in use.
    pub fn used(&self) -> (n: usize)
        requires
            self.wf(),
        ensures
            n == self.used_ports().len(),
    {
        dash_set_len(&self.in_use)
    }

    /// Number of ports currently free.
    pub fn available(&self) -> (n: usize)
        requires
            self.wf(),
        ensures
            n == self.free_ports().len(),
    {
        proof {
            self.free@.unique_seq_to_set();
        }
        self.free.len()
    }

    /// Total configured size of the pool (used + available).
    pub fn capacity(&self) -> (n: usize)
        requires
            self.wf(),
        ensures
            n == self.port_range().end - self.port_range().start,
    {
        self.range.len()
    }
}

impl PortPool for RandomPortPool {
    closed spec fn pool_inv(&self) -> bool {
        self.wf()
    }

    closed spec fn free_set(&self) -> Set<u16> {
        self.free_ports()
    }

    closed spec fn used_set(&self) -> Set<u16> {
        self.used_ports()
    }

    closed spec fn size(&self) -> nat {
        (self.port_range().end - self.port_range().start) as nat
    }

    fn take_random(&mut self) -> (r: Result<PortNumber, AppError>) {
        RandomPortPool::take_random(self)
    }

    fn take(&mut self, port: PortNumber) -> (r: Result<PortNumber, AppError>) {
        RandomPortPool::take(self, port)
    }

    fn recycle(&mut self, port: PortNumber) -> (released: bool) {
        RandomPortPool::recycle(self, port)
    }

    fn used(&self) -> usize {
        RandomPortPool::used(self)
    }

    fn available(&self) -> usize {
        RandomPortPool::available(self)
    }

    fn capacity(&self) -> usize {
        RandomPortPool::capacity(self)
    }
}

} // verus!
