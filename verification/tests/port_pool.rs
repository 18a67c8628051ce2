use std::collections::HashSet;
use std::sync::Arc;

use netlab_server::application::port_pool::{PortPool, RandomPortPool};
use netlab_server::domain::errors::AppError;
use netlab_server::domain::port::PortRange;
use parking_lot::Mutex;

fn small_range() -> PortRange {
    PortRange::new(2000, 2010).expect("valid range")
}

#[test]
fn new_pool_starts_empty_and_full() {
    let pool = RandomPortPool::new(small_range());
    assert_eq!(pool.used(), 0);
    assert_eq!(pool.available(), 10);
    assert_eq!(pool.capacity(), 10);
    assert_eq!(pool.used() + pool.available(), pool.capacity());
}

#[test]
fn take_random_drains_pool_then_errors() {
    let mut pool = RandomPortPool::new(small_range());
    let mut taken = HashSet::new();
    for _ in 0..10 {
        let p = pool.take_random().expect("still has free");
        assert!((2000..2010).contains(&p), "port {p} out of configured range");
        assert!(taken.insert(p), "duplicate take {p}");
    }
    let err = pool.take_random().expect_err("should be empty");
    assert!(matches!(err, AppError::NoPortAvailable));
    assert_eq!(pool.used(), 10);
    assert_eq!(pool.available(), 0);
    assert_eq!(pool.used() + pool.available(), pool.capacity());
}

#[test]
fn recycled_port_can_be_taken_again() {
    let mut pool = RandomPortPool::new(small_range());
    let p = pool.take_random().expect("ok");
    assert_eq!(pool.used(), 1);
    assert!(pool.recycle(p));
    assert_eq!(pool.used(), 0);
    assert_eq!(pool.available(), 10);
    let mut seen = HashSet::new();
    for _ in 0..10 {
        let q = pool.take_random().expect("ok");
        assert!(seen.insert(q), "duplicate {q}");
    }
    assert!(seen.contains(&p), "recycled port {p} missing from drain");
}

#[test]
fn take_specific_then_recycle_then_take_same() {
    let mut pool = RandomPortPool::new(small_range());
    let p = pool.take(2005).expect("ok");
    assert_eq!(p, 2005);
    assert_eq!(pool.used(), 1);
    let err = pool.take(2005).expect_err("in use");
    assert!(matches!(err, AppError::PortInUse(2005)));
    assert!(pool.recycle(2005));
    let p2 = pool.take(2005).expect("ok again");
    assert_eq!(p2, 2005);
    assert_eq!(pool.used(), 1);
}

#[test]
fn take_outside_range_returns_port_in_use() {
    let mut pool = RandomPortPool::new(small_range());
    let err = pool.take(1000).expect_err("below range");
    assert!(matches!(err, AppError::PortInUse(1000)));
    let err = pool.take(9999).expect_err("above range");
    assert!(matches!(err, AppError::PortInUse(9999)));
    assert_eq!(pool.used(), 0);
    assert_eq!(pool.available(), 10);
}

#[test]
fn take_already_used_returns_port_in_use() {
    let mut pool = RandomPortPool::new(small_range());
    let _ = pool.take(2003).expect("ok");
    let err = pool.take(2003).expect_err("in use");
    assert!(matches!(err, AppError::PortInUse(2003)));
}

#[test]
fn recycle_unknown_port_is_noop() {
    let mut pool = RandomPortPool::new(small_range());
    let _ = pool.take(2001).expect("ok");
    assert!(!pool.recycle(2005));
    assert!(!pool.recycle(9999));
    assert_eq!(pool.used(), 1);
    assert_eq!(pool.available(), 9);
    assert_eq!(pool.used() + pool.available(), pool.capacity());
}

#[test]
fn stress_take_recycle_keeps_invariants() {
    let range = PortRange::new(2000, 2100).expect("ok");
    let mut pool = RandomPortPool::new(range);
    let cap = pool.capacity();
    assert_eq!(cap, 100);

    for _ in 0..1000 {
        let p = pool.take_random().expect("ok");
        assert!(pool.recycle(p));
    }
    assert_eq!(pool.used(), 0);
    assert_eq!(pool.available(), cap);
    assert_eq!(pool.used() + pool.available(), pool.capacity());
}

#[test]
fn stress_take_random_no_duplicates_until_drained() {
    let range = PortRange::new(3000, 3050).expect("ok");
    let mut pool = RandomPortPool::new(range);
    let cap = pool.capacity();
    let mut seen = HashSet::new();
    for _ in 0..cap {
        let p = pool.take_random().expect("ok");
        assert!(seen.insert(p), "duplicate port {p} during drain");
    }
    assert_eq!(seen.len(), cap);
    let err = pool.take_random().expect_err("empty");
    assert!(matches!(err, AppError::NoPortAvailable));
}

#[test]
fn shared_port_pool_arc_shares_state() {
    let shared = Arc::new(Mutex::new(RandomPortPool::new(small_range())));
    let a = shared.clone();
    let b = shared.clone();

    let p1 = a.lock().take_random().expect("ok");
    let p2 = b.lock().take_random().expect("ok");
    assert_eq!(shared.lock().used(), 2);
    assert_eq!(a.lock().used(), 2);
    assert_eq!(b.lock().used(), 2);
    assert_ne!(p1, p2);
    assert!(a.lock().recycle(p1));
    assert_eq!(shared.lock().used(), 1);
    assert_eq!(a.lock().used(), 1);
    assert_eq!(b.lock().used(), 1);
    assert!(!b.lock().recycle(p1));
    assert_eq!(shared.lock().used(), 1);
}

#[test]
fn take_then_recycle_restores_the_counts() {
    let mut pool = RandomPortPool::new(small_range());
    let before = (pool.used(), pool.available());
    let p = pool.take(2007).expect("free");
    assert!(pool.recycle(p));
    assert_eq!((pool.used(), pool.available()), before);
    assert!(!pool.recycle(p));
}

fn drain_through_trait<P: PortPool>(pool: &mut P) -> usize {
    let mut n = 0;
    while pool.take_random().is_ok() {
        n += 1;
    }
    n
}

#[test]
fn pool_trait_operations_match_the_pool() {
    let mut pool = RandomPortPool::new(small_range());
    assert_eq!(PortPool::capacity(&pool), 10);
    assert_eq!(PortPool::take(&mut pool, 2003).unwrap(), 2003);
    assert!(matches!(PortPool::take(&mut pool, 2003), Err(AppError::PortInUse(2003))));
    assert_eq!(PortPool::used(&pool), 1);
    assert_eq!(PortPool::available(&pool), 9);
    assert_eq!(drain_through_trait(&mut pool), 9);
    assert!(matches!(PortPool::take_random(&mut pool), Err(AppError::NoPortAvailable)));
    assert!(PortPool::recycle(&mut pool, 2003));
    assert!(!PortPool::recycle(&mut pool, 2003));
    assert_eq!(PortPool::available(&pool), 1);
}
