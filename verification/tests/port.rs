use netlab_server::domain::errors::AppError;
use netlab_server::domain::port::{PortRange, PortState};

#[test]
fn new_accepts_valid_range() {
    let r = PortRange::new(2000, 2010).expect("valid range");
    assert_eq!(r.start, 2000);
    assert_eq!(r.end, 2010);
    assert_eq!(r.len(), 10);
    assert!(!r.is_empty());
}

#[test]
fn new_rejects_start_below_1024() {
    let err = PortRange::new(1023, 2000).expect_err("must reject < 1024");
    assert!(matches!(err, AppError::BadType(_)));
}

#[test]
fn new_rejects_start_equal_to_end() {
    let err = PortRange::new(2000, 2000).expect_err("end must be > start");
    assert!(matches!(err, AppError::BadType(_)));
}

#[test]
fn new_rejects_end_below_start() {
    let err = PortRange::new(5000, 4000).expect_err("end < start must fail");
    assert!(matches!(err, AppError::BadType(_)));
}

#[test]
fn len_counts_exclusive_upper_bound() {
    let r = PortRange::new(1024, 1025).expect("two ports");
    assert_eq!(r.len(), 1);
    let r = PortRange::new(1024, 1124).expect("100 ports");
    assert_eq!(r.len(), 100);
}

#[test]
fn iter_yields_all_ports_in_order() {
    let r = PortRange::new(2000, 2003).expect("valid");
    let collected: Vec<u16> = r.iter().collect();
    assert_eq!(collected, vec![2000, 2001, 2002]);
}

#[test]
fn port_state_free_and_bound_compare() {
    assert_eq!(PortState::Free, PortState::Free);
    assert_ne!(PortState::Free, PortState::Bound(1));
    assert_eq!(PortState::Bound(42), PortState::Bound(42));
    assert_ne!(PortState::Bound(42), PortState::Bound(43));
}

#[test]
fn range_errors_carry_the_documented_messages() {
    match PortRange::new(1023, 2000) {
        Err(AppError::BadType(m)) => assert_eq!(m, "port range start 1023 must be >= 1024"),
        other => panic!("expected BadType, got {other:?}"),
    }
    match PortRange::new(5000, 4000) {
        Err(AppError::BadType(m)) => assert_eq!(m, "port range end 4000 must be > start 5000"),
        other => panic!("expected BadType, got {other:?}"),
    }
    assert!(PortRange::new(1024, 1025).is_ok());
}
