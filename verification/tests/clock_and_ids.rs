use netlab_server::domain::client::{new_client_id, ClientStat, Uuid};

#[test]
fn touch_reads_the_clock() {
    let mut s = ClientStat::new();
    assert_eq!(s.last_active_ms(), 0);
    s.touch();
    assert!(s.last_active_ms() > 1_600_000_000_000);
    let mut t = ClientStat::new();
    t.add_tx(5);
    assert!(t.last_active_ms() > 1_600_000_000_000);
    assert_eq!(t.tx_bytes(), 5);
}

#[test]
fn fresh_ids_are_drawn_not_fixed() {
    let a = new_client_id();
    let b = new_client_id();
    let c = Uuid::new_v4();
    assert_ne!(a, b);
    assert_ne!(b, c);
    assert_eq!((a.as_u128() >> 76) & 0xf, 4);
    assert_eq!(Uuid::parse_str(&a.to_string()), Some(a));
}
