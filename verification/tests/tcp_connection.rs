use netlab_server::domain::client::Uuid;
use netlab_server::domain::errors::AppError;
use netlab_server::domain::port_entity::{PortType, WsEvent};
use netlab_server::infrastructure::clients::ClientTable;
use netlab_server::infrastructure::tcp::{
    close_client, handshake_failed, send_to_client, tcp_port_type, ConnAction, ConnEvent,
    ExitReason, TcpConnection,
};
use tokio::sync::mpsc;

#[test]
fn tcp_connect_data_closed_sequence() {
    let mut clients: ClientTable<u8> = ClientTable::new();
    let id = Uuid::from_u128(0x1234);
    let (mut conn, opened) = TcpConnection::open(id, "127.0.0.1:50000", PortType::Tcp, 0u8, &mut clients);
    match opened {
        WsEvent::Connected { client, addr } => {
            assert_eq!(client, id);
            assert!(addr.starts_with("127.0.0.1:"));
        }
        other => panic!("expected Connected, got {other:?}"),
    }
    assert!(clients.contains(id));

    match conn.step(ConnEvent::Received(b"hello".to_vec()), &mut clients) {
        Some(ConnAction::Emit(WsEvent::Data { client, data, hex })) => {
            assert_eq!(client, id);
            assert!(hex);
            assert_eq!(data, "68656c6c6f");
        }
        other => panic!("expected Data, got {other:?}"),
    }
    assert!(!conn.is_finished());
    assert_eq!(clients.stat(id).unwrap().rx_bytes(), 5);

    assert!(conn.step(ConnEvent::Received(Vec::new()), &mut clients).is_none());
    assert!(conn.is_finished());
    assert_eq!(conn.exit_reason(), Some(ExitReason::PeerClosed));

    match conn.close(&mut clients) {
        WsEvent::Closed { client } => assert_eq!(client, id),
        other => panic!("expected Closed, got {other:?}"),
    }
    assert!(!clients.contains(id));
}

#[test]
fn tcp_outbound_is_written_and_release_ends() {
    let mut clients: ClientTable<u8> = ClientTable::new();
    let id = Uuid::from_u128(1);
    let (mut conn, _) = TcpConnection::open(id, "10.0.0.1:1", PortType::SslTcp, 1u8, &mut clients);
    match conn.step(ConnEvent::Outbound(vec![1, 2, 3]), &mut clients) {
        Some(ConnAction::Write(d)) => assert_eq!(d, vec![1, 2, 3]),
        other => panic!("expected Write, got {other:?}"),
    }
    assert!(!conn.is_finished());
    assert!(conn.step(ConnEvent::Released, &mut clients).is_none());
    assert_eq!(conn.exit_reason(), Some(ExitReason::SenderDropped));
    assert_eq!(ExitReason::SenderDropped.label(), "sender_dropped");
}

#[test]
fn tcp_write_and_flush_failures_end_the_connection() {
    let mut clients: ClientTable<u8> = ClientTable::new();
    let (mut a, _) = TcpConnection::open(Uuid::from_u128(2), "h:1", PortType::Tcp, 0u8, &mut clients);
    assert!(a.step(ConnEvent::WriteFailed, &mut clients).is_none());
    assert_eq!(a.exit_reason(), Some(ExitReason::WriteError));
    let (mut b, _) = TcpConnection::open(Uuid::from_u128(3), "h:2", PortType::Tcp, 0u8, &mut clients);
    assert!(b.step(ConnEvent::FlushFailed, &mut clients).is_none());
    assert_eq!(b.exit_reason(), Some(ExitReason::FlushError));
    assert_eq!(clients.len(), 2);
}

#[test]
fn tcp_read_error_is_reported_with_address() {
    let mut clients: ClientTable<u8> = ClientTable::new();
    let (mut conn, _) = TcpConnection::open(Uuid::from_u128(4), "1.2.3.4:5", PortType::Tcp, 0u8, &mut clients);
    match conn.step(ConnEvent::ReadFailed("connection reset".to_string()), &mut clients) {
        Some(ConnAction::Emit(WsEvent::Error { msg })) => assert_eq!(msg, "1.2.3.4:5: connection reset"),
        other => panic!("expected Error, got {other:?}"),
    }
    assert_eq!(conn.exit_reason(), Some(ExitReason::ReadError));
}

#[test]
fn send_to_unknown_client_returns_error() {
    let mut clients: ClientTable<mpsc::UnboundedSender<Vec<u8>>> = ClientTable::new();
    let bogus = Uuid::from_u128(0xabc);
    let err = send_to_client(&mut clients, PortType::Tcp, bogus, b"hello").expect_err("unknown client");
    assert!(matches!(err, AppError::UnknownClient(_)), "got {err:?}");
}

#[test]
fn send_to_client_hands_bytes_to_the_connection_and_counts_them() {
    let mut clients: ClientTable<mpsc::UnboundedSender<Vec<u8>>> = ClientTable::new();
    let id = Uuid::from_u128(0x55);
    let (tx, mut rx) = mpsc::unbounded_channel::<Vec<u8>>();
    let (_conn, _) = TcpConnection::open(id, "127.0.0.1:9", PortType::Tcp, tx, &mut clients);
    send_to_client(&mut clients, PortType::Tcp, id, b"abc").expect("send");
    assert_eq!(rx.try_recv().unwrap(), b"abc".to_vec());
    let st = clients.stat(id).unwrap();
    assert_eq!(st.tx_bytes(), 3);
    assert_eq!(st.tx_count(), 1);

    drop(rx);
    let err = send_to_client(&mut clients, PortType::Tcp, id, b"x").expect_err("task gone");
    assert!(matches!(err, AppError::UnknownClient(_)));
}

#[test]
fn close_client_forgets_the_client_once() {
    let mut clients: ClientTable<u8> = ClientTable::new();
    let id = Uuid::from_u128(9);
    let (_conn, _) = TcpConnection::open(id, "h:1", PortType::Tcp, 0u8, &mut clients);
    close_client(&mut clients, id).expect("close");
    assert!(!clients.contains(id));
    match close_client(&mut clients, id) {
        Err(AppError::UnknownClient(m)) => assert_eq!(m, id.to_string()),
        other => panic!("expected UnknownClient, got {other:?}"),
    }
}

#[test]
fn tls_handshake_failure_event_and_port_types() {
    match handshake_failed("bad record") {
        WsEvent::Error { msg } => assert_eq!(msg, "tls handshake: bad record"),
        other => panic!("expected Error, got {other:?}"),
    }
    assert_eq!(tcp_port_type(false), PortType::Tcp);
    assert_eq!(tcp_port_type(true), PortType::SslTcp);
}

#[test]
fn client_table_register_replaces_and_clear_empties() {
    let mut t: ClientTable<&str> = ClientTable::new();
    let a = Uuid::from_u128(1);
    let b = Uuid::from_u128(2);
    t.register(a, "one");
    t.register(b, "two");
    t.register(a, "uno");
    assert_eq!(t.len(), 2);
    assert_eq!(t.route(a), Some(&"uno"));
    t.record_rx(a, 4);
    assert_eq!(t.stat(a).unwrap().rx_bytes(), 4);
    assert_eq!(t.remove(b), Some("two"));
    assert_eq!(t.remove(b), None);
    t.clear();
    assert_eq!(t.len(), 0);
}

#[test]
fn closing_a_connection_undoes_opening_it() {
    let mut clients: ClientTable<u8> = ClientTable::new();
    let a = Uuid::from_u128(100);
    clients.register(a, 7);
    clients.record_tx(a, 3);
    let b = Uuid::from_u128(200);
    let (conn, _) = TcpConnection::open(b, "h:1", PortType::Tcp, 9u8, &mut clients);
    assert_eq!(clients.len(), 2);
    let _ = conn.close(&mut clients);
    assert_eq!(clients.len(), 1);
    assert_eq!(clients.route(a), Some(&7));
    assert_eq!(clients.stat(a).unwrap().tx_bytes(), 3);
    assert!(!clients.contains(b));
}
