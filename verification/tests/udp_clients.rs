use netlab_server::domain::client::Uuid;
use netlab_server::domain::errors::AppError;
use netlab_server::domain::port_entity::WsEvent;
use netlab_server::infrastructure::udp::{PeerAddr, UdpClients};

fn loopback(port: u16) -> PeerAddr {
    PeerAddr { ip: 0x7f00_0001, port }
}

#[test]
fn udp_connect_once_data_each() {
    let mut clients = UdpClients::new();
    let peer = loopback(40001);

    let first = clients.on_datagram(peer, b"hi");
    assert_eq!(first.len(), 2);
    let client_id = match &first[0] {
        WsEvent::Connected { client, addr } => {
            assert_eq!(addr, "127.0.0.1:40001");
            *client
        }
        other => panic!("expected Connected, got {other:?}"),
    };
    match &first[1] {
        WsEvent::Data { client, data, hex } => {
            assert_eq!(*client, client_id);
            assert!(*hex);
            assert_eq!(data, "6869");
        }
        other => panic!("expected Data, got {other:?}"),
    }

    let second = clients.on_datagram(peer, b"ho");
    assert_eq!(second.len(), 1);
    match &second[0] {
        WsEvent::Data { client, data, hex } => {
            assert_eq!(*client, client_id);
            assert!(*hex);
            assert_eq!(data, "686f");
        }
        other => panic!("expected Data on second datagram, got {other:?}"),
    }
    assert_eq!(clients.len(), 1);
}

#[test]
fn udp_known_peer_datagrams_are_counted() {
    let mut clients = UdpClients::new();
    let peer = loopback(40002);
    clients.on_datagram(peer, b"first");
    let id = clients.client_of(peer).expect("registered");
    assert_eq!(clients.stat(id).unwrap().rx_count(), 0);
    clients.on_datagram(peer, b"abc");
    clients.on_datagram(peer, b"de");
    let st = clients.stat(id).unwrap();
    assert_eq!(st.rx_count(), 2);
    assert_eq!(st.rx_bytes(), 5);
}

#[test]
fn udp_distinct_peers_are_distinct_clients() {
    let mut clients = UdpClients::new();
    let a = loopback(40003);
    let b = PeerAddr { ip: 0x0a00_0002, port: 40003 };
    clients.on_datagram(a, b"x");
    let ev = clients.on_datagram(b, b"y");
    match &ev[0] {
        WsEvent::Connected { addr, .. } => assert_eq!(addr, "10.0.0.2:40003"),
        other => panic!("expected Connected, got {other:?}"),
    }
    assert_eq!(clients.len(), 2);
    assert_ne!(clients.client_of(a), clients.client_of(b));
}

#[test]
fn udp_close_client_drops_registry_entry() {
    let mut clients = UdpClients::new();
    let peer = loopback(40004);
    clients.on_datagram(peer, b"x");
    let id = clients.client_of(peer).unwrap();

    clients.close_client(id).expect("close_client");
    assert_eq!(clients.client_of(peer), None);
    assert_eq!(clients.len(), 0);
    match clients.close_client(id) {
        Err(AppError::UnknownClient(m)) => assert_eq!(m, id.to_string()),
        other => panic!("expected UnknownClient, got {other:?}"),
    }

    let again = clients.on_datagram(peer, b"y");
    assert_eq!(again.len(), 2);
    assert!(matches!(again[0], WsEvent::Connected { .. }));
}

#[test]
fn udp_send_target_and_record_sent() {
    let mut clients = UdpClients::new();
    let peer = loopback(40005);
    clients.on_datagram(peer, b"ping");
    let id = clients.client_of(peer).unwrap();
    assert_eq!(clients.send_target(id).unwrap(), peer);
    clients.record_sent(id, 9);
    let st = clients.stat(id).unwrap();
    assert_eq!(st.tx_bytes(), 9);
    assert_eq!(st.tx_count(), 1);

    let bogus = Uuid::from_u128(7);
    match clients.send_target(bogus) {
        Err(AppError::UnknownClient(m)) => assert_eq!(m, "00000000-0000-0000-0000-000000000007"),
        other => panic!("expected UnknownClient, got {other:?}"),
    }
}

#[test]
fn peer_addr_display_format() {
    assert_eq!(PeerAddr { ip: 0xc0a8_0101, port: 80 }.to_string(), "192.168.1.1:80");
    assert_eq!(PeerAddr { ip: 0, port: 0 }.to_string(), "0.0.0.0:0");
    assert_eq!(PeerAddr { ip: u32::MAX, port: 65535 }.to_string(), "255.255.255.255:65535");
}
