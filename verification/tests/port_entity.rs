use netlab_server::domain::client::ClientId;
use netlab_server::domain::errors::AppError;
use netlab_server::domain::port_entity::{parse_port_type, wire_label, PortType, WsEvent};

#[test]
fn parse_port_type_accepts_all_legal_values() {
    assert_eq!(parse_port_type("tcp").unwrap(), PortType::Tcp);
    assert_eq!(parse_port_type("udp").unwrap(), PortType::Udp);
    assert_eq!(parse_port_type("tcp_ssl").unwrap(), PortType::SslTcp);
    assert_eq!(parse_port_type("ssl-tcp").unwrap(), PortType::SslTcp);
}

#[test]
fn parse_port_type_is_case_insensitive() {
    assert_eq!(parse_port_type("TCP").unwrap(), PortType::Tcp);
    assert_eq!(parse_port_type("Udp").unwrap(), PortType::Udp);
    assert_eq!(parse_port_type("SSL-TCP").unwrap(), PortType::SslTcp);
    assert_eq!(parse_port_type("TCP_SSL").unwrap(), PortType::SslTcp);
}

#[test]
fn parse_port_type_rejects_unknown_values() {
    for bad in ["", "http", "tls", "ssl", "tcp-ssl", "tcp_ssls"] {
        let err = parse_port_type(bad).expect_err("should reject");
        match err {
            AppError::BadType(s) => assert_eq!(s, bad.to_ascii_lowercase()),
            other => panic!("expected BadType, got {other:?}"),
        }
    }
}

#[test]
fn parse_port_type_lowercases_only_ascii_in_the_error() {
    match parse_port_type("HTTP/Ä") {
        Err(AppError::BadType(s)) => assert_eq!(s, "http/Ä"),
        other => panic!("expected BadType, got {other:?}"),
    }
}

#[test]
fn wire_label_is_stable_and_lowercase() {
    assert_eq!(wire_label(PortType::Tcp), "tcp");
    assert_eq!(wire_label(PortType::Udp), "udp");
    assert_eq!(wire_label(PortType::SslTcp), "ssl-tcp");
    for t in PortType::ALL {
        assert_eq!(t.wire_label(), wire_label(t));
    }
}

#[test]
fn wire_label_roundtrips_through_parse() {
    for t in PortType::ALL {
        let label = wire_label(t);
        let parsed = parse_port_type(label).expect("round-trip");
        assert_eq!(parsed, t, "round-trip mismatch for {label}");
    }
}

#[test]
fn ws_event_debug_clone_eq() {
    let id = ClientId::from_u128(1);
    let e1 = WsEvent::Connected { client: id, addr: "127.0.0.1:1".into() };
    let e2 = e1.clone();
    assert_eq!(e1, e2);

    let d1 = WsEvent::Data { client: id, data: "AA".into(), hex: true };
    let _ = format!("{d1:?}");

    let c1 = WsEvent::Closed { client: id };
    assert_eq!(c1, WsEvent::Closed { client: id });

    let err = WsEvent::Error { msg: "boom".into() };
    let _ = format!("{err:?}");
}
