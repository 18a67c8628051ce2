use netlab_server::application::wire::event_to_json;
use netlab_server::domain::client::ClientId;
use netlab_server::domain::port_entity::WsEvent;
use serde_json::Value;

fn object(pairs: Vec<(&str, Value)>) -> String {
    let map: serde_json::Map<String, Value> =
        pairs.into_iter().map(|(k, v)| (k.to_string(), v)).collect();
    serde_json::to_string(&Value::Object(map)).unwrap()
}

#[test]
fn event_frames_match_serde_json_output() {
    let id = ClientId::from_u128(0x0123_4567_89ab_cdef_fedc_ba98_7654_3210);
    let client = Value::String(id.to_string());
    let connected = WsEvent::Connected { client: id, addr: "123.8.8.8:123".to_string() };
    assert_eq!(
        event_to_json(&connected),
        object(vec![
            ("action", Value::String("connected".into())),
            ("client", client.clone()),
            ("addr", Value::String("123.8.8.8:123".into())),
        ])
    );
    let data = WsEvent::Data { client: id, data: "68656c6c6f".to_string(), hex: true };
    assert_eq!(
        event_to_json(&data),
        object(vec![
            ("action", Value::String("data".into())),
            ("client", client.clone()),
            ("data", Value::String("68656c6c6f".into())),
            ("hex", Value::Bool(true)),
        ])
    );
    let closed = WsEvent::Closed { client: id };
    assert_eq!(
        event_to_json(&closed),
        object(vec![("action", Value::String("closed".into())), ("client", client.clone())])
    );
    let err = WsEvent::Error { msg: "tls handshake: \"bad\"\r\n\u{1}".to_string() };
    assert_eq!(
        event_to_json(&err),
        object(vec![
            ("action", Value::String("error".into())),
            ("msg", Value::String("tls handshake: \"bad\"\r\n\u{1}".into())),
        ])
    );
}

#[test]
fn data_frame_without_hex_says_false() {
    let id = ClientId::from_u128(7);
    let text = event_to_json(&WsEvent::Data { client: id, data: "hi".into(), hex: false });
    assert_eq!(
        text,
        r#"{"action":"data","client":"00000000-0000-0000-0000-000000000007","data":"hi","hex":false}"#
    );
}
