use std::sync::atomic::{AtomicUsize, Ordering};
use std::sync::{Arc, Mutex};

use netlab_server::application::port_pool::RandomPortPool;
use netlab_server::application::port_service::{EntityFactory, PortService, PORT_PIN_TOKEN};
use netlab_server::application::ws_dispatch::{
    handle, make_error, make_port, Inbound, Reply, ACTION_CLOSEC, ACTION_CONFIG, ACTION_NEWP,
    ACTION_SENDC, HEARTBEAT_ACTION,
};
use netlab_server::domain::client::{ClientId, Uuid};
use netlab_server::domain::errors::AppError;
use netlab_server::domain::port::PortRange;
use netlab_server::domain::port_entity::{PortEntity, PortType, WsEvent};
use serde_json::Value;
use tokio::sync::mpsc::UnboundedSender;

struct MockEntity {
    owns_send: Option<ClientId>,
    owns_close: Option<ClientId>,
    captured: Arc<Mutex<Vec<u8>>>,
}

impl PortEntity for MockEntity {
    fn port(&self) -> u16 {
        2000
    }
    fn kind(&self) -> PortType {
        PortType::Tcp
    }
    fn send(&self, client: ClientId, data: &[u8]) -> Result<(), AppError> {
        if Some(client) == self.owns_send {
            *self.captured.lock().unwrap() = data.to_vec();
            Ok(())
        } else {
            Err(AppError::UnknownClient("mock".into()))
        }
    }
    fn close_client(&self, client: ClientId) -> Result<(), AppError> {
        if Some(client) == self.owns_close {
            Ok(())
        } else {
            Err(AppError::UnknownClient("mock".into()))
        }
    }
    fn shutdown(&self) -> Result<(), AppError> {
        Ok(())
    }
}

struct StaticFactory {
    owns_send: Option<ClientId>,
    owns_close: Option<ClientId>,
    captured: Arc<Mutex<Vec<u8>>>,
    calls: Arc<AtomicUsize>,
}

impl EntityFactory<MockEntity> for StaticFactory {
    fn create(
        &self,
        _port: u16,
        _kind: PortType,
        _events: UnboundedSender<WsEvent>,
    ) -> Result<MockEntity, AppError> {
        self.calls.fetch_add(1, Ordering::SeqCst);
        Ok(MockEntity {
            owns_send: self.owns_send,
            owns_close: self.owns_close,
            captured: self.captured.clone(),
        })
    }
}

struct Harness {
    svc: PortService<MockEntity, StaticFactory>,
    captured: Arc<Mutex<Vec<u8>>>,
    calls: Arc<AtomicUsize>,
}

fn build_service(start: u16, end: u16, owns_send: Option<ClientId>, owns_close: Option<ClientId>) -> Harness {
    let captured = Arc::new(Mutex::new(Vec::new()));
    let calls = Arc::new(AtomicUsize::new(0));
    let factory = StaticFactory { owns_send, owns_close, captured: captured.clone(), calls: calls.clone() };
    let pool = RandomPortPool::new(PortRange::new(start, end).unwrap());
    Harness { svc: PortService::new(pool, factory), captured, calls }
}

fn inbound(action: &str) -> Inbound {
    Inbound {
        action: action.to_string(),
        port_type: None,
        token: None,
        port: None,
        client: None,
        data: None,
        hex: None,
        broadcast: None,
    }
}

fn newp(port_type: &str) -> Inbound {
    Inbound { port_type: Some(port_type.to_string()), ..inbound("newp") }
}

fn json(r: &Reply) -> Value {
    serde_json::from_str(&r.to_json()).expect("reply is JSON")
}

#[test]
fn heartbeat_empty_object_yields_no_frames() {
    let mut h = build_service(2000, 2001, None, None);
    let out = handle(&mut h.svc, Uuid::new_v4(), Some(inbound("")));
    assert!(out.is_empty(), "expected no frames, got {out:?}");
}

#[test]
fn newp_ok_returns_port_frame() {
    let mut h = build_service(2000, 2001, None, None);
    let out = handle(&mut h.svc, Uuid::new_v4(), Some(newp("tcp")));
    assert_eq!(out.len(), 1);
    assert_eq!(json(&out[0])["action"], "port");
    assert_eq!(json(&out[0])["port"], 2000);
    assert_eq!(h.calls.load(Ordering::SeqCst), 1);
}

#[test]
fn newp_passes_pinned_port_and_token_through() {
    let mut h = build_service(8080, 8081, None, None);
    let msg = Inbound { port: Some(8080), token: Some("LuatOS-NetLab".to_string()), ..newp("tcp") };
    let out = handle(&mut h.svc, Uuid::new_v4(), Some(msg));
    assert_eq!(out.len(), 1);
    assert_eq!(json(&out[0])["port"], 8080);
}

#[test]
fn newp_negative_port_is_treated_as_random() {
    let mut h = build_service(1234, 1235, None, None);
    let msg = Inbound { port: Some(-1), ..newp("tcp") };
    let out = handle(&mut h.svc, Uuid::new_v4(), Some(msg));
    assert_eq!(out.len(), 1);
    assert_eq!(json(&out[0])["port"], 1234);
}

#[test]
fn newp_bad_type_returns_error() {
    let mut h = build_service(2000, 2001, None, None);
    let out = handle(&mut h.svc, Uuid::new_v4(), Some(newp("http")));
    assert_eq!(out.len(), 1);
    assert_eq!(json(&out[0])["action"], "error");
    assert!(json(&out[0])["msg"].as_str().unwrap().contains("http"));
}

#[test]
fn sendc_hex_decodes_payload() {
    let target = ClientId::new_v4();
    let mut h = build_service(2000, 2001, Some(target), None);
    let session = Uuid::new_v4();
    let _ = handle(&mut h.svc, session, Some(newp("tcp")));

    let msg = Inbound {
        client: Some(target.to_string()),
        data: Some("AABB".to_string()),
        hex: Some(true),
        ..inbound("sendc")
    };
    let out = handle(&mut h.svc, session, Some(msg));
    assert!(out.is_empty(), "expected no frames, got {out:?}");
    assert_eq!(*h.captured.lock().unwrap(), vec![0xAA, 0xBB]);
}

#[test]
fn sendc_plain_uses_utf8_bytes() {
    let target = ClientId::new_v4();
    let mut h = build_service(2000, 2001, Some(target), None);
    let session = Uuid::new_v4();
    let _ = handle(&mut h.svc, session, Some(newp("tcp")));

    let msg = Inbound {
        client: Some(target.to_string()),
        data: Some("hi".to_string()),
        hex: Some(false),
        ..inbound("sendc")
    };
    let out = handle(&mut h.svc, session, Some(msg));
    assert!(out.is_empty(), "expected no frames, got {out:?}");
    assert_eq!(*h.captured.lock().unwrap(), b"hi".to_vec());
}

#[test]
fn sendc_bad_hex_returns_error() {
    let mut h = build_service(2000, 2001, None, None);
    let target = ClientId::new_v4();
    let msg = Inbound {
        client: Some(target.to_string()),
        data: Some("zz".to_string()),
        hex: Some(true),
        ..inbound("sendc")
    };
    let out = handle(&mut h.svc, Uuid::new_v4(), Some(msg));
    assert_eq!(out.len(), 1);
    assert_eq!(json(&out[0])["action"], "error");
    assert!(json(&out[0])["msg"].as_str().unwrap().contains("hex"));
}

#[test]
fn sendc_missing_client_returns_error() {
    let mut h = build_service(2000, 2001, None, None);
    let msg = Inbound { data: Some("hi".to_string()), ..inbound("sendc") };
    let out = handle(&mut h.svc, Uuid::new_v4(), Some(msg));
    assert_eq!(out.len(), 1);
    assert_eq!(json(&out[0])["action"], "error");
    assert_eq!(out[0], Reply::Error("missing client".to_string()));
}

#[test]
fn sendc_bad_uuid_returns_error() {
    let mut h = build_service(2000, 2001, None, None);
    let msg = Inbound {
        client: Some("not-a-uuid".to_string()),
        data: Some("hi".to_string()),
        ..inbound("sendc")
    };
    let out = handle(&mut h.svc, Uuid::new_v4(), Some(msg));
    assert_eq!(out.len(), 1);
    assert_eq!(json(&out[0])["action"], "error");
    assert_eq!(out[0], Reply::Error("bad client uuid: not-a-uuid".to_string()));
}

#[test]
fn sendc_missing_data_returns_error() {
    let mut h = build_service(2000, 2001, None, None);
    let msg = Inbound { client: Some(ClientId::new_v4().to_string()), ..inbound("sendc") };
    let out = handle(&mut h.svc, Uuid::new_v4(), Some(msg));
    assert_eq!(out, vec![Reply::Error("missing data".to_string())]);
}

#[test]
fn closec_returns_no_frames_on_success() {
    let target = ClientId::new_v4();
    let mut h = build_service(2000, 2001, None, Some(target));
    let session = Uuid::new_v4();
    let _ = handle(&mut h.svc, session, Some(newp("tcp")));
    let msg = Inbound { client: Some(target.to_string()), ..inbound("closec") };
    let out = handle(&mut h.svc, session, Some(msg));
    assert!(out.is_empty(), "expected no frames, got {out:?}");
}

#[test]
fn closec_propagates_error() {
    let mut h = build_service(2000, 2001, None, None);
    let target = ClientId::new_v4();
    let msg = Inbound { client: Some(target.to_string()), ..inbound("closec") };
    let out = handle(&mut h.svc, Uuid::new_v4(), Some(msg));
    assert_eq!(out.len(), 1);
    assert_eq!(json(&out[0])["action"], "error");
    assert_eq!(json(&out[0])["msg"], format!("unknown client: {target_text}", target_text = target.to_string()));
}

#[test]
fn config_returns_no_frames() {
    let mut h = build_service(2000, 2001, None, None);
    let msg = Inbound { broadcast: Some(true), ..inbound("config") };
    let out = handle(&mut h.svc, Uuid::new_v4(), Some(msg));
    assert!(out.is_empty());
    let out = handle(&mut h.svc, Uuid::new_v4(), Some(inbound("config")));
    assert!(out.is_empty());
}

#[test]
fn bad_json_returns_error_frame() {
    let mut h = build_service(2000, 2001, None, None);
    let out = handle(&mut h.svc, Uuid::new_v4(), None);
    assert_eq!(out.len(), 1);
    assert_eq!(json(&out[0])["action"], "error");
    assert_eq!(json(&out[0])["msg"], "bad json");
}

#[test]
fn unknown_action_returns_error_frame() {
    let mut h = build_service(2000, 2001, None, None);
    let out = handle(&mut h.svc, Uuid::new_v4(), Some(inbound("foo")));
    assert_eq!(out.len(), 1);
    assert_eq!(json(&out[0])["action"], "error");
    assert!(json(&out[0])["msg"].as_str().unwrap().contains("foo"));
}

#[test]
fn action_constants_are_stable() {
    assert_eq!(ACTION_NEWP, "newp");
    assert_eq!(ACTION_SENDC, "sendc");
    assert_eq!(ACTION_CLOSEC, "closec");
    assert_eq!(ACTION_CONFIG, "config");
    assert_eq!(HEARTBEAT_ACTION, "");
}

#[test]
fn port_pin_token_matches_documented_value() {
    assert_eq!(PORT_PIN_TOKEN, "LuatOS-NetLab");
}

#[test]
fn reply_frames_are_the_documented_json() {
    assert_eq!(make_port(12345).to_json(), r#"{"action":"port","port":12345}"#);
    assert_eq!(
        make_error("error of what".to_string()).to_json(),
        r#"{"action":"error","msg":"error of what"}"#
    );
    let tricky = "quote\" back\\ nl\n tab\t bell\u{7} é";
    let text = make_error(tricky.to_string()).to_json();
    let via_serde = serde_json::to_string(&Value::Object(
        [
            ("action".to_string(), Value::String("error".to_string())),
            ("msg".to_string(), Value::String(tricky.to_string())),
        ]
        .into_iter()
        .collect(),
    ))
    .unwrap();
    assert_eq!(text, via_serde);
}

#[test]
fn newp_with_huge_port_number_wraps_like_a_cast() {
    // 2000 + 65536 taken modulo 2^16 is 2000.
    let mut h = build_service(2000, 2001, None, None);
    let msg = Inbound { port: Some(2000 + 65536), token: Some(PORT_PIN_TOKEN.to_string()), ..newp("tcp") };
    let out = handle(&mut h.svc, Uuid::new_v4(), Some(msg));
    assert_eq!(out, vec![Reply::Port(2000)]);
}

#[test]
fn idle_timeout_is_sixty_seconds() {
    assert_eq!(netlab_server::application::ws_dispatch::IDLE_TIMEOUT_SECS, 60);
}
