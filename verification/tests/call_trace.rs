use std::sync::{Arc, Mutex};

use netlab_server::application::port_pool::RandomPortPool;
use netlab_server::application::port_service::{EntityFactory, PortService};
use netlab_server::domain::client::{ClientId, Uuid};
use netlab_server::domain::errors::AppError;
use netlab_server::domain::port::PortRange;
use netlab_server::domain::port_entity::{PortEntity, PortType, WsEvent};
use tokio::sync::mpsc::UnboundedSender;

/// What the recording entities and factory were asked, in order.
#[derive(Debug, Clone, PartialEq, Eq)]
enum Seen {
    Create(u16, PortType),
    Send(u16, ClientId, Vec<u8>),
    CloseClient(u16, ClientId),
    Shutdown(u16),
}

type Log = Arc<Mutex<Vec<Seen>>>;

struct Recorder {
    port: u16,
    kind: PortType,
    owns: Option<ClientId>,
    log: Log,
}

impl PortEntity for Recorder {
    fn port(&self) -> u16 {
        self.port
    }
    fn kind(&self) -> PortType {
        self.kind
    }
    fn send(&self, client: ClientId, data: &[u8]) -> Result<(), AppError> {
        self.log.lock().unwrap().push(Seen::Send(self.port, client, data.to_vec()));
        if self.owns == Some(client) {
            Ok(())
        } else {
            Err(AppError::UnknownClient("mock".into()))
        }
    }
    fn close_client(&self, client: ClientId) -> Result<(), AppError> {
        self.log.lock().unwrap().push(Seen::CloseClient(self.port, client));
        if self.owns == Some(client) {
            Ok(())
        } else {
            Err(AppError::UnknownClient("mock".into()))
        }
    }
    fn shutdown(&self) -> Result<(), AppError> {
        self.log.lock().unwrap().push(Seen::Shutdown(self.port));
        Ok(())
    }
}

/// Builds recorders; the one for `owner_port` owns `client`.
struct RecordingFactory {
    owner_port: u16,
    client: ClientId,
    log: Log,
}

impl EntityFactory<Recorder> for RecordingFactory {
    fn create(
        &self,
        port: u16,
        kind: PortType,
        _events: UnboundedSender<WsEvent>,
    ) -> Result<Recorder, AppError> {
        self.log.lock().unwrap().push(Seen::Create(port, kind));
        let owns = if port == self.owner_port { Some(self.client) } else { None };
        Ok(Recorder { port, kind, owns, log: self.log.clone() })
    }
}

fn recording_service(
    start: u16,
    end: u16,
    owner_port: u16,
    client: ClientId,
) -> (PortService<Recorder, RecordingFactory>, Log) {
    let log: Log = Arc::new(Mutex::new(Vec::new()));
    let factory = RecordingFactory { owner_port, client, log: log.clone() };
    let pool = RandomPortPool::new(PortRange::new(start, end).unwrap());
    (PortService::new(pool, factory), log)
}

#[test]
fn new_port_hands_the_taken_port_and_parsed_type_to_create() {
    let client = Uuid::from_u128(7);
    let (mut svc, log) = recording_service(7100, 7101, 0, client);
    let session = Uuid::from_u128(1);
    let p = svc.new_port(session, "SSL-TCP", None, None).unwrap();
    assert_eq!(p, 7100);
    assert_eq!(*log.lock().unwrap(), vec![Seen::Create(7100, PortType::SslTcp)]);
}

#[test]
fn new_port_refused_before_create_calls_nothing() {
    let client = Uuid::from_u128(7);
    let (mut svc, log) = recording_service(7200, 7201, 0, client);
    let session = Uuid::from_u128(1);
    assert!(matches!(svc.new_port(session, "sctp", None, None), Err(AppError::BadType(_))));
    assert!(log.lock().unwrap().is_empty());
}

#[test]
fn send_hands_exact_bytes_and_stops_at_the_accepting_entity() {
    let client = Uuid::from_u128(9);
    let (mut svc, log) = recording_service(7300, 7303, 7300, client);
    let session = Uuid::from_u128(2);
    for _ in 0..3 {
        svc.new_port(session, "tcp", None, None).unwrap();
    }
    log.lock().unwrap().clear();
    svc.send(client, &[0xAA, 0xBB]).unwrap();
    let seen = log.lock().unwrap().clone();
    assert!(!seen.is_empty());
    for s in &seen {
        match s {
            Seen::Send(_, c, d) => {
                assert_eq!(*c, client);
                assert_eq!(*d, vec![0xAA, 0xBB]);
            }
            other => panic!("unexpected call {other:?}"),
        }
    }
    assert_eq!(seen.last(), Some(&Seen::Send(7300, client, vec![0xAA, 0xBB])));
    assert_eq!(seen.iter().filter(|s| matches!(s, Seen::Send(7300, ..))).count(), 1);
}

#[test]
fn send_to_unknown_client_asks_every_entity_once() {
    let client = Uuid::from_u128(9);
    let stranger = Uuid::from_u128(10);
    let (mut svc, log) = recording_service(7400, 7403, 7400, client);
    let session = Uuid::from_u128(2);
    for _ in 0..3 {
        svc.new_port(session, "udp", None, None).unwrap();
    }
    log.lock().unwrap().clear();
    assert!(matches!(svc.send(stranger, b"x"), Err(AppError::UnknownClient(_))));
    let mut ports: Vec<u16> = log
        .lock()
        .unwrap()
        .iter()
        .map(|s| match s {
            Seen::Send(p, c, _) => {
                assert_eq!(*c, stranger);
                *p
            }
            other => panic!("unexpected call {other:?}"),
        })
        .collect();
    ports.sort();
    assert_eq!(ports, vec![7400, 7401, 7402]);
}

#[test]
fn close_client_goes_to_the_owning_entity() {
    let client = Uuid::from_u128(11);
    let (mut svc, log) = recording_service(7500, 7502, 7501, client);
    let session = Uuid::from_u128(3);
    svc.new_port(session, "tcp", Some(7501), Some("LuatOS-NetLab")).unwrap();
    svc.new_port(session, "tcp", Some(7500), Some("LuatOS-NetLab")).unwrap();
    log.lock().unwrap().clear();
    assert!(svc.close_client(client).is_ok());
    let seen = log.lock().unwrap().clone();
    assert_eq!(seen.last(), Some(&Seen::CloseClient(7501, client)));
}

#[test]
fn close_session_shuts_each_entity_down_once_in_order() {
    let client = Uuid::from_u128(12);
    let (mut svc, log) = recording_service(7600, 7603, 0, client);
    let session = Uuid::from_u128(4);
    svc.new_port(session, "tcp", Some(7602), Some("LuatOS-NetLab")).unwrap();
    svc.new_port(session, "udp", Some(7600), Some("LuatOS-NetLab")).unwrap();
    log.lock().unwrap().clear();
    svc.close_session(session);
    assert_eq!(*log.lock().unwrap(), vec![Seen::Shutdown(7602), Seen::Shutdown(7600)]);
    svc.close_session(session);
    assert_eq!(log.lock().unwrap().len(), 2);
}
