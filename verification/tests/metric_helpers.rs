//! The metric helpers emit the right counter / gauge calls to the
//! installed recorder.
use std::sync::{Arc, Mutex, OnceLock};

use netlab_server::application::metrics::{
    client_close_updates, client_open_updates, close_port_updates, data_updates,
    new_port_updates, MetricChange,
};

use metrics::{
    Counter, CounterFn, Gauge, GaugeFn, Histogram, Key, KeyName, Metadata, Recorder, SharedString,
    Unit,
};
use netlab_server::application::metrics::{
    on_client_close, on_client_open, on_close_port, on_data, on_new_port, MetricsSpec,
};

#[derive(Debug, Clone, Copy, PartialEq, Eq)]
enum Op {
    Increment,
    Decrement,
    Absolute,
}

#[derive(Debug, Clone)]
struct Call {
    name: String,
    labels: Vec<(String, String)>,
    value: f64,
    op: Op,
}

#[derive(Default, Clone)]
struct TestRecorder {
    calls: Arc<Mutex<Vec<Call>>>,
}

impl Recorder for TestRecorder {
    fn describe_counter(&self, _: KeyName, _: Option<Unit>, _: SharedString) {}
    fn describe_gauge(&self, _: KeyName, _: Option<Unit>, _: SharedString) {}
    fn describe_histogram(&self, _: KeyName, _: Option<Unit>, _: SharedString) {}

    fn register_counter(&self, key: &Key, _: &Metadata<'_>) -> Counter {
        Counter::from_arc(Arc::new(TestCounter { key: key.clone(), calls: self.calls.clone() }))
    }

    fn register_gauge(&self, key: &Key, _: &Metadata<'_>) -> Gauge {
        Gauge::from_arc(Arc::new(TestGauge { key: key.clone(), calls: self.calls.clone() }))
    }

    fn register_histogram(&self, _: &Key, _: &Metadata<'_>) -> Histogram {
        Histogram::noop()
    }
}

struct TestCounter {
    key: Key,
    calls: Arc<Mutex<Vec<Call>>>,
}

impl CounterFn for TestCounter {
    fn increment(&self, value: u64) {
        self.record(value as f64, Op::Increment);
    }

    fn absolute(&self, value: u64) {
        self.record(value as f64, Op::Absolute);
    }
}

impl TestCounter {
    fn record(&self, value: f64, op: Op) {
        self.calls.lock().unwrap().push(Call {
            name: self.key.name().to_string(),
            labels: labels_of(&self.key),
            value,
            op,
        });
    }
}

struct TestGauge {
    key: Key,
    calls: Arc<Mutex<Vec<Call>>>,
}

impl GaugeFn for TestGauge {
    fn increment(&self, value: f64) {
        self.record(value, Op::Increment);
    }

    fn decrement(&self, value: f64) {
        self.record(value, Op::Decrement);
    }

    fn set(&self, value: f64) {
        self.record(value, Op::Absolute);
    }
}

impl TestGauge {
    fn record(&self, value: f64, op: Op) {
        self.calls.lock().unwrap().push(Call {
            name: self.key.name().to_string(),
            labels: labels_of(&self.key),
            value,
            op,
        });
    }
}

fn labels_of(key: &Key) -> Vec<(String, String)> {
    key.labels().map(|l| (l.key().to_string(), l.value().to_string())).collect()
}

fn find<'a>(calls: &'a [Call], name: &str) -> Vec<&'a Call> {
    calls.iter().filter(|c| c.name == name).collect()
}

fn install_global_recorder_once() -> TestRecorder {
    static RECORDER: OnceLock<TestRecorder> = OnceLock::new();
    RECORDER
        .get_or_init(|| {
            let r = TestRecorder::default();
            let _ = metrics::set_global_recorder(r.clone());
            r
        })
        .clone()
}

#[test]
fn on_new_port_emits_counter_and_gauge_increment() {
    let r = install_global_recorder_once();
    r.calls.lock().unwrap().clear();
    on_new_port("tcp");
    let calls = r.calls.lock().unwrap();
    let counter = find(&calls, MetricsSpec::PORT_REQ_TOTAL);
    let gauge = find(&calls, MetricsSpec::PORT_USED);
    assert_eq!(counter.len(), 1, "PORT_REQ_TOTAL should fire once");
    assert_eq!(gauge.len(), 1, "PORT_USED should fire once");
    assert_eq!(counter[0].op, Op::Increment);
    assert_eq!(gauge[0].op, Op::Increment);
    assert_eq!(counter[0].value, 1.0);
    assert_eq!(gauge[0].labels, vec![("type".to_string(), "tcp".to_string())]);
}

#[test]
fn on_close_port_decrements_gauge() {
    let r = install_global_recorder_once();
    r.calls.lock().unwrap().clear();
    on_close_port("udp");
    let calls = r.calls.lock().unwrap();
    let g = find(&calls, MetricsSpec::PORT_USED);
    assert_eq!(g.len(), 1);
    assert_eq!(g[0].op, Op::Decrement);
    assert_eq!(g[0].value, 1.0);
    assert_eq!(g[0].labels, vec![("type".to_string(), "udp".to_string())]);
}

#[test]
fn on_data_increments_counter_by_byte_count() {
    let r = install_global_recorder_once();
    r.calls.lock().unwrap().clear();
    on_data("ssl-tcp", 42);
    let calls = r.calls.lock().unwrap();
    let c = find(&calls, MetricsSpec::DATA_TOTAL);
    assert_eq!(c.len(), 1);
    assert_eq!(c[0].value, 42.0);
    assert_eq!(c[0].labels, vec![("type".to_string(), "ssl-tcp".to_string())]);
}

#[test]
fn on_client_open_bumps_both_client_gauges() {
    let r = install_global_recorder_once();
    r.calls.lock().unwrap().clear();
    on_client_open("tcp");
    let calls = r.calls.lock().unwrap();
    assert_eq!(find(&calls, MetricsSpec::CONNECTED_CLIENT).len(), 1);
    assert_eq!(find(&calls, MetricsSpec::CLIENT).len(), 1);
}

#[test]
fn on_client_close_decrements_both_client_gauges() {
    let r = install_global_recorder_once();
    r.calls.lock().unwrap().clear();
    on_client_close("tcp");
    let calls = r.calls.lock().unwrap();
    let conn = find(&calls, MetricsSpec::CONNECTED_CLIENT);
    let total = find(&calls, MetricsSpec::CLIENT);
    assert_eq!(conn.len(), 1);
    assert_eq!(conn[0].op, Op::Decrement);
    assert_eq!(total.len(), 1);
    assert_eq!(total[0].op, Op::Decrement);
}

#[test]
fn metric_name_constants_are_stable() {
    assert_eq!(MetricsSpec::PORT_REQ_TOTAL, "port_req_total");
    assert_eq!(MetricsSpec::PORT_USED, "port_used");
    assert_eq!(MetricsSpec::DATA_TOTAL, "data_total");
    assert_eq!(MetricsSpec::CLIENT, "client");
    assert_eq!(MetricsSpec::CONNECTED_CLIENT, "connected_client");
}

#[test]
fn metric_updates_name_the_series_and_change() {
    let u = new_port_updates("tcp");
    assert_eq!(u.len(), 2);
    assert_eq!((u[0].name, u[0].type_label, u[0].change), ("port_req_total", "tcp", MetricChange::CounterAdd(1)));
    assert_eq!((u[1].name, u[1].type_label, u[1].change), ("port_used", "tcp", MetricChange::GaugeUp));
    let u = close_port_updates("udp");
    assert_eq!((u[0].name, u[0].type_label, u[0].change), ("port_used", "udp", MetricChange::GaugeDown));
    let u = data_updates("ssl-tcp", 42);
    assert_eq!((u[0].name, u[0].change), ("data_total", MetricChange::CounterAdd(42)));
    let u = client_open_updates("tcp");
    assert_eq!((u[0].name, u[1].name), ("connected_client", "client"));
    assert_eq!((u[0].change, u[1].change), (MetricChange::GaugeUp, MetricChange::GaugeUp));
    let u = client_close_updates("tcp");
    assert_eq!((u[0].change, u[1].change), (MetricChange::GaugeDown, MetricChange::GaugeDown));
}
