//! Prometheus metric names and the helpers that emit them.
//!
//! The recorder is installed by the application at start-up; these helpers
//! only fix the metric names and label keys so that every caller emits
//! the same series.
use vstd::prelude::*;

verus! {

/// Names of the Prometheus metrics emitted by the application.
pub struct MetricsSpec;

impl MetricsSpec {
    /// Number of port-allocation requests received, partitioned by wire type.
    pub const PORT_REQ_TOTAL: &'static str = "port_req_total";
    /// Number of ports currently held (gauge, partitioned by wire type).
    pub const PORT_USED: &'static str = "port_used";
    /// Total number of bytes that flowed through a port (counter, by wire type).
    pub const DATA_TOTAL: &'static str = "data_total";
    /// Total number of client connections ever opened (cumulative, by wire type).
    pub const CLIENT: &'static str = "client";
    /// Number of currently connected clients (gauge, by wire type).
    pub const CONNECTED_CLIENT: &'static str = "connected_client";
}

/// Increments the counter `name{labels}` of the installed `metrics`
/// recorder by `value` (what `metrics::counter!(name, k => v, ..)
/// .increment(value)` does). It acts on the process-wide recorder only;
/// nothing is stated of it.
#[verifier::external_body]
pub(crate) fn counter_increment(
    name: &'static str,
    labels: &[(&'static str, &'static str)],
    value: u64,
) {
    let labels: Vec<metrics::Label> = labels.iter().map(|&(k, v)| metrics::Label::new(k, v)).collect();
    let key = metrics::Key::from_parts(name, labels);
    let metadata = metrics::Metadata::new("netlab_server", metrics::Level::INFO, None);
    metrics::with_recorder(|recorder| recorder.register_counter(&key, &metadata)).increment(value);
}

/// Increments the gauge `name{labels}` of the installed recorder by one
/// (`metrics::gauge!(..).increment(1)`). Nothing is stated of it.
#[verifier::external_body]
pub(crate) fn gauge_increment(name: &'static str, labels: &[(&'static str, &'static str)]) {
    let labels: Vec<metrics::Label> = labels.iter().map(|&(k, v)| metrics::Label::new(k, v)).collect();
    let key = metrics::Key::from_parts(name, labels);
    let metadata = metrics::Metadata::new("netlab_server", metrics::Level::INFO, None);
    metrics::with_recorder(|recorder| recorder.register_gauge(&key, &metadata)).increment(1u32);
}

/// Decrements the gauge `name{labels}` of the installed recorder by one
/// (`metrics::gauge!(..).decrement(1)`). Nothing is stated of it.
#[verifier::external_body]
pub(crate) fn gauge_decrement(name: &'static str, labels: &[(&'static str, &'static str)]) {
    let labels: Vec<metrics::Label> = labels.iter().map(|&(k, v)| metrics::Label::new(k, v)).collect();
    let key = metrics::Key::from_parts(name, labels);
    let metadata = metrics::Metadata::new("netlab_server", metrics::Level::INFO, None);
    metrics::with_recorder(|recorder| recorder.register_gauge(&key, &metadata)).decrement(1u32);
}

/// A change to one metric series.
#[derive(Debug, Clone, Copy, PartialEq, Eq, Structural)]
pub enum MetricChange {
    /// Add this much to a counter.
    CounterAdd(u64),
    /// Raise a gauge by one.
    GaugeUp,
    /// Lower a gauge by one.
    GaugeDown,
}

/// One metric update: the series `name{type=type_label}` and its change.
#[derive(Debug, Clone, Copy)]
pub struct MetricUpdate {
    pub name: &'static str,
    pub type_label: &'static str,
    pub change: MetricChange,
}

/// The update of series `name{type=l}` by `c`.
pub open spec fn update(name: &'static str, l: &'static str, c: MetricChange) -> MetricUpdate {
    MetricUpdate { name, type_label: l, change: c }
}

/// The updates of a successful `new_port`: one more port request, one
/// more port in use.
pub fn new_port_updates(type_label: &'static str) -> (u: Vec<MetricUpdate>)
    ensures
        u@ == seq![
            update(MetricsSpec::PORT_REQ_TOTAL, type_label, MetricChange::CounterAdd(1)),
            update(MetricsSpec::PORT_USED, type_label, MetricChange::GaugeUp),
        ],
{
    let mut u = Vec::new();
    u.push(MetricUpdate {
        name: MetricsSpec::PORT_REQ_TOTAL,
        type_label,
        change: MetricChange::CounterAdd(1),
    });
    u.push(MetricUpdate { name: MetricsSpec::PORT_USED, type_label, change: MetricChange::GaugeUp });
    assert(u@ =~= seq![
        update(MetricsSpec::PORT_REQ_TOTAL, type_label, MetricChange::CounterAdd(1)),
        update(MetricsSpec::PORT_USED, type_label, MetricChange::GaugeUp),
    ]);
    u
}

/// The update when a port is shut down: one port fewer in use.
pub fn close_port_updates(type_label: &'static str) -> (u: Vec<MetricUpdate>)
    ensures
        u@ == seq![update(MetricsSpec::PORT_USED, type_label, MetricChange::GaugeDown)],
{
    let mut u = Vec::new();
    u.push(MetricUpdate { name: MetricsSpec::PORT_USED, type_label, change: MetricChange::GaugeDown });
    assert(u@ =~= seq![update(MetricsSpec::PORT_USED, type_label, MetricChange::GaugeDown)]);
    u
}

/// The update for `bytes` of data through a port.
pub fn data_updates(type_label: &'static str, bytes: u64) -> (u: Vec<MetricUpdate>)
    ensures
        u@ == seq![update(MetricsSpec::DATA_TOTAL, type_label, MetricChange::CounterAdd(bytes))],
{
    let mut u = Vec::new();
    u.push(MetricUpdate {
        name: MetricsSpec::DATA_TOTAL,
        type_label,
        change: MetricChange::CounterAdd(bytes),
    });
    assert(u@ =~= seq![update(MetricsSpec::DATA_TOTAL, type_label, MetricChange::CounterAdd(bytes))]);
    u
}

/// The updates when a client connects: one more connected, one more in
/// the client gauge.
pub fn client_open_updates(type_label: &'static str) -> (u: Vec<MetricUpdate>)
    ensures
        u@ == seq![
            update(MetricsSpec::CONNECTED_CLIENT, type_label, MetricChange::GaugeUp),
            update(MetricsSpec::CLIENT, type_label, MetricChange::GaugeUp),
        ],
{
    let mut u = Vec::new();
    u.push(MetricUpdate {
        name: MetricsSpec::CONNECTED_CLIENT,
        type_label,
        change: MetricChange::GaugeUp,
    });
    u.push(MetricUpdate { name: MetricsSpec::CLIENT, type_label, change: MetricChange::GaugeUp });
    assert(u@ =~= seq![
        update(MetricsSpec::CONNECTED_CLIENT, type_label, MetricChange::GaugeUp),
        update(MetricsSpec::CLIENT, type_label, MetricChange::GaugeUp),
    ]);
    u
}

/// The updates when a client disconnects: the two client gauges go down.
pub fn client_close_updates(type_label: &'static str) -> (u: Vec<MetricUpdate>)
    ensures
        u@ == seq![
            update(MetricsSpec::CONNECTED_CLIENT, type_label, MetricChange::GaugeDown),
            update(MetricsSpec::CLIENT, type_label, MetricChange::GaugeDown),
        ],
{
    let mut u = Vec::new();
    u.push(MetricUpdate {
        name: MetricsSpec::CONNECTED_CLIENT,
        type_label,
        change: MetricChange::GaugeDown,
    });
    u.push(MetricUpdate { name: MetricsSpec::CLIENT, type_label, change: MetricChange::GaugeDown });
    assert(u@ =~= seq![
        update(MetricsSpec::CONNECTED_CLIENT, type_label, MetricChange::GaugeDown),
        update(MetricsSpec::CLIENT, type_label, MetricChange::GaugeDown),
    ]);
    u
}

/// The labels of the series `{type=l}`.
pub open spec fn type_labels(ls: Seq<(&'static str, &'static str)>, l: &'static str) -> bool {
    ls.len() == 1 && ls[0].0@ == "type"@ && ls[0].1 == l
}

/// The recorder was handed the update `u`: the counter or gauge named
/// `u.name`, labelled `type=u.type_label`, was changed as `u.change` says.
pub closed spec fn update_applied(u: MetricUpdate) -> bool {
    match u.change {
        MetricChange::CounterAdd(v) => exists|ls: &[(&'static str, &'static str)]|
            type_labels(ls@, u.type_label) && #[trigger] call_ensures(counter_increment, (u.name, ls, v), ()),
        MetricChange::GaugeUp => exists|ls: &[(&'static str, &'static str)]|
            type_labels(ls@, u.type_label) && #[trigger] call_ensures(gauge_increment, (u.name, ls), ()),
        MetricChange::GaugeDown => exists|ls: &[(&'static str, &'static str)]|
            type_labels(ls@, u.type_label) && #[trigger] call_ensures(gauge_decrement, (u.name, ls), ()),
    }
}

/// Apply the updates, in order, to the installed recorder.
pub fn apply(updates: &Vec<MetricUpdate>)
    ensures
        forall|i: int| 0 <= i < updates@.len() ==> #[trigger] update_applied(updates@[i]),
{
    let n = updates.len();
    // The recorder calls are made through their function values, so that
    // they are on record.
    let count = counter_increment;
    let up = gauge_increment;
    let down = gauge_decrement;
    for i in 0..n
        invariant
            n == updates@.len(),
            forall|k: int| 0 <= k < i ==> #[trigger] update_applied(updates@[k]),
    {
        let u = updates[i];
        let mut labels: Vec<(&'static str, &'static str)> = Vec::new();
        labels.push(("type", u.type_label));
        proof {
            reveal_strlit("type");
        }
        let ls = labels.as_slice();
        assert(type_labels(ls@, u.type_label));
        match u.change {
            MetricChange::CounterAdd(v) => {
                count(u.name, ls, v);
                assert(call_ensures(counter_increment, (u.name, ls, v), ()));
            },
            MetricChange::GaugeUp => {
                up(u.name, ls);
                assert(call_ensures(gauge_increment, (u.name, ls), ()));
            },
            MetricChange::GaugeDown => {
                down(u.name, ls);
                assert(call_ensures(gauge_decrement, (u.name, ls), ()));
            },
        }
        assert(update_applied(updates@[i as int]));
    }
}

/// Bump the new-port metrics ([`new_port_updates`]). Called once per
/// successful `new_port`.
pub fn on_new_port(type_label: &'static str)
    ensures
        update_applied(update(MetricsSpec::PORT_REQ_TOTAL, type_label, MetricChange::CounterAdd(1))),
        update_applied(update(MetricsSpec::PORT_USED, type_label, MetricChange::GaugeUp)),
{
    let u = new_port_updates(type_label);
    apply(&u);
    assert(update_applied(u@[0]) && update_applied(u@[1]));
}

/// Decrement the port-used gauge ([`close_port_updates`]). Called when a
/// port is shut down and returned to the pool.
pub fn on_close_port(type_label: &'static str)
    ensures
        update_applied(update(MetricsSpec::PORT_USED, type_label, MetricChange::GaugeDown)),
{
    let u = close_port_updates(type_label);
    apply(&u);
    assert(update_applied(u@[0]));
}

/// Add `bytes` to the data-flow counter ([`data_updates`]).
pub fn on_data(type_label: &'static str, bytes: u64)
    ensures
        update_applied(update(MetricsSpec::DATA_TOTAL, type_label, MetricChange::CounterAdd(bytes))),
{
    let u = data_updates(type_label, bytes);
    apply(&u);
    assert(update_applied(u@[0]));
}

/// Bump client counters when a new client connects on a port
/// ([`client_open_updates`]).
pub fn on_client_open(type_label: &'static str)
    ensures
        update_applied(update(MetricsSpec::CONNECTED_CLIENT, type_label, MetricChange::GaugeUp)),
        update_applied(update(MetricsSpec::CLIENT, type_label, MetricChange::GaugeUp)),
{
    let u = client_open_updates(type_label);
    apply(&u);
    assert(update_applied(u@[0]) && update_applied(u@[1]));
}

/// Decrement client counters when a client disconnects
/// ([`client_close_updates`]).
pub fn on_client_close(type_label: &'static str)
    ensures
        update_applied(update(MetricsSpec::CONNECTED_CLIENT, type_label, MetricChange::GaugeDown)),
        update_applied(update(MetricsSpec::CLIENT, type_label, MetricChange::GaugeDown)),
{
    let u = client_close_updates(type_label);
    apply(&u);
    assert(update_applied(u@[0]) && update_applied(u@[1]));
}

} // verus!
