//! The core metrics of a node, registered under fixed names.
use vstd::prelude::*;

use crate::keyed::keyed_map;
use crate::metrics::{
    bound_above_previous, bound_text_views, bounds_ascending, pair_views, HistogramBound,
    HistogramState,
};
use crate::registry::{fresh_histogram_state, CounterId, GaugeId, HistogramId, MetricsRegistry};
use crate::text::{decimal, push_decimal, push_text, text_views};

verus! {

/// What a registry keeps of a counter: its value and labels.
pub type CounterState = (u64, Map<Seq<char>, Seq<char>>);

/// What a registry keeps of a gauge: its value and labels.
pub type GaugeState = (i64, Map<Seq<char>, Seq<char>>);

/// Each bound is above the one before it.
pub open spec fn strictly_ascending(b: Seq<u64>) -> bool {
    forall|k: int| 1 <= k < b.len() ==> b[k - 1] < #[trigger] b[k]
}

/// Upper bounds of the message size buckets, in bytes (64 B to 1 MiB).
pub open spec fn message_size_bounds() -> Seq<u64> {
    seq![64, 256, 1024, 4096, 16384, 65536, 262144, 1048576]
}

/// Upper bounds of the message latency buckets, in ms (1 ms to 5 s).
pub open spec fn message_latency_bounds() -> Seq<u64> {
    seq![1, 5, 10, 25, 50, 100, 250, 500, 1000, 2500, 5000]
}

/// Upper bounds of the state sync latency buckets, in ms (10 ms to 30 s).
pub open spec fn state_sync_latency_bounds() -> Seq<u64> {
    seq![10, 50, 100, 250, 500, 1000, 2500, 5000, 10000, 30000]
}

/// The text of an integer bucket bound, with one decimal place as
/// bucket labels show it.
pub open spec fn bound_numeral(b: u64) -> Seq<char> {
    decimal(b as nat) + ".0"@
}

/// The bound texts of integer bucket bounds.
pub open spec fn bound_numerals(bounds: Seq<u64>) -> Seq<Seq<char>> {
    bounds.map_values(|b: u64| bound_numeral(b))
}

/// A counter map after registering an unlabelled counter under `name`.
pub open spec fn with_counter(m: Map<Seq<char>, CounterState>, name: Seq<char>) -> Map<
    Seq<char>,
    CounterState,
> {
    if m.contains_key(name) {
        m
    } else {
        m.insert(name, (0u64, Map::empty()))
    }
}

/// A gauge map after registering an unlabelled gauge under `name`.
pub open spec fn with_gauge(m: Map<Seq<char>, GaugeState>, name: Seq<char>) -> Map<
    Seq<char>,
    GaugeState,
> {
    if m.contains_key(name) {
        m
    } else {
        m.insert(name, (0i64, Map::empty()))
    }
}

/// The state of a fresh unlabelled histogram with the given bounds.
pub open spec fn fresh_histogram(bounds: Seq<u64>) -> HistogramState {
    (
        Seq::new((bounds.len() + 1) as nat, |i: int| 0u64),
        0u64,
        0u64,
        bound_numerals(bounds),
        Map::empty(),
    )
}

/// A histogram map after registering an unlabelled histogram under `name`.
pub open spec fn with_histogram(
    m: Map<Seq<char>, HistogramState>,
    name: Seq<char>,
    bounds: Seq<u64>,
) -> Map<Seq<char>, HistogramState> {
    if m.contains_key(name) {
        m
    } else {
        m.insert(name, fresh_histogram(bounds))
    }
}

/// A name sequence after registering `name` in a map that held `m`.
pub open spec fn with_key<V>(keys: Seq<Seq<char>>, m: Map<Seq<char>, V>, name: Seq<char>) -> Seq<
    Seq<char>,
> {
    if m.contains_key(name) {
        keys
    } else {
        keys.push(name)
    }
}

/// The counter map after registering the five counters of a node.
pub open spec fn with_node_counters(m: Map<Seq<char>, CounterState>) -> Map<Seq<char>, CounterState> {
    with_counter(
        with_counter(
            with_counter(
                with_counter(with_counter(m, "elara_total_connections"@), "elara_failed_connections"@),
                "elara_messages_sent"@,
            ),
            "elara_messages_received"@,
        ),
        "elara_messages_dropped"@,
    )
}

/// The gauge map after registering the six gauges of a node.
pub open spec fn with_node_gauges(m: Map<Seq<char>, GaugeState>) -> Map<Seq<char>, GaugeState> {
    with_gauge(
        with_gauge(
            with_gauge(
                with_gauge(
                    with_gauge(with_gauge(m, "elara_active_connections"@), "elara_memory_usage_bytes"@),
                    "elara_cpu_usage_percent"@,
                ),
                "elara_time_drift_ms"@,
            ),
            "elara_state_divergence_count"@,
        ),
        "elara_quarantine_buffer_size"@,
    )
}

/// The histogram map after registering the three histograms of a node.
pub open spec fn with_node_histograms(m: Map<Seq<char>, HistogramState>) -> Map<
    Seq<char>,
    HistogramState,
> {
    with_histogram(
        with_histogram(
            with_histogram(m, "elara_message_size_bytes"@, message_size_bounds()),
            "elara_message_latency_ms"@,
            message_latency_bounds(),
        ),
        "elara_state_sync_latency_ms"@,
        state_sync_latency_bounds(),
    )
}

/// Core metrics of a node: handles of the metrics registered for it, through
/// which the registry's values are updated and read.
#[derive(Clone, Copy, Debug)]
pub struct NodeMetrics {
    /// Number of currently active connections.
    pub active_connections: GaugeId,
    /// Total number of connections established since node start.
    pub total_connections: CounterId,
    /// Total number of failed connection attempts.
    pub failed_connections: CounterId,
    /// Total number of messages sent.
    pub messages_sent: CounterId,
    /// Total number of messages received.
    pub messages_received: CounterId,
    /// Total number of messages dropped.
    pub messages_dropped: CounterId,
    /// Distribution of message sizes in bytes.
    pub message_size_bytes: HistogramId,
    /// Distribution of message processing latency in milliseconds.
    pub message_latency_ms: HistogramId,
    /// Distribution of state synchronization latency in milliseconds.
    pub state_sync_latency_ms: HistogramId,
    /// Current memory usage in bytes.
    pub memory_usage_bytes: GaugeId,
    /// Current CPU usage as a percentage.
    pub cpu_usage_percent: GaugeId,
    /// Current time drift from reference time in milliseconds.
    pub time_drift_ms: GaugeId,
    /// Number of state divergences detected.
    pub state_divergence_count: GaugeId,
    /// Number of events in the quarantine buffer.
    pub quarantine_buffer_size: GaugeId,
}

/// Integer bucket bounds as histogram bounds: each ordered by its value and
/// shown with one decimal place.
fn integer_bounds(bounds: &Vec<u64>) -> (r: Vec<HistogramBound>)
    ensures
        r@.len() == bounds@.len(),
        bound_text_views(r@) == bound_numerals(bounds@),
        forall|k: int| 0 <= k < r@.len() ==> #[trigger] r@[k].order_key == Some(bounds@[k]),
{
    let mut r: Vec<HistogramBound> = Vec::new();
    let mut i: usize = 0;
    while i < bounds.len()
        invariant
            0 <= i <= bounds@.len(),
            r@.len() == i,
            bound_text_views(r@) == bound_numerals(bounds@.subrange(0, i as int)),
            forall|k: int| 0 <= k < r@.len() ==> #[trigger] r@[k].order_key == Some(bounds@[k]),
        decreases bounds@.len() - i,
    {
        let mut s = String::new();
        push_decimal(&mut s, bounds[i]);
        push_text(&mut s, ".0");
        let ghost before = r@;
        let ghost sv = s@;
        let b = HistogramBound { order_key: Some(bounds[i]), text: s };
        r.push(b);
        assert(bound_text_views(r@) =~= bound_text_views(before).push(sv));
        assert(bound_numerals(bounds@.subrange(0, i + 1)) =~= bound_numerals(
            bounds@.subrange(0, i as int),
        ).push(bound_numeral(bounds@[i as int])));
        i = i + 1;
    }
    assert(bounds@.subrange(0, bounds@.len() as int) =~= bounds@);
    r
}

proof fn lemma_no_labels(labels: Vec<(String, String)>)
    requires
        labels@.len() == 0,
    ensures
        keyed_map(pair_views(labels@)) == Map::<Seq<char>, Seq<char>>::empty(),
{
    assert(pair_views(labels@) =~= Seq::empty());
    assert(keyed_map(pair_views(labels@)) =~= Map::<Seq<char>, Seq<char>>::empty());
}

/// The counter registered under `name`, registered unlabelled first where the
/// name is free.
fn counter_handle(registry: &mut MetricsRegistry, name: &str) -> (id: CounterId)
    requires
        old(registry).well_formed(),
    ensures
        final(registry).well_formed(),
        final(registry).valid_counter(id),
        final(registry).counter_entry(id).0 == name@,
        final(registry).counter_map() == with_counter(old(registry).counter_map(), name@),
        final(registry).counter_keys() == with_key(
            old(registry).counter_keys(),
            old(registry).counter_map(),
            name@,
        ),
        final(registry).spec_counters().len() >= old(registry).spec_counters().len(),
        forall|j: int|
            0 <= j < old(registry).spec_counters().len() ==> #[trigger] final(registry).spec_counters()[j]
                == old(registry).spec_counters()[j],
        final(registry).spec_gauges() == old(registry).spec_gauges(),
        final(registry).spec_histograms() == old(registry).spec_histograms(),
{
    match registry.get_counter(name) {
        Some(id) => id,
        None => {
            let labels: Vec<(String, String)> = Vec::new();
            proof {
                lemma_no_labels(labels);
            }
            registry.register_counter(name.to_string(), labels).unwrap()
        },
    }
}

/// The gauge registered under `name`, registered unlabelled first where the
/// name is free.
fn gauge_handle(registry: &mut MetricsRegistry, name: &str) -> (id: GaugeId)
    requires
        old(registry).well_formed(),
    ensures
        final(registry).well_formed(),
        final(registry).valid_gauge(id),
        final(registry).gauge_entry(id).0 == name@,
        final(registry).gauge_map() == with_gauge(old(registry).gauge_map(), name@),
        final(registry).gauge_keys() == with_key(
            old(registry).gauge_keys(),
            old(registry).gauge_map(),
            name@,
        ),
        final(registry).spec_gauges().len() >= old(registry).spec_gauges().len(),
        forall|j: int|
            0 <= j < old(registry).spec_gauges().len() ==> #[trigger] final(registry).spec_gauges()[j]
                == old(registry).spec_gauges()[j],
        final(registry).spec_counters() == old(registry).spec_counters(),
        final(registry).spec_histograms() == old(registry).spec_histograms(),
{
    match registry.get_gauge(name) {
        Some(id) => id,
        None => {
            let labels: Vec<(String, String)> = Vec::new();
            proof {
                lemma_no_labels(labels);
            }
            registry.register_gauge(name.to_string(), labels).unwrap()
        },
    }
}

/// The histogram registered under `name`, registered unlabelled with the
/// given bounds first where the name is free.
fn histogram_handle(registry: &mut MetricsRegistry, name: &str, bounds: Vec<u64>) -> (id: HistogramId)
    requires
        old(registry).well_formed(),
        1 <= bounds@.len() < usize::MAX,
        strictly_ascending(bounds@),
    ensures
        final(registry).well_formed(),
        final(registry).valid_histogram(id),
        final(registry).histogram_entry(id).0 == name@,
        final(registry).histogram_map() == with_histogram(
            old(registry).histogram_map(),
            name@,
            bounds@,
        ),
        final(registry).histogram_keys() == with_key(
            old(registry).histogram_keys(),
            old(registry).histogram_map(),
            name@,
        ),
        final(registry).spec_histograms().len() >= old(registry).spec_histograms().len(),
        forall|j: int|
            0 <= j < old(registry).spec_histograms().len() ==> #[trigger] final(registry).spec_histograms()[j]
                == old(registry).spec_histograms()[j],
        final(registry).spec_counters() == old(registry).spec_counters(),
        final(registry).spec_gauges() == old(registry).spec_gauges(),
{
    match registry.get_histogram(name) {
        Some(id) => id,
        None => {
            let labels: Vec<(String, String)> = Vec::new();
            proof {
                lemma_no_labels(labels);
            }
            let hb = integer_bounds(&bounds);
            assert(bounds_ascending(hb@)) by {
                assert forall|k: int| 1 <= k < hb@.len() implies bound_above_previous(hb@, k) by {
                    assert(hb@[k - 1].order_key == Some(bounds@[k - 1]));
                    assert(hb@[k].order_key == Some(bounds@[k]));
                }
            }
            assert(fresh_histogram_state(hb@, labels@) =~= fresh_histogram(bounds@));
            registry.register_histogram(name.to_string(), hb, labels).unwrap()
        },
    }
}

impl NodeMetrics {
    /// Each handle refers to a metric of `r` registered under its name.
    pub open spec fn registered_in(&self, r: MetricsRegistry) -> bool {
        &&& r.valid_gauge(self.active_connections)
            && r.gauge_entry(self.active_connections).0 == "elara_active_connections"@
        &&& r.valid_counter(self.total_connections)
            && r.counter_entry(self.total_connections).0 == "elara_total_connections"@
        &&& r.valid_counter(self.failed_connections)
            && r.counter_entry(self.failed_connections).0 == "elara_failed_connections"@
        &&& r.valid_counter(self.messages_sent)
            && r.counter_entry(self.messages_sent).0 == "elara_messages_sent"@
        &&& r.valid_counter(self.messages_received)
            && r.counter_entry(self.messages_received).0 == "elara_messages_received"@
        &&& r.valid_counter(self.messages_dropped)
            && r.counter_entry(self.messages_dropped).0 == "elara_messages_dropped"@
        &&& r.valid_histogram(self.message_size_bytes)
            && r.histogram_entry(self.message_size_bytes).0 == "elara_message_size_bytes"@
        &&& r.valid_histogram(self.message_latency_ms)
            && r.histogram_entry(self.message_latency_ms).0 == "elara_message_latency_ms"@
        &&& r.valid_histogram(self.state_sync_latency_ms)
            && r.histogram_entry(self.state_sync_latency_ms).0 == "elara_state_sync_latency_ms"@
        &&& r.valid_gauge(self.memory_usage_bytes)
            && r.gauge_entry(self.memory_usage_bytes).0 == "elara_memory_usage_bytes"@
        &&& r.valid_gauge(self.cpu_usage_percent)
            && r.gauge_entry(self.cpu_usage_percent).0 == "elara_cpu_usage_percent"@
        &&& r.valid_gauge(self.time_drift_ms)
            && r.gauge_entry(self.time_drift_ms).0 == "elara_time_drift_ms"@
        &&& r.valid_gauge(self.state_divergence_count)
            && r.gauge_entry(self.state_divergence_count).0 == "elara_state_divergence_count"@
        &&& r.valid_gauge(self.quarantine_buffer_size)
            && r.gauge_entry(self.quarantine_buffer_size).0 == "elara_quarantine_buffer_size"@
    }

    /// Registers every core metric of a node with `registry` and returns
    /// their handles: five counters, six gauges and three histograms, with
    /// the bucket bounds of [`message_size_bounds`], [`message_latency_bounds`]
    /// and [`state_sync_latency_bounds`]. A name already taken keeps its
    /// metric, and the handle refers to it.
    pub fn new(registry: &mut MetricsRegistry) -> (m: Self)
        requires
            old(registry).well_formed(),
        ensures
            final(registry).well_formed(),
            final(registry).counter_map() == with_node_counters(old(registry).counter_map()),
            final(registry).gauge_map() == with_node_gauges(old(registry).gauge_map()),
            final(registry).histogram_map() == with_node_histograms(old(registry).histogram_map()),
            m.registered_in(*final(registry)),
    {
        let total_connections = counter_handle(registry, "elara_total_connections");
        let failed_connections = counter_handle(registry, "elara_failed_connections");
        let messages_sent = counter_handle(registry, "elara_messages_sent");
        let messages_received = counter_handle(registry, "elara_messages_received");
        let messages_dropped = counter_handle(registry, "elara_messages_dropped");
        let active_connections = gauge_handle(registry, "elara_active_connections");
        let memory_usage_bytes = gauge_handle(registry, "elara_memory_usage_bytes");
        let cpu_usage_percent = gauge_handle(registry, "elara_cpu_usage_percent");
        let time_drift_ms = gauge_handle(registry, "elara_time_drift_ms");
        let state_divergence_count = gauge_handle(registry, "elara_state_divergence_count");
        let quarantine_buffer_size = gauge_handle(registry, "elara_quarantine_buffer_size");
        let size_bounds: Vec<u64> = vec![64, 256, 1024, 4096, 16384, 65536, 262144, 1048576];
        assert(size_bounds@ =~= message_size_bounds());
        let message_size_bytes = histogram_handle(registry, "elara_message_size_bytes", size_bounds);
        let latency_bounds: Vec<u64> = vec![1, 5, 10, 25, 50, 100, 250, 500, 1000, 2500, 5000];
        assert(latency_bounds@ =~= message_latency_bounds());
        let message_latency_ms = histogram_handle(registry, "elara_message_latency_ms", latency_bounds);
        let sync_bounds: Vec<u64> = vec![10, 50, 100, 250, 500, 1000, 2500, 5000, 10000, 30000];
        assert(sync_bounds@ =~= state_sync_latency_bounds());
        let state_sync_latency_ms = histogram_handle(
            registry,
            "elara_state_sync_latency_ms",
            sync_bounds,
        );
        NodeMetrics {
            active_connections,
            total_connections,
            failed_connections,
            messages_sent,
            messages_received,
            messages_dropped,
            message_size_bytes,
            message_latency_ms,
            state_sync_latency_ms,
            memory_usage_bytes,
            cpu_usage_percent,
            time_drift_ms,
            state_divergence_count,
            quarantine_buffer_size,
        }
    }

    /// Returns the handle of the active connections gauge.
    pub fn active_connections(&self) -> (r: GaugeId)
        ensures
            r == self.active_connections,
    {
        self.active_connections
    }

    /// Returns the handle of the total connections counter.
    pub fn total_connections(&self) -> (r: CounterId)
        ensures
            r == self.total_connections,
    {
        self.total_connections
    }

    /// Returns the handle of the failed connections counter.
    pub fn failed_connections(&self) -> (r: CounterId)
        ensures
            r == self.failed_connections,
    {
        self.failed_connections
    }

    /// Returns the handle of the messages sent counter.
    pub fn messages_sent(&self) -> (r: CounterId)
        ensures
            r == self.messages_sent,
    {
        self.messages_sent
    }

    /// Returns the handle of the messages received counter.
    pub fn messages_received(&self) -> (r: CounterId)
        ensures
            r == self.messages_received,
    {
        self.messages_received
    }

    /// Returns the handle of the messages dropped counter.
    pub fn messages_dropped(&self) -> (r: CounterId)
        ensures
            r == self.messages_dropped,
    {
        self.messages_dropped
    }

    /// Returns the handle of the message size bytes histogram.
    pub fn message_size_bytes(&self) -> (r: HistogramId)
        ensures
            r == self.message_size_bytes,
    {
        self.message_size_bytes
    }

    /// Returns the handle of the message latency ms histogram.
    pub fn message_latency_ms(&self) -> (r: HistogramId)
        ensures
            r == self.message_latency_ms,
    {
        self.message_latency_ms
    }

    /// Returns the handle of the state sync latency ms histogram.
    pub fn state_sync_latency_ms(&self) -> (r: HistogramId)
        ensures
            r == self.state_sync_latency_ms,
    {
        self.state_sync_latency_ms
    }

    /// Returns the handle of the memory usage bytes gauge.
    pub fn memory_usage_bytes(&self) -> (r: GaugeId)
        ensures
            r == self.memory_usage_bytes,
    {
        self.memory_usage_bytes
    }

    /// Returns the handle of the cpu usage percent gauge.
    pub fn cpu_usage_percent(&self) -> (r: GaugeId)
        ensures
            r == self.cpu_usage_percent,
    {
        self.cpu_usage_percent
    }

    /// Returns the handle of the time drift ms gauge.
    pub fn time_drift_ms(&self) -> (r: GaugeId)
        ensures
            r == self.time_drift_ms,
    {
        self.time_drift_ms
    }

    /// Returns the handle of the state divergence count gauge.
    pub fn state_divergence_count(&self) -> (r: GaugeId)
        ensures
            r == self.state_divergence_count,
    {
        self.state_divergence_count
    }

    /// Returns the handle of the quarantine buffer size gauge.
    pub fn quarantine_buffer_size(&self) -> (r: GaugeId)
        ensures
            r == self.quarantine_buffer_size,
    {
        self.quarantine_buffer_size
    }
}

} // verus!
