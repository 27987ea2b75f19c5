//! The registry of named metrics.
//!
//! Each kind of metric (counters, gauges, histograms) is a map from name to
//! state, kept in the order of registration. Registering a name that is
//! already taken is refused. A metric is reached through the handle that
//! registration (or a lookup by name) gives: every handle for a name refers to
//! the one value the registry keeps under it, so an update through any of them
//! is what every other handle, and the registry itself, reads afterwards.
use vstd::prelude::*;

use crate::keyed::{
    distinct_keys, keyed_map, keys_of, lemma_distinct_push, lemma_keyed_map_dom,
    lemma_keyed_map_index, lemma_keyed_map_push, lemma_keyed_map_update,
};
use crate::metrics::{
    bound_above_previous, bounds_ascending, bound_text_views, pair_views, wrap_i64, wrap_u64, Counter,
    Gauge, HistogramBound, HistogramCounts, HistogramState, MetricsError,
};
use crate::text::{text_eq, text_views};

verus! {

/// Thread-unaware registry of all metrics of a node.
#[derive(Debug)]
pub struct MetricsRegistry {
    counters: Vec<Counter>,
    gauges: Vec<Gauge>,
    histograms: Vec<HistogramCounts>,
}

/// Name and state of each counter.
pub open spec fn counter_entries(v: Seq<Counter>) -> Seq<(Seq<char>, (u64, Map<Seq<char>, Seq<char>>))> {
    v.map_values(|c: Counter| (c.spec_name(), c.state()))
}

/// Name and state of each gauge.
pub open spec fn gauge_entries(v: Seq<Gauge>) -> Seq<(Seq<char>, (i64, Map<Seq<char>, Seq<char>>))> {
    v.map_values(|g: Gauge| (g.spec_name(), g.state()))
}

/// Name and state of each histogram.
pub open spec fn histogram_entries(v: Seq<HistogramCounts>) -> Seq<(Seq<char>, HistogramState)> {
    v.map_values(|h: HistogramCounts| (h.spec_name(), h.state()))
}

/// Handle of a registered counter.
#[derive(Clone, Copy, Debug, PartialEq, Eq)]
pub struct CounterId {
    index: usize,
}

/// Handle of a registered gauge.
#[derive(Clone, Copy, Debug, PartialEq, Eq)]
pub struct GaugeId {
    index: usize,
}

/// Handle of a registered histogram.
#[derive(Clone, Copy, Debug, PartialEq, Eq)]
pub struct HistogramId {
    index: usize,
}

impl CounterId {
    /// Position of the counter in registration order.
    pub closed spec fn index(&self) -> int {
        self.index as int
    }
}

impl GaugeId {
    /// Position of the gauge in registration order.
    pub closed spec fn index(&self) -> int {
        self.index as int
    }
}

impl HistogramId {
    /// Position of the histogram in registration order.
    pub closed spec fn index(&self) -> int {
        self.index as int
    }
}

/// The state of a histogram just registered with these bounds and labels.
pub open spec fn fresh_histogram_state(
    b: Seq<HistogramBound>,
    labels: Seq<(String, String)>,
) -> HistogramState {
    (
        Seq::new((b.len() + 1) as nat, |i: int| 0u64),
        0u64,
        0u64,
        bound_text_views(b),
        keyed_map(pair_views(labels)),
    )
}

fn check_bounds_ascend(bounds: &Vec<HistogramBound>) -> (r: bool)
    ensures
        r == bounds_ascending(bounds@),
{
    let mut k: usize = 1;
    while k < bounds.len()
        invariant
            1 <= k,
            forall|j: int| 1 <= j < k && j < bounds@.len() ==> bound_above_previous(bounds@, j),
        decreases bounds@.len() - k,
    {
        match (bounds[k - 1].order_key, bounds[k].order_key) {
            (Some(a), Some(c)) => {
                if !(a < c) {
                    assert(!bound_above_previous(bounds@, k as int));
                    return false;
                }
            },
            _ => {
                assert(!bound_above_previous(bounds@, k as int));
                return false;
            },
        }
        k = k + 1;
    }
    true
}

impl MetricsRegistry {
    /// Counters in registration order.
    pub closed spec fn spec_counters(&self) -> Seq<Counter> {
        self.counters@
    }

    /// Gauges in registration order.
    pub closed spec fn spec_gauges(&self) -> Seq<Gauge> {
        self.gauges@
    }

    /// Histograms in registration order.
    pub closed spec fn spec_histograms(&self) -> Seq<HistogramCounts> {
        self.histograms@
    }

    /// Counters by name.
    pub open spec fn counter_map(&self) -> Map<Seq<char>, (u64, Map<Seq<char>, Seq<char>>)> {
        keyed_map(counter_entries(self.spec_counters()))
    }

    /// Gauges by name.
    pub open spec fn gauge_map(&self) -> Map<Seq<char>, (i64, Map<Seq<char>, Seq<char>>)> {
        keyed_map(gauge_entries(self.spec_gauges()))
    }

    /// Histograms by name.
    pub open spec fn histogram_map(&self) -> Map<Seq<char>, HistogramState> {
        keyed_map(histogram_entries(self.spec_histograms()))
    }

    /// Counter names in registration order.
    pub open spec fn counter_keys(&self) -> Seq<Seq<char>> {
        keys_of(counter_entries(self.spec_counters()))
    }

    /// Gauge names in registration order.
    pub open spec fn gauge_keys(&self) -> Seq<Seq<char>> {
        keys_of(gauge_entries(self.spec_gauges()))
    }

    /// Histogram names in registration order.
    pub open spec fn histogram_keys(&self) -> Seq<Seq<char>> {
        keys_of(histogram_entries(self.spec_histograms()))
    }

    /// The handle refers to a registered counter.
    pub open spec fn valid_counter(&self, id: CounterId) -> bool {
        0 <= id.index() < self.spec_counters().len()
    }

    /// The handle refers to a registered gauge.
    pub open spec fn valid_gauge(&self, id: GaugeId) -> bool {
        0 <= id.index() < self.spec_gauges().len()
    }

    /// The handle refers to a registered histogram.
    pub open spec fn valid_histogram(&self, id: HistogramId) -> bool {
        0 <= id.index() < self.spec_histograms().len()
    }

    /// Name and state of the counter a handle refers to.
    pub open spec fn counter_entry(&self, id: CounterId) -> (Seq<char>, (u64, Map<Seq<char>, Seq<char>>)) {
        counter_entries(self.spec_counters())[id.index()]
    }

    /// Name and state of the gauge a handle refers to.
    pub open spec fn gauge_entry(&self, id: GaugeId) -> (Seq<char>, (i64, Map<Seq<char>, Seq<char>>)) {
        gauge_entries(self.spec_gauges())[id.index()]
    }

    /// Name and state of the histogram a handle refers to.
    pub open spec fn histogram_entry(&self, id: HistogramId) -> (Seq<char>, HistogramState) {
        histogram_entries(self.spec_histograms())[id.index()]
    }

    /// Names are unique within each kind, and every histogram is well formed.
    pub open spec fn well_formed(&self) -> bool {
        &&& distinct_keys(counter_entries(self.spec_counters()))
        &&& distinct_keys(gauge_entries(self.spec_gauges()))
        &&& distinct_keys(histogram_entries(self.spec_histograms()))
        &&& forall|i: int|
            0 <= i < self.spec_histograms().len() ==> #[trigger] self.spec_histograms()[i].well_formed()
    }

    /// Creates a new empty metrics registry.
    pub fn new() -> (r: Self)
        ensures
            r.well_formed(),
            r.spec_counters().len() == 0,
            r.spec_gauges().len() == 0,
            r.spec_histograms().len() == 0,
            r.counter_map() == Map::<Seq<char>, (u64, Map<Seq<char>, Seq<char>>)>::empty(),
            r.gauge_map() == Map::<Seq<char>, (i64, Map<Seq<char>, Seq<char>>)>::empty(),
            r.histogram_map() == Map::<Seq<char>, HistogramState>::empty(),
    {
        let r = MetricsRegistry { counters: Vec::new(), gauges: Vec::new(), histograms: Vec::new() };
        assert(counter_entries(r.counters@) =~= Seq::empty());
        assert(gauge_entries(r.gauges@) =~= Seq::empty());
        assert(histogram_entries(r.histograms@) =~= Seq::empty());
        r
    }

    fn find_counter(&self, name: &str) -> (r: Option<usize>)
        requires
            self.well_formed(),
        ensures
            r is Some <==> self.counter_map().contains_key(name@),
            r is Some ==> r->0 < self.spec_counters().len() && self.spec_counters()[r->0 as int].spec_name()
                == name@,
    {
        let ghost e = counter_entries(self.counters@);
        let mut i: usize = 0;
        while i < self.counters.len()
            invariant
                0 <= i <= self.counters@.len(),
                e == counter_entries(self.counters@),
                forall|j: int| 0 <= j < i ==> e[j].0 != name@,
            decreases self.counters@.len() - i,
        {
            if text_eq(self.counters[i].name(), name) {
                proof {
                    lemma_keyed_map_dom(e, name@);
                    assert(e[i as int].0 == name@);
                }
                return Some(i);
            }
            i = i + 1;
        }
        proof {
            lemma_keyed_map_dom(e, name@);
        }
        None
    }

    fn find_gauge(&self, name: &str) -> (r: Option<usize>)
        requires
            self.well_formed(),
        ensures
            r is Some <==> self.gauge_map().contains_key(name@),
            r is Some ==> r->0 < self.spec_gauges().len() && self.spec_gauges()[r->0 as int].spec_name()
                == name@,
    {
        let ghost e = gauge_entries(self.gauges@);
        let mut i: usize = 0;
        while i < self.gauges.len()
            invariant
                0 <= i <= self.gauges@.len(),
                e == gauge_entries(self.gauges@),
                forall|j: int| 0 <= j < i ==> e[j].0 != name@,
            decreases self.gauges@.len() - i,
        {
            if text_eq(self.gauges[i].name(), name) {
                proof {
                    lemma_keyed_map_dom(e, name@);
                    assert(e[i as int].0 == name@);
                }
                return Some(i);
            }
            i = i + 1;
        }
        proof {
            lemma_keyed_map_dom(e, name@);
        }
        None
    }

    fn find_histogram(&self, name: &str) -> (r: Option<usize>)
        requires
            self.well_formed(),
        ensures
            r is Some <==> self.histogram_map().contains_key(name@),
            r is Some ==> r->0 < self.spec_histograms().len()
                && self.spec_histograms()[r->0 as int].spec_name() == name@,
    {
        let ghost e = histogram_entries(self.histograms@);
        let mut i: usize = 0;
        while i < self.histograms.len()
            invariant
                0 <= i <= self.histograms@.len(),
                e == histogram_entries(self.histograms@),
                forall|j: int| 0 <= j < i ==> e[j].0 != name@,
            decreases self.histograms@.len() - i,
        {
            if text_eq(self.histograms[i].name(), name) {
                proof {
                    lemma_keyed_map_dom(e, name@);
                    assert(e[i as int].0 == name@);
                }
                return Some(i);
            }
            i = i + 1;
        }
        proof {
            lemma_keyed_map_dom(e, name@);
        }
        None
    }

    /// Registers a counter with the given name and labels, placed after those
    /// registered before. A name already taken is refused with
    /// [`MetricsError::AlreadyExists`] and the registry is left unchanged.
    pub fn register_counter(&mut self, name: String, labels: Vec<(String, String)>) -> (r: Result<
        CounterId,
        MetricsError,
    >)
        requires
            old(self).well_formed(),
        ensures
            final(self).well_formed(),
            old(self).counter_map().contains_key(name@) ==> {
                &&& r == Err::<CounterId, MetricsError>(MetricsError::AlreadyExists(name))
                &&& *final(self) == *old(self)
            },
            !old(self).counter_map().contains_key(name@) ==> {
                &&& r is Ok
                &&& r->Ok_0.index() == old(self).spec_counters().len()
                &&& final(self).spec_counters() == old(self).spec_counters().push(final(self).spec_counters().last())
                &&& final(self).valid_counter(r->Ok_0)
                &&& final(self).counter_entry(r->Ok_0) == (name@, (0u64, keyed_map(pair_views(labels@))))
                &&& final(self).counter_map() == old(self).counter_map().insert(
                    name@,
                    (0u64, keyed_map(pair_views(labels@))),
                )
                &&& final(self).counter_keys() == old(self).counter_keys().push(name@)
            },
            final(self).spec_gauges() == old(self).spec_gauges(),
            final(self).spec_histograms() == old(self).spec_histograms(),
    {
        let ghost e = counter_entries(self.counters@);
        match self.find_counter(name.as_str()) {
            Some(i) => {
                proof {
                    lemma_keyed_map_index(e, i as int);
                }
                Err(MetricsError::AlreadyExists(name))
            },
            None => {
                let ghost nv = name@;
                let m = Counter::new(name, labels);
                let ghost st = m.state();
                let ghost before = self.counters@;
                let id = CounterId { index: self.counters.len() };
                self.counters.push(m);
                proof {
                    assert(counter_entries(self.counters@) =~= e.push((nv, st)));
                    lemma_keyed_map_push(e, (nv, st));
                    lemma_distinct_push(e, (nv, st));
                    assert(keys_of(counter_entries(self.counters@)) =~= keys_of(e).push(nv));
                    assert(self.counters@ =~= before.push(self.counters@.last()));
                }
                Ok(id)
            },
        }
    }

    /// The handle of the counter registered under `name`, if any.
    pub fn get_counter(&self, name: &str) -> (r: Option<CounterId>)
        requires
            self.well_formed(),
        ensures
            r is Some <==> self.counter_map().contains_key(name@),
            r is Some ==> self.valid_counter(r->0) && self.counter_entry(r->0).0 == name@,
    {
        match self.find_counter(name) {
            Some(i) => Some(CounterId { index: i }),
            None => None,
        }
    }

    /// The registered counter a handle refers to.
    pub fn counter(&self, id: CounterId) -> (r: &Counter)
        requires
            self.valid_counter(id),
        ensures
            *r == self.spec_counters()[id.index()],
    {
        &self.counters[id.index]
    }

    /// Registers a gauge with the given name and labels, placed after those
    /// registered before. A name already taken is refused with
    /// [`MetricsError::AlreadyExists`] and the registry is left unchanged.
    pub fn register_gauge(&mut self, name: String, labels: Vec<(String, String)>) -> (r: Result<
        GaugeId,
        MetricsError,
    >)
        requires
            old(self).well_formed(),
        ensures
            final(self).well_formed(),
            old(self).gauge_map().contains_key(name@) ==> {
                &&& r == Err::<GaugeId, MetricsError>(MetricsError::AlreadyExists(name))
                &&& *final(self) == *old(self)
            },
            !old(self).gauge_map().contains_key(name@) ==> {
                &&& r is Ok
                &&& r->Ok_0.index() == old(self).spec_gauges().len()
                &&& final(self).spec_gauges() == old(self).spec_gauges().push(final(self).spec_gauges().last())
                &&& final(self).valid_gauge(r->Ok_0)
                &&& final(self).gauge_entry(r->Ok_0) == (name@, (0i64, keyed_map(pair_views(labels@))))
                &&& final(self).gauge_map() == old(self).gauge_map().insert(
                    name@,
                    (0i64, keyed_map(pair_views(labels@))),
                )
                &&& final(self).gauge_keys() == old(self).gauge_keys().push(name@)
            },
            final(self).spec_counters() == old(self).spec_counters(),
            final(self).spec_histograms() == old(self).spec_histograms(),
    {
        let ghost e = gauge_entries(self.gauges@);
        match self.find_gauge(name.as_str()) {
            Some(i) => {
                proof {
                    lemma_keyed_map_index(e, i as int);
                }
                Err(MetricsError::AlreadyExists(name))
            },
            None => {
                let ghost nv = name@;
                let m = Gauge::new(name, labels);
                let ghost st = m.state();
                let ghost before = self.gauges@;
                let id = GaugeId { index: self.gauges.len() };
                self.gauges.push(m);
                proof {
                    assert(gauge_entries(self.gauges@) =~= e.push((nv, st)));
                    lemma_keyed_map_push(e, (nv, st));
                    lemma_distinct_push(e, (nv, st));
                    assert(keys_of(gauge_entries(self.gauges@)) =~= keys_of(e).push(nv));
                    assert(self.gauges@ =~= before.push(self.gauges@.last()));
                }
                Ok(id)
            },
        }
    }

    /// The handle of the gauge registered under `name`, if any.
    pub fn get_gauge(&self, name: &str) -> (r: Option<GaugeId>)
        requires
            self.well_formed(),
        ensures
            r is Some <==> self.gauge_map().contains_key(name@),
            r is Some ==> self.valid_gauge(r->0) && self.gauge_entry(r->0).0 == name@,
    {
        match self.find_gauge(name) {
            Some(i) => Some(GaugeId { index: i }),
            None => None,
        }
    }

    /// The registered gauge a handle refers to.
    pub fn gauge(&self, id: GaugeId) -> (r: &Gauge)
        requires
            self.valid_gauge(id),
        ensures
            *r == self.spec_gauges()[id.index()],
    {
        &self.gauges[id.index]
    }

    /// Registers a histogram with the given bucket bounds and labels, placed
    /// after those registered before. A name already taken is refused with
    /// [`MetricsError::AlreadyExists`]; bounds that are empty, or not each above
    /// the one before, with [`MetricsError::InvalidConfig`]. A refused
    /// registration leaves the registry unchanged.
    pub fn register_histogram(
        &mut self,
        name: String,
        bounds: Vec<HistogramBound>,
        labels: Vec<(String, String)>,
    ) -> (r: Result<HistogramId, MetricsError>)
        requires
            old(self).well_formed(),
            bounds@.len() < usize::MAX,
        ensures
            final(self).well_formed(),
            final(self).spec_counters() == old(self).spec_counters(),
            final(self).spec_gauges() == old(self).spec_gauges(),
            old(self).histogram_map().contains_key(name@) ==> r == Err::<HistogramId, MetricsError>(
                MetricsError::AlreadyExists(name),
            ),
            !old(self).histogram_map().contains_key(name@) && bounds@.len() == 0 ==> (r matches Err(
                MetricsError::InvalidConfig(m),
            ) && m@ == "Histogram buckets cannot be empty"@),
            !old(self).histogram_map().contains_key(name@) && bounds@.len() > 0 && !bounds_ascending(
                bounds@,
            ) ==> (r matches Err(MetricsError::InvalidConfig(m)) && m@
                == "Histogram buckets must be sorted in ascending order"@),
            r is Ok <==> (!old(self).histogram_map().contains_key(name@) && bounds@.len() > 0
                && bounds_ascending(bounds@)),
            r is Err ==> *final(self) == *old(self),
            r is Ok ==> {
                &&& r->Ok_0.index() == old(self).spec_histograms().len()
                &&& final(self).spec_histograms() == old(self).spec_histograms().push(
                    final(self).spec_histograms().last(),
                )
                &&& final(self).valid_histogram(r->Ok_0)
                &&& final(self).histogram_entry(r->Ok_0) == (name@, fresh_histogram_state(bounds@, labels@))
                &&& final(self).histogram_map() == old(self).histogram_map().insert(
                    name@,
                    fresh_histogram_state(bounds@, labels@),
                )
                &&& final(self).histogram_keys() == old(self).histogram_keys().push(name@)
            },
    {
        let ghost e = histogram_entries(self.histograms@);
        match self.find_histogram(name.as_str()) {
            Some(_) => {
                return Err(MetricsError::AlreadyExists(name));
            },
            None => {},
        }
        if bounds.len() == 0 {
            let m = "Histogram buckets cannot be empty".to_owned();
            proof {
                reveal_strlit("Histogram buckets cannot be empty");
            }
            return Err(MetricsError::InvalidConfig(m));
        }
        if !check_bounds_ascend(&bounds) {
            let m = "Histogram buckets must be sorted in ascending order".to_owned();
            proof {
                reveal_strlit("Histogram buckets must be sorted in ascending order");
            }
            return Err(MetricsError::InvalidConfig(m));
        }
        let ghost nv = name@;
        let ghost bv = bounds@;
        let ghost lv = labels@;
        let h = HistogramCounts::new(name, bounds, labels);
        let ghost st = h.state();
        assert(st == fresh_histogram_state(bv, lv));
        let ghost before = self.histograms@;
        let id = HistogramId { index: self.histograms.len() };
        self.histograms.push(h);
        proof {
            assert(histogram_entries(self.histograms@) =~= e.push((nv, st)));
            lemma_keyed_map_push(e, (nv, st));
            lemma_distinct_push(e, (nv, st));
            assert(keys_of(histogram_entries(self.histograms@)) =~= keys_of(e).push(nv));
            assert(self.histograms@ =~= before.push(self.histograms@.last()));
            assert forall|j: int| 0 <= j < self.histograms@.len() implies #[trigger] self.histograms@[j].well_formed() by {
                if j < before.len() {
                    assert(self.histograms@[j] == before[j]);
                }
            }
        }
        Ok(id)
    }

    /// The handle of the histogram registered under `name`, if any.
    pub fn get_histogram(&self, name: &str) -> (r: Option<HistogramId>)
        requires
            self.well_formed(),
        ensures
            r is Some <==> self.histogram_map().contains_key(name@),
            r is Some ==> self.valid_histogram(r->0) && self.histogram_entry(r->0).0 == name@,
    {
        match self.find_histogram(name) {
            Some(i) => Some(HistogramId { index: i }),
            None => None,
        }
    }

    /// The registered histogram a handle refers to.
    pub fn histogram(&self, id: HistogramId) -> (r: &HistogramCounts)
        requires
            self.well_formed(),
            self.valid_histogram(id),
        ensures
            *r == self.spec_histograms()[id.index()],
            r.well_formed(),
    {
        &self.histograms[id.index]
    }

    /// Returns all registered counter names, in registration order.
    pub fn counter_names(&self) -> (r: Vec<String>)
        ensures
            text_views(r@) == self.counter_keys(),
    {
        let mut r: Vec<String> = Vec::new();
        let mut i: usize = 0;
        while i < self.counters.len()
            invariant
                0 <= i <= self.counters@.len(),
                text_views(r@) == self.counter_keys().subrange(0, i as int),
            decreases self.counters@.len() - i,
        {
            let n = self.counters[i].name().to_owned();
            let ghost before = r@;
            r.push(n);
            proof {
                assert(r@ =~= before.push(n));
                assert(text_views(r@) =~= text_views(before).push(n@));
            }
            i = i + 1;
            assert(text_views(r@) =~= self.counter_keys().subrange(0, i as int));
        }
        assert(self.counter_keys().subrange(0, self.counters@.len() as int) =~= self.counter_keys());
        r
    }

    /// Returns all registered gauge names, in registration order.
    pub fn gauge_names(&self) -> (r: Vec<String>)
        ensures
            text_views(r@) == self.gauge_keys(),
    {
        let mut r: Vec<String> = Vec::new();
        let mut i: usize = 0;
        while i < self.gauges.len()
            invariant
                0 <= i <= self.gauges@.len(),
                text_views(r@) == self.gauge_keys().subrange(0, i as int),
            decreases self.gauges@.len() - i,
        {
            let n = self.gauges[i].name().to_owned();
            let ghost before = r@;
            r.push(n);
            proof {
                assert(r@ =~= before.push(n));
                assert(text_views(r@) =~= text_views(before).push(n@));
            }
            i = i + 1;
            assert(text_views(r@) =~= self.gauge_keys().subrange(0, i as int));
        }
        assert(self.gauge_keys().subrange(0, self.gauges@.len() as int) =~= self.gauge_keys());
        r
    }

    /// Returns all registered histogram names, in registration order.
    pub fn histogram_names(&self) -> (r: Vec<String>)
        ensures
            text_views(r@) == self.histogram_keys(),
    {
        let mut r: Vec<String> = Vec::new();
        let mut i: usize = 0;
        while i < self.histograms.len()
            invariant
                0 <= i <= self.histograms@.len(),
                text_views(r@) == self.histogram_keys().subrange(0, i as int),
            decreases self.histograms@.len() - i,
        {
            let n = self.histograms[i].name().to_owned();
            let ghost before = r@;
            r.push(n);
            proof {
                assert(r@ =~= before.push(n));
                assert(text_views(r@) =~= text_views(before).push(n@));
            }
            i = i + 1;
            assert(text_views(r@) =~= self.histogram_keys().subrange(0, i as int));
        }
        assert(self.histogram_keys().subrange(0, self.histograms@.len() as int)
            =~= self.histogram_keys());
        r
    }

    /// Increments the counter `id` refers to by 1 (wrapping).
    pub fn counter_inc(&mut self, id: CounterId)
        requires
            old(self).well_formed(),
            old(self).valid_counter(id),
        ensures
            final(self).well_formed(),
            final(self).spec_counters().len() == old(self).spec_counters().len(),
            final(self).counter_entry(id) == (
                old(self).counter_entry(id).0,
                (wrap_u64(old(self).counter_entry(id).1.0 + 1), old(self).counter_entry(id).1.1),
            ),
            forall|j: int|
                0 <= j < old(self).spec_counters().len() && j != id.index() ==> final(self).spec_counters()[j]
                    == old(self).spec_counters()[j],
            final(self).counter_map() == old(self).counter_map().insert(
                old(self).counter_entry(id).0,
                final(self).counter_entry(id).1,
            ),
            final(self).counter_keys() == old(self).counter_keys(),
            final(self).spec_gauges() == old(self).spec_gauges(),
            final(self).spec_histograms() == old(self).spec_histograms(),
    {
        let ghost e = counter_entries(self.counters@);
        let i = id.index;
        self.counters[i].inc();
        proof {
            let st = self.counters@[i as int].state();
            assert(counter_entries(self.counters@) =~= e.update(i as int, (e[i as int].0, st)));
            lemma_keyed_map_update(e, i as int, st);
            assert(keys_of(counter_entries(self.counters@)) =~= keys_of(e));
        }
    }

    /// Increments the counter `id` refers to by `n` (wrapping).
    pub fn counter_inc_by(&mut self, id: CounterId, n: u64)
        requires
            old(self).well_formed(),
            old(self).valid_counter(id),
        ensures
            final(self).well_formed(),
            final(self).spec_counters().len() == old(self).spec_counters().len(),
            final(self).counter_entry(id) == (
                old(self).counter_entry(id).0,
                (wrap_u64(old(self).counter_entry(id).1.0 + n), old(self).counter_entry(id).1.1),
            ),
            forall|j: int|
                0 <= j < old(self).spec_counters().len() && j != id.index() ==> final(self).spec_counters()[j]
                    == old(self).spec_counters()[j],
            final(self).counter_map() == old(self).counter_map().insert(
                old(self).counter_entry(id).0,
                final(self).counter_entry(id).1,
            ),
            final(self).counter_keys() == old(self).counter_keys(),
            final(self).spec_gauges() == old(self).spec_gauges(),
            final(self).spec_histograms() == old(self).spec_histograms(),
    {
        let ghost e = counter_entries(self.counters@);
        let i = id.index;
        self.counters[i].inc_by(n);
        proof {
            let st = self.counters@[i as int].state();
            assert(counter_entries(self.counters@) =~= e.update(i as int, (e[i as int].0, st)));
            lemma_keyed_map_update(e, i as int, st);
            assert(keys_of(counter_entries(self.counters@)) =~= keys_of(e));
        }
    }

    /// Sets the gauge `id` refers to.
    pub fn gauge_set(&mut self, id: GaugeId, value: i64)
        requires
            old(self).well_formed(),
            old(self).valid_gauge(id),
        ensures
            final(self).well_formed(),
            final(self).spec_gauges().len() == old(self).spec_gauges().len(),
            final(self).gauge_entry(id) == (
                old(self).gauge_entry(id).0,
                (value, old(self).gauge_entry(id).1.1),
            ),
            forall|j: int|
                0 <= j < old(self).spec_gauges().len() && j != id.index() ==> final(self).spec_gauges()[j]
                    == old(self).spec_gauges()[j],
            final(self).gauge_map() == old(self).gauge_map().insert(
                old(self).gauge_entry(id).0,
                final(self).gauge_entry(id).1,
            ),
            final(self).gauge_keys() == old(self).gauge_keys(),
            final(self).spec_counters() == old(self).spec_counters(),
            final(self).spec_histograms() == old(self).spec_histograms(),
    {
        let ghost e = gauge_entries(self.gauges@);
        let i = id.index;
        self.gauges[i].set(value);
        proof {
            let st = self.gauges@[i as int].state();
            assert(gauge_entries(self.gauges@) =~= e.update(i as int, (e[i as int].0, st)));
            lemma_keyed_map_update(e, i as int, st);
            assert(keys_of(gauge_entries(self.gauges@)) =~= keys_of(e));
        }
    }

    /// Increments the gauge `id` refers to by 1 (wrapping).
    pub fn gauge_inc(&mut self, id: GaugeId)
        requires
            old(self).well_formed(),
            old(self).valid_gauge(id),
        ensures
            final(self).well_formed(),
            final(self).spec_gauges().len() == old(self).spec_gauges().len(),
            final(self).gauge_entry(id) == (
                old(self).gauge_entry(id).0,
                (wrap_i64(old(self).gauge_entry(id).1.0 + 1), old(self).gauge_entry(id).1.1),
            ),
            forall|j: int|
                0 <= j < old(self).spec_gauges().len() && j != id.index() ==> final(self).spec_gauges()[j]
                    == old(self).spec_gauges()[j],
            final(self).gauge_map() == old(self).gauge_map().insert(
                old(self).gauge_entry(id).0,
                final(self).gauge_entry(id).1,
            ),
            final(self).gauge_keys() == old(self).gauge_keys(),
            final(self).spec_counters() == old(self).spec_counters(),
            final(self).spec_histograms() == old(self).spec_histograms(),
    {
        let ghost e = gauge_entries(self.gauges@);
        let i = id.index;
        self.gauges[i].inc();
        proof {
            let st = self.gauges@[i as int].state();
            assert(gauge_entries(self.gauges@) =~= e.update(i as int, (e[i as int].0, st)));
            lemma_keyed_map_update(e, i as int, st);
            assert(keys_of(gauge_entries(self.gauges@)) =~= keys_of(e));
        }
    }

    /// Decrements the gauge `id` refers to by 1 (wrapping).
    pub fn gauge_dec(&mut self, id: GaugeId)
        requires
            old(self).well_formed(),
            old(self).valid_gauge(id),
        ensures
            final(self).well_formed(),
            final(self).spec_gauges().len() == old(self).spec_gauges().len(),
            final(self).gauge_entry(id) == (
                old(self).gauge_entry(id).0,
                (wrap_i64(old(self).gauge_entry(id).1.0 - 1), old(self).gauge_entry(id).1.1),
            ),
            forall|j: int|
                0 <= j < old(self).spec_gauges().len() && j != id.index() ==> final(self).spec_gauges()[j]
                    == old(self).spec_gauges()[j],
            final(self).gauge_map() == old(self).gauge_map().insert(
                old(self).gauge_entry(id).0,
                final(self).gauge_entry(id).1,
            ),
            final(self).gauge_keys() == old(self).gauge_keys(),
            final(self).spec_counters() == old(self).spec_counters(),
            final(self).spec_histograms() == old(self).spec_histograms(),
    {
        let ghost e = gauge_entries(self.gauges@);
        let i = id.index;
        self.gauges[i].dec();
        proof {
            let st = self.gauges@[i as int].state();
            assert(gauge_entries(self.gauges@) =~= e.update(i as int, (e[i as int].0, st)));
            lemma_keyed_map_update(e, i as int, st);
            assert(keys_of(gauge_entries(self.gauges@)) =~= keys_of(e));
        }
    }

    /// Adds `n` to the gauge `id` refers to (wrapping).
    pub fn gauge_add(&mut self, id: GaugeId, n: i64)
        requires
            old(self).well_formed(),
            old(self).valid_gauge(id),
        ensures
            final(self).well_formed(),
            final(self).spec_gauges().len() == old(self).spec_gauges().len(),
            final(self).gauge_entry(id) == (
                old(self).gauge_entry(id).0,
                (wrap_i64(old(self).gauge_entry(id).1.0 + n), old(self).gauge_entry(id).1.1),
            ),
            forall|j: int|
                0 <= j < old(self).spec_gauges().len() && j != id.index() ==> final(self).spec_gauges()[j]
                    == old(self).spec_gauges()[j],
            final(self).gauge_map() == old(self).gauge_map().insert(
                old(self).gauge_entry(id).0,
                final(self).gauge_entry(id).1,
            ),
            final(self).gauge_keys() == old(self).gauge_keys(),
            final(self).spec_counters() == old(self).spec_counters(),
            final(self).spec_histograms() == old(self).spec_histograms(),
    {
        let ghost e = gauge_entries(self.gauges@);
        let i = id.index;
        self.gauges[i].add(n);
        proof {
            let st = self.gauges@[i as int].state();
            assert(gauge_entries(self.gauges@) =~= e.update(i as int, (e[i as int].0, st)));
            lemma_keyed_map_update(e, i as int, st);
            assert(keys_of(gauge_entries(self.gauges@)) =~= keys_of(e));
        }
    }

    /// Subtracts `n` from the gauge `id` refers to (wrapping).
    pub fn gauge_sub(&mut self, id: GaugeId, n: i64)
        requires
            old(self).well_formed(),
            old(self).valid_gauge(id),
        ensures
            final(self).well_formed(),
            final(self).spec_gauges().len() == old(self).spec_gauges().len(),
            final(self).gauge_entry(id) == (
                old(self).gauge_entry(id).0,
                (wrap_i64(old(self).gauge_entry(id).1.0 - n), old(self).gauge_entry(id).1.1),
            ),
            forall|j: int|
                0 <= j < old(self).spec_gauges().len() && j != id.index() ==> final(self).spec_gauges()[j]
                    == old(self).spec_gauges()[j],
            final(self).gauge_map() == old(self).gauge_map().insert(
                old(self).gauge_entry(id).0,
                final(self).gauge_entry(id).1,
            ),
            final(self).gauge_keys() == old(self).gauge_keys(),
            final(self).spec_counters() == old(self).spec_counters(),
            final(self).spec_histograms() == old(self).spec_histograms(),
    {
        let ghost e = gauge_entries(self.gauges@);
        let i = id.index;
        self.gauges[i].sub(n);
        proof {
            let st = self.gauges@[i as int].state();
            assert(gauge_entries(self.gauges@) =~= e.update(i as int, (e[i as int].0, st)));
            lemma_keyed_map_update(e, i as int, st);
            assert(keys_of(gauge_entries(self.gauges@)) =~= keys_of(e));
        }
    }

    /// Records an observation in bucket `bucket` of the histogram `id` refers
    /// to (the overflow bucket is the number of bounds), whose value is
    /// `value_micros` micro-units.
    pub fn histogram_record(&mut self, id: HistogramId, bucket: usize, value_micros: u64)
        requires
            old(self).well_formed(),
            old(self).valid_histogram(id),
            bucket <= old(self).histogram_entry(id).1.3.len(),
        ensures
            final(self).well_formed(),
            final(self).spec_histograms().len() == old(self).spec_histograms().len(),
            final(self).histogram_entry(id) == (
                old(self).histogram_entry(id).0,
                (
                    old(self).histogram_entry(id).1.0.update(
                        bucket as int,
                        wrap_u64(old(self).histogram_entry(id).1.0[bucket as int] + 1),
                    ),
                    wrap_u64(old(self).histogram_entry(id).1.1 + 1),
                    wrap_u64(old(self).histogram_entry(id).1.2 + value_micros),
                    old(self).histogram_entry(id).1.3,
                    old(self).histogram_entry(id).1.4,
                ),
            ),
            forall|j: int|
                0 <= j < old(self).spec_histograms().len() && j != id.index() ==> final(self).spec_histograms()[j]
                    == old(self).spec_histograms()[j],
            final(self).histogram_map() == old(self).histogram_map().insert(
                old(self).histogram_entry(id).0,
                final(self).histogram_entry(id).1,
            ),
            final(self).histogram_keys() == old(self).histogram_keys(),
            final(self).spec_counters() == old(self).spec_counters(),
            final(self).spec_gauges() == old(self).spec_gauges(),
    {
        let ghost e = histogram_entries(self.histograms@);
        let ghost before = self.histograms@;
        let i = id.index;
        proof {
            assert(self.histograms@[i as int].well_formed());
        }
        self.histograms[i].record(bucket, value_micros);
        proof {
            let st = self.histograms@[i as int].state();
            assert(histogram_entries(self.histograms@) =~= e.update(i as int, (e[i as int].0, st)));
            lemma_keyed_map_update(e, i as int, st);
            assert(keys_of(histogram_entries(self.histograms@)) =~= keys_of(e));
            assert forall|j: int| 0 <= j < self.histograms@.len() implies #[trigger] self.histograms@[j].well_formed() by {
                if j != i {
                    assert(self.histograms@[j] == before[j]);
                }
            }
        }
    }

    /// The counters, in registration order.
    pub fn counters(&self) -> (r: &Vec<Counter>)
        ensures
            r@ == self.spec_counters(),
    {
        &self.counters
    }

    /// The gauges, in registration order.
    pub fn gauges(&self) -> (r: &Vec<Gauge>)
        ensures
            r@ == self.spec_gauges(),
    {
        &self.gauges
    }

    /// The histograms, in registration order.
    pub fn histograms(&self) -> (r: &Vec<HistogramCounts>)
        ensures
            r@ == self.spec_histograms(),
    {
        &self.histograms
    }
}

impl Default for MetricsRegistry {
    fn default() -> (r: Self)
        ensures
            r.well_formed(),
            r.spec_counters().len() == 0,
            r.spec_gauges().len() == 0,
            r.spec_histograms().len() == 0,
    {
        Self::new()
    }
}

} // verus!
