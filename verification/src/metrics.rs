//! Counters, gauges and histogram counts, and the registry that holds them by name.
//!
//! Values wrap around on overflow as the atomic operations they stand for do.
//! A histogram here keeps the integer state of a histogram (per-bucket
//! counts, total count, sum in micro-units) together with the text of each
//! bucket's upper bound; locating the bucket of a floating-point observation is
//! left to the caller.
use vstd::prelude::*;

use crate::keyed::{
    distinct_keys, keyed_map, lemma_distinct_push, lemma_keyed_map_dom, lemma_keyed_map_index,
    lemma_keyed_map_len, lemma_keyed_map_push, lemma_keyed_map_update,
};
use crate::text::{text_eq, text_views};

verus! {

/// 2^64, the modulus of `u64` arithmetic.
pub open spec fn u64_modulus() -> int {
    0x1_0000_0000_0000_0000
}

/// `x` reduced into the range of `u64`, as wrapping arithmetic does.
pub open spec fn wrap_u64(x: int) -> u64 {
    (x % u64_modulus()) as u64
}

/// `x` reduced into the range of `i64`, as wrapping arithmetic does.
pub open spec fn wrap_i64(x: int) -> i64 {
    ((x + 0x8000_0000_0000_0000) % u64_modulus() - 0x8000_0000_0000_0000) as i64
}

fn wrapping_add_u64(x: u64, y: u64) -> (r: u64)
    ensures
        r == wrap_u64(x + y),
{
    x.wrapping_add(y)
}

fn wrapping_add_i64(x: i64, y: i64) -> (r: i64)
    ensures
        r == wrap_i64(x + y),
{
    x.wrapping_add(y)
}

fn wrapping_sub_i64(x: i64, y: i64) -> (r: i64)
    ensures
        r == wrap_i64(x - y),
{
    x.wrapping_sub(y)
}

/// Errors that can occur during metrics operations.
#[derive(Clone, Debug, PartialEq, Eq)]
pub enum MetricsError {
    /// Metric with the given name already exists.
    AlreadyExists(String),
    /// Metric with the given name was not found.
    NotFound(String),
    /// Invalid metric configuration.
    InvalidConfig(String),
}

/// The views of name-value text pairs.
pub open spec fn pair_views(pairs: Seq<(String, String)>) -> Seq<(Seq<char>, Seq<char>)> {
    pairs.map_values(|p: (String, String)| (p.0@, p.1@))
}

/// Key-value labels of a metric; a later pair with the same key replaces an earlier one.
#[derive(Debug)]
pub struct Labels {
    entries: Vec<(String, String)>,
}

impl Labels {
    /// The labels as entries in insertion order.
    pub closed spec fn entries_view(&self) -> Seq<(Seq<char>, Seq<char>)> {
        pair_views(self.entries@)
    }

    /// The labels as a map from key to value.
    pub open spec fn map(&self) -> Map<Seq<char>, Seq<char>> {
        keyed_map(self.entries_view())
    }

    #[verifier::type_invariant]
    closed spec fn keys_distinct(&self) -> bool {
        distinct_keys(self.entries_view())
    }

    /// No labels.
    pub fn empty() -> (r: Labels)
        ensures
            r.entries_view().len() == 0,
            r.map() == Map::<Seq<char>, Seq<char>>::empty(),
    {
        let r = Labels { entries: Vec::new() };
        assert(r.entries_view() =~= Seq::<(Seq<char>, Seq<char>)>::empty());
        r
    }

    /// Collects pairs into labels; the last value given for a key is kept.
    pub fn from_pairs(pairs: Vec<(String, String)>) -> (r: Labels)
        ensures
            r.map() == keyed_map(pair_views(pairs@)),
    {
        let mut entries: Vec<(String, String)> = Vec::new();
        let mut k: usize = 0;
        assert(pair_views(entries@) =~= Seq::<(Seq<char>, Seq<char>)>::empty());
        assert(pair_views(pairs@.subrange(0, 0)) =~= Seq::<(Seq<char>, Seq<char>)>::empty());
        while k < pairs.len()
            invariant
                0 <= k <= pairs@.len(),
                distinct_keys(pair_views(entries@)),
                keyed_map(pair_views(entries@)) == keyed_map(
                    pair_views(pairs@.subrange(0, k as int)),
                ),
            decreases pairs@.len() - k,
        {
            let key = pairs[k].0.clone();
            let value = pairs[k].1.clone();
            let ghost before = pair_views(entries@);
            let mut i: usize = 0;
            let mut found = false;
            while i < entries.len()
                invariant
                    0 <= i <= entries@.len(),
                    before == pair_views(entries@),
                    !found ==> forall|j: int| 0 <= j < i ==> before[j].0 != key@,
                    found ==> i < entries@.len() && before[i as int].0 == key@,
                ensures
                    !found ==> forall|j: int| 0 <= j < entries@.len() ==> before[j].0 != key@,
                    found ==> i < entries@.len() && before[i as int].0 == key@,
                decreases entries@.len() - i + (if found { 0int } else { 1int }),
            {
                if entries[i].0 == key {
                    found = true;
                    break;
                }
                i = i + 1;
            }
            proof {
                assert(pair_views(pairs@.subrange(0, k + 1)) =~= pair_views(
                    pairs@.subrange(0, k as int),
                ).push((key@, value@)));
                lemma_keyed_map_push(pair_views(pairs@.subrange(0, k as int)), (key@, value@));
            }
            if found {
                let old_key = entries[i].0.clone();
                entries.set(i, (old_key, value));
                proof {
                    assert(pair_views(entries@) =~= before.update(i as int, (before[i as int].0, value@)));
                    lemma_keyed_map_update(before, i as int, value@);
                }
            } else {
                entries.push((key, value));
                proof {
                    lemma_keyed_map_dom(before, key@);
                    assert(pair_views(entries@) =~= before.push((key@, value@)));
                    lemma_keyed_map_push(before, (key@, value@));
                    lemma_distinct_push(before, (key@, value@));
                }
            }
            k = k + 1;
        }
        assert(pairs@.subrange(0, pairs@.len() as int) =~= pairs@);
        Labels { entries }
    }

    /// The value of label `key`, if present.
    pub fn get(&self, key: &str) -> (r: Option<&String>)
        ensures
            r is Some <==> self.map().contains_key(key@),
            r is Some ==> r->0@ == self.map()[key@],
    {
        proof {
            use_type_invariant(self);
        }
        let mut i: usize = 0;
        while i < self.entries.len()
            invariant
                0 <= i <= self.entries@.len(),
                distinct_keys(self.entries_view()),
                forall|j: int| 0 <= j < i ==> self.entries_view()[j].0 != key@,
            decreases self.entries@.len() - i,
        {
            if text_eq(self.entries[i].0.as_str(), key) {
                proof {
                    lemma_keyed_map_index(self.entries_view(), i as int);
                }
                return Some(&self.entries[i].1);
            }
            i = i + 1;
        }
        proof {
            lemma_keyed_map_dom(self.entries_view(), key@);
        }
        None
    }

    /// Number of labels.
    pub fn len(&self) -> (r: usize)
        ensures
            r == self.map().dom().len(),
    {
        proof {
            use_type_invariant(self);
            lemma_keyed_map_len(self.entries_view());
        }
        self.entries.len()
    }

    /// Whether there are no labels.
    pub fn is_empty(&self) -> (r: bool)
        ensures
            r <==> self.map().dom().len() == 0,
    {
        self.len() == 0
    }

    /// The labels as (key, value) pairs in the order they were first given.
    pub fn pairs(&self) -> (r: &Vec<(String, String)>)
        ensures
            pair_views(r@) == self.entries_view(),
    {
        &self.entries
    }
}

/// A monotonically increasing counter metric.
///
/// Counters are used to track values that only increase, such as:
/// - Total messages sent
/// - Total connections established
/// - Total errors encountered
///
/// A counter held by a [`MetricsRegistry`](crate::registry::MetricsRegistry)
/// is updated and read through its handle there.
#[derive(Debug)]
pub struct Counter {
    name: String,
    value: u64,
    labels: Labels,
}

impl Counter {
    /// The counter's name.
    pub closed spec fn spec_name(&self) -> Seq<char> {
        self.name@
    }

    /// The counter's current value.
    pub closed spec fn spec_value(&self) -> u64 {
        self.value
    }

    /// The counter's labels.
    pub closed spec fn spec_labels(&self) -> Map<Seq<char>, Seq<char>> {
        self.labels.map()
    }

    /// The counter's labels in the order they were first given.
    pub closed spec fn spec_label_entries(&self) -> Seq<(Seq<char>, Seq<char>)> {
        self.labels.entries_view()
    }

    /// Value and labels, the state a registry keeps under the name.
    pub open spec fn state(&self) -> (u64, Map<Seq<char>, Seq<char>>) {
        (self.spec_value(), self.spec_labels())
    }

    /// Creates a new counter with the given name and labels.
    pub fn new(name: String, labels: Vec<(String, String)>) -> (c: Self)
        ensures
            c.spec_name() == name@,
            c.spec_value() == 0,
            c.spec_labels() == keyed_map(pair_views(labels@)),
    {
        Counter { name, value: 0, labels: Labels::from_pairs(labels) }
    }

    /// Increments the counter by 1.
    pub fn inc(&mut self)
        ensures
            final(self).spec_value() == wrap_u64(old(self).spec_value() + 1),
            final(self).spec_name() == old(self).spec_name(),
            final(self).spec_labels() == old(self).spec_labels(),
            final(self).spec_label_entries() == old(self).spec_label_entries(),
    {
        self.value = wrapping_add_u64(self.value, 1);
    }

    /// Increments the counter by the given amount.
    pub fn inc_by(&mut self, n: u64)
        ensures
            final(self).spec_value() == wrap_u64(old(self).spec_value() + n),
            final(self).spec_name() == old(self).spec_name(),
            final(self).spec_labels() == old(self).spec_labels(),
            final(self).spec_label_entries() == old(self).spec_label_entries(),
    {
        self.value = wrapping_add_u64(self.value, n);
    }

    /// Returns the current value of the counter.
    pub fn get(&self) -> (r: u64)
        ensures
            r == self.spec_value(),
    {
        self.value
    }

    /// Returns the name of the counter.
    pub fn name(&self) -> (r: &str)
        ensures
            r@ == self.spec_name(),
    {
        self.name.as_str()
    }

    /// Returns the labels associated with this counter.
    pub fn labels(&self) -> (r: &Labels)
        ensures
            r.map() == self.spec_labels(),
            r.entries_view() == self.spec_label_entries(),
    {
        &self.labels
    }
}

/// A gauge metric that can increase or decrease.
///
/// Gauges are used to track values that can go up or down, such as:
/// - Active connections
/// - Memory usage
/// - Queue depth
///
/// A gauge held by a [`MetricsRegistry`](crate::registry::MetricsRegistry)
/// is updated and read through its handle there.
#[derive(Debug)]
pub struct Gauge {
    name: String,
    value: i64,
    labels: Labels,
}

impl Gauge {
    /// The gauge's name.
    pub closed spec fn spec_name(&self) -> Seq<char> {
        self.name@
    }

    /// The gauge's current value.
    pub closed spec fn spec_value(&self) -> i64 {
        self.value
    }

    /// The gauge's labels.
    pub closed spec fn spec_labels(&self) -> Map<Seq<char>, Seq<char>> {
        self.labels.map()
    }

    /// The gauge's labels in the order they were first given.
    pub closed spec fn spec_label_entries(&self) -> Seq<(Seq<char>, Seq<char>)> {
        self.labels.entries_view()
    }

    /// Value and labels, the state a registry keeps under the name.
    pub open spec fn state(&self) -> (i64, Map<Seq<char>, Seq<char>>) {
        (self.spec_value(), self.spec_labels())
    }

    /// Creates a new gauge with the given name and labels.
    pub fn new(name: String, labels: Vec<(String, String)>) -> (g: Self)
        ensures
            g.spec_name() == name@,
            g.spec_value() == 0,
            g.spec_labels() == keyed_map(pair_views(labels@)),
    {
        Gauge { name, value: 0, labels: Labels::from_pairs(labels) }
    }

    /// Sets the gauge to the given value.
    pub fn set(&mut self, value: i64)
        ensures
            final(self).spec_value() == value,
            final(self).spec_name() == old(self).spec_name(),
            final(self).spec_labels() == old(self).spec_labels(),
            final(self).spec_label_entries() == old(self).spec_label_entries(),
    {
        self.value = value;
    }

    /// Increments the gauge by 1.
    pub fn inc(&mut self)
        ensures
            final(self).spec_value() == wrap_i64(old(self).spec_value() + 1),
            final(self).spec_name() == old(self).spec_name(),
            final(self).spec_labels() == old(self).spec_labels(),
            final(self).spec_label_entries() == old(self).spec_label_entries(),
    {
        self.value = wrapping_add_i64(self.value, 1);
    }

    /// Decrements the gauge by 1.
    pub fn dec(&mut self)
        ensures
            final(self).spec_value() == wrap_i64(old(self).spec_value() - 1),
            final(self).spec_name() == old(self).spec_name(),
            final(self).spec_labels() == old(self).spec_labels(),
            final(self).spec_label_entries() == old(self).spec_label_entries(),
    {
        self.value = wrapping_sub_i64(self.value, 1);
    }

    /// Increments the gauge by the given amount.
    pub fn add(&mut self, n: i64)
        ensures
            final(self).spec_value() == wrap_i64(old(self).spec_value() + n),
            final(self).spec_name() == old(self).spec_name(),
            final(self).spec_labels() == old(self).spec_labels(),
            final(self).spec_label_entries() == old(self).spec_label_entries(),
    {
        self.value = wrapping_add_i64(self.value, n);
    }

    /// Decrements the gauge by the given amount.
    pub fn sub(&mut self, n: i64)
        ensures
            final(self).spec_value() == wrap_i64(old(self).spec_value() - n),
            final(self).spec_name() == old(self).spec_name(),
            final(self).spec_labels() == old(self).spec_labels(),
            final(self).spec_label_entries() == old(self).spec_label_entries(),
    {
        self.value = wrapping_sub_i64(self.value, n);
    }

    /// Returns the current value of the gauge.
    pub fn get(&self) -> (r: i64)
        ensures
            r == self.spec_value(),
    {
        self.value
    }

    /// Returns the name of the gauge.
    pub fn name(&self) -> (r: &str)
        ensures
            r@ == self.spec_name(),
    {
        self.name.as_str()
    }

    /// Returns the labels associated with this gauge.
    pub fn labels(&self) -> (r: &Labels)
        ensures
            r.map() == self.spec_labels(),
            r.entries_view() == self.spec_label_entries(),
    {
        &self.labels
    }
}

/// Sum of the first `n` entries of `s`.
pub open spec fn prefix_sum(s: Seq<u64>, n: int) -> int
    decreases n,
{
    if n <= 0 || n > s.len() {
        0
    } else {
        prefix_sum(s, n - 1) + s[n - 1]
    }
}

/// The first index from `i` on at which the running total of `s` reaches
/// `target`, or the length of `s` if it never does.
pub open spec fn first_reaching(s: Seq<u64>, target: int, i: int) -> int
    decreases s.len() - i,
{
    if i >= s.len() || i < 0 {
        s.len() as int
    } else if prefix_sum(s, i + 1) >= target {
        i
    } else {
        first_reaching(s, target, i + 1)
    }
}

/// The bucket whose upper bound answers a percentile query: the first bucket
/// at which the cumulative count reaches `target`, where the overflow bucket
/// (and a target never reached) answers with the last finite bucket.
pub open spec fn spec_percentile_bucket(counts: Seq<u64>, target: int) -> int {
    let f = first_reaching(counts, target, 0);
    if f < counts.len() - 1 {
        f
    } else {
        counts.len() - 2
    }
}

/// Upper bound of a histogram bucket: a key that orders bounds as their
/// numbers do (`None` for a bound that compares with nothing, such as a NaN),
/// and the text the bound is shown with.
#[derive(Clone, Debug)]
pub struct HistogramBound {
    /// Orders the bounds; `None` compares with nothing.
    pub order_key: Option<u64>,
    /// The bound as shown in the exposition text.
    pub text: String,
}

/// The bound at `k` is above the one before it.
pub open spec fn bound_above_previous(b: Seq<HistogramBound>, k: int) -> bool {
    &&& b[k - 1].order_key is Some
    &&& b[k].order_key is Some
    &&& b[k - 1].order_key->0 < b[k].order_key->0
}

/// Each bound is above the one before it.
pub open spec fn bounds_ascending(b: Seq<HistogramBound>) -> bool {
    forall|k: int| 1 <= k < b.len() ==> bound_above_previous(b, k)
}

/// The texts of the bounds.
pub open spec fn bound_text_views(b: Seq<HistogramBound>) -> Seq<Seq<char>> {
    b.map_values(|x: HistogramBound| x.text@)
}

fn bound_texts(bounds: &Vec<HistogramBound>) -> (r: Vec<String>)
    ensures
        text_views(r@) == bound_text_views(bounds@),
{
    let mut r: Vec<String> = Vec::new();
    let mut i: usize = 0;
    while i < bounds.len()
        invariant
            0 <= i <= bounds@.len(),
            text_views(r@) == bound_text_views(bounds@.subrange(0, i as int)),
        decreases bounds@.len() - i,
    {
        let t = bounds[i].text.clone();
        let ghost before = r@;
        r.push(t);
        assert(text_views(r@) =~= text_views(before).push(t@));
        assert(bound_text_views(bounds@.subrange(0, i + 1)) =~= bound_text_views(
            bounds@.subrange(0, i as int),
        ).push(bounds@[i as int].text@));
        i = i + 1;
    }
    assert(bounds@.subrange(0, bounds@.len() as int) =~= bounds@);
    r
}

/// The integer state of a histogram: one count per bucket plus an overflow
/// (+Inf) bucket, the number of observations, and their sum in micro-units.
/// Each finite bucket carries the text of its upper bound.
#[derive(Debug)]
pub struct HistogramCounts {
    name: String,
    bound_texts: Vec<String>,
    counts: Vec<u64>,
    count: u64,
    sum_micros: u64,
    labels: Labels,
}

/// What a registry keeps of a histogram: bucket counts, total count, sum in
/// micro-units, upper-bound texts and labels.
pub type HistogramState = (Seq<u64>, u64, u64, Seq<Seq<char>>, Map<Seq<char>, Seq<char>>);

impl HistogramCounts {
    /// At least one finite bucket, one count per bucket plus the overflow
    /// bucket, and the number of observations is the sum of the bucket counts
    /// (both wrapping around at 2^64).
    pub closed spec fn well_formed(&self) -> bool {
        &&& self.bound_texts@.len() >= 1
        &&& self.counts@.len() == self.bound_texts@.len() + 1
        &&& self.count as int == prefix_sum(self.counts@, self.counts@.len() as int) % u64_modulus()
    }

    /// In a well-formed histogram the number of observations is the sum of
    /// the bucket counts, wrapped around at 2^64.
    pub proof fn lemma_count_is_total(&self)
        requires
            self.well_formed(),
        ensures
            self.spec_count() as int == prefix_sum(self.spec_counts(), self.spec_counts().len() as int)
                % u64_modulus(),
    {
    }

    /// The histogram's name.
    pub closed spec fn spec_name(&self) -> Seq<char> {
        self.name@
    }

    /// Count per bucket; the last entry is the overflow bucket.
    pub closed spec fn spec_counts(&self) -> Seq<u64> {
        self.counts@
    }

    /// Number of observations.
    pub closed spec fn spec_count(&self) -> u64 {
        self.count
    }

    /// Sum of observations in micro-units.
    pub closed spec fn spec_sum_micros(&self) -> u64 {
        self.sum_micros
    }

    /// Texts of the finite buckets' upper bounds.
    pub closed spec fn spec_bounds(&self) -> Seq<Seq<char>> {
        text_views(self.bound_texts@)
    }

    /// The histogram's labels.
    pub closed spec fn spec_labels(&self) -> Map<Seq<char>, Seq<char>> {
        self.labels.map()
    }

    /// The histogram's labels in the order they were first given.
    pub closed spec fn spec_label_entries(&self) -> Seq<(Seq<char>, Seq<char>)> {
        self.labels.entries_view()
    }

    /// Everything a registry keeps under the name.
    pub open spec fn state(&self) -> HistogramState {
        (
            self.spec_counts(),
            self.spec_count(),
            self.spec_sum_micros(),
            self.spec_bounds(),
            self.spec_labels(),
        )
    }

    /// Creates an empty histogram with one bucket per bound and an overflow
    /// bucket. The bounds must be non-empty, each above the one before.
    pub fn new(name: String, bounds: Vec<HistogramBound>, labels: Vec<(String, String)>) -> (h: Self)
        requires
            1 <= bounds@.len() < usize::MAX,
            bounds_ascending(bounds@),
        ensures
            h.well_formed(),
            h.spec_name() == name@,
            h.spec_bounds() == bound_text_views(bounds@),
            h.spec_counts() == Seq::new((bounds@.len() + 1) as nat, |i: int| 0u64),
            h.spec_count() == 0,
            h.spec_sum_micros() == 0,
            h.spec_labels() == keyed_map(pair_views(labels@)),
    {
        let bound_texts = bound_texts(&bounds);
        assert(bound_texts@.len() == text_views(bound_texts@).len());
        let n = bound_texts.len() + 1;
        let mut counts: Vec<u64> = Vec::new();
        while counts.len() < n
            invariant
                n == bound_texts@.len() + 1,
                counts@.len() <= n,
                forall|i: int| 0 <= i < counts@.len() ==> counts@[i] == 0,
            decreases n - counts@.len(),
        {
            counts.push(0);
        }
        assert(counts@ =~= Seq::new((bound_texts@.len() + 1) as nat, |i: int| 0u64));
        proof {
            lemma_prefix_sum_zeros(counts@, counts@.len() as int);
        }
        HistogramCounts {
            name,
            bound_texts,
            counts,
            count: 0,
            sum_micros: 0,
            labels: Labels::from_pairs(labels),
        }
    }

    /// Records one observation that falls in bucket `bucket` (the overflow
    /// bucket is `bucket_count()`) and whose value is `value_micros` micro-units.
    pub fn record(&mut self, bucket: usize, value_micros: u64)
        requires
            old(self).well_formed(),
            bucket <= old(self).spec_bounds().len(),
        ensures
            final(self).well_formed(),
            final(self).spec_counts() == old(self).spec_counts().update(
                bucket as int,
                wrap_u64(old(self).spec_counts()[bucket as int] + 1),
            ),
            final(self).spec_count() == wrap_u64(old(self).spec_count() + 1),
            final(self).spec_sum_micros() == wrap_u64(old(self).spec_sum_micros() + value_micros),
            final(self).spec_bounds() == old(self).spec_bounds(),
            final(self).spec_labels() == old(self).spec_labels(),
            final(self).spec_label_entries() == old(self).spec_label_entries(),
            final(self).spec_name() == old(self).spec_name(),
    {
        let c = self.counts[bucket];
        proof {
            lemma_record_keeps_count(self.counts@, self.count, bucket as int);
        }
        self.counts.set(bucket, wrapping_add_u64(c, 1));
        self.count = wrapping_add_u64(self.count, 1);
        self.sum_micros = wrapping_add_u64(self.sum_micros, value_micros);
    }

    /// Returns the total count of observations.
    pub fn get_count(&self) -> (r: u64)
        ensures
            r == self.spec_count(),
    {
        self.count
    }

    /// Returns the sum of all observations, in micro-units.
    pub fn get_sum_micros(&self) -> (r: u64)
        ensures
            r == self.spec_sum_micros(),
    {
        self.sum_micros
    }

    /// Returns the count for each bucket, the overflow bucket last.
    pub fn get_bucket_counts(&self) -> (r: Vec<u64>)
        ensures
            r@ == self.spec_counts(),
    {
        let r = self.counts.clone();
        assert(r@ =~= self.counts@);
        r
    }

    /// Number of finite buckets.
    pub fn bucket_count(&self) -> (r: usize)
        requires
            self.well_formed(),
        ensures
            r == self.spec_bounds().len(),
            r >= 1,
            self.spec_counts().len() == r + 1,
    {
        self.bound_texts.len()
    }

    /// Texts of the finite buckets' upper bounds.
    pub fn bound_texts(&self) -> (r: &Vec<String>)
        ensures
            text_views(r@) == self.spec_bounds(),
    {
        &self.bound_texts
    }

    /// Returns the name of the histogram.
    pub fn name(&self) -> (r: &str)
        ensures
            r@ == self.spec_name(),
    {
        self.name.as_str()
    }

    /// Returns the labels associated with this histogram.
    pub fn labels(&self) -> (r: &Labels)
        ensures
            r.map() == self.spec_labels(),
            r.entries_view() == self.spec_label_entries(),
    {
        &self.labels
    }

    /// The finite bucket whose upper bound answers a percentile query with
    /// count `target`: the first bucket at which the cumulative count reaches
    /// `target`, where the overflow bucket answers with the last finite one.
    pub fn percentile_bucket(&self, target: u64) -> (r: usize)
        requires
            self.well_formed(),
        ensures
            r == spec_percentile_bucket(self.spec_counts(), target as int),
            r < self.spec_bounds().len(),
    {
        let n = self.counts.len();
        assert(self.spec_bounds().len() == n - 1);
        let mut cumulative: u128 = 0;
        let mut i: usize = 0;
        while i < n
            invariant
                n == self.counts@.len(),
                n >= 2,
                self.spec_bounds().len() == n - 1,
                0 <= i <= n,
                cumulative == prefix_sum(self.counts@, i as int),
                first_reaching(self.counts@, target as int, 0) == first_reaching(
                    self.counts@,
                    target as int,
                    i as int,
                ),
            decreases n - i,
        {
            proof {
                lemma_prefix_sum_bound(self.counts@, i + 1);
                let k: int = i + 1;
                assert(k * 0xFFFF_FFFF_FFFF_FFFFint < 0x1_0000_0000_0000_0000_0000_0000_0000_0000int) by (nonlinear_arith)
                    requires 0 <= k <= 0xFFFF_FFFF_FFFF_FFFFint;
            }
            cumulative = cumulative + self.counts[i] as u128;
            if cumulative >= target as u128 {
                return if i < n - 1 {
                    i
                } else {
                    n - 2
                };
            }
            i = i + 1;
        }
        n - 2
    }
}

/// A running total of `k` entries is at most `k` times the largest `u64`.
proof fn lemma_prefix_sum_bound(s: Seq<u64>, k: int)
    requires
        0 <= k <= s.len(),
    ensures
        prefix_sum(s, k) <= k * 0xFFFF_FFFF_FFFF_FFFFint,
    decreases k,
{
    if k > 0 {
        lemma_prefix_sum_bound(s, k - 1);
        assert((k - 1) * 0xFFFF_FFFF_FFFF_FFFFint + 0xFFFF_FFFF_FFFF_FFFFint == k * 0xFFFF_FFFF_FFFF_FFFFint) by (nonlinear_arith);
    }
}

/// The running total of zeros is zero.
proof fn lemma_prefix_sum_zeros(s: Seq<u64>, n: int)
    requires
        0 <= n <= s.len(),
        forall|i: int| 0 <= i < s.len() ==> s[i] == 0,
    ensures
        prefix_sum(s, n) == 0,
    decreases n,
{
    if n > 0 {
        lemma_prefix_sum_zeros(s, n - 1);
    }
}

/// Replacing entry `b` changes a running total that covers it by the difference.
pub proof fn lemma_prefix_sum_update(s: Seq<u64>, b: int, x: u64, n: int)
    requires
        0 <= b < s.len(),
        0 <= n <= s.len(),
    ensures
        prefix_sum(s.update(b, x), n) == prefix_sum(s, n) + if b < n {
            x - s[b]
        } else {
            0
        },
    decreases n,
{
    if n > 0 {
        lemma_prefix_sum_update(s, b, x, n - 1);
    }
}

/// Adding one to a bucket (wrapping) and to the count (wrapping) keeps the
/// count equal to the wrapped total.
proof fn lemma_record_keeps_count(counts: Seq<u64>, count: u64, b: int)
    requires
        0 <= b < counts.len(),
        count as int == prefix_sum(counts, counts.len() as int) % u64_modulus(),
    ensures
        wrap_u64(count + 1) as int == prefix_sum(
            counts.update(b, wrap_u64(counts[b] + 1)),
            counts.len() as int,
        ) % u64_modulus(),
{
    let m = u64_modulus();
    let total = prefix_sum(counts, counts.len() as int);
    let c = counts[b] as int;
    lemma_prefix_sum_update(counts, b, wrap_u64(c + 1), counts.len() as int);
    vstd::arithmetic::div_mod::lemma_add_mod_noop(total, 1, m);
    vstd::arithmetic::div_mod::lemma_small_mod(1, m as nat);
    vstd::arithmetic::div_mod::lemma_add_mod_noop(count as int, 1, m);
    vstd::arithmetic::div_mod::lemma_small_mod(count as nat, m as nat);
    if c + 1 < m {
        vstd::arithmetic::div_mod::lemma_small_mod((c + 1) as nat, m as nat);
        assert(prefix_sum(counts.update(b, wrap_u64(c + 1)), counts.len() as int) == total + 1);
    } else {
        assert(c + 1 == m);
        assert(wrap_u64(c + 1) == 0) by {
            vstd::arithmetic::div_mod::lemma_mod_self_0(m);
        }
        assert(prefix_sum(counts.update(b, wrap_u64(c + 1)), counts.len() as int) == -m + (total + 1));
        vstd::arithmetic::div_mod::lemma_mod_sub_multiples_vanish(total + 1, m);
    }
}

/// Running totals are never negative.
pub proof fn lemma_prefix_sum_nonneg(s: Seq<u64>, n: int)
    ensures
        prefix_sum(s, n) >= 0,
    decreases n,
{
    if n > 0 && n <= s.len() {
        lemma_prefix_sum_nonneg(s, n - 1);
    }
}

/// Running totals never decrease.
pub proof fn lemma_prefix_sum_mono(s: Seq<u64>, a: int, b: int)
    requires
        0 <= a <= b <= s.len(),
    ensures
        prefix_sum(s, a) <= prefix_sum(s, b),
    decreases b - a,
{
    if a < b {
        lemma_prefix_sum_mono(s, a, b - 1);
    }
}

} // verus!
