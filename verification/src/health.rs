//! Health evaluation: check results, their aggregation (Unhealthy > Degraded >
//! Healthy), the built-in checks' thresholds, result caching with a time to
//! live, and the health configuration of a node.
//!
//! Measuring what the built-in checks look at (connections, process memory,
//! clock drift, pending events) and reading the clock are the caller's part;
//! every decision on the measured values is made here.
use vstd::prelude::*;

use crate::keyed::{
    distinct_keys, keyed_map, lemma_distinct_push, lemma_keyed_map_dom, lemma_keyed_map_push,
    lemma_keyed_map_update,
};

verus! {

/// What a health check result denotes.
pub enum HealthView {
    Healthy,
    Degraded(Seq<char>),
    Unhealthy(Seq<char>),
}

/// Result of an individual health check.
///
/// - `Healthy`: The component is functioning normally
/// - `Degraded`: The component is functioning but with reduced capacity or performance
/// - `Unhealthy`: The component is not functioning correctly
///
/// The overall system health is determined by the worst individual check result,
/// with the precedence: Unhealthy > Degraded > Healthy
#[derive(Debug, PartialEq, Eq)]
pub enum HealthCheckResult {
    /// The component is functioning normally
    Healthy,
    /// The component is functioning but degraded
    Degraded {
        /// Human-readable reason for the degraded state
        reason: String,
    },
    /// The component is not functioning correctly
    Unhealthy {
        /// Human-readable reason for the unhealthy state
        reason: String,
    },
}

impl View for HealthCheckResult {
    type V = HealthView;

    open spec fn view(&self) -> HealthView {
        match self {
            HealthCheckResult::Healthy => HealthView::Healthy,
            HealthCheckResult::Degraded { reason } => HealthView::Degraded(reason@),
            HealthCheckResult::Unhealthy { reason } => HealthView::Unhealthy(reason@),
        }
    }
}

/// Severity for ordering (higher is worse).
pub open spec fn severity_of(v: HealthView) -> int {
    match v {
        HealthView::Healthy => 0,
        HealthView::Degraded(_) => 1,
        HealthView::Unhealthy(_) => 2,
    }
}

/// The reason carried by a result, if any.
pub open spec fn reason_of(v: HealthView) -> Option<Seq<char>> {
    match v {
        HealthView::Healthy => None,
        HealthView::Degraded(r) => Some(r),
        HealthView::Unhealthy(r) => Some(r),
    }
}

/// A health check that a health checker runs: users implement it for their
/// own checks, and the built-in checks are bound to what they read.
pub trait HealthCheck: Send + Sync {
    /// Name of the check, used as the key of its result.
    fn name(&self) -> &str;

    /// Runs the check.
    fn check(&self) -> HealthCheckResult;
}

impl HealthCheckResult {
    /// Returns true if the result is Healthy
    pub fn is_healthy(&self) -> (r: bool)
        ensures
            r == (self@ is Healthy),
    {
        match self {
            HealthCheckResult::Healthy => true,
            _ => false,
        }
    }

    /// Returns true if the result is Degraded
    pub fn is_degraded(&self) -> (r: bool)
        ensures
            r == (self@ is Degraded),
    {
        match self {
            HealthCheckResult::Degraded { .. } => true,
            _ => false,
        }
    }

    /// Returns true if the result is Unhealthy
    pub fn is_unhealthy(&self) -> (r: bool)
        ensures
            r == (self@ is Unhealthy),
    {
        match self {
            HealthCheckResult::Unhealthy { .. } => true,
            _ => false,
        }
    }

    /// Returns the severity level for ordering (higher is worse)
    pub fn severity(&self) -> (r: u8)
        ensures
            r == severity_of(self@),
    {
        match self {
            HealthCheckResult::Healthy => 0,
            HealthCheckResult::Degraded { .. } => 1,
            HealthCheckResult::Unhealthy { .. } => 2,
        }
    }

    /// Returns the reason string if available
    pub fn reason(&self) -> (r: Option<&str>)
        ensures
            r is Some <==> reason_of(self@) is Some,
            r is Some ==> r->0@ == reason_of(self@)->0,
    {
        match self {
            HealthCheckResult::Healthy => None,
            HealthCheckResult::Degraded { reason } => Some(reason.as_str()),
            HealthCheckResult::Unhealthy { reason } => Some(reason.as_str()),
        }
    }

    /// A copy of the result.
    pub fn duplicate(&self) -> (r: HealthCheckResult)
        ensures
            r@ == self@,
    {
        match self {
            HealthCheckResult::Healthy => HealthCheckResult::Healthy,
            HealthCheckResult::Degraded { reason } => HealthCheckResult::Degraded {
                reason: reason.clone(),
            },
            HealthCheckResult::Unhealthy { reason } => HealthCheckResult::Unhealthy {
                reason: reason.clone(),
            },
        }
    }
}

/// The views of named results.
pub open spec fn named_views(v: Seq<(String, HealthCheckResult)>) -> Seq<(Seq<char>, HealthView)> {
    v.map_values(|e: (String, HealthCheckResult)| (e.0@, e.1@))
}

/// The results of a sequence of named results.
pub open spec fn result_views(v: Seq<(Seq<char>, HealthView)>) -> Seq<HealthView> {
    v.map_values(|e: (Seq<char>, HealthView)| e.1)
}

/// The worst of the results, the last one among the worst if several are
/// equally bad; Healthy when there are none.
pub open spec fn worst_of(s: Seq<HealthView>) -> HealthView
    decreases s.len(),
{
    if s.len() == 0 {
        HealthView::Healthy
    } else {
        let w = worst_of(s.drop_last());
        if severity_of(s.last()) >= severity_of(w) {
            s.last()
        } else {
            w
        }
    }
}

/// The worst result is as bad as any of them, and (when there is any) one of them.
pub proof fn lemma_worst_of(s: Seq<HealthView>)
    ensures
        forall|i: int| 0 <= i < s.len() ==> severity_of(#[trigger] s[i]) <= severity_of(worst_of(s)),
        s.len() > 0 ==> exists|i: int| 0 <= i < s.len() && #[trigger] s[i] == worst_of(s),
        s.len() == 0 ==> worst_of(s) == HealthView::Healthy,
    decreases s.len(),
{
    if s.len() > 0 {
        let p = s.drop_last();
        lemma_worst_of(p);
        assert forall|i: int| 0 <= i < s.len() implies severity_of(#[trigger] s[i]) <= severity_of(
            worst_of(s),
        ) by {
            if i < s.len() - 1 {
                assert(s[i] == p[i]);
            }
        }
        if severity_of(s.last()) >= severity_of(worst_of(p)) {
            assert(s[s.len() - 1] == worst_of(s));
        } else {
            let i = choose|i: int| 0 <= i < p.len() && #[trigger] p[i] == worst_of(p);
            assert(s[i] == worst_of(s));
        }
    }
}

/// Aggregated health status containing overall status and individual check results.
///
/// The overall status is determined by the worst individual check result:
/// - If any check is Unhealthy, overall is Unhealthy
/// - Else if any check is Degraded, overall is Degraded
/// - Else overall is Healthy
#[derive(Debug)]
pub struct HealthStatus {
    /// Overall health status (worst of all checks)
    pub overall: HealthCheckResult,
    /// Individual health check results by name, in the order first reported
    pub checks: Vec<(String, HealthCheckResult)>,
    /// Time (in milliseconds of the caller's monotonic clock) when this status was computed
    pub timestamp_ms: u64,
}

/// Aggregates individual check results into an overall status.
///
/// Precedence: Unhealthy > Degraded > Healthy; among equally bad results the
/// last one is taken.
pub fn aggregate_results(checks: &Vec<(String, HealthCheckResult)>) -> (r: HealthCheckResult)
    ensures
        r@ == worst_of(result_views(named_views(checks@))),
{
    let ghost s = result_views(named_views(checks@));
    if checks.len() == 0 {
        return HealthCheckResult::Healthy;
    }
    assert(named_views(checks@).len() == checks@.len());
    assert(s.len() == checks@.len());
    assert(s[0] == checks@[0].1@);
    let mut best: usize = 0;
    let mut best_sev: u8 = checks[0].1.severity();
    let mut i: usize = 1;
    assert(s.subrange(0, 1).drop_last() =~= Seq::<HealthView>::empty());
    assert(s.subrange(0, 1).last() == s[0]);
    assert(worst_of(s.subrange(0, 1).drop_last()) == HealthView::Healthy);
    assert(worst_of(s.subrange(0, 1)) == s[0]);
    while i < checks.len()
        invariant
            1 <= i <= checks@.len(),
            s == result_views(named_views(checks@)),
            s.len() == checks@.len(),
            best < i,
            s[best as int] == worst_of(s.subrange(0, i as int)),
            best_sev == severity_of(s[best as int]),
        decreases checks@.len() - i,
    {
        let sev = checks[i].1.severity();
        assert(s.subrange(0, i + 1).drop_last() =~= s.subrange(0, i as int));
        if sev >= best_sev {
            best = i;
            best_sev = sev;
        }
        i = i + 1;
    }
    assert(s.subrange(0, checks@.len() as int) =~= s);
    checks[best].1.duplicate()
}

/// The results keyed by name, as inserting them in order into a map builds them.
pub open spec fn results_map(results: Seq<(String, HealthCheckResult)>) -> Map<Seq<char>, HealthView> {
    keyed_map(named_views(results))
}

impl HealthStatus {
    /// The checks as (name, result) views.
    pub open spec fn check_views(&self) -> Seq<(Seq<char>, HealthView)> {
        named_views(self.checks@)
    }

    /// The status is consistent: check names are distinct and the overall
    /// result is the aggregate of the checks.
    pub open spec fn well_formed(&self) -> bool {
        &&& distinct_keys(self.check_views())
        &&& self.overall@ == worst_of(result_views(self.check_views()))
    }

    /// Creates a status from results reported in order, where a later result
    /// under a name already reported replaces the earlier one (keeping its
    /// place), and aggregates them.
    pub fn new(results: Vec<(String, HealthCheckResult)>, timestamp_ms: u64) -> (st: Self)
        ensures
            st.well_formed(),
            keyed_map(st.check_views()) == results_map(results@),
            st.timestamp_ms == timestamp_ms,
    {
        let mut checks: Vec<(String, HealthCheckResult)> = Vec::new();
        let mut k: usize = 0;
        assert(named_views(checks@) =~= Seq::<(Seq<char>, HealthView)>::empty());
        assert(named_views(results@.subrange(0, 0)) =~= Seq::<(Seq<char>, HealthView)>::empty());
        while k < results.len()
            invariant
                0 <= k <= results@.len(),
                distinct_keys(named_views(checks@)),
                keyed_map(named_views(checks@)) == results_map(results@.subrange(0, k as int)),
            decreases results@.len() - k,
        {
            let name = results[k].0.clone();
            let result = results[k].1.duplicate();
            let ghost before = named_views(checks@);
            let ghost before_checks = checks@;
            let mut i: usize = 0;
            let mut found = false;
            while i < checks.len()
                invariant
                    0 <= i <= checks@.len(),
                    before == named_views(checks@),
                    !found ==> forall|j: int| 0 <= j < i ==> before[j].0 != name@,
                    found ==> i < checks@.len() && before[i as int].0 == name@,
                ensures
                    !found ==> forall|j: int| 0 <= j < checks@.len() ==> before[j].0 != name@,
                    found ==> i < checks@.len() && before[i as int].0 == name@,
                decreases checks@.len() - i + (if found { 0int } else { 1int }),
            {
                if checks[i].0 == name {
                    found = true;
                    break;
                }
                i = i + 1;
            }
            proof {
                assert(named_views(results@.subrange(0, k + 1)) =~= named_views(
                    results@.subrange(0, k as int),
                ).push((name@, result@)));
                lemma_keyed_map_push(named_views(results@.subrange(0, k as int)), (name@, result@));
            }
            if found {
                let old_name = checks[i].0.clone();
                checks.set(i, (old_name, result));
                proof {
                    assert(named_views(checks@) =~= before.update(i as int, (before[i as int].0, result@)));
                    lemma_keyed_map_update(before, i as int, result@);
                }
            } else {
                checks.push((name, result));
                proof {
                    lemma_keyed_map_dom(before, name@);
                    assert(named_views(checks@) =~= before.push((name@, result@)));
                    lemma_keyed_map_push(before, (name@, result@));
                    lemma_distinct_push(before, (name@, result@));
                }
            }
            k = k + 1;
        }
        assert(results@.subrange(0, results@.len() as int) =~= results@);
        let overall = aggregate_results(&checks);
        HealthStatus { overall, checks, timestamp_ms }
    }

    /// Returns true if the overall status is Healthy
    pub fn is_healthy(&self) -> (r: bool)
        ensures
            r == (self.overall@ is Healthy),
    {
        self.overall.is_healthy()
    }

    /// Returns true if the overall status is Degraded
    pub fn is_degraded(&self) -> (r: bool)
        ensures
            r == (self.overall@ is Degraded),
    {
        self.overall.is_degraded()
    }

    /// Returns true if the overall status is Unhealthy
    pub fn is_unhealthy(&self) -> (r: bool)
        ensures
            r == (self.overall@ is Unhealthy),
    {
        self.overall.is_unhealthy()
    }

    /// The result of the check named `name`, if it was reported (the last
    /// one reported under that name).
    pub fn check(&self, name: &str) -> (r: Option<&HealthCheckResult>)
        ensures
            r is Some <==> keyed_map(self.check_views()).contains_key(name@),
            r is Some ==> r->0@ == keyed_map(self.check_views())[name@],
    {
        let mut i: usize = self.checks.len();
        while i > 0
            invariant
                0 <= i <= self.checks@.len(),
                forall|j: int| i <= j < self.checks@.len() ==> #[trigger] self.check_views()[j].0 != name@,
            decreases i,
        {
            i = i - 1;
            if crate::text::text_eq(self.checks[i].0.as_str(), name) {
                proof {
                    crate::keyed::lemma_keyed_map_last(self.check_views(), i as int);
                }
                return Some(&self.checks[i].1);
            }
        }
        proof {
            lemma_keyed_map_dom(self.check_views(), name@);
        }
        None
    }

    /// A copy of the status.
    pub fn duplicate(&self) -> (r: HealthStatus)
        ensures
            r.overall@ == self.overall@,
            r.check_views() == self.check_views(),
            r.timestamp_ms == self.timestamp_ms,
    {
        let mut checks: Vec<(String, HealthCheckResult)> = Vec::new();
        let mut i: usize = 0;
        assert(named_views(checks@) =~= self.check_views().subrange(0, 0));
        while i < self.checks.len()
            invariant
                0 <= i <= self.checks@.len(),
                named_views(checks@) == self.check_views().subrange(0, i as int),
            decreases self.checks@.len() - i,
        {
            let n = self.checks[i].0.clone();
            let r = self.checks[i].1.duplicate();
            let ghost before = checks@;
            checks.push((n, r));
            proof {
                let cv = named_views(checks@);
                let target = self.check_views().subrange(0, i + 1);
                assert(named_views(before).len() == before.len());
                assert(checks@.len() == i + 1);
                assert(cv.len() == i + 1);
                assert forall|j: int| 0 <= j < i + 1 implies cv[j] == target[j] by {
                    if j < i {
                        assert(checks@[j] == before[j]);
                        assert(named_views(before)[j] == (before[j].0@, before[j].1@));
                    }
                }
                assert(cv =~= target);
            }
            i = i + 1;
        }
        assert(self.check_views().subrange(0, self.checks@.len() as int) =~= self.check_views());
        HealthStatus {
            overall: self.overall.duplicate(),
            checks,
            timestamp_ms: self.timestamp_ms,
        }
    }
}

/// Configuration for the health checker
#[derive(Debug, Clone, Copy)]
pub struct HealthCheckerConfig {
    /// Time-to-live for cached health check results, in milliseconds
    pub cache_ttl_ms: u64,
}

/// Default cache time-to-live: 30 seconds.
pub const DEFAULT_CACHE_TTL_MS: u64 = 30_000;

impl Default for HealthCheckerConfig {
    fn default() -> (r: Self)
        ensures
            r.cache_ttl_ms == DEFAULT_CACHE_TTL_MS,
    {
        HealthCheckerConfig { cache_ttl_ms: DEFAULT_CACHE_TTL_MS }
    }
}

/// The caching part of a health checker: the last computed status and how
/// long it stays valid.
#[derive(Debug)]
pub struct HealthCache {
    cached: Option<HealthStatus>,
    cache_ttl_ms: u64,
}

/// Whether a status computed at `stamp` is still valid at `now` under `ttl`
/// (a clock reading before `stamp` counts as no time elapsed).
pub open spec fn is_fresh(stamp: u64, now: u64, ttl: u64) -> bool {
    (if now >= stamp { now - stamp } else { 0 }) < ttl
}

impl HealthCache {
    /// The cached status, if any.
    pub closed spec fn spec_cached(&self) -> Option<(HealthView, Seq<(Seq<char>, HealthView)>, u64)> {
        match self.cached {
            Some(st) => Some((st.overall@, st.check_views(), st.timestamp_ms)),
            None => None,
        }
    }

    /// The cache time-to-live in milliseconds.
    pub closed spec fn spec_ttl(&self) -> u64 {
        self.cache_ttl_ms
    }

    /// Creates an empty cache with the given time-to-live in milliseconds.
    pub fn new(cache_ttl_ms: u64) -> (c: Self)
        ensures
            c.spec_cached() is None,
            c.spec_ttl() == cache_ttl_ms,
    {
        HealthCache { cached: None, cache_ttl_ms }
    }

    /// Creates an empty cache with the given configuration.
    pub fn with_config(config: HealthCheckerConfig) -> (c: Self)
        ensures
            c.spec_cached() is None,
            c.spec_ttl() == config.cache_ttl_ms,
    {
        Self::new(config.cache_ttl_ms)
    }

    /// Returns the cache TTL in milliseconds.
    pub fn cache_ttl_ms(&self) -> (r: u64)
        ensures
            r == self.spec_ttl(),
    {
        self.cache_ttl_ms
    }

    /// The cached status when it is still valid at `now_ms`.
    pub fn lookup(&self, now_ms: u64) -> (r: Option<HealthStatus>)
        ensures
            r is Some <==> (self.spec_cached() matches Some(c) && is_fresh(
                c.2,
                now_ms,
                self.spec_ttl(),
            )),
            r is Some ==> self.spec_cached() == Some(
                (r->0.overall@, r->0.check_views(), r->0.timestamp_ms),
            ),
    {
        match &self.cached {
            Some(st) => {
                let elapsed = if now_ms >= st.timestamp_ms {
                    now_ms - st.timestamp_ms
                } else {
                    0
                };
                if elapsed < self.cache_ttl_ms {
                    Some(st.duplicate())
                } else {
                    None
                }
            },
            None => None,
        }
    }

    /// Aggregates freshly run results into a status stamped `now_ms`, caches
    /// it and returns it.
    pub fn store(&mut self, results: Vec<(String, HealthCheckResult)>, now_ms: u64) -> (st: HealthStatus)
        ensures
            st.well_formed(),
            keyed_map(st.check_views()) == results_map(results@),
            st.timestamp_ms == now_ms,
            final(self).spec_cached() == Some((st.overall@, st.check_views(), st.timestamp_ms)),
            final(self).spec_ttl() == old(self).spec_ttl(),
    {
        let st = HealthStatus::new(results, now_ms);
        self.cached = Some(st.duplicate());
        st
    }

    /// Clears the cached status, forcing the next check to execute.
    pub fn clear(&mut self)
        ensures
            final(self).spec_cached() is None,
            final(self).spec_ttl() == old(self).spec_ttl(),
    {
        self.cached = None;
    }
}

} // verus!
