//! The built-in health checks and the health configuration of a node.
//!
//! Each check compares a measured quantity with its threshold; measuring is
//! the caller's part (process memory, clock drift and pending events come from
//! outside the library).
use vstd::prelude::*;

use crate::health::{HealthCheckResult, HealthView};
use crate::text::{decimal, push_decimal, push_signed_decimal, push_text, signed_decimal};

verus! {

/// The reason given when too few connections are active.
pub open spec fn connections_reason(active: nat, min: nat) -> Seq<char> {
    "Only "@ + decimal(active) + " active connections (minimum: "@ + decimal(min) + ")"@
}

/// The reason given when memory use reaches its limit.
pub open spec fn memory_reason(usage: nat, max: nat) -> Seq<char> {
    "Memory usage "@ + decimal(usage) + "MB exceeds limit "@ + decimal(max) + "MB"@
}

/// The reason given when clock drift reaches its limit.
pub open spec fn drift_reason(drift: int, max: int) -> Seq<char> {
    "Time drift "@ + signed_decimal(drift) + "ms exceeds limit "@ + signed_decimal(max) + "ms"@
}

/// The reason given when too many events are pending.
pub open spec fn convergence_reason(pending: nat, max: nat) -> Seq<char> {
    "State convergence slow: "@ + decimal(pending) + " pending events (threshold: "@ + decimal(max)
        + ")"@
}

/// Health check for monitoring active connection count.
///
/// - `Healthy`: Active connections >= min_connections
/// - `Degraded`: Active connections < min_connections
///
/// The count of active connections is read from the node by the caller.
#[derive(Debug, Clone, Copy)]
pub struct ConnectionHealthCheck {
    min_connections: usize,
}

impl ConnectionHealthCheck {
    /// The configured minimum.
    pub closed spec fn spec_min_connections(&self) -> usize {
        self.min_connections
    }

    /// Creates a new ConnectionHealthCheck.
    pub fn new(min_connections: usize) -> (c: Self)
        ensures
            c.spec_min_connections() == min_connections,
    {
        ConnectionHealthCheck { min_connections }
    }

    /// Returns the configured minimum connections threshold.
    pub fn min_connections(&self) -> (r: usize)
        ensures
            r == self.spec_min_connections(),
    {
        self.min_connections
    }

    /// The check's name.
    pub fn name(&self) -> (r: &'static str)
        ensures
            r@ == "connections"@,
    {
        "connections"
    }

    /// Performs the check with the node's count of active connections.
    pub fn check(&self, active: usize) -> (r: HealthCheckResult)
        ensures
            r@ == (if active >= self.spec_min_connections() {
                HealthView::Healthy
            } else {
                HealthView::Degraded(
                    connections_reason(active as nat, self.spec_min_connections() as nat),
                )
            }),
    {
        if active >= self.min_connections {
            HealthCheckResult::Healthy
        } else {
            let mut reason = String::new();
            push_text(&mut reason, "Only ");
            push_decimal(&mut reason, active as u64);
            push_text(&mut reason, " active connections (minimum: ");
            push_decimal(&mut reason, self.min_connections as u64);
            push_text(&mut reason, ")");
            assert(reason@ =~= connections_reason(active as nat, self.min_connections as nat));
            HealthCheckResult::Degraded { reason }
        }
    }
}

/// Health check for monitoring memory usage.
///
/// - `Healthy`: Memory usage < max_memory_mb
/// - `Unhealthy`: Memory usage >= max_memory_mb
#[derive(Debug, Clone, Copy)]
pub struct MemoryHealthCheck {
    max_memory_mb: usize,
}

impl MemoryHealthCheck {
    /// The configured limit in megabytes.
    pub closed spec fn spec_max_memory_mb(&self) -> usize {
        self.max_memory_mb
    }

    /// Creates a new MemoryHealthCheck with the limit in megabytes.
    pub fn new(max_memory_mb: usize) -> (c: Self)
        ensures
            c.spec_max_memory_mb() == max_memory_mb,
    {
        MemoryHealthCheck { max_memory_mb }
    }

    /// Returns the configured maximum memory threshold in MB.
    pub fn max_memory_mb(&self) -> (r: usize)
        ensures
            r == self.spec_max_memory_mb(),
    {
        self.max_memory_mb
    }

    /// The check's name.
    pub fn name(&self) -> (r: &'static str)
        ensures
            r@ == "memory"@,
    {
        "memory"
    }

    /// Performs the check given the process memory usage in megabytes.
    pub fn check(&self, usage_mb: usize) -> (r: HealthCheckResult)
        ensures
            r@ == (if usage_mb < self.spec_max_memory_mb() {
                HealthView::Healthy
            } else {
                HealthView::Unhealthy(
                    memory_reason(usage_mb as nat, self.spec_max_memory_mb() as nat),
                )
            }),
    {
        if usage_mb < self.max_memory_mb {
            HealthCheckResult::Healthy
        } else {
            let mut reason = String::new();
            push_text(&mut reason, "Memory usage ");
            push_decimal(&mut reason, usage_mb as u64);
            push_text(&mut reason, "MB exceeds limit ");
            push_decimal(&mut reason, self.max_memory_mb as u64);
            push_text(&mut reason, "MB");
            assert(reason@ =~= memory_reason(usage_mb as nat, self.max_memory_mb as nat));
            HealthCheckResult::Unhealthy { reason }
        }
    }
}

/// Health check for monitoring time drift.
///
/// - `Healthy`: |time_drift| < max_drift_ms
/// - `Degraded`: |time_drift| >= max_drift_ms
#[derive(Debug, Clone, Copy)]
pub struct TimeDriftCheck {
    max_drift_ms: i64,
}

impl TimeDriftCheck {
    /// The configured limit in milliseconds.
    pub closed spec fn spec_max_drift_ms(&self) -> i64 {
        self.max_drift_ms
    }

    /// Creates a new TimeDriftCheck with the limit in milliseconds.
    pub fn new(max_drift_ms: i64) -> (c: Self)
        ensures
            c.spec_max_drift_ms() == max_drift_ms,
    {
        TimeDriftCheck { max_drift_ms }
    }

    /// Returns the configured maximum drift threshold in milliseconds.
    pub fn max_drift_ms(&self) -> (r: i64)
        ensures
            r == self.spec_max_drift_ms(),
    {
        self.max_drift_ms
    }

    /// The check's name.
    pub fn name(&self) -> (r: &'static str)
        ensures
            r@ == "time_drift"@,
    {
        "time_drift"
    }

    /// Performs the check given the drift between local and network time in
    /// milliseconds (whose magnitude must be representable).
    pub fn check(&self, drift_ms: i64) -> (r: HealthCheckResult)
        requires
            drift_ms > i64::MIN,
        ensures
            r@ == (if (if drift_ms < 0 {
                -drift_ms
            } else {
                drift_ms as int
            }) < self.spec_max_drift_ms() {
                HealthView::Healthy
            } else {
                HealthView::Degraded(drift_reason(drift_ms as int, self.spec_max_drift_ms() as int))
            }),
    {
        let abs_drift = if drift_ms < 0 {
            -drift_ms
        } else {
            drift_ms
        };
        if abs_drift < self.max_drift_ms {
            HealthCheckResult::Healthy
        } else {
            let mut reason = String::new();
            push_text(&mut reason, "Time drift ");
            push_signed_decimal(&mut reason, drift_ms);
            push_text(&mut reason, "ms exceeds limit ");
            push_signed_decimal(&mut reason, self.max_drift_ms);
            push_text(&mut reason, "ms");
            assert(reason@ =~= drift_reason(drift_ms as int, self.max_drift_ms as int));
            HealthCheckResult::Degraded { reason }
        }
    }
}

/// Default threshold of pending events.
pub const DEFAULT_MAX_PENDING_EVENTS: usize = 1000;

/// Health check for monitoring state convergence.
///
/// - `Healthy`: fewer pending events than the threshold
/// - `Degraded`: as many pending events as the threshold or more
#[derive(Debug, Clone, Copy)]
pub struct StateDivergenceCheck {
    max_pending_events: usize,
}

impl StateDivergenceCheck {
    /// The configured threshold.
    pub closed spec fn spec_max_pending_events(&self) -> usize {
        self.max_pending_events
    }

    /// Creates a new StateDivergenceCheck with the default threshold (1000).
    pub fn new() -> (c: Self)
        ensures
            c.spec_max_pending_events() == DEFAULT_MAX_PENDING_EVENTS,
    {
        Self::with_threshold(DEFAULT_MAX_PENDING_EVENTS)
    }

    /// Creates a new StateDivergenceCheck with a custom threshold.
    pub fn with_threshold(max_pending_events: usize) -> (c: Self)
        ensures
            c.spec_max_pending_events() == max_pending_events,
    {
        StateDivergenceCheck { max_pending_events }
    }

    /// Returns the configured maximum pending events threshold.
    pub fn max_pending_events(&self) -> (r: usize)
        ensures
            r == self.spec_max_pending_events(),
    {
        self.max_pending_events
    }

    /// The check's name.
    pub fn name(&self) -> (r: &'static str)
        ensures
            r@ == "state_convergence"@,
    {
        "state_convergence"
    }

    /// Whether state converges given the number of pending events, with that number.
    pub fn check_convergence(&self, pending_events: usize) -> (r: (bool, usize))
        ensures
            r.0 == (pending_events < self.spec_max_pending_events()),
            r.1 == pending_events,
    {
        (pending_events < self.max_pending_events, pending_events)
    }

    /// Performs the check given the number of pending events.
    pub fn check(&self, pending_events: usize) -> (r: HealthCheckResult)
        ensures
            r@ == (if pending_events < self.spec_max_pending_events() {
                HealthView::Healthy
            } else {
                HealthView::Degraded(
                    convergence_reason(pending_events as nat, self.spec_max_pending_events() as nat),
                )
            }),
    {
        let (is_converging, pending) = self.check_convergence(pending_events);
        if is_converging {
            HealthCheckResult::Healthy
        } else {
            let mut reason = String::new();
            push_text(&mut reason, "State convergence slow: ");
            push_decimal(&mut reason, pending as u64);
            push_text(&mut reason, " pending events (threshold: ");
            push_decimal(&mut reason, self.max_pending_events as u64);
            push_text(&mut reason, ")");
            assert(reason@ =~= convergence_reason(
                pending_events as nat,
                self.max_pending_events as nat,
            ));
            HealthCheckResult::Degraded { reason }
        }
    }
}

/// Comprehensive health check configuration of a node.
#[derive(Debug, Clone)]
pub struct HealthCheckConfig {
    /// Enable or disable health checks.
    pub enabled: bool,
    /// Optional `host:port` bind address for the health check HTTP server.
    pub server_bind_address: Option<String>,
    /// Cache TTL for health check results, in milliseconds.
    pub cache_ttl_ms: u64,
    /// Minimum number of active connections for ConnectionHealthCheck.
    pub min_connections: Option<usize>,
    /// Maximum memory usage in megabytes for MemoryHealthCheck.
    pub max_memory_mb: Option<usize>,
    /// Maximum time drift in milliseconds for TimeDriftCheck.
    pub max_time_drift_ms: Option<i64>,
    /// Maximum pending events for StateDivergenceCheck.
    pub max_pending_events: Option<usize>,
}

/// The address the health server listens on unless configured otherwise.
pub open spec fn default_bind_address() -> Seq<char> {
    "0.0.0.0:8080"@
}

fn default_bind() -> (r: Option<String>)
    ensures
        r is Some && r->0@ == default_bind_address(),
{
    Some("0.0.0.0:8080".to_owned())
}

/// Which validation rule a configuration breaks first, if any.
pub open spec fn spec_validate(
    cache_ttl_ms: u64,
    min_connections: Option<usize>,
    max_memory_mb: Option<usize>,
    max_time_drift_ms: Option<i64>,
    max_pending_events: Option<usize>,
) -> Result<(), Seq<char>> {
    if cache_ttl_ms < 1000 {
        Err("cache_ttl must be at least 1 second"@)
    } else if min_connections == Some(0usize) {
        Err("min_connections must be greater than 0"@)
    } else if max_memory_mb == Some(0usize) {
        Err("max_memory_mb must be greater than 0"@)
    } else if max_time_drift_ms is Some && max_time_drift_ms->0 <= 0 {
        Err("max_time_drift_ms must be greater than 0"@)
    } else if max_pending_events == Some(0usize) {
        Err("max_pending_events must be greater than 0"@)
    } else {
        Ok(())
    }
}

impl HealthCheckConfig {
    /// Creates a new HealthCheckConfig with all checks disabled.
    pub fn disabled() -> (c: Self)
        ensures
            !c.enabled,
            c.server_bind_address is None,
            c.cache_ttl_ms == 30_000,
            c.min_connections is None,
            c.max_memory_mb is None,
            c.max_time_drift_ms is None,
            c.max_pending_events is None,
    {
        HealthCheckConfig {
            enabled: false,
            server_bind_address: None,
            cache_ttl_ms: 30_000,
            min_connections: None,
            max_memory_mb: None,
            max_time_drift_ms: None,
            max_pending_events: None,
        }
    }

    /// Creates a configuration for small deployments (10 nodes).
    pub fn small_deployment() -> (c: Self)
        ensures
            c.enabled,
            c.server_bind_address is Some && c.server_bind_address->0@ == default_bind_address(),
            c.cache_ttl_ms == 30_000,
            c.min_connections == Some(2usize),
            c.max_memory_mb == Some(1000usize),
            c.max_time_drift_ms == Some(100i64),
            c.max_pending_events == Some(500usize),
    {
        HealthCheckConfig {
            enabled: true,
            server_bind_address: default_bind(),
            cache_ttl_ms: 30_000,
            min_connections: Some(2),
            max_memory_mb: Some(1000),
            max_time_drift_ms: Some(100),
            max_pending_events: Some(500),
        }
    }

    /// Creates a configuration for medium deployments (100 nodes).
    pub fn medium_deployment() -> (c: Self)
        ensures
            c.enabled,
            c.server_bind_address is Some && c.server_bind_address->0@ == default_bind_address(),
            c.cache_ttl_ms == 30_000,
            c.min_connections == Some(5usize),
            c.max_memory_mb == Some(2000usize),
            c.max_time_drift_ms == Some(100i64),
            c.max_pending_events == Some(1000usize),
    {
        HealthCheckConfig {
            enabled: true,
            server_bind_address: default_bind(),
            cache_ttl_ms: 30_000,
            min_connections: Some(5),
            max_memory_mb: Some(2000),
            max_time_drift_ms: Some(100),
            max_pending_events: Some(1000),
        }
    }

    /// Creates a configuration for large deployments (1000 nodes).
    pub fn large_deployment() -> (c: Self)
        ensures
            c.enabled,
            c.server_bind_address is Some && c.server_bind_address->0@ == default_bind_address(),
            c.cache_ttl_ms == 30_000,
            c.min_connections == Some(10usize),
            c.max_memory_mb == Some(4000usize),
            c.max_time_drift_ms == Some(100i64),
            c.max_pending_events == Some(2000usize),
    {
        HealthCheckConfig {
            enabled: true,
            server_bind_address: default_bind(),
            cache_ttl_ms: 30_000,
            min_connections: Some(10),
            max_memory_mb: Some(4000),
            max_time_drift_ms: Some(100),
            max_pending_events: Some(2000),
        }
    }

    /// Validates the configuration: the cache TTL is at least one second and
    /// every configured threshold is positive; the first broken rule is
    /// reported.
    pub fn validate(&self) -> (r: Result<(), String>)
        ensures
            r is Ok <==> spec_validate(
                self.cache_ttl_ms,
                self.min_connections,
                self.max_memory_mb,
                self.max_time_drift_ms,
                self.max_pending_events,
            ) is Ok,
            r is Err ==> spec_validate(
                self.cache_ttl_ms,
                self.min_connections,
                self.max_memory_mb,
                self.max_time_drift_ms,
                self.max_pending_events,
            ) == Err::<(), Seq<char>>(r->Err_0@),
    {
        if self.cache_ttl_ms < 1000 {
            return Err("cache_ttl must be at least 1 second".to_owned());
        }
        if let Some(min_conn) = self.min_connections {
            if min_conn == 0 {
                return Err("min_connections must be greater than 0".to_owned());
            }
        }
        if let Some(max_mem) = self.max_memory_mb {
            if max_mem == 0 {
                return Err("max_memory_mb must be greater than 0".to_owned());
            }
        }
        if let Some(max_drift) = self.max_time_drift_ms {
            if max_drift <= 0 {
                return Err("max_time_drift_ms must be greater than 0".to_owned());
            }
        }
        if let Some(max_events) = self.max_pending_events {
            if max_events == 0 {
                return Err("max_pending_events must be greater than 0".to_owned());
            }
        }
        Ok(())
    }
}

impl Default for HealthCheckConfig {
    fn default() -> (c: Self)
        ensures
            c.enabled,
            c.server_bind_address is Some && c.server_bind_address->0@ == default_bind_address(),
            c.cache_ttl_ms == 30_000,
            c.min_connections == Some(3usize),
            c.max_memory_mb == Some(1800usize),
            c.max_time_drift_ms == Some(100i64),
            c.max_pending_events == Some(1000usize),
    {
        HealthCheckConfig {
            enabled: true,
            server_bind_address: default_bind(),
            cache_ttl_ms: 30_000,
            min_connections: Some(3),
            max_memory_mb: Some(1800),
            max_time_drift_ms: Some(100),
            max_pending_events: Some(1000),
        }
    }
}

/// The built-in checks a configuration asks for, each present exactly when
/// its threshold is configured.
#[derive(Debug, Clone, Copy)]
pub struct BuiltinChecks {
    /// Connection count check, when `min_connections` is set
    pub connections: Option<ConnectionHealthCheck>,
    /// Memory check, when `max_memory_mb` is set
    pub memory: Option<MemoryHealthCheck>,
    /// Time drift check, when `max_time_drift_ms` is set
    pub time_drift: Option<TimeDriftCheck>,
    /// State convergence check, when `max_pending_events` is set
    pub state_convergence: Option<StateDivergenceCheck>,
}

impl HealthCheckConfig {
    /// The built-in checks of a valid configuration: none at all when health
    /// checks are disabled, else one per configured threshold, set to it.
    pub fn builtin_checks(&self) -> (r: Option<BuiltinChecks>)
        requires
            spec_validate(
                self.cache_ttl_ms,
                self.min_connections,
                self.max_memory_mb,
                self.max_time_drift_ms,
                self.max_pending_events,
            ) is Ok,
        ensures
            r is Some <==> self.enabled,
            r is Some ==> {
                let b = r->0;
                &&& (b.connections is Some <==> self.min_connections is Some)
                &&& (b.connections is Some ==> b.connections->0.spec_min_connections()
                    == self.min_connections->0)
                &&& (b.memory is Some <==> self.max_memory_mb is Some)
                &&& (b.memory is Some ==> b.memory->0.spec_max_memory_mb() == self.max_memory_mb->0)
                &&& (b.time_drift is Some <==> self.max_time_drift_ms is Some)
                &&& (b.time_drift is Some ==> b.time_drift->0.spec_max_drift_ms()
                    == self.max_time_drift_ms->0)
                &&& (b.state_convergence is Some <==> self.max_pending_events is Some)
                &&& (b.state_convergence is Some ==> b.state_convergence->0.spec_max_pending_events()
                    == self.max_pending_events->0)
            },
    {
        if !self.enabled {
            return None;
        }
        let connections = match self.min_connections {
            Some(n) => Some(ConnectionHealthCheck::new(n)),
            None => None,
        };
        let memory = match self.max_memory_mb {
            Some(n) => Some(MemoryHealthCheck::new(n)),
            None => None,
        };
        let time_drift = match self.max_time_drift_ms {
            Some(n) => Some(TimeDriftCheck::new(n)),
            None => None,
        };
        let state_convergence = match self.max_pending_events {
            Some(n) => Some(StateDivergenceCheck::with_threshold(n)),
            None => None,
        };
        Some(BuiltinChecks { connections, memory, time_drift, state_convergence })
    }
}

} // verus!
