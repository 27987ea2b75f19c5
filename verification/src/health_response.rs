//! What the health endpoints answer: the HTTP status code and the JSON body
//! (as plain values) of `/health`, `/ready` and `/live`.
use vstd::prelude::*;

use crate::health::{reason_of, HealthCheckResult, HealthStatus, HealthView};

verus! {

/// The word for a result in responses.
pub open spec fn status_word(v: HealthView) -> Seq<char> {
    match v {
        HealthView::Healthy => "healthy"@,
        HealthView::Degraded(_) => "degraded"@,
        HealthView::Unhealthy(_) => "unhealthy"@,
    }
}

/// HTTP 200 OK.
pub const STATUS_OK: u16 = 200;

/// HTTP 503 Service Unavailable.
pub const STATUS_SERVICE_UNAVAILABLE: u16 = 503;

/// The HTTP status code answering a result: 503 when unhealthy, 200 otherwise
/// (a degraded node still serves).
pub open spec fn status_code_of(v: HealthView) -> u16 {
    if v is Unhealthy {
        STATUS_SERVICE_UNAVAILABLE
    } else {
        STATUS_OK
    }
}

/// Converts a HealthCheckResult to a status string.
pub fn result_to_status_string(result: &HealthCheckResult) -> (r: String)
    ensures
        r@ == status_word(result@),
{
    match result {
        HealthCheckResult::Healthy => "healthy".to_owned(),
        HealthCheckResult::Degraded { .. } => "degraded".to_owned(),
        HealthCheckResult::Unhealthy { .. } => "unhealthy".to_owned(),
    }
}

/// Converts a HealthCheckResult to the HTTP status code of the `/health`,
/// `/ready` and `/live` endpoints.
pub fn result_to_status_code(result: &HealthCheckResult) -> (r: u16)
    ensures
        r == status_code_of(result@),
{
    match result {
        HealthCheckResult::Unhealthy { .. } => STATUS_SERVICE_UNAVAILABLE,
        _ => STATUS_OK,
    }
}

/// The RFC 3339 text (UTC, with nine fraction digits unless the fraction is
/// zero) that `humantime` gives for a time `secs` seconds and `nanos`
/// nanoseconds after the Unix epoch.
pub uninterp spec fn rfc3339_text(secs: u64, nanos: u32) -> Seq<char>;

/// Formats a time after the Unix epoch as RFC 3339.
///
/// Calls `humantime::format_rfc3339` on `UNIX_EPOCH + Duration::new(secs, nanos)`
/// and renders it with `to_string`. The contract names the text
/// [`rfc3339_text`] and states what the crate's `Display` implementation
/// shows plainly: 20 characters without a fraction, 30 with nine fraction
/// digits, ending in `Z`. Times from the year 10000 on make that `Display`
/// fail (and `to_string` panic), so they are excluded.
#[verifier::external_body]
fn format_rfc3339(secs: u64, nanos: u32) -> (r: String)
    requires
        secs < 253_402_300_800,
        nanos < 1_000_000_000,
    ensures
        r@ == rfc3339_text(secs, nanos),
        r@.len() == (if nanos == 0 { 20int } else { 30int }),
        r@.last() == 'Z',
{
    let t = std::time::UNIX_EPOCH + std::time::Duration::new(secs, nanos);
    humantime::format_rfc3339(t).to_string()
}

/// One check as reported in a health response.
#[derive(Debug, Clone)]
pub struct CheckResponse {
    /// "healthy", "degraded" or "unhealthy"
    pub status: String,
    /// The reason, when not healthy
    pub reason: Option<String>,
}

/// Health check response body.
#[derive(Debug, Clone)]
pub struct HealthResponse {
    /// Overall status: "healthy", "degraded" or "unhealthy"
    pub status: String,
    /// When the status was computed, RFC 3339
    pub timestamp: String,
    /// The individual checks by name
    pub checks: Vec<(String, CheckResponse)>,
}

/// What a check response says: its status word and reason.
pub open spec fn check_response_view(c: CheckResponse) -> (Seq<char>, Option<Seq<char>>) {
    (
        c.status@,
        match c.reason {
            Some(r) => Some(r@),
            None => None,
        },
    )
}

/// What a check result becomes in a response.
pub open spec fn response_of(v: HealthView) -> (Seq<char>, Option<Seq<char>>) {
    (status_word(v), reason_of(v))
}

impl CheckResponse {
    /// The response for one result.
    pub fn from_result(result: &HealthCheckResult) -> (r: CheckResponse)
        ensures
            check_response_view(r) == response_of(result@),
    {
        let reason = match result.reason() {
            Some(s) => Some(s.to_owned()),
            None => None,
        };
        CheckResponse { status: result_to_status_string(result), reason }
    }
}

impl HealthResponse {
    /// Builds the response for a status computed `unix_secs` seconds and
    /// `unix_nanos` nanoseconds after the Unix epoch: the overall word, the
    /// timestamp and every check's word and reason, in the status's order.
    pub fn from_status(status: &HealthStatus, unix_secs: u64, unix_nanos: u32) -> (r: HealthResponse)
        requires
            unix_secs < 253_402_300_800,
            unix_nanos < 1_000_000_000,
        ensures
            r.status@ == status_word(status.overall@),
            r.timestamp@ == rfc3339_text(unix_secs, unix_nanos),
            r.checks@.len() == status.checks@.len(),
            forall|i: int|
                0 <= i < r.checks@.len() ==> #[trigger] r.checks@[i].0@ == status.check_views()[i].0
                    && check_response_view(r.checks@[i].1) == response_of(
                    status.check_views()[i].1,
                ),
    {
        let mut checks: Vec<(String, CheckResponse)> = Vec::new();
        let mut i: usize = 0;
        while i < status.checks.len()
            invariant
                0 <= i <= status.checks@.len(),
                checks@.len() == i,
                forall|j: int|
                    0 <= j < i ==> #[trigger] checks@[j].0@ == status.check_views()[j].0
                        && check_response_view(checks@[j].1) == response_of(
                        status.check_views()[j].1,
                    ),
            decreases status.checks@.len() - i,
        {
            let name = status.checks[i].0.clone();
            let resp = CheckResponse::from_result(&status.checks[i].1);
            checks.push((name, resp));
            assert(status.check_views()[i as int] == (status.checks@[i as int].0@, status.checks@[i as int].1@));
            i = i + 1;
        }
        HealthResponse {
            status: result_to_status_string(&status.overall),
            timestamp: format_rfc3339(unix_secs, unix_nanos),
            checks,
        }
    }
}

} // verus!
