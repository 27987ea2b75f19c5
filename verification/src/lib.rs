//! Protocol-level logic of the ELARA runtime: health evaluation, metrics and
//! their Prometheus text form, STUN messages, feed streams and the bookkeeping
//! of the test harnesses.
pub mod bytes;
pub mod keyed;
pub mod text;
pub mod metrics;
pub mod registry;
pub mod node_metrics;
pub mod prometheus;
pub mod health;
pub mod health_checks;
pub mod health_response;
pub mod feed;
pub mod observability;
pub mod tallies;
pub mod chaos;
pub mod network_plan;
pub mod stun;
pub mod clock;
pub mod event_block;
pub mod laws;
pub mod export_laws;
