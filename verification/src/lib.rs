//! Core of a multi-source telemetry poller: a single-flight cache of the
//! most recent record per source, an append-only history with range queries,
//! a fixed-window rate limiter for the query API, integer great-circle
//! distance for position trends, and the scheduler's tick transition.
pub mod source;
pub mod record;
pub mod cache;
pub mod limiter;
pub mod history;
pub mod geo;
pub mod trend;
pub mod sched;
pub mod api;
pub mod jsonpick;
