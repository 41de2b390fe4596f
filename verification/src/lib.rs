//! Metric naming and inflection, time sources, and the batching and
//! aggregation primitives of a metrics library, with their behaviour stated
//! as Verus contracts.

pub mod text;
pub mod case_convert;
pub mod inflect;
pub mod concat;
pub mod namestyle;
pub mod close_value;
pub mod atomics;
pub mod timesource;
pub mod fakes;
pub mod tokio_time;
pub mod metrics_pool;
pub mod cloudwatch;
pub mod otel;
pub mod otel_aggregate;
pub mod reporters;
pub mod units;
pub mod rate_limit;
pub mod attrs;
