//! A factorial micro-benchmark: reads a count, computes its factorial in a
//! 128-bit accumulator under a monotonic clock, and renders the run as one
//! line of JSON.

pub mod bench;
pub mod count;
pub mod factorial;
pub mod record;
