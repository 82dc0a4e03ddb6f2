use vstd::prelude::*;
use std::time::{Duration, Instant};

use crate::factorial::{factorial, fact, wrapped_fact};
use crate::record::{Measurement, record_bytes, decimal, RECORD_HEAD, RESULT_KEY, EXEC_NS_KEY, RECORD_TAIL};
use vstd::string::StringSliceAdditionalSpecFns;

verus! {

/// A reading of the monotonic clock, opaque here: only differences of two
/// readings are ever used.
#[verifier::external_type_specification]
#[verifier::external_body]
pub struct ExInstant(Instant);

/// Relies on `Instant::now`: a reading of the monotonic clock. Nothing is
/// known of its value.
pub assume_specification[ Instant::now ]() -> Instant;

/// Relies on `Instant::elapsed`: the time passed since a reading. Nothing is
/// known of its value.
pub assume_specification[ Instant::elapsed ](t: &Instant) -> Duration;

/// Relies on `Duration::as_nanos`: a duration as whole nanoseconds. Nothing is
/// relied on of its value.
pub assume_specification[ Duration::as_nanos ](d: &Duration) -> u128;

/// Runs the factorial computation on `n` and times it on the monotonic clock.
/// Only the computation is timed. The result depends on `n` alone; the
/// elapsed time is whatever the clock reported.
pub fn measure(n: u32) -> (m: Measurement)
    ensures
        m.n == n,
        m.result == wrapped_fact(n as nat),
        n <= 34 ==> m.result == fact(n as nat),
{
    let t0 = Instant::now();
    let result = factorial(n);
    let exec_ns = t0.elapsed().as_nanos();
    Measurement { n, result, exec_ns }
}

/// Whether a measurement's result is the one that `measure` gives for its count.
pub open spec fn measured_correctly(m: Measurement) -> bool {
    m.result == wrapped_fact(m.n as nat)
}

/// The bytes of a record before its elapsed time: everything the count decides.
pub open spec fn record_before_timing(n: nat, result: nat) -> Seq<u8> {
    RECORD_HEAD.spec_bytes() + decimal(n) + RESULT_KEY.spec_bytes() + decimal(result)
        + EXEC_NS_KEY.spec_bytes()
}

/// Two runs on the same count give the same result, and their records agree
/// on every byte before the elapsed time; only the timing may differ.
pub proof fn lemma_runs_agree_on_result(a: Measurement, b: Measurement)
    requires
        measured_correctly(a),
        measured_correctly(b),
        a.n == b.n,
    ensures
        a.result == b.result,
        record_bytes(a.n as nat, a.result as nat, a.exec_ns as nat) == record_before_timing(
            a.n as nat,
            a.result as nat,
        ) + decimal(a.exec_ns as nat) + RECORD_TAIL.spec_bytes(),
        record_bytes(b.n as nat, b.result as nat, b.exec_ns as nat) == record_before_timing(
            a.n as nat,
            a.result as nat,
        ) + decimal(b.exec_ns as nat) + RECORD_TAIL.spec_bytes(),
{
}

} // verus!
