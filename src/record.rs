use vstd::prelude::*;
use vstd::string::StringSliceAdditionalSpecFns;

use crate::count::{DIGIT_ZERO, is_digit, all_digits};

verus! {

/// Opens the record, up to the value of `n`.
pub const RECORD_HEAD: &'static str = "{\"backend\":\"wasm\",\"n\":";

/// Between `n` and the quoted result.
pub const RESULT_KEY: &'static str = ",\"result\":\"";

/// Between the quoted result and the elapsed time.
pub const EXEC_NS_KEY: &'static str = "\",\"exec_ns\":";

/// Closes the record.
pub const RECORD_TAIL: &'static str = "}";

/// The decimal digits of `v` in ASCII, most significant first, with no
/// leading zero (zero itself is the single digit `0`).
pub open spec fn decimal(v: nat) -> Seq<u8>
    decreases v,
{
    if v < 10 {
        seq![(DIGIT_ZERO + v) as u8]
    } else {
        decimal(v / 10).push((DIGIT_ZERO + v % 10) as u8)
    }
}

/// The bytes of the one-line record for a run on `n` that produced `result`
/// in `exec_ns` nanoseconds.
pub open spec fn record_bytes(n: nat, result: nat, exec_ns: nat) -> Seq<u8> {
    RECORD_HEAD.spec_bytes() + decimal(n) + RESULT_KEY.spec_bytes() + decimal(result)
        + EXEC_NS_KEY.spec_bytes() + decimal(exec_ns) + RECORD_TAIL.spec_bytes()
}

/// Appends the decimal digits of `v`.
pub fn push_decimal(out: &mut Vec<u8>, v: u128)
    ensures
        final(out)@ == old(out)@ + decimal(v as nat),
    decreases v,
{
    if v >= 10 {
        push_decimal(out, v / 10);
    }
    out.push(DIGIT_ZERO + (v % 10) as u8);
    assert(final(out)@ =~= old(out)@ + decimal(v as nat));
}

/// Appends the bytes of `text`.
pub fn push_text(out: &mut Vec<u8>, text: &str)
    ensures
        final(out)@ == old(out)@ + text.spec_bytes(),
{
    let bytes = text.as_bytes();
    let mut i: usize = 0;
    while i < bytes.len()
        invariant
            i <= bytes@.len(),
            bytes@ == text.spec_bytes(),
            out@ == old(out)@ + bytes@.take(i as int),
        decreases bytes.len() - i,
    {
        out.push(bytes[i]);
        assert(bytes@.take(i + 1) =~= bytes@.take(i as int).push(bytes@[i as int]));
        i = i + 1;
    }
    assert(bytes@.take(i as int) =~= bytes@);
}

/// One run of the benchmark: the count it was given, the factorial it
/// computed, and the nanoseconds the computation took.
#[derive(Debug, Clone, Copy, PartialEq, Eq)]
pub struct Measurement {
    pub n: u32,
    pub result: u128,
    pub exec_ns: u128,
}

/// Renders a measurement as its one-line JSON record (without the line end):
/// `{"backend":"wasm","n":<n>,"result":"<result>","exec_ns":<exec_ns>}`.
pub fn render_record(m: &Measurement) -> (r: Vec<u8>)
    ensures
        r@ == record_bytes(m.n as nat, m.result as nat, m.exec_ns as nat),
{
    let mut out: Vec<u8> = Vec::new();
    push_text(&mut out, RECORD_HEAD);
    push_decimal(&mut out, m.n as u128);
    push_text(&mut out, RESULT_KEY);
    push_decimal(&mut out, m.result);
    push_text(&mut out, EXEC_NS_KEY);
    push_decimal(&mut out, m.exec_ns);
    push_text(&mut out, RECORD_TAIL);
    assert(out@ =~= record_bytes(m.n as nat, m.result as nat, m.exec_ns as nat));
    out
}

/// Every rendered number is a well-formed JSON integer: one or more ASCII
/// digits, with no leading zero unless the number is zero.
pub proof fn lemma_decimal_is_json_integer(v: nat)
    ensures
        decimal(v).len() > 0,
        all_digits(decimal(v)),
        decimal(v)[0] == DIGIT_ZERO ==> v == 0 && decimal(v).len() == 1,
    decreases v,
{
    if v >= 10 {
        lemma_decimal_is_json_integer(v / 10);
        let d = decimal(v);
        let p = decimal(v / 10);
        assert(d == p.push((DIGIT_ZERO + v % 10) as u8));
        assert forall|i: int| 0 <= i < d.len() implies #[trigger] is_digit(d[i]) by {
            if i < p.len() {
                assert(d[i] == p[i]);
                assert(is_digit(p[i]));
            }
        }
        assert(d[0] == p[0]);
    }
}

} // verus!
