use vstd::prelude::*;
use vstd::string::StringSliceAdditionalSpecFns;

verus! {

/// The one way an argument can be refused: missing, not a decimal number, or
/// outside the range of a `u32`.
#[derive(Debug, Clone, Copy, PartialEq, Eq)]
pub struct InvalidInput;

/// The ASCII code of `+`.
pub const PLUS_SIGN: u8 = 43;

/// The ASCII code of `0`.
pub const DIGIT_ZERO: u8 = 48;

/// The ASCII code of `9`.
pub const DIGIT_NINE: u8 = 57;

/// Whether a byte is an ASCII decimal digit.
pub open spec fn is_digit(c: u8) -> bool {
    DIGIT_ZERO <= c && c <= DIGIT_NINE
}

/// Whether every byte of `d` is an ASCII decimal digit.
pub open spec fn all_digits(d: Seq<u8>) -> bool {
    forall|i: int| 0 <= i < d.len() ==> #[trigger] is_digit(d[i])
}

/// The number that a run of decimal digits denotes, most significant first.
pub open spec fn digits_value(d: Seq<u8>) -> nat
    decreases d.len(),
{
    if d.len() == 0 {
        0
    } else {
        digits_value(d.drop_last()) * 10 + (d.last() - DIGIT_ZERO) as nat
    }
}

/// The text after an optional leading `+` sign.
pub open spec fn unsigned_part(b: Seq<u8>) -> Seq<u8> {
    if b.len() > 0 && b[0] == PLUS_SIGN {
        b.subrange(1, b.len() as int)
    } else {
        b
    }
}

/// The `u32` that a text denotes: an optional `+`, then one or more decimal
/// digits whose value fits in 32 bits. `None` for any other text.
pub open spec fn count_of(b: Seq<u8>) -> Option<u32> {
    let d = unsigned_part(b);
    if d.len() > 0 && all_digits(d) && digits_value(d) <= u32::MAX {
        Some(digits_value(d) as u32)
    } else {
        None
    }
}

/// A run of digits is worth at least any of its prefixes.
proof fn lemma_prefix_value_le(d: Seq<u8>, k: int)
    requires
        0 <= k <= d.len(),
        all_digits(d),
    ensures
        digits_value(d.take(k)) <= digits_value(d),
    decreases d.len(),
{
    if k < d.len() {
        let init = d.drop_last();
        assert(all_digits(init)) by {
            assert forall|i: int| 0 <= i < init.len() implies #[trigger] is_digit(init[i]) by {
                assert(init[i] == d[i]);
            }
        }
        lemma_prefix_value_le(init, k);
        assert(init.take(k) =~= d.take(k));
    } else {
        assert(d.take(k) =~= d);
    }
}

/// Reads a count from the text of an argument: an optional `+`, then decimal
/// digits, as Rust's `u32` parsing accepts them.
pub fn parse_count_bytes(b: &[u8]) -> (r: Result<u32, InvalidInput>)
    ensures
        r == (match count_of(b@) {
            Some(v) => Ok::<u32, InvalidInput>(v),
            None => Err(InvalidInput),
        }),
{
    let start: usize = if b.len() > 0 && b[0] == PLUS_SIGN {
        1
    } else {
        0
    };
    let ghost d = unsigned_part(b@);
    assert(d =~= b@.subrange(start as int, b@.len() as int));
    if start == b.len() {
        return Err(InvalidInput);
    }
    let mut value: u64 = 0;
    let mut i: usize = start;
    while i < b.len()
        invariant
            start <= i <= b.len(),
            d == unsigned_part(b@),
            d == b@.subrange(start as int, b@.len() as int),
            all_digits(d.take(i - start)),
            value == digits_value(d.take(i - start)),
            value <= u32::MAX,
        decreases b.len() - i,
    {
        let c = b[i];
        let ghost k = i - start;
        if c < DIGIT_ZERO || c > DIGIT_NINE {
            assert(d[k] == b@[i as int]);
            assert(!is_digit(d[k]));
            return Err(InvalidInput);
        }
        proof {
            let next = d.take(k + 1);
            assert(next.drop_last() =~= d.take(k));
            assert(next.last() == c);
            assert(all_digits(next)) by {
                assert forall|j: int| 0 <= j < next.len() implies #[trigger] is_digit(next[j]) by {
                    if j < k {
                        assert(next[j] == d.take(k)[j]);
                    }
                }
            }
        }
        value = value * 10 + (c - DIGIT_ZERO) as u64;
        i = i + 1;
        if value > u32::MAX as u64 {
            proof {
                let k1 = i - start;
                assert(value == digits_value(d.take(k1)));
                if all_digits(d) {
                    lemma_prefix_value_le(d, k1);
                }
            }
            return Err(InvalidInput);
        }
    }
    assert(d.take(b.len() - start) =~= d);
    Ok(value as u32)
}

/// Reads a count from an argument that may be absent. A missing argument is
/// refused like any text that is not a count.
pub fn parse_count(arg: Option<&str>) -> (r: Result<u32, InvalidInput>)
    ensures
        r == (match arg {
            Some(s) => match count_of(s.spec_bytes()) {
                Some(v) => Ok::<u32, InvalidInput>(v),
                None => Err(InvalidInput),
            },
            None => Err(InvalidInput),
        }),
{
    match arg {
        Some(s) => parse_count_bytes(s.as_bytes()),
        None => Err(InvalidInput),
    }
}

} // verus!
