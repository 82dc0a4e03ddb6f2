use vstd::prelude::*;
use vstd::arithmetic::div_mod::{lemma_mul_mod_noop_left, lemma_small_mod};

verus! {

/// The number of distinct values of a `u128`: products are reduced modulo this.
pub open spec fn acc_modulus() -> nat {
    u128::MAX as nat + 1
}

/// The mathematical factorial: the product of the integers from 2 through `n`.
pub open spec fn fact(n: nat) -> nat
    decreases n,
{
    if n < 2 {
        1
    } else {
        n * fact((n - 1) as nat)
    }
}

/// The factorial as a 128-bit accumulator holds it: `fact(n)` reduced modulo 2^128.
pub open spec fn wrapped_fact(n: nat) -> nat {
    fact(n) % acc_modulus()
}

/// Every factorial is at least 1.
pub proof fn lemma_fact_positive(n: nat)
    ensures
        fact(n) >= 1,
    decreases n,
{
    if n >= 2 {
        lemma_fact_positive((n - 1) as nat);
        assert(n * fact((n - 1) as nat) >= fact((n - 1) as nat)) by (nonlinear_arith)
            requires
                n >= 2,
        ;
    }
}

/// The factorial never decreases as its argument grows.
pub proof fn lemma_fact_monotonic(m: nat, n: nat)
    requires
        m <= n,
    ensures
        fact(m) <= fact(n),
    decreases n - m,
{
    if m < n {
        lemma_fact_monotonic(m, (n - 1) as nat);
        lemma_fact_positive((n - 1) as nat);
        let prev = fact((n - 1) as nat);
        if n >= 2 {
            assert(n * prev >= prev) by (nonlinear_arith)
                requires
                    n >= 2,
            ;
        }
    }
}

/// 34 is the largest count whose factorial fits in a `u128`, so up to it the
/// accumulator holds the exact factorial.
pub proof fn lemma_exact_up_to_34(n: nat)
    requires
        n <= 34,
    ensures
        wrapped_fact(n) == fact(n),
{
    assert(fact(1) == 1);
    assert(fact(2) == 2nat);
    assert(fact(3) == 6nat);
    assert(fact(4) == 24nat);
    assert(fact(5) == 120nat);
    assert(fact(6) == 720nat);
    assert(fact(7) == 5040nat);
    assert(fact(8) == 40320nat);
    assert(fact(9) == 362880nat);
    assert(fact(10) == 3628800nat);
    assert(fact(11) == 39916800nat);
    assert(fact(12) == 479001600nat);
    assert(fact(13) == 6227020800nat);
    assert(fact(14) == 87178291200nat);
    assert(fact(15) == 1307674368000nat);
    assert(fact(16) == 20922789888000nat);
    assert(fact(17) == 355687428096000nat);
    assert(fact(18) == 6402373705728000nat);
    assert(fact(19) == 121645100408832000nat);
    assert(fact(20) == 2432902008176640000nat);
    assert(fact(21) == 51090942171709440000nat);
    assert(fact(22) == 1124000727777607680000nat);
    assert(fact(23) == 25852016738884976640000nat);
    assert(fact(24) == 620448401733239439360000nat);
    assert(fact(25) == 15511210043330985984000000nat);
    assert(fact(26) == 403291461126605635584000000nat);
    assert(fact(27) == 10888869450418352160768000000nat);
    assert(fact(28) == 304888344611713860501504000000nat);
    assert(fact(29) == 8841761993739701954543616000000nat);
    assert(fact(30) == 265252859812191058636308480000000nat);
    assert(fact(31) == 8222838654177922817725562880000000nat);
    assert(fact(32) == 263130836933693530167218012160000000nat);
    assert(fact(33) == 8683317618811886495518194401280000000nat);
    assert(fact(34) == 295232799039604140847618609643520000000nat);
    lemma_fact_monotonic(n, 34);
    lemma_small_mod(fact(n), acc_modulus());
}

/// Computes `n!` in a 128-bit accumulator, multiplying by 2, 3, ..., n in turn.
/// Products beyond the accumulator's width wrap around.
pub fn factorial(n: u32) -> (r: u128)
    ensures
        r == wrapped_fact(n as nat),
        n <= 1 ==> r == 1,
        n <= 34 ==> r == fact(n as nat),
{
    let mut res: u128 = 1;
    assert(fact(1) == 1);
    proof {
        lemma_small_mod(1, acc_modulus());
    }
    let mut i: u64 = 2;
    while i <= n as u64
        invariant
            2 <= i,
            i <= n + 1 || n < 2,
            n < 2 ==> i == 2,
            res == wrapped_fact((i - 1) as nat),
        decreases n + 1 - i,
    {
        proof {
            let prev = fact((i - 1) as nat);
            assert(fact(i as nat) == i * prev);
            assert(i * prev == prev * i) by (nonlinear_arith);
            lemma_mul_mod_noop_left(prev as int, i as int, acc_modulus() as int);
        }
        res = res.wrapping_mul(i as u128);
        i = i + 1;
    }
    proof {
        if n <= 34 {
            lemma_exact_up_to_34(n as nat);
        }
    }
    res
}

} // verus!
