//! Exponential back-off between retries: the base delay doubled once per
//! attempt already made.
use vstd::prelude::*;

verus! {

/// `2^e`.
pub open spec fn two_pow(e: nat) -> nat
    decreases e,
{
    if e == 0 {
        1
    } else {
        2 * two_pow((e - 1) as nat)
    }
}

/// The delay before retry number `attempt`: `base * 2^attempt`.
pub open spec fn backoff(base: u64, attempt: u32) -> int {
    base * two_pow(attempt as nat)
}

proof fn lemma_two_pow_mono(a: nat, b: nat)
    requires
        a <= b,
    ensures
        1 <= two_pow(a) <= two_pow(b),
    decreases b,
{
    if b > 0 {
        if a < b {
            lemma_two_pow_mono(a, (b - 1) as nat);
        } else {
            lemma_two_pow_mono((a - 1) as nat, (b - 1) as nat);
        }
    }
}

/// The first retry waits the base delay, and each further attempt doubles
/// the wait.
pub proof fn law_backoff_doubles(base: u64, attempt: u32)
    requires
        attempt < u32::MAX,
    ensures
        backoff(base, 0) == base,
        backoff(base, (attempt + 1) as u32) == 2 * backoff(base, attempt),
{
    let p = two_pow(attempt as nat);
    assert(two_pow(0) == 1);
    assert(base * 1 == base);
    assert(two_pow((attempt + 1) as nat) == 2 * p);
    assert(base * (2 * p) == 2 * (base * p)) by (nonlinear_arith);
}

/// `base * 2^attempt`, computed as `base * 2u64.pow(attempt)`; both the
/// power and the product must fit in `u64`.
pub fn backoff_secs(base: u64, attempt: u32) -> (r: u64)
    requires
        two_pow(attempt as nat) <= u64::MAX,
        backoff(base, attempt) <= u64::MAX,
    ensures
        r == backoff(base, attempt),
{
    let mut p: u64 = 1;
    let mut k: u32 = 0;
    while k < attempt
        invariant
            k <= attempt,
            p == two_pow(k as nat),
            two_pow(attempt as nat) <= u64::MAX,
        decreases attempt - k,
    {
        proof {
            lemma_two_pow_mono((k + 1) as nat, attempt as nat);
        }
        p = p * 2;
        k = k + 1;
    }
    base * p
}

} // verus!
