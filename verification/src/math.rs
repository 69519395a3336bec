//! Integer square roots, as the magnitude table and the ground speed need them.

use vstd::prelude::*;

verus! {

/// `r` is the square root of `n`, rounded down.
pub open spec fn is_isqrt(n: int, r: int) -> bool {
    r >= 0 && r * r <= n < (r + 1) * (r + 1)
}

/// The square root of `n`, rounded down.
pub open spec fn isqrt(n: int) -> int {
    choose|r: int| is_isqrt(n, r)
}

proof fn lemma_square_monotonic(a: int, b: int)
    by (nonlinear_arith)
    requires
        0 <= a <= b,
    ensures
        a * a <= b * b,
{
}

/// A number has one rounded-down square root.
pub proof fn lemma_isqrt_unique(n: int, r: int)
    requires
        is_isqrt(n, r),
    ensures
        isqrt(n) == r,
{
    let s = isqrt(n);
    assert(is_isqrt(n, s));
    if s < r {
        lemma_square_monotonic(s + 1, r);
    } else if r < s {
        lemma_square_monotonic(r + 1, s);
    }
}

/// The rounded-down square root does not shrink when the number grows.
pub proof fn lemma_isqrt_monotonic(a: int, ra: int, b: int, rb: int)
    requires
        is_isqrt(a, ra),
        is_isqrt(b, rb),
        a <= b,
    ensures
        ra <= rb,
{
    if rb < ra {
        lemma_square_monotonic(rb + 1, ra);
    }
}

/// Computes the square root of `n`, rounded down.
pub fn integer_sqrt(n: u64) -> (r: u64)
    requires
        n < 0x1_0000_0000_0000,
    ensures
        is_isqrt(n as int, r as int),
        r as int == isqrt(n as int),
        r < 0x100_0000,
{
    let mut lo: u64 = 0;
    let mut hi: u64 = 0x100_0000;
    assert(0x100_0000 * 0x100_0000 == 0x1_0000_0000_0000) by (nonlinear_arith);
    while hi - lo > 1
        invariant
            lo < hi <= 0x100_0000,
            lo * lo <= n < hi * hi,
        decreases hi - lo,
    {
        let mid: u64 = lo + (hi - lo) / 2;
        proof {
            lemma_square_monotonic(mid as int, 0x100_0000);
        }
        if mid * mid <= n {
            lo = mid;
        } else {
            hi = mid;
        }
    }
    proof {
        lemma_isqrt_unique(n as int, lo as int);
    }
    lo
}

} // verus!
