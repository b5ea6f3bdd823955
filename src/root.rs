use vstd::prelude::*;

verus! {

/// `r` is the integer square root of the ratio `n / d`, rounded down.
pub open spec fn is_floor_sqrt_ratio(r: int, n: int, d: int) -> bool {
    &&& 0 <= r
    &&& r * r * d <= n
    &&& n < (r + 1) * (r + 1) * d
}

/// The integer square root of `n / d`, rounded down.
pub open spec fn sqrt_floor(n: int, d: int) -> int {
    choose|r: int| is_floor_sqrt_ratio(r, n, d)
}

proof fn lemma_floor_sqrt_unique(r1: int, r2: int, n: int, d: int)
    requires
        d >= 1,
        is_floor_sqrt_ratio(r1, n, d),
        is_floor_sqrt_ratio(r2, n, d),
    ensures
        r1 == r2,
{
    if r1 < r2 {
        lemma_square_mono(r1 + 1, r2, d);
    } else if r2 < r1 {
        lemma_square_mono(r2 + 1, r1, d);
    }
}

proof fn lemma_square_mono(a: int, b: int, d: int)
    requires
        0 <= a <= b,
        0 <= d,
    ensures
        a * a * d <= b * b * d,
{
    assert(a * a <= b * b) by (nonlinear_arith) requires 0 <= a <= b;
    assert(a * a * d <= b * b * d) by (nonlinear_arith) requires a * a <= b * b, 0 <= d;
}

/// The largest `r` with `r * r * d <= n`, found by bisection below `bound`.
pub fn floor_sqrt_ratio(n: u128, d: u128, bound: u128) -> (r: u128)
    requires
        d >= 1,
        n < bound * bound * d,
        bound * bound * d <= u128::MAX,
    ensures
        is_floor_sqrt_ratio(r as int, n as int, d as int),
        r == sqrt_floor(n as int, d as int),
        r < bound,
{
    let mut lo: u128 = 0;
    let mut hi: u128 = bound;
    assert(0 * 0 * d == 0) by (nonlinear_arith);
    while hi - lo > 1
        invariant
            d >= 1,
            lo < hi <= bound,
            lo * lo * d <= n,
            n < hi * hi * d,
            bound * bound * d <= u128::MAX,
        decreases hi - lo,
    {
        let mid = lo + (hi - lo) / 2;
        proof {
            lemma_square_mono(mid as int, bound as int, d as int);
            assert(mid * mid <= mid * mid * d) by (nonlinear_arith) requires d >= 1;
        }
        if mid * mid * d <= n {
            lo = mid;
        } else {
            hi = mid;
        }
    }
    proof {
        lemma_floor_sqrt_unique(lo as int, sqrt_floor(n as int, d as int), n as int, d as int);
    }
    lo
}

} // verus!
