//! Exact integer arithmetic primitives: a floor square root and a
//! truncating scaled division, the two roundings every geometric
//! computation in this crate is defined over.

use vstd::prelude::*;

verus! {

/// The floor of the square root of `n`, defined by counting up: the unique
/// `r` with `r * r <= n < (r + 1) * (r + 1)`.
pub open spec fn sqrt_floor(n: nat) -> nat
    decreases n,
{
    if n == 0 {
        0
    } else {
        let r = sqrt_floor((n - 1) as nat);
        if (r + 1) * (r + 1) <= n {
            r + 1
        } else {
            r
        }
    }
}

/// `sqrt_floor(n)` really is the floor of the square root.
pub proof fn lemma_sqrt_floor_bounds(n: nat)
    ensures
        sqrt_floor(n) * sqrt_floor(n) <= n,
        n < (sqrt_floor(n) + 1) * (sqrt_floor(n) + 1),
    decreases n,
{
    if n == 0 {
        assert(sqrt_floor(0) == 0);
        assert(n < (sqrt_floor(n) + 1) * (sqrt_floor(n) + 1)) by (nonlinear_arith)
            requires
                n == 0,
                sqrt_floor(n) == 0,
        ;
    } else {
        lemma_sqrt_floor_bounds((n - 1) as nat);
        let r = sqrt_floor((n - 1) as nat);
        assert(r * r <= n - 1);
        assert(n - 1 < (r + 1) * (r + 1));
        if (r + 1) * (r + 1) <= n {
            assert(sqrt_floor(n) == r + 1);
            assert(n <= (r + 1) * (r + 1));
            assert((r + 2) * (r + 2) > (r + 1) * (r + 1)) by (nonlinear_arith);
            assert(n < (sqrt_floor(n) + 1) * (sqrt_floor(n) + 1));
        } else {
            assert(sqrt_floor(n) == r);
            assert(r * r <= n);
            assert(n < (r + 1) * (r + 1));
        }
    }
}

/// Any `r` within the square-root bounds is `sqrt_floor(n)`.
pub proof fn lemma_sqrt_floor_unique(n: nat, r: nat)
    requires
        r * r <= n,
        n < (r + 1) * (r + 1),
    ensures
        r == sqrt_floor(n),
{
    lemma_sqrt_floor_bounds(n);
    let s = sqrt_floor(n);
    if r < s {
        assert((r + 1) * (r + 1) <= s * s) by (nonlinear_arith)
            requires
                r + 1 <= s,
        ;
    }
    if s < r {
        assert((s + 1) * (s + 1) <= r * r) by (nonlinear_arith)
            requires
                s + 1 <= r,
        ;
    }
}

/// Floor square root of a `u64`, by binary search.
pub fn isqrt(n: u64) -> (r: u64)
    ensures
        r == sqrt_floor(n as nat),
        r * r <= n,
        n < (r + 1) * (r + 1),
{
    let mut lo: u64 = 0;
    let mut hi: u64 = 0xFFFF_FFFF;
    while lo < hi
        invariant
            lo <= hi <= 0xFFFF_FFFF,
            lo * lo <= n,
            n < (hi + 1) * (hi + 1),
        decreases hi - lo,
    {
        let mid = lo + (hi - lo + 1) / 2;
        assert(lo < mid <= hi);
        assert(mid * mid <= 0xFFFF_FFFF * 0xFFFF_FFFF) by (nonlinear_arith)
            requires
                mid <= 0xFFFF_FFFFu64,
        ;
        if mid * mid <= n {
            lo = mid;
        } else {
            hi = mid - 1;
        }
    }
    proof {
        lemma_sqrt_floor_unique(n as nat, lo as nat);
    }
    lo
}

/// Truncating scaled division `a * m / d`, rounded toward zero: the
/// rounding convention for every interpolation and offset in this crate.
pub open spec fn mul_div(a: int, m: int, d: int) -> int
    recommends
        m >= 0,
        d > 0,
{
    if a >= 0 {
        (a * m) / d
    } else {
        -(((-a) * m) / d)
    }
}

/// The magnitude of the result never exceeds the magnitude of `a * m / d`
/// taken exactly; in particular it is bounded by `|a|` when `m <= d`.
pub proof fn lemma_mul_div_bound(a: int, m: int, d: int)
    requires
        0 <= m <= d,
        0 < d,
    ensures
        a >= 0 ==> 0 <= mul_div(a, m, d) <= a,
        a < 0 ==> a <= mul_div(a, m, d) <= 0,
{
    if a >= 0 {
        assert(a * m <= a * d) by (nonlinear_arith)
            requires
                a >= 0,
                m <= d,
        ;
        assert((a * m) / d >= 0) by (nonlinear_arith)
            requires
                a >= 0,
                m >= 0,
                d > 0,
        ;
        assert((a * d) / d == a) by (nonlinear_arith)
            requires
                d > 0,
        ;
        assert((a * m) / d <= (a * d) / d) by (nonlinear_arith)
            requires
                a * m <= a * d,
                d > 0,
        ;
    } else {
        let b = -a;
        assert(b * m <= b * d) by (nonlinear_arith)
            requires
                b >= 0,
                m <= d,
        ;
        assert((b * m) / d >= 0) by (nonlinear_arith)
            requires
                b >= 0,
                m >= 0,
                d > 0,
        ;
        assert((b * d) / d == b) by (nonlinear_arith)
            requires
                d > 0,
        ;
        assert((b * m) / d <= (b * d) / d) by (nonlinear_arith)
            requires
                b * m <= b * d,
                d > 0,
        ;
    }
}

/// When `|a| <= d`, the scaled value is bounded by the scale `m`.
pub proof fn lemma_mul_div_scaled(a: int, m: int, d: int)
    requires
        -d <= a <= d,
        0 <= m,
        0 < d,
    ensures
        -m <= mul_div(a, m, d) <= m,
{
    if a >= 0 {
        assert(a * m <= d * m) by (nonlinear_arith)
            requires
                0 <= a <= d,
                m >= 0,
        ;
        assert((a * m) / d >= 0) by (nonlinear_arith)
            requires
                a >= 0,
                m >= 0,
                d > 0,
        ;
        assert((d * m) / d == m) by (nonlinear_arith)
            requires
                d > 0,
        ;
        assert((a * m) / d <= (d * m) / d) by (nonlinear_arith)
            requires
                a * m <= d * m,
                d > 0,
        ;
    } else {
        let b = -a;
        assert(b * m <= d * m) by (nonlinear_arith)
            requires
                0 <= b <= d,
                m >= 0,
        ;
        assert((b * m) / d >= 0) by (nonlinear_arith)
            requires
                b >= 0,
                m >= 0,
                d > 0,
        ;
        assert((d * m) / d == m) by (nonlinear_arith)
            requires
                d > 0,
        ;
        assert((b * m) / d <= (d * m) / d) by (nonlinear_arith)
            requires
                b * m <= d * m,
                d > 0,
        ;
    }
}

/// The truncating scaled division is odd in its first argument.
pub proof fn lemma_mul_div_neg(a: int, m: int, d: int)
    requires
        0 <= m,
        0 < d,
    ensures
        mul_div(-a, m, d) == -mul_div(a, m, d),
{
    if a > 0 {
        assert(mul_div(-a, m, d) == -(((-(-a)) * m) / d));
        assert(-(-a) == a);
        assert(mul_div(a, m, d) == (a * m) / d);
    } else if a == 0 {
        assert(mul_div(0, m, d) == (0 * m) / d);
        assert(0 * m == 0);
        assert(0int / d == 0) by (nonlinear_arith)
            requires
                d > 0,
        ;
    } else {
        assert(mul_div(-a, m, d) == ((-a) * m) / d);
        assert(mul_div(a, m, d) == -(((-a) * m) / d));
    }
}

/// Computes `mul_div(a, m, d)` on machine integers.
pub fn mul_div_i64(a: i64, m: i64, d: i64) -> (r: i64)
    requires
        0 <= m,
        0 < d,
        a > i64::MIN,
        a * m <= i64::MAX,
        -(a * m) <= i64::MAX,
    ensures
        r == mul_div(a as int, m as int, d as int),
{
    if a >= 0 {
        let p: u64 = (a as u64) * (m as u64);
        let q: u64 = p / (d as u64);
        assert(q <= p) by (nonlinear_arith)
            requires
                p >= 0,
                q == p / (d as u64),
                d >= 1,
        ;
        q as i64
    } else {
        let b: i64 = -a;
        assert((b as int) * (m as int) <= i64::MAX) by (nonlinear_arith)
            requires
                b == -(a as int),
                -((a as int) * (m as int)) <= i64::MAX,
        ;
        let p: u64 = (b as u64) * (m as u64);
        let q: u64 = p / (d as u64);
        assert(q <= p) by (nonlinear_arith)
            requires
                p >= 0,
                q == p / (d as u64),
                d >= 1,
        ;
        -(q as i64)
    }
}

} // verus!
