//! Fixed-point scalar arithmetic: truncating division, an exact integer
//! square root, and the bound lemmas the geometric code uses to rule out
//! overflow.

use vstd::prelude::*;
use vstd::arithmetic::div_mod::*;

verus! {

/// Number of fixed-point units per unit length: values carry six decimals.
pub const SCALE: i64 = 1_000_000;

/// A single fixed-point unit, used as the self-intersection nudge (1e-6).
pub const EPS_NUDGE: i64 = 1;

/// Largest magnitude allowed for a ray origin component (64.0).
pub const ORIGIN_LIM: i64 = 64_000_000;

/// Largest magnitude allowed for a ray direction component (4.0).
pub const DIR_LIM: i64 = 4_000_000;

/// Largest magnitude allowed for a sphere centre component (16.0).
pub const CENTRE_LIM: i64 = 16_000_000;

/// Smallest representable sphere radius (0.1): below this the fixed-point
/// surface normal loses too much resolution.
pub const RADIUS_MIN: i64 = 100_000;

/// Largest sphere radius (16.0).
pub const RADIUS_MAX: i64 = 16_000_000;

/// Upper bound on every hit distance the intersection test can produce.
pub const DIST_LIM: i64 = 2_000_000_000;

/// Cap on the wide intermediate products the vector operations accept; far
/// below `i128` overflow even when three such products are summed.
pub const PROD_CAP: i128 = 1_000_000_000_000_000_000_000_000_000_000;

/// Division truncated towards zero, as Rust's integer division behaves.
pub open spec fn tdiv(a: int, b: int) -> int
    recommends
        b > 0,
{
    if a >= 0 {
        a / b
    } else {
        -((-a) / b)
    }
}

/// Whether a mathematical integer is representable as an `i64`.
pub open spec fn fits_i64(x: int) -> bool {
    i64::MIN <= x <= i64::MAX
}

/// Truncating division of a wide intermediate by a positive divisor.
pub fn div_trunc(p: i128, d: i64) -> (r: i64)
    requires
        d >= 1,
        p > i128::MIN,
        fits_i64(tdiv(p as int, d as int)),
    ensures
        r as int == tdiv(p as int, d as int),
{
    if p >= 0 {
        let q: u128 = (p as u128) / (d as u128);
        proof {
            lemma_div_pos_is_pos(p as int, d as int);
        }
        q as i64
    } else {
        let n: u128 = (-p) as u128;
        let q: u128 = n / (d as u128);
        proof {
            lemma_div_pos_is_pos(n as int, d as int);
            lemma_div_is_ordered_by_denominator(n as int, 1, d as int);
            lemma_div_basics(n as int);
        }
        (-(q as i128)) as i64
    }
}

/// `a * b` stays within `ca * cb` when the factors stay within `ca` and `cb`.
pub proof fn lemma_abs_mul(a: int, b: int, ca: int, cb: int)
    by (nonlinear_arith)
    requires
        -ca <= a <= ca,
        -cb <= b <= cb,
        0 <= ca,
        0 <= cb,
    ensures
        -(ca * cb) <= a * b <= ca * cb,
{
}

/// Multiplying a larger factor by a nonnegative one gives a larger product.
pub proof fn lemma_mul_mono(a: int, b: int, c: int)
    by (nonlinear_arith)
    requires
        0 <= a,
        b <= c,
    ensures
        a * b <= a * c,
{
}

/// Truncating division shrinks magnitudes: a numerator within `k * d` leaves
/// a quotient within `k`.
pub proof fn lemma_tdiv_bound(p: int, d: int, k: int)
    requires
        d >= 1,
        0 <= k,
        -(k * d) <= p <= k * d,
    ensures
        -k <= tdiv(p, d) <= k,
{
    if p >= 0 {
        lemma_div_pos_is_pos(p, d);
        lemma_div_is_ordered(p, k * d, d);
        lemma_div_multiples_vanish(k, d);
        assert((d * k) / d == k);
        assert(p / d <= (k * d) / d);
        assert(k * d == d * k) by (nonlinear_arith);
        assert(tdiv(p, d) == p / d);
    } else {
        lemma_div_pos_is_pos(-p, d);
        lemma_div_is_ordered(-p, k * d, d);
        lemma_div_multiples_vanish(k, d);
        assert((d * k) / d == k);
        assert((-p) / d <= (k * d) / d);
        assert(k * d == d * k) by (nonlinear_arith);
        assert(tdiv(p, d) == -((-p) / d));
    }
}

/// Truncating division of a nonnegative numerator is nonnegative.
pub proof fn lemma_tdiv_nonneg(p: int, d: int)
    requires
        d >= 1,
        0 <= p,
    ensures
        0 <= tdiv(p, d),
{
    lemma_div_pos_is_pos(p, d as int);
}

/// Scaling a truncated quotient back up never exceeds the numerator.
pub proof fn lemma_tdiv_times_divisor_le(p: int, d: int)
    requires
        d >= 1,
        0 <= p,
    ensures
        tdiv(p, d) * d <= p,
{
    lemma_fundamental_div_mod(p, d);
    lemma_mod_bound(p, d);
    assert(p == d * (p / d) + (p % d));
    assert(tdiv(p, d) == p / d);
    assert((p / d) * d == d * (p / d)) by (nonlinear_arith);
}

/// The remainder of a nonnegative division stays below the divisor.
proof fn lemma_mod_bound(p: int, d: int)
    by (nonlinear_arith)
    requires
        d >= 1,
        0 <= p,
    ensures
        0 <= p % d < d,
{
}

/// A square is never negative.
pub proof fn lemma_sq_nonneg(a: int)
    by (nonlinear_arith)
    ensures
        0 <= a * a,
{
}

/// Squaring preserves the order of nonnegative integers.
pub proof fn lemma_sq_le(a: int, b: int)
    by (nonlinear_arith)
    requires
        0 <= a <= b,
    ensures
        a * a <= b * b,
{
}

/// Squaring preserves strict order of nonnegative integers.
pub proof fn lemma_sq_lt(a: int, b: int)
    by (nonlinear_arith)
    requires
        0 <= a < b,
    ensures
        a * a < b * b,
{
}

/// The floor of the square root, defined by counting up.
pub open spec fn sqrt_floor(n: int) -> int
    recommends
        0 <= n,
    decreases n,
{
    if n <= 0 {
        0
    } else {
        let p = sqrt_floor(n - 1);
        if n < (p + 1) * (p + 1) {
            p
        } else {
            p + 1
        }
    }
}

/// `sqrt_floor` brackets its argument between consecutive squares.
pub proof fn lemma_sqrt_floor_props(n: int)
    requires
        0 <= n,
    ensures
        0 <= sqrt_floor(n),
        sqrt_floor(n) * sqrt_floor(n) <= n,
        n < (sqrt_floor(n) + 1) * (sqrt_floor(n) + 1),
    decreases n,
{
    if n == 0 {
    } else {
        lemma_sqrt_floor_props(n - 1);
        let p = sqrt_floor(n - 1);
        if n < (p + 1) * (p + 1) {
        } else {
            assert(n == (p + 1) * (p + 1));
            assert((p + 2) * (p + 2) > (p + 1) * (p + 1)) by (nonlinear_arith)
                requires
                    p >= 0,
            ;
        }
    }
}

/// Any integer bracketed between consecutive squares of `r` is `sqrt_floor`'s
/// value, so the executable square root pins the spec one down exactly.
pub proof fn lemma_sqrt_floor_is(n: int, r: int)
    requires
        0 <= r,
        r * r <= n,
        n < (r + 1) * (r + 1),
    ensures
        sqrt_floor(n) == r,
{
    lemma_sqrt_floor_props(n);
    let c = sqrt_floor(n);
    if c < r {
        lemma_sq_le(c + 1, r);
    }
    if r < c {
        lemma_sq_le(r + 1, c);
    }
}

/// Exact integer square root by bisection: returns the floor of the root.
pub fn isqrt(n: u128) -> (r: u128)
    requires
        n <= 0xffff_ffff_ffff_ffff,
    ensures
        r * r <= n,
        n < (r + 1) * (r + 1),
{
    let mut lo: u128 = 0;
    let mut hi: u128 = 0x1_0000_0000;
    proof {
        assert(0x1_0000_0000u128 * 0x1_0000_0000u128 == 0x1_0000_0000_0000_0000u128)
            by (nonlinear_arith);
    }
    while lo + 1 < hi
        invariant
            lo < hi,
            hi <= 0x1_0000_0000,
            lo * lo <= n,
            n < hi * hi,
        decreases hi - lo,
    {
        let mid = lo + (hi - lo) / 2;
        proof {
            assert(lo < mid < hi);
            assert(mid * mid < 0x1_0000_0000u128 * 0x1_0000_0000u128) by (nonlinear_arith)
                requires
                    mid < 0x1_0000_0000u128,
            ;
        }
        if mid * mid <= n {
            lo = mid;
        } else {
            hi = mid;
        }
    }
    lo
}

} // verus!
