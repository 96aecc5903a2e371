//! Fixed-point scalar arithmetic for the simulation kernel.
//!
//! Every physical quantity (position, velocity, force, density, pressure,
//! and every configuration constant) is an `i64` holding the real value
//! multiplied by `SCALE`. Accumulating operations saturate at `FX_LIM`, a
//! symmetric magnitude bound well inside the `i64` range, so that every
//! step of the pipeline is total and its exact result can be stated.

use vstd::prelude::*;

verus! {

/// One whole unit: an `i64` quantity `q` represents the real value `q / SCALE`.
pub const SCALE: i64 = 1_000_000;

/// Saturation bound on every particle field: quantities are kept in
/// `[-FX_LIM, FX_LIM]`, which keeps squares of coordinate differences and
/// all intermediate products comfortably inside `i128`.
pub const FX_LIM: i64 = 1_000_000_000_000_000;

/// Saturation of a mathematical integer into `[-FX_LIM, FX_LIM]`.
pub open spec fn sat_i(x: int) -> int {
    if x > FX_LIM as int {
        FX_LIM as int
    } else if x < -(FX_LIM as int) {
        -(FX_LIM as int)
    } else {
        x
    }
}

/// Division rounding toward zero, for a positive divisor; agrees with
/// Euclidean division on a non-negative dividend.
pub open spec fn div_tz(a: int, d: int) -> int
    recommends
        d > 0,
{
    if a >= 0 {
        a / d
    } else {
        -((-a) / d)
    }
}

/// The integer square root, defined incrementally so that it is a total
/// function of its argument.
pub open spec fn isqrt_spec(n: int) -> int
    decreases n,
{
    if n <= 0 {
        0
    } else {
        let p: int = isqrt_spec(n - 1);
        if (p + 1) * (p + 1) <= n {
            p + 1
        } else {
            p
        }
    }
}

/// The defining property of `isqrt_spec`: it is the unique `r >= 0` with
/// `r * r <= n < (r + 1) * (r + 1)`.
pub proof fn lemma_isqrt_bounds(n: int)
    requires
        n >= 0,
    ensures
        isqrt_spec(n) >= 0,
        isqrt_spec(n) * isqrt_spec(n) <= n,
        n < (isqrt_spec(n) + 1) * (isqrt_spec(n) + 1),
    decreases n,
{
    if n == 0 {
    } else {
        lemma_isqrt_bounds(n - 1);
        let p: int = isqrt_spec(n - 1);
        if (p + 1) * (p + 1) <= n {
            assert(n < (p + 2) * (p + 2)) by (nonlinear_arith)
                requires
                    p >= 0,
                    n - 1 < (p + 1) * (p + 1),
                    (p + 1) * (p + 1) <= n,
            ;
        }
    }
}

/// Any value squeezed between consecutive squares is the integer square root.
pub proof fn lemma_isqrt_unique(n: int, r: int)
    requires
        n >= 0,
        r >= 0,
        r * r <= n,
        n < (r + 1) * (r + 1),
    ensures
        r == isqrt_spec(n),
{
    lemma_isqrt_bounds(n);
    let s: int = isqrt_spec(n);
    if r < s {
        assert(false) by (nonlinear_arith)
            requires
                0 <= r < s,
                s * s <= n,
                n < (r + 1) * (r + 1),
        ;
    }
    if s < r {
        assert(false) by (nonlinear_arith)
            requires
                0 <= s < r,
                r * r <= n,
                n < (s + 1) * (s + 1),
        ;
    }
}

/// A product of values bounded in magnitude by `c` is bounded by `c * c`.
pub proof fn lemma_mul_bound(a: int, b: int, c: int)
    requires
        -c <= a <= c,
        -c <= b <= c,
        0 <= c,
    ensures
        -(c * c) <= a * b <= c * c,
{
    assert(-(c * c) <= a * b <= c * c) by (nonlinear_arith)
        requires
            -c <= a <= c,
            -c <= b <= c,
            0 <= c,
    ;
}

/// A product of factors bounded in magnitude by `ca` and `cb` is bounded in
/// magnitude by `ca * cb`.
pub proof fn lemma_mul_abs_bound(a: int, b: int, ca: int, cb: int)
    requires
        -ca <= a <= ca,
        -cb <= b <= cb,
        0 <= ca,
        0 <= cb,
    ensures
        -(ca * cb) <= a * b <= ca * cb,
{
    assert(-(ca * cb) <= a * b <= ca * cb) by (nonlinear_arith)
        requires
            -ca <= a <= ca,
            -cb <= b <= cb,
            0 <= ca,
            0 <= cb,
    ;
}

/// A product of values in `[0, a]` and `[0, b]` is at most `a * b`.
pub proof fn lemma_mul_le(x: int, y: int, a: int, b: int)
    requires
        0 <= x <= a,
        0 <= y <= b,
    ensures
        0 <= x * y <= a * b,
{
    assert(0 <= x * y <= a * b) by (nonlinear_arith)
        requires
            0 <= x <= a,
            0 <= y <= b,
    ;
}

/// Division toward zero never grows the magnitude of the dividend.
pub proof fn lemma_div_tz_bound(a: int, d: int, c: int)
    requires
        d >= 1,
        0 <= c,
        -c <= a <= c,
    ensures
        -c <= div_tz(a, d) <= c,
{
    if a >= 0 {
        assert(0 <= a / d <= a) by (nonlinear_arith)
            requires
                a >= 0,
                d >= 1,
        ;
    } else {
        assert(0 <= (-a) / d <= -a) by (nonlinear_arith)
            requires
                -a >= 0,
                d >= 1,
        ;
    }
}

/// Saturate a wide intermediate value back into the fixed-point range.
pub fn sat64(x: i128) -> (r: i64)
    ensures
        r as int == sat_i(x as int),
{
    if x > FX_LIM as i128 {
        FX_LIM
    } else if x < -(FX_LIM as i128) {
        -FX_LIM
    } else {
        x as i64
    }
}

/// Division of a wide intermediate by a positive divisor, rounding toward
/// zero as the saturating pipeline specifies.
pub fn div_tz128(a: i128, d: i128) -> (q: i128)
    requires
        d > 0,
        a > i128::MIN,
    ensures
        q == div_tz(a as int, d as int),
{
    if a >= 0 {
        let n: u128 = a as u128;
        let dd: u128 = d as u128;
        let q0: u128 = n / dd;
        assert(q0 <= n) by (nonlinear_arith)
            requires
                q0 == n / dd,
                dd >= 1,
        ;
        q0 as i128
    } else {
        let n: u128 = (-a) as u128;
        let dd: u128 = d as u128;
        let q0: u128 = n / dd;
        assert(q0 <= n) by (nonlinear_arith)
            requires
                q0 == n / dd,
                dd >= 1,
        ;
        -(q0 as i128)
    }
}

/// The integer square root of a squared separation, by binary search.
pub fn isqrt64(n: u128) -> (r: u64)
    requires
        n < 0x100000000000000000000000000,
    ensures
        r as int == isqrt_spec(n as int),
        r as int * r as int <= n as int,
        (n as int) < (r as int + 1) * (r as int + 1),
{
    let mut lo: u64 = 0;
    let mut hi: u64 = 4503599627370496;
    assert(4503599627370496u128 * 4503599627370496u128
        == 0x100000000000000000000000000u128) by (bit_vector);
    while lo + 1 < hi
        invariant
            lo < hi <= 4503599627370496,
            (lo as int) * (lo as int) <= n as int,
            (n as int) < (hi as int) * (hi as int),
        decreases hi - lo,
    {
        let mid: u64 = lo + (hi - lo) / 2;
        proof {
            lemma_mul_le(mid as int, mid as int, 4503599627370496, 4503599627370496);
        }
        let sq: u128 = (mid as u128) * (mid as u128);
        if sq <= n {
            lo = mid;
        } else {
            hi = mid;
        }
    }
    proof {
        lemma_isqrt_unique(n as int, lo as int);
    }
    lo
}

} // verus!
