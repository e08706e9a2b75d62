//! Fixed-point arithmetic primitives: truncating division, integer square
//! root, and the scale constants shared by the whole pipeline.

use vstd::arithmetic::div_mod::lemma_fundamental_div_mod;
use vstd::math::abs;
use vstd::prelude::*;

verus! {

/// Number of fixed-point steps per world unit.  Every coordinate, sine,
/// cosine and intensity in this crate is an integer count of 1/`SCALE` units.
pub const SCALE: i64 = 4096;

/// Largest magnitude accepted for a scene coordinate (vertex, object or
/// camera position, light position), in fixed-point steps: 256 world units.
/// This headroom keeps every intermediate product of the pipeline in `i64`.
pub const MAX_COORD: i64 = 1048576;

/// Largest magnitude accepted for a light intensity, in fixed-point steps.
pub const MAX_INTENSITY: i64 = 4294967296;

/// Quotient of `a` by `b` rounded toward zero — the rounding rule of Rust's
/// `/` on machine integers (spec-level `/` rounds toward negative infinity).
pub open spec fn tdiv(a: int, b: int) -> int {
    if a >= 0 {
        a / b
    } else {
        -((-a) / b)
    }
}

/// Truncating division misses the exact quotient by less than one divisor,
/// never away from zero, and never grows magnitude.
pub proof fn lemma_tdiv_close(a: int, b: int)
    requires
        b > 0,
    ensures
        abs(a - b * tdiv(a, b)) < b,
        abs(b * tdiv(a, b)) <= abs(a),
        a >= 0 ==> tdiv(a, b) >= 0,
        a <= 0 ==> tdiv(a, b) <= 0,
        a >= 0 ==> a - b * tdiv(a, b) >= 0,
        a <= 0 ==> a - b * tdiv(a, b) <= 0,
{
    if a >= 0 {
        lemma_fundamental_div_mod(a, b);
        assert(a == b * (a / b) + a % b);
        assert(0 <= a % b < b);
        assert(tdiv(a, b) >= 0) by (nonlinear_arith)
            requires
                b > 0,
                a >= 0,
                a == b * tdiv(a, b) + a % b,
                0 <= a % b < b,
        ;
        assert(b * tdiv(a, b) >= 0) by (nonlinear_arith)
            requires
                b > 0,
                tdiv(a, b) >= 0,
        ;
    } else {
        lemma_fundamental_div_mod(-a, b);
        assert(-a == b * ((-a) / b) + (-a) % b);
        assert(0 <= (-a) % b < b);
        assert((-a) / b >= 0) by (nonlinear_arith)
            requires
                b > 0,
                -a >= 0,
                -a == b * ((-a) / b) + (-a) % b,
                0 <= (-a) % b < b,
        ;
        assert(b * tdiv(a, b) == a + (-a) % b) by (nonlinear_arith)
            requires
                tdiv(a, b) == -((-a) / b),
                -a == b * ((-a) / b) + (-a) % b,
        ;
        assert(b * tdiv(a, b) <= 0) by (nonlinear_arith)
            requires
                b > 0,
                tdiv(a, b) <= 0,
        ;
    }
}

/// A magnitude bound divides through: if `|a| <= k * b` then `|a / b| <= k`.
pub proof fn lemma_tdiv_le(a: int, b: int, k: int)
    requires
        b > 0,
        k >= 0,
        abs(a) <= k * b,
    ensures
        abs(tdiv(a, b)) <= k,
{
    lemma_tdiv_close(a, b);
    assert(abs(tdiv(a, b)) <= k) by (nonlinear_arith)
        requires
            b > 0,
            k >= 0,
            abs(a) <= k * b,
            abs(b * tdiv(a, b)) <= abs(a),
    ;
}

/// Truncating division by at least one never grows magnitude.
pub proof fn lemma_tdiv_mag(a: int, b: int)
    requires
        b >= 1,
    ensures
        abs(tdiv(a, b)) <= abs(a),
{
    lemma_tdiv_close(a, b);
    let t = tdiv(a, b);
    if t >= 0 {
        assert(b * t >= t) by (nonlinear_arith)
            requires
                b >= 1,
                t >= 0,
        ;
    } else {
        assert(b * t <= t) by (nonlinear_arith)
            requires
                b >= 1,
                t < 0,
        ;
    }
}

/// Multiplying through a positive divisor is exact: `(k * b) / b == k`.
pub proof fn lemma_tdiv_exact(k: int, b: int)
    requires
        b > 0,
    ensures
        tdiv(k * b, b) == k,
{
    if k >= 0 {
        assert(k * b >= 0) by (nonlinear_arith)
            requires
                k >= 0,
                b > 0,
        ;
        lemma_fundamental_div_mod(k * b, b);
        assert((k * b) / b == k) by (nonlinear_arith)
            requires
                b > 0,
                k * b == b * ((k * b) / b) + (k * b) % b,
                0 <= (k * b) % b < b,
        ;
    } else {
        assert(k * b < 0) by (nonlinear_arith)
            requires
                k < 0,
                b > 0,
        ;
        assert(-(k * b) == (-k) * b) by (nonlinear_arith);
        lemma_fundamental_div_mod((-k) * b, b);
        assert(((-k) * b) / b == -k) by (nonlinear_arith)
            requires
                b > 0,
                (-k) * b == b * (((-k) * b) / b) + ((-k) * b) % b,
                0 <= ((-k) * b) % b < b,
        ;
    }
}

/// Truncating division of an `i64` by a positive `i64`.
pub fn div_trunc(a: i64, b: i64) -> (r: i64)
    requires
        b > 0,
    ensures
        r == tdiv(a as int, b as int),
{
    proof {
        lemma_tdiv_close(a as int, b as int);
        assert(abs(a as int) <= abs(a as int) * (b as int)) by (nonlinear_arith)
            requires
                (b as int) >= 1,
        ;
        lemma_tdiv_le(a as int, b as int, abs(a as int) as int);
    }
    let r = a.checked_div(b);
    r.unwrap()
}

/// `r` is the integer square root of `n`.
pub open spec fn is_isqrt(n: int, r: int) -> bool {
    &&& r >= 0
    &&& r * r <= n
    &&& n < (r + 1) * (r + 1)
}

/// The integer square root of a nonnegative `n`: the largest `r` with
/// `r * r <= n`.
pub open spec fn isqrt_spec(n: int) -> int {
    choose|r: int| is_isqrt(n, r)
}

/// Every nonnegative integer has an integer square root.
pub proof fn lemma_isqrt_exists(n: int)
    requires
        n >= 0,
    ensures
        is_isqrt(n, isqrt_spec(n)),
    decreases n,
{
    if n == 0 {
        assert(is_isqrt(0, 0));
    } else {
        lemma_isqrt_exists(n - 1);
        let r = isqrt_spec(n - 1);
        assert(is_isqrt(n - 1, r));
        if (r + 1) * (r + 1) <= n {
            assert(n == (r + 1) * (r + 1));
            assert((r + 1) * (r + 1) < (r + 2) * (r + 2)) by (nonlinear_arith)
                requires
                    r >= 0,
            ;
            assert(is_isqrt(n, r + 1));
        } else {
            assert(is_isqrt(n, r));
        }
    }
    assert(exists|r: int| is_isqrt(n, r));
}

/// The integer square root is unique.
pub proof fn lemma_isqrt_unique(n: int, r1: int, r2: int)
    requires
        is_isqrt(n, r1),
        is_isqrt(n, r2),
    ensures
        r1 == r2,
{
    assert(r1 == r2) by (nonlinear_arith)
        requires
            r1 >= 0,
            r2 >= 0,
            r1 * r1 <= n,
            n < (r1 + 1) * (r1 + 1),
            r2 * r2 <= n,
            n < (r2 + 1) * (r2 + 1),
    ;
}

/// Squares grow with magnitude, so a square below `n` keeps its root below
/// the root of `n`.
pub proof fn lemma_isqrt_dominates(n: int, x: int)
    requires
        n >= 0,
        x * x <= n,
    ensures
        abs(x) <= isqrt_spec(n),
{
    lemma_isqrt_exists(n);
    let r = isqrt_spec(n);
    assert(abs(x) <= r) by (nonlinear_arith)
        requires
            r >= 0,
            x * x <= n,
            n < (r + 1) * (r + 1),
    ;
}

/// Integer square root by binary search over the answer.
pub fn isqrt(n: u128) -> (r: u64)
    ensures
        r == isqrt_spec(n as int),
        is_isqrt(n as int, r as int),
{
    let mut lo: u64 = 0;
    let mut hi: u64 = u64::MAX;
    proof {
        assert((hi as int + 1) * (hi as int + 1) > n as int) by (nonlinear_arith)
            requires
                (hi as int) + 1 == 0x10000000000000000,
                (n as int) < 0x100000000000000000000000000000000,
        ;
    }
    while lo < hi
        invariant
            lo <= hi,
            (lo as int) * (lo as int) <= n as int,
            (n as int) < (hi as int + 1) * (hi as int + 1),
        decreases hi - lo,
    {
        let mid: u64 = lo + (hi - lo - 1) / 2 + 1;
        proof {
            assert((mid as u128) * (mid as u128) <= u128::MAX) by (nonlinear_arith)
                requires
                    (mid as u128) <= 0xffffffffffffffffu128,
            ;
        }
        if (mid as u128) * (mid as u128) <= n {
            lo = mid;
        } else {
            hi = mid - 1;
        }
    }
    proof {
        assert(is_isqrt(n as int, lo as int));
        lemma_isqrt_exists(n as int);
        lemma_isqrt_unique(n as int, lo as int, isqrt_spec(n as int));
    }
    lo
}

} // verus!
