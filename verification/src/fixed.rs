//! Fixed-point scalars.
//!
//! An `i64` value `v` stands for the real number `v / SCALE`.  All rounding
//! is toward zero, the rounding of Rust's integer division, and every
//! operation's result is specified exactly by the spec functions here.

use vstd::prelude::*;

verus! {

/// Number of fixed-point steps per whole unit: values count thousandths.
pub const SCALE: i64 = 1000;

/// Largest magnitude admitted for a scene coordinate, a direction component
/// or a sphere radius, so that every intermediate product of the
/// intersection arithmetic fits in an `i128`.
pub const COORD_LIMIT: i64 = 1_000_000_000;

/// Largest magnitude admitted for a ray-parameter bound; stands in for an
/// unbounded search interval.
pub const T_LIMIT: i64 = 1_000_000_000_000;

/// Largest magnitude a component of an evaluated ray point can reach:
/// a coordinate plus a parameter-scaled direction component.
pub const POINT_LIMIT: i64 = 1_000_000_001_000_000_000;

/// Quotient of `a` by `b` rounded toward zero, the rounding that Rust's
/// integer division performs (meaningful only for `b != 0`).
pub open spec fn quot(a: int, b: int) -> int {
    if a >= 0 {
        a / b
    } else {
        -((-a) / b)
    }
}

/// Product of two fixed-point values: the exact product brought back to
/// scale, rounded toward zero.
pub open spec fn mul_fix(a: int, b: int) -> int {
    quot(a * b, SCALE as int)
}

/// Quotient of two fixed-point values, rounded toward zero (`b != 0`).
pub open spec fn div_fix(a: int, b: int) -> int {
    quot(a * SCALE, b)
}

/// Largest `r >= 0` with `r * r <= n` (0 for negative `n`).
pub open spec fn sqrt_floor(n: int) -> int
    decreases n,
{
    if n <= 0 {
        0
    } else {
        let r = sqrt_floor(n - 1);
        if (r + 1) * (r + 1) <= n {
            r + 1
        } else {
            r
        }
    }
}

pub proof fn lemma_sqrt_floor(n: int)
    ensures
        0 <= sqrt_floor(n),
        n >= 0 ==> sqrt_floor(n) * sqrt_floor(n) <= n,
        n < (sqrt_floor(n) + 1) * (sqrt_floor(n) + 1),
        n < 0 ==> sqrt_floor(n) == 0,
    decreases (if n <= 0 { 0int } else { n }),
{
    if n > 0 {
        lemma_sqrt_floor(n - 1);
        let r = sqrt_floor(n - 1);
        if (r + 1) * (r + 1) <= n {
            assert(n <= (r + 1) * (r + 1));
            assert((r + 1) * (r + 1) < (r + 2) * (r + 2)) by (nonlinear_arith)
                requires
                    0 <= r,
            ;
        }
    }
}

/// The floor square root is the only `r >= 0` squeezed between `r * r` and
/// `(r + 1) * (r + 1)`.
pub proof fn lemma_sqrt_floor_unique(n: int, r: int)
    requires
        0 <= r,
        r * r <= n,
        n < (r + 1) * (r + 1),
    ensures
        r == sqrt_floor(n),
{
    lemma_sqrt_floor(n);
    let s = sqrt_floor(n);
    if r < s {
        assert((r + 1) * (r + 1) <= s * s) by (nonlinear_arith)
            requires
                0 <= r,
                r < s,
        ;
    }
    if s < r {
        assert((s + 1) * (s + 1) <= r * r) by (nonlinear_arith)
            requires
                0 <= s,
                s < r,
        ;
    }
}

/// Floor square root, by bisection over `u128`.
pub fn isqrt_u128(n: u128) -> (r: u128)
    ensures
        r as int == sqrt_floor(n as int),
        r * r <= n,
{
    let mut lo: u128 = 0;
    let mut hi: u128 = if n < 0xFFFF_FFFF_FFFF_FFFF {
        n
    } else {
        0xFFFF_FFFF_FFFF_FFFF
    };
    proof {
        if (n as int) < 0xFFFF_FFFF_FFFF_FFFF {
            assert((n as int) < (n as int + 1) * (n as int + 1)) by (nonlinear_arith)
                requires
                    0 <= n as int,
            ;
        } else {
            assert((n as int) < (0xFFFF_FFFF_FFFF_FFFF as int + 1) * (0xFFFF_FFFF_FFFF_FFFF as int
                + 1)) by (nonlinear_arith)
                requires
                    (n as int) < 0x1_0000_0000_0000_0000_0000_0000_0000_0000,
            ;
        }
    }
    while lo < hi
        invariant
            lo <= hi,
            hi <= 0xFFFF_FFFF_FFFF_FFFF,
            (lo as int) * (lo as int) <= n as int,
            (n as int) < (hi as int + 1) * (hi as int + 1),
        decreases hi - lo,
    {
        let mid: u128 = lo + (hi - lo + 1) / 2;
        proof {
            assert(mid * mid <= 0xFFFF_FFFF_FFFF_FFFF * 0xFFFF_FFFF_FFFF_FFFFu128) by (nonlinear_arith)
                requires
                    mid <= 0xFFFF_FFFF_FFFF_FFFFu128,
            ;
        }
        let sq: u128 = mid * mid;
        if sq <= n {
            lo = mid;
        } else {
            hi = mid - 1;
        }
    }
    proof {
        lemma_sqrt_floor_unique(n as int, lo as int);
    }
    lo
}

/// `|a * b| <= bound_a * bound_b` whenever the factors are bounded.
pub proof fn lemma_mul_abs_bound(a: int, b: int, bound_a: int, bound_b: int)
    requires
        -bound_a <= a <= bound_a,
        -bound_b <= b <= bound_b,
        0 <= bound_a,
        0 <= bound_b,
    ensures
        -(bound_a * bound_b) <= a * b <= bound_a * bound_b,
{
    assert(-(bound_a * bound_b) <= a * b <= bound_a * bound_b) by (nonlinear_arith)
        requires
            -bound_a <= a <= bound_a,
            -bound_b <= b <= bound_b,
            0 <= bound_a,
            0 <= bound_b,
    ;
}

/// Dividing by a positive integer cannot grow the magnitude.
pub proof fn lemma_quot_abs_bound(a: int, b: int, bound: int)
    requires
        0 < b,
        -bound <= a <= bound,
        0 <= bound,
    ensures
        -bound <= quot(a, b) <= bound,
        0 <= a ==> 0 <= quot(a, b),
        a <= 0 ==> quot(a, b) <= 0,
{
    if a >= 0 {
        assert(0 <= a / b <= a) by (nonlinear_arith)
            requires
                0 < b,
                0 <= a,
        ;
    } else {
        assert(0 <= (-a) / b <= -a) by (nonlinear_arith)
            requires
                0 < b,
                0 <= -a,
        ;
    }
}

/// Exact cancellation: a multiple of a positive `b` divides back exactly.
pub proof fn lemma_quot_exact(k: int, b: int)
    requires
        0 < b,
    ensures
        quot(k * b, b) == k,
{
    if k >= 0 {
        assert((k * b) / b == k) by (nonlinear_arith)
            requires
                0 < b,
                0 <= k,
        ;
    } else {
        assert((-(k * b)) == (-k) * b) by (nonlinear_arith);
        assert(((-k) * b) / b == -k) by (nonlinear_arith)
            requires
                0 < b,
                0 <= -k,
        ;
    }
}

/// The floor square root of `n` is at most any `bound` whose square reaches `n`.
pub proof fn lemma_sqrt_floor_le(n: int, bound: int)
    requires
        0 <= bound,
        n <= bound * bound,
    ensures
        sqrt_floor(n) <= bound,
{
    lemma_sqrt_floor(n);
    if n >= 0 && sqrt_floor(n) > bound {
        assert(sqrt_floor(n) * sqrt_floor(n) > bound * bound) by (nonlinear_arith)
            requires
                sqrt_floor(n) > bound >= 0,
        ;
    }
}

/// A numerator within `b * c` divides down to a quotient within `c`.
pub proof fn lemma_quot_le_factor(a: int, b: int, c: int)
    requires
        0 < b,
        0 <= c,
        -(b * c) <= a <= b * c,
    ensures
        -c <= quot(a, b) <= c,
{
    if a >= 0 {
        vstd::arithmetic::div_mod::lemma_multiply_divide_le(a, b, c);
        vstd::arithmetic::div_mod::lemma_div_pos_is_pos(a, b);
    } else {
        vstd::arithmetic::div_mod::lemma_multiply_divide_le(-a, b, c);
        vstd::arithmetic::div_mod::lemma_div_pos_is_pos(-a, b);
    }
}

/// `a * b / SCALE` rounded toward zero, for fixed-point values whose scaled
/// product stays in `i64` range.
pub fn mul_fix_i64(a: i64, b: i64) -> (r: i64)
    requires
        -(i64::MAX as int) <= mul_fix(a as int, b as int) <= i64::MAX as int,
    ensures
        r as int == mul_fix(a as int, b as int),
{
    proof {
        lemma_mul_abs_bound(a as int, b as int, 0x8000_0000_0000_0000, 0x8000_0000_0000_0000);
    }
    let wide: i128 = (a as i128) * (b as i128) / (SCALE as i128);
    wide as i64
}

/// `a * SCALE / b` rounded toward zero: fixed-point division (`b != 0`), for
/// results that stay in `i64` range.
pub fn div_fix_i64(a: i64, b: i64) -> (r: i64)
    requires
        b != 0,
        -(i64::MAX as int) <= div_fix(a as int, b as int) <= i64::MAX as int,
    ensures
        r as int == div_fix(a as int, b as int),
{
    proof {
        lemma_mul_abs_bound(a as int, SCALE as int, 0x8000_0000_0000_0000, SCALE as int);
    }
    let wide: i128 = (a as i128) * (SCALE as i128) / (b as i128);
    wide as i64
}

} // verus!
