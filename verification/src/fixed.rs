//! Fixed-point scalar arithmetic.
//!
//! Every scalar quantity in the engine is an `i64` counting millionths of a
//! unit. Multiplication of two fixed-point numbers divides the wide product
//! by [`ONE`], truncating toward zero, which matches the rounding of the
//! spec-level [`fx_mul`].

use vstd::prelude::*;

verus! {

/// Number of fixed-point units in 1.0.
pub const ONE: i64 = 1_000_000;

/// Tolerance, in fixed-point units, to which the easing resolver matches the
/// requested time fraction (one ten-thousandth of a unit).
pub const EPS: i64 = 100;

/// Largest magnitude accepted for an easing-handle coordinate (4.0), chosen
/// so bezier evaluation stays well inside `i64` range.
pub const HANDLE_LIMIT: i64 = 4_000_000;

/// Largest magnitude an eased ratio can take: the ease curve's vertical
/// coordinates all lie within the convex hull of its control points, whose
/// coordinates are bounded by [`HANDLE_LIMIT`].
pub const RATIO_LIMIT: i64 = 4_000_000;

/// Largest magnitude accepted for a keyframe coordinate or scalar
/// (one million units), chosen so blending stays well inside `i64` range.
pub const VAL_LIMIT: i64 = 1_000_000_000_000;

/// Largest magnitude a blended value can take when the eased ratio
/// overshoots: `VAL_LIMIT + 2 * VAL_LIMIT * RATIO_LIMIT / ONE`.
pub const OUT_LIMIT: i64 = 9_000_000_000_000;

/// Integer division truncating toward zero (the rounding of `i64` division).
pub open spec fn div_trunc(a: int, d: int) -> int {
    if a >= 0 {
        a / d
    } else {
        -((-a) / d)
    }
}

/// Fixed-point product: the wide product scaled back down, truncated
/// toward zero.
pub open spec fn fx_mul(a: int, b: int) -> int {
    div_trunc(a * b, ONE as int)
}

/// Linear interpolation from `a` toward `b` by the fixed-point fraction `t`.
pub open spec fn fx_lerp(a: int, b: int, t: int) -> int {
    a + fx_mul(b - a, t)
}

/// Fixed-point multiplication, truncating toward zero.
pub fn fx_mul_e(a: i64, b: i64) -> (r: i64)
    requires
        -(i64::MAX as int) * (ONE as int) <= a * b <= (i64::MAX as int) * (ONE as int),
    ensures
        r == fx_mul(a as int, b as int),
{
    proof {
        assert((a as int) * (b as int) <= 0x8000_0000_0000_0000 * 0x8000_0000_0000_0000
            && -(0x8000_0000_0000_0000 * 0x8000_0000_0000_0000) <= (a as int) * (b as int))
            by (nonlinear_arith)
            requires
                -0x8000_0000_0000_0000 <= a as int <= 0x8000_0000_0000_0000,
                -0x8000_0000_0000_0000 <= b as int <= 0x8000_0000_0000_0000,
        ;
    }
    let p: i128 = (a as i128) * (b as i128);
    if p >= 0 {
        let q: u128 = (p as u128) / (ONE as u128);
        proof {
            vstd::arithmetic::div_mod::lemma_div_is_ordered(
                p as int,
                (i64::MAX as int) * (ONE as int),
                ONE as int,
            );
            vstd::arithmetic::div_mod::lemma_div_by_multiple(i64::MAX as int, ONE as int);
            vstd::arithmetic::div_mod::lemma_div_pos_is_pos(p as int, ONE as int);
        }
        q as i64
    } else {
        let q: u128 = ((-p) as u128) / (ONE as u128);
        proof {
            vstd::arithmetic::div_mod::lemma_div_is_ordered(
                (-p) as int,
                (i64::MAX as int) * (ONE as int),
                ONE as int,
            );
            vstd::arithmetic::div_mod::lemma_div_by_multiple(i64::MAX as int, ONE as int);
            vstd::arithmetic::div_mod::lemma_div_pos_is_pos((-p) as int, ONE as int);
        }
        -(q as i64)
    }
}

/// A product of numbers bounded in magnitude is bounded by the product of
/// the bounds.
pub proof fn lemma_mul_bound(a: int, b: int, ma: int, mb: int)
    by (nonlinear_arith)
    requires
        -ma <= a <= ma,
        -mb <= b <= mb,
    ensures
        -(ma * mb) <= a * b <= ma * mb,
{
}

/// Truncating division keeps a magnitude bound.
pub proof fn lemma_div_trunc_bound(a: int, d: int, m: int)
    requires
        0 < d,
        -m <= a <= m,
    ensures
        -(m / d) <= div_trunc(a, d) <= m / d,
{
    if a >= 0 {
        vstd::arithmetic::div_mod::lemma_div_pos_is_pos(a, d);
        vstd::arithmetic::div_mod::lemma_div_is_ordered(a, m, d);
        vstd::arithmetic::div_mod::lemma_div_pos_is_pos(m, d);
    } else {
        vstd::arithmetic::div_mod::lemma_div_pos_is_pos(-a, d);
        vstd::arithmetic::div_mod::lemma_div_is_ordered(-a, m, d);
        vstd::arithmetic::div_mod::lemma_div_pos_is_pos(m, d);
    }
}

/// A fixed-point product of bounded factors is bounded.
pub proof fn lemma_fx_mul_bound(a: int, b: int, ma: int, mb: int)
    requires
        0 <= ma,
        0 <= mb,
        -ma <= a <= ma,
        -mb <= b <= mb,
    ensures
        -((ma * mb) / (ONE as int)) <= fx_mul(a, b) <= (ma * mb) / (ONE as int),
{
    lemma_mul_bound(a, b, ma, mb);
    lemma_div_trunc_bound(a * b, ONE as int, ma * mb);
}

/// For a fraction `t` in `[0, 1]`, interpolation stays within the convex
/// hull of its endpoints.
pub proof fn lemma_fx_lerp_hull(a: int, b: int, t: int)
    requires
        0 <= t <= ONE as int,
    ensures
        a <= b ==> a <= fx_lerp(a, b, t) <= b,
        b <= a ==> b <= fx_lerp(a, b, t) <= a,
{
    let d = b - a;
    if d >= 0 {
        assert(0 <= d * t <= d * (ONE as int)) by (nonlinear_arith)
            requires
                0 <= t <= ONE as int,
                d >= 0,
        ;
        vstd::arithmetic::div_mod::lemma_div_pos_is_pos(d * t, ONE as int);
        vstd::arithmetic::div_mod::lemma_div_is_ordered(d * t, d * (ONE as int), ONE as int);
        vstd::arithmetic::div_mod::lemma_div_by_multiple(d, ONE as int);
    } else {
        assert(0 <= (-d) * t <= (-d) * (ONE as int)) by (nonlinear_arith)
            requires
                0 <= t <= ONE as int,
                d < 0,
        ;
        vstd::arithmetic::div_mod::lemma_div_pos_is_pos((-d) * t, ONE as int);
        vstd::arithmetic::div_mod::lemma_div_is_ordered((-d) * t, (-d) * (ONE as int), ONE as int);
        vstd::arithmetic::div_mod::lemma_div_by_multiple(-d, ONE as int);
        assert((-d) * t == -(d * t)) by (nonlinear_arith);
        assert(d * t < 0 ==> fx_mul(d, t) == -(((-d) * t) / (ONE as int)));
    }
}

/// Interpolating by the whole fraction lands exactly on `b`.
pub proof fn lemma_fx_lerp_one(a: int, b: int)
    ensures
        fx_lerp(a, b, ONE as int) == b,
{
    let d = b - a;
    if d >= 0 {
        vstd::arithmetic::div_mod::lemma_div_by_multiple(d, ONE as int);
    } else {
        vstd::arithmetic::div_mod::lemma_div_by_multiple(-d, ONE as int);
    }
}

/// Interpolation between fixed-point numbers within the bezier handle range;
/// the result is pinned to the spec-level [`fx_lerp`] and stays within the
/// hull of its endpoints.
pub fn fx_lerp_e(a: i64, b: i64, t: i64) -> (r: i64)
    requires
        0 <= t <= ONE,
        -HANDLE_LIMIT <= a <= HANDLE_LIMIT,
        -HANDLE_LIMIT <= b <= HANDLE_LIMIT,
    ensures
        r == fx_lerp(a as int, b as int, t as int),
        -HANDLE_LIMIT <= r <= HANDLE_LIMIT,
        a <= b ==> a <= r <= b,
        b <= a ==> b <= r <= a,
{
    proof {
        lemma_mul_bound((b - a) as int, t as int, 2 * HANDLE_LIMIT as int, ONE as int);
        lemma_fx_lerp_hull(a as int, b as int, t as int);
    }
    let d = fx_mul_e(b - a, t);
    a + d
}

} // verus!
