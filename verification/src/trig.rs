//! Fixed-point trigonometry for the transform composer: cosine and sine of
//! fixed-point degrees, and the angle of a vector from the x axis.
//!
//! Angles are reduced to a quadrant and evaluated by a truncated Taylor
//! series on `[0°, 45°]`; right angles and the zero angle come out exact,
//! which the transform laws rely on.

use vstd::prelude::*;
use crate::fixed::{fx_mul, fx_mul_e, ONE, VAL_LIMIT};
use crate::geometry::Vector2D;

verus! {

/// 45 degrees in fixed-point units.
pub const DEG_45: i64 = 45_000_000;

/// 90 degrees in fixed-point units.
pub const DEG_90: i64 = 90_000_000;

/// 180 degrees in fixed-point units.
pub const DEG_180: i64 = 180_000_000;

/// 360 degrees in fixed-point units.
pub const DEG_360: i64 = 360_000_000;

/// Pi in fixed-point units.
pub const PI_FX: i64 = 3_141_593;

/// Largest magnitude accepted for a rotation in fixed-point degrees.
pub const ROT_LIMIT: i64 = 10_000_000_000_000;

/// Largest radian magnitude handed to the Taylor series (just above 45
/// degrees).
pub const RAD_LIMIT: i64 = 800_000;

/// Reduce an angle in fixed-point degrees into `[0, DEG_360)`.
pub open spec fn wrap_deg(d: int) -> int {
    d % (DEG_360 as int)
}

/// Degrees to radians, both fixed-point.
pub open spec fn rad_of_deg(x: int) -> int {
    (x * (PI_FX as int)) / (DEG_180 as int)
}

/// Radians to degrees, both fixed-point.
pub open spec fn deg_of_rad(r: int) -> int {
    (r * (DEG_180 as int)) / (PI_FX as int)
}

/// Truncated Taylor series for the cosine of `r` fixed-point radians,
/// `0 <= r <= RAD_LIMIT`.
pub open spec fn cos_tay(r: int) -> int {
    let r2 = fx_mul(r, r);
    let r4 = fx_mul(r2, r2);
    let r6 = fx_mul(r4, r2);
    (ONE as int) - r2 / 2 + r4 / 24 - r6 / 720
}

/// Truncated Taylor series for the sine of `r` fixed-point radians,
/// `0 <= r <= RAD_LIMIT`.
pub open spec fn sin_tay(r: int) -> int {
    let r2 = fx_mul(r, r);
    let r3 = fx_mul(r2, r);
    let r5 = fx_mul(fx_mul(r2, r2), r);
    r - r3 / 6 + r5 / 120
}

/// Cosine over one quadrant of fixed-point degrees, `0 <= rem < DEG_90`.
pub open spec fn cos_quarter(rem: int) -> int {
    if rem <= DEG_45 as int {
        cos_tay(rad_of_deg(rem))
    } else {
        sin_tay(rad_of_deg((DEG_90 as int) - rem))
    }
}

/// Sine over one quadrant of fixed-point degrees, `0 <= rem < DEG_90`.
pub open spec fn sin_quarter(rem: int) -> int {
    if rem <= DEG_45 as int {
        sin_tay(rad_of_deg(rem))
    } else {
        cos_tay(rad_of_deg((DEG_90 as int) - rem))
    }
}

/// Cosine of an angle in fixed-point degrees.
pub open spec fn cos_fx(d: int) -> int {
    let w = wrap_deg(d);
    let q = w / (DEG_90 as int);
    let rem = w % (DEG_90 as int);
    if q == 0 {
        cos_quarter(rem)
    } else if q == 1 {
        -sin_quarter(rem)
    } else if q == 2 {
        -cos_quarter(rem)
    } else {
        sin_quarter(rem)
    }
}

/// Sine of an angle in fixed-point degrees.
pub open spec fn sin_fx(d: int) -> int {
    let w = wrap_deg(d);
    let q = w / (DEG_90 as int);
    let rem = w % (DEG_90 as int);
    if q == 0 {
        sin_quarter(rem)
    } else if q == 1 {
        cos_quarter(rem)
    } else if q == 2 {
        -sin_quarter(rem)
    } else {
        -cos_quarter(rem)
    }
}

/// The cosine of the zero angle is exactly one; its sine exactly zero.
pub proof fn lemma_trig_zero()
    ensures
        cos_fx(0) == ONE as int,
        sin_fx(0) == 0,
{
    vstd::arithmetic::div_mod::lemma_small_mod(0, DEG_360 as nat);
    vstd::arithmetic::div_mod::lemma_small_mod(0, DEG_90 as nat);
    vstd::arithmetic::div_mod::lemma_div_of0(DEG_90 as int);
    vstd::arithmetic::div_mod::lemma_div_of0(DEG_180 as int);
    vstd::arithmetic::div_mod::lemma_div_of0(ONE as int);
    vstd::arithmetic::div_mod::lemma_div_of0(2);
    vstd::arithmetic::div_mod::lemma_div_of0(6);
    vstd::arithmetic::div_mod::lemma_div_of0(24);
    vstd::arithmetic::div_mod::lemma_div_of0(120);
    vstd::arithmetic::div_mod::lemma_div_of0(720);
    assert(wrap_deg(0) == 0);
    assert(rad_of_deg(0) == 0);
    assert(fx_mul(0, 0) == 0);
    assert(cos_tay(0) == ONE as int);
    assert(sin_tay(0) == 0);
    assert(cos_fx(0) == ONE as int);
    assert(sin_fx(0) == 0);
}

/// Negating a positive number flips its remainder by a positive divisor.
proof fn lemma_mod_neg(x: int, d: int)
    requires
        x > 0,
        d > 0,
    ensures
        (-x) % d == (if x % d == 0 {
            0int
        } else {
            d - (x % d)
        }),
{
    let q = x / d;
    let r = x % d;
    vstd::arithmetic::div_mod::lemma_fundamental_div_mod(x, d);
    vstd::arithmetic::div_mod::lemma_mod_bound(x, d);
    if r == 0 {
        assert((-q) * d == -(q * d)) by (nonlinear_arith);
        vstd::arithmetic::div_mod::lemma_fundamental_div_mod_converse(-x, d, -q, 0);
    } else {
        assert((-q - 1) * d == -(q * d) - d) by (nonlinear_arith);
        vstd::arithmetic::div_mod::lemma_fundamental_div_mod_converse(-x, d, -q - 1, d - r);
    }
}

/// Reduce an angle in fixed-point degrees into `[0, DEG_360)`.
fn wrap_deg_e(d: i64) -> (r: i64)
    requires
        -ROT_LIMIT <= d <= ROT_LIMIT,
    ensures
        r == wrap_deg(d as int),
        0 <= r < DEG_360,
{
    proof {
        vstd::arithmetic::div_mod::lemma_mod_bound(d as int, DEG_360 as int);
    }
    if d >= 0 {
        ((d as u64) % (DEG_360 as u64)) as i64
    } else {
        proof {
            lemma_mod_neg(-(d as int), DEG_360 as int);
        }
        let m = (((-d) as u64) % (DEG_360 as u64)) as i64;
        if m == 0 {
            0
        } else {
            DEG_360 - m
        }
    }
}

/// A fixed-point product with a factor in `[0, ONE]` shrinks the other
/// (non-negative) factor.
proof fn lemma_fx_shrink(a: int, b: int)
    requires
        0 <= a <= ONE as int,
        0 <= b,
    ensures
        0 <= fx_mul(a, b) <= b,
{
    assert(a * b <= b * (ONE as int)) by (nonlinear_arith)
        requires
            0 <= a <= ONE as int,
            0 <= b,
    ;
    assert(a * b >= 0) by (nonlinear_arith)
        requires
            0 <= a,
            0 <= b,
    ;
    vstd::arithmetic::div_mod::lemma_div_is_ordered(a * b, b * (ONE as int), ONE as int);
    vstd::arithmetic::div_mod::lemma_div_by_multiple(b, ONE as int);
    vstd::arithmetic::div_mod::lemma_div_pos_is_pos(a * b, ONE as int);
}

/// Degrees to radians over `[0, DEG_45]`.
fn rad_of_deg_e(x: i64) -> (r: i64)
    requires
        0 <= x <= DEG_45,
    ensures
        r == rad_of_deg(x as int),
        0 <= r <= RAD_LIMIT,
{
    proof {
        assert((x as int) * (PI_FX as int) <= (DEG_45 as int) * (PI_FX as int)) by (nonlinear_arith)
            requires
                0 <= x as int <= DEG_45 as int,
        ;
        assert((x as int) * (PI_FX as int) >= 0) by (nonlinear_arith)
            requires
                0 <= x as int,
        ;
        vstd::arithmetic::div_mod::lemma_div_is_ordered(
            (x as int) * (PI_FX as int),
            (DEG_45 as int) * (PI_FX as int),
            DEG_180 as int,
        );
        vstd::arithmetic::div_mod::lemma_div_pos_is_pos((x as int) * (PI_FX as int), DEG_180 as int);
    }
    (((x as u64) * (PI_FX as u64)) / (DEG_180 as u64)) as i64
}

/// Taylor cosine over `[0, RAD_LIMIT]` fixed-point radians.
fn cos_tay_e(r: i64) -> (c: i64)
    requires
        0 <= r <= RAD_LIMIT,
    ensures
        c == cos_tay(r as int),
        0 <= c <= ONE,
{
    proof {
        assert((r as int) * (r as int) <= (RAD_LIMIT as int) * (RAD_LIMIT as int))
            by (nonlinear_arith)
            requires
                0 <= r as int <= RAD_LIMIT as int,
        ;
        assert((r as int) * (r as int) >= 0) by (nonlinear_arith);
    }
    let r2 = fx_mul_e(r, r);
    proof {
        vstd::arithmetic::div_mod::lemma_div_pos_is_pos((r as int) * (r as int), ONE as int);
        vstd::arithmetic::div_mod::lemma_div_is_ordered(
            (r as int) * (r as int),
            (RAD_LIMIT as int) * (RAD_LIMIT as int),
            ONE as int,
        );
        assert(0 <= r2 <= 640_000);
        lemma_fx_shrink(r2 as int, r2 as int);
    }
    let r4 = fx_mul_e(r2, r2);
    proof {
        lemma_fx_shrink(r2 as int, r4 as int);
    }
    let r6 = fx_mul_e(r4, r2);
    proof {
        assert(fx_mul(r4 as int, r2 as int) == fx_mul(r2 as int, r4 as int)) by {
            assert((r4 as int) * (r2 as int) == (r2 as int) * (r4 as int)) by (nonlinear_arith);
        }
        vstd::arithmetic::div_mod::lemma_div_is_ordered_by_denominator(r4 as int, 2, 24);
        vstd::arithmetic::div_mod::lemma_div_is_ordered(r4 as int, r2 as int, 2);
    }
    let t2 = ((r2 as u64) / 2) as i64;
    let t4 = ((r4 as u64) / 24) as i64;
    let t6 = ((r6 as u64) / 720) as i64;
    proof {
        vstd::arithmetic::div_mod::lemma_div_is_ordered_by_denominator(r4 as int, 24, 24);
        assert(t4 <= t2) by {
            vstd::arithmetic::div_mod::lemma_div_is_ordered(r4 as int, r2 as int, 24);
            vstd::arithmetic::div_mod::lemma_div_is_ordered_by_denominator(r2 as int, 2, 24);
        }
    }
    ONE - t2 + t4 - t6
}

/// Taylor sine over `[0, RAD_LIMIT]` fixed-point radians.
fn sin_tay_e(r: i64) -> (s: i64)
    requires
        0 <= r <= RAD_LIMIT,
    ensures
        s == sin_tay(r as int),
        0 <= s <= ONE,
{
    proof {
        assert((r as int) * (r as int) <= (RAD_LIMIT as int) * (RAD_LIMIT as int))
            by (nonlinear_arith)
            requires
                0 <= r as int <= RAD_LIMIT as int,
        ;
        assert((r as int) * (r as int) >= 0) by (nonlinear_arith);
    }
    let r2 = fx_mul_e(r, r);
    proof {
        vstd::arithmetic::div_mod::lemma_div_pos_is_pos((r as int) * (r as int), ONE as int);
        vstd::arithmetic::div_mod::lemma_div_is_ordered(
            (r as int) * (r as int),
            (RAD_LIMIT as int) * (RAD_LIMIT as int),
            ONE as int,
        );
        assert(0 <= r2 <= 640_000);
        lemma_fx_shrink(r2 as int, r as int);
        lemma_fx_shrink(r2 as int, r2 as int);
    }
    let r3 = fx_mul_e(r2, r);
    let r4 = fx_mul_e(r2, r2);
    proof {
        lemma_fx_shrink(r4 as int, r as int);
    }
    let r5 = fx_mul_e(r4, r);
    let t3 = ((r3 as u64) / 6) as i64;
    let t5 = ((r5 as u64) / 120) as i64;
    proof {
        assert(t3 <= r) by {
            vstd::arithmetic::div_mod::lemma_div_is_ordered(r3 as int, r as int, 6);
            vstd::arithmetic::div_mod::lemma_div_is_ordered_by_denominator(r as int, 1, 6);
            vstd::arithmetic::div_mod::lemma_div_basics(r as int);
        }
        assert(t5 <= 6_667) by {
            vstd::arithmetic::div_mod::lemma_div_is_ordered(r5 as int, RAD_LIMIT as int, 120);
        }
    }
    r - t3 + t5
}

/// Cosine and sine of an angle in fixed-point degrees.
///
/// Both results are clamped by construction to `[-ONE, ONE]`; the zero
/// angle and right angles are exact.
pub fn cos_sin_e(d: i64) -> (cs: (i64, i64))
    requires
        -ROT_LIMIT <= d <= ROT_LIMIT,
    ensures
        cs.0 == cos_fx(d as int),
        cs.1 == sin_fx(d as int),
        -ONE <= cs.0 <= ONE,
        -ONE <= cs.1 <= ONE,
{
    let w = wrap_deg_e(d);
    proof {
        vstd::arithmetic::div_mod::lemma_mod_bound(w as int, DEG_90 as int);
        vstd::arithmetic::div_mod::lemma_div_pos_is_pos(w as int, DEG_90 as int);
        vstd::arithmetic::div_mod::lemma_div_is_ordered(w as int, 359_999_999, DEG_90 as int);
    }
    let q = ((w as u64) / (DEG_90 as u64)) as i64;
    let rem = ((w as u64) % (DEG_90 as u64)) as i64;
    assert(0 <= q <= 3);
    assert(0 <= rem < DEG_90);
    let (cq, sq) = if rem <= DEG_45 {
        let rr = rad_of_deg_e(rem);
        (cos_tay_e(rr), sin_tay_e(rr))
    } else {
        let rr = rad_of_deg_e(DEG_90 - rem);
        (sin_tay_e(rr), cos_tay_e(rr))
    };
    assert(cq == cos_quarter(rem as int));
    assert(sq == sin_quarter(rem as int));
    if q == 0 {
        (cq, sq)
    } else if q == 1 {
        (-sq, cq)
    } else if q == 2 {
        (-cq, -sq)
    } else {
        (sq, -cq)
    }
}

/// Polynomial approximation of the arctangent of `z in [0, ONE]`, in
/// fixed-point radians.
pub open spec fn atan_frac(z: int) -> int {
    let z2 = fx_mul(z, z);
    let p = 999_866 - fx_mul(z2, 330_300 - fx_mul(z2, 180_141 - fx_mul(z2, 85_133 - fx_mul(z2, 20_835))));
    fx_mul(z, p)
}

fn atan_frac_e(z: i64) -> (r: i64)
    requires
        0 <= z <= ONE,
    ensures
        r == atan_frac(z as int),
        0 <= r <= ONE,
{
    proof {
        assert((z as int) * (z as int) >= 0) by (nonlinear_arith);
        assert((z as int) * (z as int) <= (ONE as int) * (ONE as int)) by (nonlinear_arith)
            requires
                0 <= z as int <= ONE as int,
        ;
    }
    let z2 = fx_mul_e(z, z);
    proof {
        vstd::arithmetic::div_mod::lemma_div_pos_is_pos((z as int) * (z as int), ONE as int);
        vstd::arithmetic::div_mod::lemma_div_is_ordered(
            (z as int) * (z as int),
            (ONE as int) * (ONE as int),
            ONE as int,
        );
        vstd::arithmetic::div_mod::lemma_div_by_multiple(ONE as int, ONE as int);
        assert(0 <= z2 <= ONE);
        lemma_fx_shrink(z2 as int, 20_835);
    }
    let p4 = 85_133 - fx_mul_e(z2, 20_835);
    proof {
        lemma_fx_shrink(z2 as int, p4 as int);
    }
    let p3 = 180_141 - fx_mul_e(z2, p4);
    proof {
        lemma_fx_shrink(z2 as int, p3 as int);
    }
    let p2 = 330_300 - fx_mul_e(z2, p3);
    proof {
        lemma_fx_shrink(z2 as int, p2 as int);
    }
    let p = 999_866 - fx_mul_e(z2, p2);
    proof {
        lemma_fx_shrink(z as int, p as int);
    }
    fx_mul_e(z, p)
}

/// Fixed-point radians to degrees over the arctangent range.
fn deg_of_rad_e(r: i64) -> (x: i64)
    requires
        0 <= r <= ONE,
    ensures
        x == deg_of_rad(r as int),
        0 <= x <= 57_300_000,
{
    proof {
        assert((r as int) * (DEG_180 as int) >= 0) by (nonlinear_arith)
            requires
                0 <= r as int,
        ;
        assert((r as int) * (DEG_180 as int) <= (ONE as int) * (DEG_180 as int))
            by (nonlinear_arith)
            requires
                0 <= r as int <= ONE as int,
        ;
        vstd::arithmetic::div_mod::lemma_div_pos_is_pos((r as int) * (DEG_180 as int), PI_FX as int);
        vstd::arithmetic::div_mod::lemma_div_is_ordered(
            (r as int) * (DEG_180 as int),
            (ONE as int) * (DEG_180 as int),
            PI_FX as int,
        );
    }
    (((r as u64) * (DEG_180 as u64)) / (PI_FX as u64)) as i64
}

/// Angle of the vector `(dx, dy)` from the positive x axis, in fixed-point
/// degrees within `(-DEG_180, DEG_180]`; the zero vector maps to zero, and
/// the four axis directions are exact.
pub open spec fn atan2_fx(dy: int, dx: int) -> int {
    if dy == 0 {
        if dx >= 0 {
            0int
        } else {
            DEG_180 as int
        }
    } else if dx == 0 {
        if dy > 0 {
            DEG_90 as int
        } else {
            -(DEG_90 as int)
        }
    } else {
        let ax = if dx >= 0 {
            dx
        } else {
            -dx
        };
        let ay = if dy >= 0 {
            dy
        } else {
            -dy
        };
        let base = if ay <= ax {
            deg_of_rad(atan_frac((ay * (ONE as int)) / ax))
        } else {
            (DEG_90 as int) - deg_of_rad(atan_frac((ax * (ONE as int)) / ay))
        };
        if dx > 0 && dy > 0 {
            base
        } else if dx < 0 && dy > 0 {
            (DEG_180 as int) - base
        } else if dx < 0 && dy < 0 {
            base - (DEG_180 as int)
        } else {
            -base
        }
    }
}

/// A horizontal motion to the right has a zero angle from the x axis.
pub proof fn lemma_angle_east(dx: int)
    requires
        dx > 0,
    ensures
        atan2_fx(0, dx) == 0,
{
}

/// A vertical motion upward has an angle of 90 degrees from the x axis.
pub proof fn lemma_angle_north(dy: int)
    requires
        dy > 0,
    ensures
        atan2_fx(dy, 0) == DEG_90 as int,
{
}

fn abs_coord(v: i64) -> (r: i64)
    requires
        -2 * VAL_LIMIT <= v <= 2 * VAL_LIMIT,
    ensures
        r == (if v >= 0 {
            v as int
        } else {
            -(v as int)
        }),
        0 <= r <= 2 * VAL_LIMIT,
{
    if v >= 0 {
        v
    } else {
        -v
    }
}

fn atan_deg_of_quotient(num: i64, den: i64) -> (r: i64)
    requires
        0 <= num <= den,
        0 < den,
        den <= 2 * VAL_LIMIT,
    ensures
        r == deg_of_rad(atan_frac(((num as int) * (ONE as int)) / (den as int))),
        0 <= r <= 57_300_000,
{
    proof {
        assert((num as int) * (ONE as int) >= 0) by (nonlinear_arith)
            requires
                0 <= num as int,
        ;
        assert((num as int) * (ONE as int) <= (den as int) * (ONE as int)) by (nonlinear_arith)
            requires
                0 <= num as int <= den as int,
        ;
        vstd::arithmetic::div_mod::lemma_div_pos_is_pos((num as int) * (ONE as int), den as int);
        vstd::arithmetic::div_mod::lemma_div_is_ordered(
            (num as int) * (ONE as int),
            (den as int) * (ONE as int),
            den as int,
        );
        vstd::arithmetic::div_mod::lemma_div_by_multiple(ONE as int, den as int);
    }
    let z = (((num as u64) * (ONE as u64)) / (den as u64)) as i64;
    let a = atan_frac_e(z);
    deg_of_rad_e(a)
}

/// Angle of the vector `d` from the positive x axis, in fixed-point
/// degrees.
pub fn angle_from_x_axis(d: Vector2D) -> (r: i64)
    requires
        -2 * VAL_LIMIT <= d.x <= 2 * VAL_LIMIT,
        -2 * VAL_LIMIT <= d.y <= 2 * VAL_LIMIT,
    ensures
        r == atan2_fx(d.y as int, d.x as int),
        -DEG_180 <= r <= DEG_180,
{
    let dx = d.x;
    let dy = d.y;
    if dy == 0 {
        if dx >= 0 {
            0
        } else {
            DEG_180
        }
    } else if dx == 0 {
        if dy > 0 {
            DEG_90
        } else {
            -DEG_90
        }
    } else {
        let ax = abs_coord(dx);
        let ay = abs_coord(dy);
        let base = if ay <= ax {
            atan_deg_of_quotient(ay, ax)
        } else {
            DEG_90 - atan_deg_of_quotient(ax, ay)
        };
        if dx > 0 && dy > 0 {
            base
        } else if dx < 0 && dy > 0 {
            DEG_180 - base
        } else if dx < 0 && dy < 0 {
            base - DEG_180
        } else {
            -base
        }
    }
}

} // verus!
