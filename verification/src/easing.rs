//! The easing resolver.
//!
//! A segment's ease curve is the cubic bezier from `(0, 0)` to `(1, 1)`
//! whose interior handles are the outgoing handle of the earlier keyframe
//! and the incoming handle of the later one — time on the horizontal axis,
//! eased fraction on the vertical axis. [`ease`] intersects that curve with
//! the vertical line at a time fraction `x`: it returns the curve's
//! vertical coordinate at the first parameter whose horizontal coordinate
//! matches `x` within [`EPS`]. Handles on the diagonal make the curve the
//! identity map, and the resolver then returns `x` itself exactly; when no
//! parameter matches at all (degenerate, out-of-domain handles), it falls
//! back to the identity mapping.

use vstd::prelude::*;
use crate::fixed::{fx_lerp, fx_lerp_e, EPS, HANDLE_LIMIT, ONE, RATIO_LIMIT};
use crate::geometry::Vector2D;

verus! {

/// One coordinate of a cubic bezier with control values `a, b, c, d`,
/// evaluated by de Casteljau interpolation at the fixed-point parameter `t`.
pub open spec fn bez3(a: int, b: int, c: int, d: int, t: int) -> int {
    let ab = fx_lerp(a, b, t);
    let bc = fx_lerp(b, c, t);
    let cd = fx_lerp(c, d, t);
    let abc = fx_lerp(ab, bc, t);
    let bcd = fx_lerp(bc, cd, t);
    fx_lerp(abc, bcd, t)
}

/// Horizontal (time) coordinate of the ease curve at parameter `t`.
pub open spec fn ease_x(out_h: Vector2D, in_h: Vector2D, t: int) -> int {
    bez3(0, out_h.x as int, in_h.x as int, ONE as int, t)
}

/// Vertical (eased fraction) coordinate of the ease curve at parameter `t`.
pub open spec fn ease_y(out_h: Vector2D, in_h: Vector2D, t: int) -> int {
    bez3(0, out_h.y as int, in_h.y as int, ONE as int, t)
}

/// Both handle coordinates within the accepted easing-handle range.
pub open spec fn handle_in_bounds(h: Vector2D) -> bool {
    &&& -HANDLE_LIMIT <= h.x <= HANDLE_LIMIT
    &&& -HANDLE_LIMIT <= h.y <= HANDLE_LIMIT
}

/// A handle lying on the diagonal of the unit square.
pub open spec fn diagonal(h: Vector2D) -> bool {
    h.x == h.y
}

/// The curve's horizontal coordinate at parameter `t` matches the time
/// fraction `x` within [`EPS`].
pub open spec fn matches_at(out_h: Vector2D, in_h: Vector2D, x: int, t: int) -> bool {
    &&& 0 <= t <= ONE as int
    &&& -(EPS as int) <= ease_x(out_h, in_h, t) - x <= EPS as int
}

/// `t` is the first parameter at which the curve crosses the vertical line
/// at `x` (within [`EPS`]): it matches, and no smaller parameter does.
pub open spec fn first_match(out_h: Vector2D, in_h: Vector2D, x: int, t: int) -> bool {
    &&& matches_at(out_h, in_h, x, t)
    &&& forall|u: int| 0 <= u < t ==> !matches_at(out_h, in_h, x, u)
}

/// At most one parameter is the first match.
pub proof fn lemma_first_match_unique(out_h: Vector2D, in_h: Vector2D, x: int, t1: int, t2: int)
    requires
        first_match(out_h, in_h, x, t1),
        first_match(out_h, in_h, x, t2),
    ensures
        t1 == t2,
{
}

/// What the easing resolver returns for the time fraction `x`, pinned for
/// every input: handles on the diagonal make the curve the identity map,
/// so the result is `x` itself; otherwise the result is the curve's
/// vertical coordinate at the first parameter whose horizontal coordinate
/// matches `x` within [`EPS`], and the identity fallback `x` is taken only
/// when no parameter matches at all.
pub open spec fn eases_to(out_h: Vector2D, in_h: Vector2D, x: int, r: int) -> bool {
    if diagonal(out_h) && diagonal(in_h) {
        r == x
    } else if exists|t: int| matches_at(out_h, in_h, x, t) {
        exists|t: int| #[trigger] first_match(out_h, in_h, x, t) && r == ease_y(out_h, in_h, t)
    } else {
        r == x
    }
}

/// With both handles on the diagonal the curve's two coordinates coincide
/// at every parameter.
pub proof fn lemma_diagonal_handles(out_h: Vector2D, in_h: Vector2D, t: int)
    requires
        diagonal(out_h),
        diagonal(in_h),
    ensures
        ease_x(out_h, in_h, t) == ease_y(out_h, in_h, t),
{
}

/// One coordinate of the ease curve, evaluated by de Casteljau
/// interpolation; the result stays within the handle range.
fn bez3_e(a: i64, b: i64, c: i64, d: i64, t: i64) -> (r: i64)
    requires
        -HANDLE_LIMIT <= a <= HANDLE_LIMIT,
        -HANDLE_LIMIT <= b <= HANDLE_LIMIT,
        -HANDLE_LIMIT <= c <= HANDLE_LIMIT,
        -HANDLE_LIMIT <= d <= HANDLE_LIMIT,
        0 <= t <= ONE,
    ensures
        r == bez3(a as int, b as int, c as int, d as int, t as int),
        -HANDLE_LIMIT <= r <= HANDLE_LIMIT,
{
    let ab = fx_lerp_e(a, b, t);
    let bc = fx_lerp_e(b, c, t);
    let cd = fx_lerp_e(c, d, t);
    let abc = fx_lerp_e(ab, bc, t);
    let bcd = fx_lerp_e(bc, cd, t);
    fx_lerp_e(abc, bcd, t)
}

fn ease_x_e(out_h: Vector2D, in_h: Vector2D, t: i64) -> (r: i64)
    requires
        handle_in_bounds(out_h),
        handle_in_bounds(in_h),
        0 <= t <= ONE,
    ensures
        r == ease_x(out_h, in_h, t as int),
        -HANDLE_LIMIT <= r <= HANDLE_LIMIT,
{
    bez3_e(0, out_h.x, in_h.x, ONE, t)
}

fn ease_y_e(out_h: Vector2D, in_h: Vector2D, t: i64) -> (r: i64)
    requires
        handle_in_bounds(out_h),
        handle_in_bounds(in_h),
        0 <= t <= ONE,
    ensures
        r == ease_y(out_h, in_h, t as int),
        -HANDLE_LIMIT <= r <= HANDLE_LIMIT,
{
    bez3_e(0, out_h.y, in_h.y, ONE, t)
}

/// Resolve the eased fraction for the time fraction `x`.
///
/// Handles on the diagonal are resolved to `x` itself: the curve is then
/// the identity map. Otherwise the curve is scanned from parameter 0
/// upward, and the vertical coordinate at the first parameter whose
/// horizontal coordinate matches `x` within [`EPS`] is returned; when no
/// parameter matches (degenerate, out-of-domain handles), `x` comes back
/// unchanged.
pub fn ease(out_h: Vector2D, in_h: Vector2D, x: i64) -> (r: i64)
    requires
        handle_in_bounds(out_h),
        handle_in_bounds(in_h),
        0 <= x <= ONE,
    ensures
        eases_to(out_h, in_h, x as int, r as int),
        x == 0 ==> r == 0,
        -RATIO_LIMIT <= r <= RATIO_LIMIT,
        diagonal(out_h) && diagonal(in_h) ==> r == x,
{
    if out_h.x == out_h.y && in_h.x == in_h.y {
        return x;
    }
    let mut t: i64 = 0;
    while t <= ONE
        invariant
            0 <= t <= ONE + 1,
            handle_in_bounds(out_h),
            handle_in_bounds(in_h),
            0 <= x <= ONE,
            !(diagonal(out_h) && diagonal(in_h)),
            forall|u: int| 0 <= u < t ==> !matches_at(out_h, in_h, x as int, u),
        decreases ONE + 1 - t,
    {
        let bx = ease_x_e(out_h, in_h, t);
        let d = bx - x;
        if -EPS <= d && d <= EPS {
            let ry = ease_y_e(out_h, in_h, t);
            proof {
                assert(matches_at(out_h, in_h, x as int, t as int));
                assert(first_match(out_h, in_h, x as int, t as int));
                if x == 0 {
                    assert(ease_x(out_h, in_h, 0) == 0);
                    assert(matches_at(out_h, in_h, 0, 0));
                    assert(t == 0);
                    assert(ease_y(out_h, in_h, 0) == 0);
                    assert(ry == 0);
                }
            }
            return ry;
        }
        proof {
            assert(!matches_at(out_h, in_h, x as int, t as int));
        }
        t = t + 1;
    }
    proof {
        assert(ease_x(out_h, in_h, 0) == 0);
        assert(matches_at(out_h, in_h, x as int, 0) ==> false);
        assert(x != 0);
        assert forall|u: int| !matches_at(out_h, in_h, x as int, u) by {
            if 0 <= u <= ONE as int {
                assert(!matches_at(out_h, in_h, x as int, u));
            }
        }
        assert(!(exists|u: int| matches_at(out_h, in_h, x as int, u)));
    }
    x
}

} // verus!
