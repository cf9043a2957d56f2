//! The interpolation capability: per value-type blending by a fixed-point
//! fraction.
//!
//! `a.lerp(&b, t)` blends `t` of `a` into `b`: the result is
//! `b + (a - b) * t`, so `t = 0` yields `b` and `t = ONE` yields `a`.
//! The animated-value evaluator calls it as `later.lerp(&earlier, ratio)`;
//! that direction must be preserved exactly.

use vstd::prelude::*;
use crate::fixed::{fx_lerp, fx_mul_e, lemma_fx_mul_bound, lemma_fx_lerp_one, lemma_mul_bound, ONE,
    OUT_LIMIT, RATIO_LIMIT, VAL_LIMIT};
use crate::geometry::{bez_view, bezier_in_bounds, blend_point, blend_points, points_in_bounds,
    Bezier, BezierView, Rgb, Vector2D};

verus! {

/// Blend `t` of the coordinate `sc` into the coordinate `oc`.
pub fn lerp_coord(sc: i64, oc: i64, t: i64) -> (r: i64)
    requires
        -VAL_LIMIT <= sc <= VAL_LIMIT,
        -VAL_LIMIT <= oc <= VAL_LIMIT,
        -RATIO_LIMIT <= t <= RATIO_LIMIT,
    ensures
        r == fx_lerp(oc as int, sc as int, t as int),
        -OUT_LIMIT <= r <= OUT_LIMIT,
{
    proof {
        lemma_mul_bound((sc - oc) as int, t as int, 2 * VAL_LIMIT as int, RATIO_LIMIT as int);
        lemma_fx_mul_bound((sc - oc) as int, t as int, 2 * VAL_LIMIT as int, RATIO_LIMIT as int);
    }
    oc + fx_mul_e(sc - oc, t)
}

/// A value type that animated properties can blend.
///
/// `Model` is the mathematical model of a value; for plain `Copy` types it
/// is the value itself, for path shapes it is a sequence of contour views.
pub trait Lerp: Sized {
    type Model;

    /// Mathematical model of the value.
    spec fn model(self) -> Self::Model;

    /// The value lies within the keyframe coordinate range.
    spec fn in_bounds(self) -> bool;

    /// The two values can be blended (equal element counts for shapes).
    spec fn compatible(self, other: Self) -> bool;

    /// Model of "blend `t` of `self` into `other`".
    spec fn spec_lerp(self, other: Self, t: int) -> Self::Model;

    /// Blending by the zero fraction yields `other` exactly.
    proof fn lemma_lerp_zero(self, other: Self)
        requires
            self.compatible(other),
        ensures
            self.spec_lerp(other, 0) == other.model(),
    ;

    /// Blending by the whole fraction yields `self` exactly.
    proof fn lemma_lerp_one(self, other: Self)
        requires
            self.compatible(other),
        ensures
            self.spec_lerp(other, ONE as int) == self.model(),
    ;

    /// Blend `t` of `self` into `other`.
    fn lerp(&self, other: &Self, t: i64) -> (r: Self)
        requires
            self.in_bounds(),
            other.in_bounds(),
            self.compatible(*other),
            -RATIO_LIMIT <= t <= RATIO_LIMIT,
        ensures
            r.model() == self.spec_lerp(*other, t as int),
    ;

    /// Whether the two values can be blended.
    fn compatible_with(&self, other: &Self) -> (c: bool)
        ensures
            c == self.compatible(*other),
    ;

    /// Whether the value lies within the keyframe coordinate range.
    fn check_in_bounds(&self) -> (c: bool)
        ensures
            c == self.in_bounds(),
    ;

    /// A copy with the same model.
    fn duplicate(&self) -> (r: Self)
        ensures
            r.model() == self.model(),
    ;
}

impl Lerp for i64 {
    type Model = i64;

    open spec fn model(self) -> i64 {
        self
    }

    open spec fn in_bounds(self) -> bool {
        -VAL_LIMIT <= self <= VAL_LIMIT
    }

    open spec fn compatible(self, other: Self) -> bool {
        true
    }

    open spec fn spec_lerp(self, other: Self, t: int) -> i64 {
        fx_lerp(other as int, self as int, t) as i64
    }

    proof fn lemma_lerp_zero(self, other: Self) {
    }

    proof fn lemma_lerp_one(self, other: Self) {
        lemma_fx_lerp_one(other as int, self as int);
    }

    fn lerp(&self, other: &Self, t: i64) -> (r: Self) {
        lerp_coord(*self, *other, t)
    }

    fn compatible_with(&self, other: &Self) -> (c: bool) {
        true
    }

    fn check_in_bounds(&self) -> (c: bool) {
        -VAL_LIMIT <= *self && *self <= VAL_LIMIT
    }

    fn duplicate(&self) -> (r: Self) {
        *self
    }
}

impl Lerp for Vector2D {
    type Model = Vector2D;

    open spec fn model(self) -> Vector2D {
        self
    }

    open spec fn in_bounds(self) -> bool {
        Vector2D::in_bounds(self)
    }

    open spec fn compatible(self, other: Self) -> bool {
        true
    }

    open spec fn spec_lerp(self, other: Self, t: int) -> Vector2D {
        blend_point(self, other, t)
    }

    proof fn lemma_lerp_zero(self, other: Self) {
    }

    proof fn lemma_lerp_one(self, other: Self) {
        lemma_fx_lerp_one(other.x as int, self.x as int);
        lemma_fx_lerp_one(other.y as int, self.y as int);
    }

    fn lerp(&self, other: &Self, t: i64) -> (r: Self) {
        Vector2D { x: lerp_coord(self.x, other.x, t), y: lerp_coord(self.y, other.y, t) }
    }

    fn compatible_with(&self, other: &Self) -> (c: bool) {
        true
    }

    fn check_in_bounds(&self) -> (c: bool) {
        -VAL_LIMIT <= self.x && self.x <= VAL_LIMIT && -VAL_LIMIT <= self.y && self.y <= VAL_LIMIT
    }

    fn duplicate(&self) -> (r: Self) {
        *self
    }
}

/// Clamp a blended channel back into the 8-bit range.
pub open spec fn clamp255(v: int) -> int {
    if v < 0 {
        0
    } else if v > 255 {
        255
    } else {
        v
    }
}

/// Model of blending `t` of the channel `s` into the channel `o`.
pub open spec fn blend_channel(s: u8, o: u8, t: int) -> u8 {
    clamp255(fx_lerp(o as int, s as int, t)) as u8
}

fn blend_channel_e(s: u8, o: u8, t: i64) -> (r: u8)
    requires
        -RATIO_LIMIT <= t <= RATIO_LIMIT,
    ensures
        r == blend_channel(s, o, t as int),
{
    let v = lerp_coord(s as i64, o as i64, t);
    if v < 0 {
        0
    } else if v > 255 {
        255
    } else {
        v as u8
    }
}

impl Lerp for Rgb {
    type Model = Rgb;

    open spec fn model(self) -> Rgb {
        self
    }

    open spec fn in_bounds(self) -> bool {
        true
    }

    open spec fn compatible(self, other: Self) -> bool {
        true
    }

    open spec fn spec_lerp(self, other: Self, t: int) -> Rgb {
        Rgb {
            r: blend_channel(self.r, other.r, t),
            g: blend_channel(self.g, other.g, t),
            b: blend_channel(self.b, other.b, t),
        }
    }

    proof fn lemma_lerp_zero(self, other: Self) {
    }

    proof fn lemma_lerp_one(self, other: Self) {
        lemma_fx_lerp_one(other.r as int, self.r as int);
        lemma_fx_lerp_one(other.g as int, self.g as int);
        lemma_fx_lerp_one(other.b as int, self.b as int);
    }

    fn lerp(&self, other: &Self, t: i64) -> (r: Self) {
        Rgb {
            r: blend_channel_e(self.r, other.r, t),
            g: blend_channel_e(self.g, other.g, t),
            b: blend_channel_e(self.b, other.b, t),
        }
    }

    fn compatible_with(&self, other: &Self) -> (c: bool) {
        true
    }

    fn check_in_bounds(&self) -> (c: bool) {
        true
    }

    fn duplicate(&self) -> (r: Self) {
        *self
    }
}

/// The two contours have pairwise equal element counts.
pub open spec fn bezier_compatible(s: Bezier, o: Bezier) -> bool {
    &&& s.verticies@.len() == o.verticies@.len()
    &&& s.in_tangent@.len() == o.in_tangent@.len()
    &&& s.out_tangent@.len() == o.out_tangent@.len()
}

fn blend_points_e(s: &Vec<Vector2D>, o: &Vec<Vector2D>, t: i64) -> (r: Vec<Vector2D>)
    requires
        points_in_bounds(s@),
        points_in_bounds(o@),
        s@.len() == o@.len(),
        -RATIO_LIMIT <= t <= RATIO_LIMIT,
    ensures
        r@ == blend_points(s@, o@, t as int),
{
    let n = s.len();
    let mut r: Vec<Vector2D> = Vec::new();
    for j in 0..n
        invariant
            n == s@.len() == o@.len(),
            r@.len() == j,
            points_in_bounds(s@),
            points_in_bounds(o@),
            -RATIO_LIMIT <= t <= RATIO_LIMIT,
            forall|k: int| 0 <= k < j ==> r@[k] == blend_point(s@[k], o@[k], t as int),
    {
        assert(s@[j as int].in_bounds());
        assert(o@[j as int].in_bounds());
        let p = Vector2D {
            x: lerp_coord(s[j].x, o[j].x, t),
            y: lerp_coord(s[j].y, o[j].y, t),
        };
        r.push(p);
    }
    assert(r@ =~= blend_points(s@, o@, t as int));
    r
}

fn blend_bezier(s: &Bezier, o: &Bezier, t: i64) -> (r: Bezier)
    requires
        bezier_in_bounds(*s),
        bezier_in_bounds(*o),
        bezier_compatible(*s, *o),
        -RATIO_LIMIT <= t <= RATIO_LIMIT,
    ensures
        bez_view(r) == (BezierView {
            verticies: blend_points(s.verticies@, o.verticies@, t as int),
            in_tangent: blend_points(s.in_tangent@, o.in_tangent@, t as int),
            out_tangent: blend_points(s.out_tangent@, o.out_tangent@, t as int),
        }),
{
    Bezier {
        verticies: blend_points_e(&s.verticies, &o.verticies, t),
        in_tangent: blend_points_e(&s.in_tangent, &o.in_tangent, t),
        out_tangent: blend_points_e(&s.out_tangent, &o.out_tangent, t),
    }
}

impl Lerp for Vec<Bezier> {
    type Model = Seq<BezierView>;

    open spec fn model(self) -> Seq<BezierView> {
        Seq::new(self@.len(), |i: int| bez_view(self@[i]))
    }

    open spec fn in_bounds(self) -> bool {
        forall|i: int| 0 <= i < self@.len() ==> bezier_in_bounds(#[trigger] self@[i])
    }

    open spec fn compatible(self, other: Self) -> bool {
        &&& self@.len() == other@.len()
        &&& forall|i: int| 0 <= i < self@.len() ==> bezier_compatible(
            #[trigger] self@[i],
            other@[i],
        )
    }

    open spec fn spec_lerp(self, other: Self, t: int) -> Seq<BezierView> {
        Seq::new(
            self@.len(),
            |i: int| BezierView {
                verticies: blend_points(self@[i].verticies@, other@[i].verticies@, t),
                in_tangent: blend_points(self@[i].in_tangent@, other@[i].in_tangent@, t),
                out_tangent: blend_points(self@[i].out_tangent@, other@[i].out_tangent@, t),
            },
        )
    }

    proof fn lemma_lerp_zero(self, other: Self) {
        assert forall|i: int| 0 <= i < self@.len() implies self.spec_lerp(other, 0)[i] =~= bez_view(
            other@[i],
        ) by {
            assert(bezier_compatible(self@[i], other@[i]));
            assert(blend_points(self@[i].verticies@, other@[i].verticies@, 0) =~= other@[i].verticies@);
            assert(blend_points(self@[i].in_tangent@, other@[i].in_tangent@, 0)
                =~= other@[i].in_tangent@);
            assert(blend_points(self@[i].out_tangent@, other@[i].out_tangent@, 0)
                =~= other@[i].out_tangent@);
        }
        assert(self.spec_lerp(other, 0) =~= other.model());
    }

    proof fn lemma_lerp_one(self, other: Self) {
        assert forall|i: int| 0 <= i < self@.len() implies self.spec_lerp(other, ONE as int)[i]
            =~= bez_view(self@[i]) by {
            assert(bezier_compatible(self@[i], other@[i]));
            assert forall|j: int| 0 <= j < self@[i].verticies@.len() implies blend_points(
                self@[i].verticies@,
                other@[i].verticies@,
                ONE as int,
            )[j] == self@[i].verticies@[j] by {
                lemma_blend_point_one(self@[i].verticies@[j], other@[i].verticies@[j]);
            }
            assert forall|j: int| 0 <= j < self@[i].in_tangent@.len() implies blend_points(
                self@[i].in_tangent@,
                other@[i].in_tangent@,
                ONE as int,
            )[j] == self@[i].in_tangent@[j] by {
                lemma_blend_point_one(self@[i].in_tangent@[j], other@[i].in_tangent@[j]);
            }
            assert forall|j: int| 0 <= j < self@[i].out_tangent@.len() implies blend_points(
                self@[i].out_tangent@,
                other@[i].out_tangent@,
                ONE as int,
            )[j] == self@[i].out_tangent@[j] by {
                lemma_blend_point_one(self@[i].out_tangent@[j], other@[i].out_tangent@[j]);
            }
            assert(blend_points(self@[i].verticies@, other@[i].verticies@, ONE as int)
                =~= self@[i].verticies@);
            assert(blend_points(self@[i].in_tangent@, other@[i].in_tangent@, ONE as int)
                =~= self@[i].in_tangent@);
            assert(blend_points(self@[i].out_tangent@, other@[i].out_tangent@, ONE as int)
                =~= self@[i].out_tangent@);
        }
        assert(self.spec_lerp(other, ONE as int) =~= self.model());
    }

    fn lerp(&self, other: &Self, t: i64) -> (r: Self) {
        let n = self.len();
        let mut r: Vec<Bezier> = Vec::new();
        for i in 0..n
            invariant
                n == self@.len() == other@.len(),
                r@.len() == i,
                self.in_bounds(),
                other.in_bounds(),
                self.compatible(*other),
                -RATIO_LIMIT <= t <= RATIO_LIMIT,
                forall|k: int| 0 <= k < i ==> bez_view(#[trigger] r@[k]) == self.spec_lerp(
                    *other,
                    t as int,
                )[k],
        {
            assert(bezier_in_bounds(self@[i as int]));
            assert(bezier_in_bounds(other@[i as int]));
            assert(bezier_compatible(self@[i as int], other@[i as int]));
            let b = blend_bezier(&self[i], &other[i], t);
            r.push(b);
        }
        assert(r.model() =~= self.spec_lerp(*other, t as int));
        r
    }

    fn compatible_with(&self, other: &Self) -> (c: bool) {
        if self.len() != other.len() {
            return false;
        }
        let n = self.len();
        for i in 0..n
            invariant
                n == self@.len() == other@.len(),
                forall|k: int| 0 <= k < i ==> bezier_compatible(#[trigger] self@[k], other@[k]),
        {
            let sv = &self[i];
            let ov = &other[i];
            if sv.verticies.len() != ov.verticies.len() || sv.in_tangent.len()
                != ov.in_tangent.len() || sv.out_tangent.len() != ov.out_tangent.len() {
                return false;
            }
        }
        true
    }

    fn check_in_bounds(&self) -> (c: bool) {
        let n = self.len();
        for i in 0..n
            invariant
                n == self@.len(),
                forall|k: int| 0 <= k < i ==> bezier_in_bounds(#[trigger] self@[k]),
        {
            let b = &self[i];
            if !(points_bounded(&b.verticies) && points_bounded(&b.in_tangent) && points_bounded(
                &b.out_tangent,
            )) {
                return false;
            }
        }
        true
    }

    fn duplicate(&self) -> (r: Self) {
        let n = self.len();
        let mut r: Vec<Bezier> = Vec::new();
        for i in 0..n
            invariant
                n == self@.len(),
                r@.len() == i,
                forall|k: int| 0 <= k < i ==> bez_view(#[trigger] r@[k]) == bez_view(self@[k]),
        {
            let b = Bezier {
                verticies: dup_points(&self[i].verticies),
                in_tangent: dup_points(&self[i].in_tangent),
                out_tangent: dup_points(&self[i].out_tangent),
            };
            r.push(b);
        }
        assert(r.model() =~= self.model());
        r
    }
}

/// Blending a point by the whole fraction yields the first operand exactly.
proof fn lemma_blend_point_one(s: Vector2D, o: Vector2D)
    ensures
        blend_point(s, o, ONE as int) == s,
{
    lemma_fx_lerp_one(o.x as int, s.x as int);
    lemma_fx_lerp_one(o.y as int, s.y as int);
}

fn points_bounded(v: &Vec<Vector2D>) -> (c: bool)
    ensures
        c == points_in_bounds(v@),
{
    let n = v.len();
    for j in 0..n
        invariant
            n == v@.len(),
            forall|k: int| 0 <= k < j ==> (#[trigger] v@[k]).in_bounds(),
    {
        let p = v[j];
        if p.x < -VAL_LIMIT || p.x > VAL_LIMIT || p.y < -VAL_LIMIT || p.y > VAL_LIMIT {
            return false;
        }
    }
    true
}

fn dup_points(v: &Vec<Vector2D>) -> (r: Vec<Vector2D>)
    ensures
        r@ == v@,
{
    let n = v.len();
    let mut r: Vec<Vector2D> = Vec::new();
    for j in 0..n
        invariant
            n == v@.len(),
            r@ =~= v@.subrange(0, j as int),
    {
        r.push(v[j]);
    }
    assert(r@ =~= v@);
    r
}

/// The error returned when two values cannot be blended.
#[derive(Clone, Copy, Debug, PartialEq, Eq, Structural)]
pub enum LerpError {
    /// The two operand shapes have mismatched element counts.
    ShapeMismatch,
}

/// Blend `t` of `a` into `b`, rejecting incompatible operands.
///
/// A pair of path shapes with mismatched element counts is rejected as an
/// error, never silently zipped to the shorter length.
pub fn try_lerp<T: Lerp>(a: &T, b: &T, t: i64) -> (r: Result<T, LerpError>)
    requires
        a.in_bounds(),
        b.in_bounds(),
        -RATIO_LIMIT <= t <= RATIO_LIMIT,
    ensures
        match r {
            Ok(v) => a.compatible(*b) && v.model() == a.spec_lerp(*b, t as int),
            Err(e) => !a.compatible(*b) && e == LerpError::ShapeMismatch,
        },
{
    if a.compatible_with(b) {
        Ok(a.lerp(b, t))
    } else {
        Err(LerpError::ShapeMismatch)
    }
}

} // verus!
