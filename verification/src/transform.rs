//! The transform composer.
//!
//! Per frame it evaluates up to four animated sub-properties (anchor,
//! position, scale, rotation), optionally augments the rotation with a
//! motion-direction bonus derived from the raw position keyframe endpoints,
//! and composes one 4×4 matrix: translate by position, rotate about the Z
//! axis, scale, then translate by the negated anchor.

use vstd::prelude::*;
use crate::animated::{Animated, AnimatedExt};
use crate::easing::eases_to;
use crate::fixed::{div_trunc, fx_mul, fx_mul_e, lemma_div_trunc_bound, lemma_fx_mul_bound,
    lemma_mul_bound, ONE, OUT_LIMIT, RATIO_LIMIT, VAL_LIMIT};
use crate::geometry::{blend_point, Vector2D};
use crate::lerp::Lerp;
use crate::trig::{atan2_fx, cos_fx, cos_sin_e, sin_fx, angle_from_x_axis, DEG_180, ROT_LIMIT};

verus! {

/// Largest magnitude of a scale fraction (a scale value divided by 100).
pub const SFRAC_LIMIT: i64 = 90_000_000_000;

/// A 4×4 matrix of fixed-point numbers, row-major: `mRC` is row `R`,
/// column `C`; the translation sits in column 3.
#[derive(Clone, Copy, Debug, PartialEq, Eq, Structural)]
pub struct Mat4 {
    pub m00: i64,
    pub m01: i64,
    pub m02: i64,
    pub m03: i64,
    pub m10: i64,
    pub m11: i64,
    pub m12: i64,
    pub m13: i64,
    pub m20: i64,
    pub m21: i64,
    pub m22: i64,
    pub m23: i64,
    pub m30: i64,
    pub m31: i64,
    pub m32: i64,
    pub m33: i64,
}

impl Mat4 {
    /// The identity matrix (ones are the fixed-point `ONE`).
    pub open spec fn spec_identity() -> Mat4 {
        Mat4 {
            m00: ONE, m01: 0, m02: 0, m03: 0,
            m10: 0, m11: ONE, m12: 0, m13: 0,
            m20: 0, m21: 0, m22: ONE, m23: 0,
            m30: 0, m31: 0, m32: 0, m33: ONE,
        }
    }

    /// A pure translation by `p`: identity rotation and scale, the
    /// translation column equal to `p`.
    pub open spec fn spec_translation(p: Vector2D) -> Mat4 {
        Mat4 {
            m00: ONE, m01: 0, m02: 0, m03: p.x,
            m10: 0, m11: ONE, m12: 0, m13: p.y,
            m20: 0, m21: 0, m22: ONE, m23: 0,
            m30: 0, m31: 0, m32: 0, m33: ONE,
        }
    }

    /// The identity matrix.
    pub fn identity() -> (r: Mat4)
        ensures
            r == Mat4::spec_identity(),
    {
        Mat4 {
            m00: ONE, m01: 0, m02: 0, m03: 0,
            m10: 0, m11: ONE, m12: 0, m13: 0,
            m20: 0, m21: 0, m22: ONE, m23: 0,
            m30: 0, m31: 0, m32: 0, m33: ONE,
        }
    }
}

/// A scale value in percent turned into a fraction, componentwise.
pub open spec fn scale_fraction(sv: Vector2D) -> Vector2D {
    Vector2D { x: div_trunc(sv.x as int, 100) as i64, y: div_trunc(sv.y as int, 100) as i64 }
}

/// The matrix `translate(position) * rotate_z(rot) * scale(sfrac) *
/// translate(-anchor)`, in fixed-point arithmetic (`rot` in fixed-point
/// degrees).
pub open spec fn spec_mat4(anchor: Vector2D, position: Vector2D, sfrac: Vector2D, rot: int) -> Mat4 {
    let c = cos_fx(rot);
    let s = sin_fx(rot);
    let m00 = fx_mul(c, sfrac.x as int);
    let m01 = -fx_mul(s, sfrac.y as int);
    let m10 = fx_mul(s, sfrac.x as int);
    let m11 = fx_mul(c, sfrac.y as int);
    let tx = position.x - fx_mul(m00, anchor.x as int) - fx_mul(m01, anchor.y as int);
    let ty = position.y - fx_mul(m10, anchor.x as int) - fx_mul(m11, anchor.y as int);
    Mat4 {
        m00: m00 as i64, m01: m01 as i64, m02: 0, m03: tx as i64,
        m10: m10 as i64, m11: m11 as i64, m12: 0, m13: ty as i64,
        m20: 0, m21: 0, m22: ONE, m23: 0,
        m30: 0, m31: 0, m32: 0, m33: ONE,
    }
}

/// With a zero rotation, a whole scale and an anchor at the origin, the
/// composed matrix is a pure translation.
pub proof fn lemma_mat4_translation(p: Vector2D)
    ensures
        spec_mat4(
            Vector2D::spec_origin(),
            p,
            (Vector2D { x: ONE, y: ONE }),
            0,
        ) == Mat4::spec_translation(p),
{
    crate::trig::lemma_trig_zero();
    vstd::arithmetic::div_mod::lemma_div_by_multiple(ONE as int, ONE as int);
    vstd::arithmetic::div_mod::lemma_div_of0(ONE as int);
    assert(fx_mul(ONE as int, ONE as int) == ONE as int);
    assert(fx_mul(0, ONE as int) == 0);
    assert(fx_mul(ONE as int, 0) == 0);
    assert(fx_mul(0, 0) == 0);
}

fn div100_e(v: i64) -> (r: i64)
    requires
        -OUT_LIMIT <= v <= OUT_LIMIT,
    ensures
        r == div_trunc(v as int, 100),
        -SFRAC_LIMIT <= r <= SFRAC_LIMIT,
{
    proof {
        lemma_div_trunc_bound(v as int, 100, OUT_LIMIT as int);
    }
    if v >= 0 {
        ((v as u64) / 100) as i64
    } else {
        -((((-v) as u64) / 100) as i64)
    }
}

/// Compose the transform matrix from already evaluated components.
fn mat4(anchor: Vector2D, position: Vector2D, sfrac: Vector2D, rot: i64) -> (r: Mat4)
    requires
        -OUT_LIMIT <= anchor.x <= OUT_LIMIT,
        -OUT_LIMIT <= anchor.y <= OUT_LIMIT,
        -OUT_LIMIT <= position.x <= OUT_LIMIT,
        -OUT_LIMIT <= position.y <= OUT_LIMIT,
        -SFRAC_LIMIT <= sfrac.x <= SFRAC_LIMIT,
        -SFRAC_LIMIT <= sfrac.y <= SFRAC_LIMIT,
        -ROT_LIMIT <= rot <= ROT_LIMIT,
    ensures
        r == spec_mat4(anchor, position, sfrac, rot as int),
{
    let (c, s) = cos_sin_e(rot);
    proof {
        lemma_mul_bound(c as int, sfrac.x as int, ONE as int, SFRAC_LIMIT as int);
        lemma_mul_bound(c as int, sfrac.y as int, ONE as int, SFRAC_LIMIT as int);
        lemma_mul_bound(s as int, sfrac.x as int, ONE as int, SFRAC_LIMIT as int);
        lemma_mul_bound(s as int, sfrac.y as int, ONE as int, SFRAC_LIMIT as int);
        lemma_fx_mul_bound(c as int, sfrac.x as int, ONE as int, SFRAC_LIMIT as int);
        lemma_fx_mul_bound(c as int, sfrac.y as int, ONE as int, SFRAC_LIMIT as int);
        lemma_fx_mul_bound(s as int, sfrac.x as int, ONE as int, SFRAC_LIMIT as int);
        lemma_fx_mul_bound(s as int, sfrac.y as int, ONE as int, SFRAC_LIMIT as int);
    }
    let m00 = fx_mul_e(c, sfrac.x);
    let m01 = -fx_mul_e(s, sfrac.y);
    let m10 = fx_mul_e(s, sfrac.x);
    let m11 = fx_mul_e(c, sfrac.y);
    proof {
        lemma_mul_bound(m00 as int, anchor.x as int, SFRAC_LIMIT as int, OUT_LIMIT as int);
        lemma_mul_bound(m01 as int, anchor.y as int, SFRAC_LIMIT as int, OUT_LIMIT as int);
        lemma_mul_bound(m10 as int, anchor.x as int, SFRAC_LIMIT as int, OUT_LIMIT as int);
        lemma_mul_bound(m11 as int, anchor.y as int, SFRAC_LIMIT as int, OUT_LIMIT as int);
        lemma_fx_mul_bound(m00 as int, anchor.x as int, SFRAC_LIMIT as int, OUT_LIMIT as int);
        lemma_fx_mul_bound(m01 as int, anchor.y as int, SFRAC_LIMIT as int, OUT_LIMIT as int);
        lemma_fx_mul_bound(m10 as int, anchor.x as int, SFRAC_LIMIT as int, OUT_LIMIT as int);
        lemma_fx_mul_bound(m11 as int, anchor.y as int, SFRAC_LIMIT as int, OUT_LIMIT as int);
    }
    let tx = position.x - fx_mul_e(m00, anchor.x) - fx_mul_e(m01, anchor.y);
    let ty = position.y - fx_mul_e(m10, anchor.x) - fx_mul_e(m11, anchor.y);
    Mat4 {
        m00, m01, m02: 0, m03: tx,
        m10, m11, m12: 0, m13: ty,
        m20: 0, m21: 0, m22: ONE, m23: 0,
        m30: 0, m31: 0, m32: 0, m33: ONE,
    }
}

/// A 2D affine transform: up to four animated sub-properties and the
/// auto-orient flag.
pub struct Transform {
    pub anchor: Option<Animated<Vector2D>>,
    pub position: Option<Animated<Vector2D>>,
    pub scale: Animated<Vector2D>,
    pub rotation: Animated<i64>,
    pub auto_orient: bool,
}

/// The queried frame clamped into the position property's keyframe range.
pub open spec fn clamped_frame(pos: Animated<Vector2D>, frame: u32) -> u32 {
    let lo = pos.start_at(0);
    let hi = pos.start_at(pos.klen() - 1);
    let f1 = if frame < lo {
        lo
    } else {
        frame as int
    };
    (if f1 > hi {
        hi
    } else {
        f1
    }) as u32
}

/// The auto-orient rotation bonus an animated position contributes: the
/// angle from the x axis of the active segment's raw endpoint difference,
/// the frame first clamped into the keyframe range; zero at or past the
/// last keyframe's start.
pub open spec fn spec_orient_bonus(pos: Animated<Vector2D>, frame: u32) -> int {
    let cf = clamped_frame(pos, frame);
    if exists|i: int| pos.in_seg(cf, i) {
        let i = choose|i: int| pos.in_seg(cf, i);
        atan2_fx(
            pos.kf(i + 1).value.y - pos.kf(i).value.y,
            pos.kf(i + 1).value.x - pos.kf(i).value.x,
        )
    } else {
        0
    }
}

fn orient_bonus(pos: &Animated<Vector2D>, frame: u32) -> (b: i64)
    requires
        pos.wf(),
        pos.animated,
    ensures
        b as int == spec_orient_bonus(*pos, frame),
        -DEG_180 <= b <= DEG_180,
{
    let plen = pos.keyframes.len();
    assert(pos.kf(0).start_frame is Some);
    assert(pos.kf(plen - 1).start_frame is Some);
    let lo = pos.keyframes[0].start_frame.unwrap();
    let hi = pos.keyframes[plen - 1].start_frame.unwrap();
    proof {
        if plen > 1 {
            pos.lemma_sorted(0, plen - 1);
        }
    }
    let mut cf = frame;
    if cf < lo {
        cf = lo;
    }
    if cf > hi {
        cf = hi;
    }
    assert(cf == clamped_frame(*pos, frame));
    let mut i: usize = 0;
    while i + 1 < plen
        invariant
            pos.wf(),
            pos.animated,
            plen == pos.keyframes@.len(),
            0 <= i < plen,
            cf == clamped_frame(*pos, frame),
            forall|j: int| 0 <= j < i ==> !pos.in_seg(cf, j),
        decreases plen - i,
    {
        assert(pos.kf(i as int).start_frame is Some);
        assert(pos.kf(i + 1).start_frame is Some);
        let s0 = pos.keyframes[i].start_frame.unwrap();
        let s1 = pos.keyframes[i + 1].start_frame.unwrap();
        if cf >= s0 && cf < s1 {
            assert(pos.in_seg(cf, i as int));
            assert(pos.kf(i as int).value.in_bounds());
            assert(pos.kf(i + 1).value.in_bounds());
            let dx = pos.keyframes[i + 1].value.x - pos.keyframes[i].value.x;
            let dy = pos.keyframes[i + 1].value.y - pos.keyframes[i].value.y;
            let b = angle_from_x_axis(Vector2D { x: dx, y: dy });
            proof {
                let jj = choose|j: int| pos.in_seg(cf, j);
                pos.lemma_seg_unique(cf, i as int, jj);
            }
            return b;
        }
        i = i + 1;
    }
    assert(forall|j: int| 0 <= j < pos.klen() - 1 ==> !pos.in_seg(cf, j));
    assert(!(exists|j: int| pos.in_seg(cf, j)));
    0
}

impl Transform {
    /// The four evaluated components satisfy their own evaluation
    /// contracts (absent anchor and position read as the origin).
    pub open spec fn components_post(
        self,
        frame: u32,
        av: Vector2D,
        pv: Vector2D,
        sv: Vector2D,
        rv: i64,
    ) -> bool {
        &&& (match self.anchor {
            Some(a) => a.value_post(frame, av),
            None => av == Vector2D::spec_origin(),
        })
        &&& (match self.position {
            Some(p) => p.value_post(frame, pv),
            None => pv == Vector2D::spec_origin(),
        })
        &&& self.scale.value_post(frame, sv)
        &&& self.rotation.value_post(frame, rv)
    }

    /// The rotation bonus added when auto-orient applies: zero unless the
    /// transform auto-orients and has an animated position.
    pub open spec fn auto_orient_bonus(self, frame: u32) -> int {
        match self.position {
            Some(pos) => if self.auto_orient && pos.animated {
                spec_orient_bonus(pos, frame)
            } else {
                0
            },
            None => 0,
        }
    }

    /// The rotation property is constantly zero.
    pub open spec fn rotation_trivial(self) -> bool {
        !self.rotation.animated && self.rotation.kf(0).value == 0
    }

    /// The scale property is constantly 100 percent on each axis.
    pub open spec fn scale_trivial(self) -> bool {
        !self.scale.animated && self.scale.kf(0).value == (Vector2D {
            x: 100_000_000,
            y: 100_000_000,
        })
    }

    /// The anchor is absent or constantly the origin.
    pub open spec fn anchor_trivial(self) -> bool {
        match self.anchor {
            None => true,
            Some(a) => !a.animated && a.kf(0).value == Vector2D::spec_origin(),
        }
    }

    /// The position is absent or not animated.
    pub open spec fn position_static(self) -> bool {
        match self.position {
            None => true,
            Some(p) => !p.animated,
        }
    }

    /// The constant position such a transform places its content at.
    pub open spec fn static_position(self) -> Vector2D {
        match self.position {
            None => Vector2D::spec_origin(),
            Some(p) => p.kf(0).value,
        }
    }

    /// Identity rotation and scale, anchor at the origin, position
    /// constant: the transform is a pure translation.
    pub open spec fn translation_only(self) -> bool {
        &&& self.rotation_trivial()
        &&& self.scale_trivial()
        &&& self.anchor_trivial()
        &&& self.position_static()
    }
}

impl AnimatedExt for Transform {
    type Target = Mat4;

    open spec fn wf(self) -> bool {
        &&& (match self.anchor {
            Some(a) => a.wf(),
            None => true,
        })
        &&& (match self.position {
            Some(p) => p.wf(),
            None => true,
        })
        &&& self.scale.wf()
        &&& self.rotation.wf()
    }

    open spec fn spec_is_animated(self) -> bool {
        ||| (match self.anchor {
            Some(a) => a.animated,
            None => false,
        })
        ||| (match self.position {
            Some(p) => p.animated,
            None => false,
        })
        ||| self.scale.animated
        ||| self.rotation.animated
    }

    /// The initial matrix is the matrix at frame zero.
    open spec fn initial_post(self, r: Mat4) -> bool {
        self.value_post(0, r)
    }

    /// The composed matrix comes from component values that satisfy the
    /// sub-properties' own contracts, with the auto-orient bonus added to
    /// the rotation; a pure translation composes to the translation
    /// matrix, and the trivial transform to the identity.
    open spec fn value_post(self, frame: u32, r: Mat4) -> bool {
        &&& exists|av: Vector2D, pv: Vector2D, sv: Vector2D, rv: i64|
            #[trigger] self.components_post(frame, av, pv, sv, rv) && r == spec_mat4(
                av,
                pv,
                scale_fraction(sv),
                rv + self.auto_orient_bonus(frame),
            )
        &&& (self.translation_only() ==> r == Mat4::spec_translation(self.static_position()))
        &&& (self.translation_only() && self.static_position() == Vector2D::spec_origin()
            ==> r == Mat4::spec_identity())
    }

    fn initial_value(&self) -> (r: Mat4) {
        self.value(0)
    }

    fn value(&self, frame: u32) -> (r: Mat4) {
        let bonus: i64 = match &self.position {
            Some(pos) => if self.auto_orient && pos.is_animated() {
                orient_bonus(pos, frame)
            } else {
                0
            },
            None => 0,
        };
        assert(bonus as int == self.auto_orient_bonus(frame));
        let av = match &self.anchor {
            Some(a) => a.value(frame),
            None => Vector2D::origin(),
        };
        let pv = match &self.position {
            Some(p) => p.value(frame),
            None => Vector2D::origin(),
        };
        let sv = self.scale.value(frame);
        let rv = self.rotation.value(frame);
        proof {
            match &self.anchor {
                Some(a) => lemma_value_bounds_vec2(*a, frame, av),
                None => {},
            }
            match &self.position {
                Some(p) => lemma_value_bounds_vec2(*p, frame, pv),
                None => {},
            }
            lemma_value_bounds_vec2(self.scale, frame, sv);
            lemma_value_bounds_scalar(self.rotation, frame, rv);
        }
        let sf = Vector2D { x: div100_e(sv.x), y: div100_e(sv.y) };
        let rot = rv + bonus;
        let m = mat4(av, pv, sf, rot);
        proof {
            assert(self.components_post(frame, av, pv, sv, rv));
            assert(sf == scale_fraction(sv));
            assert(m == spec_mat4(av, pv, scale_fraction(sv), rv + self.auto_orient_bonus(frame)));
            if self.translation_only() {
                assert(rv == 0);
                assert(av == Vector2D::spec_origin());
                assert(sv == (Vector2D { x: 100_000_000, y: 100_000_000 }));
                assert(pv == self.static_position());
                assert(scale_fraction(sv) == (Vector2D { x: ONE, y: ONE }));
                lemma_mat4_translation(pv);
                assert(m == Mat4::spec_translation(self.static_position()));
            }
        }
        m
    }

    fn is_animated(&self) -> (r: bool) {
        let aa = match &self.anchor {
            Some(a) => a.is_animated(),
            None => false,
        };
        let pa = match &self.position {
            Some(p) => p.is_animated(),
            None => false,
        };
        aa || pa || self.scale.is_animated() || self.rotation.is_animated()
    }
}

/// Whatever `value` returned for a 2D vector property stays within the
/// blended-value range.
proof fn lemma_value_bounds_vec2(a: Animated<Vector2D>, frame: u32, v: Vector2D)
    requires
        a.wf(),
        a.value_post(frame, v),
    ensures
        -OUT_LIMIT <= v.x <= OUT_LIMIT,
        -OUT_LIMIT <= v.y <= OUT_LIMIT,
{
    if !a.animated {
        assert(a.kf(0).value.in_bounds());
    } else {
        if exists|i: int| a.in_seg(frame, i) {
            let i = choose|i: int| a.in_seg(frame, i);
            let ratio = choose|ratio: int|
                {
                    &&& #[trigger] eases_to(
                        a.ease_out_at(i),
                        a.ease_in_at(i),
                        a.seg_x(frame, i),
                        ratio,
                    )
                    &&& -RATIO_LIMIT <= ratio <= RATIO_LIMIT
                    &&& v.model() == a.kf(i + 1).value.spec_lerp(a.kf(i).value, ratio)
                };
            assert(a.kf(i).value.in_bounds());
            assert(a.kf(i + 1).value.in_bounds());
            let s = a.kf(i + 1).value;
            let o = a.kf(i).value;
            assert(v == blend_point(s, o, ratio));
            lemma_mul_bound((s.x - o.x) as int, ratio, 2 * VAL_LIMIT as int, RATIO_LIMIT as int);
            lemma_fx_mul_bound((s.x - o.x) as int, ratio, 2 * VAL_LIMIT as int, RATIO_LIMIT as int);
            lemma_mul_bound((s.y - o.y) as int, ratio, 2 * VAL_LIMIT as int, RATIO_LIMIT as int);
            lemma_fx_mul_bound((s.y - o.y) as int, ratio, 2 * VAL_LIMIT as int, RATIO_LIMIT as int);
        } else {
            assert(a.kf(0).value.in_bounds());
            assert(a.kf(a.klen() - 1).value.in_bounds());
        }
    }
}

/// Whatever `value` returned for a scalar property stays within the
/// blended-value range.
proof fn lemma_value_bounds_scalar(a: Animated<i64>, frame: u32, v: i64)
    requires
        a.wf(),
        a.value_post(frame, v),
    ensures
        -OUT_LIMIT <= v <= OUT_LIMIT,
{
    if !a.animated {
        assert(a.kf(0).value.in_bounds());
    } else {
        if exists|i: int| a.in_seg(frame, i) {
            let i = choose|i: int| a.in_seg(frame, i);
            let ratio = choose|ratio: int|
                {
                    &&& #[trigger] eases_to(
                        a.ease_out_at(i),
                        a.ease_in_at(i),
                        a.seg_x(frame, i),
                        ratio,
                    )
                    &&& -RATIO_LIMIT <= ratio <= RATIO_LIMIT
                    &&& v.model() == a.kf(i + 1).value.spec_lerp(a.kf(i).value, ratio)
                };
            assert(a.kf(i).value.in_bounds());
            assert(a.kf(i + 1).value.in_bounds());
            let s = a.kf(i + 1).value;
            let o = a.kf(i).value;
            lemma_mul_bound((s - o) as int, ratio, 2 * VAL_LIMIT as int, RATIO_LIMIT as int);
            lemma_fx_mul_bound((s - o) as int, ratio, 2 * VAL_LIMIT as int, RATIO_LIMIT as int);
        } else {
            assert(a.kf(0).value.in_bounds());
            assert(a.kf(a.klen() - 1).value.in_bounds());
        }
    }
}

} // verus!
