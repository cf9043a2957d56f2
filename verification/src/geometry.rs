//! Value types carried by keyframes: 2D vectors, colors, and path shapes.

use vstd::prelude::*;
use crate::fixed::{fx_lerp, VAL_LIMIT};

verus! {

/// A 2D point or vector with fixed-point coordinates.
#[derive(Clone, Copy, Debug, PartialEq, Eq, Structural)]
pub struct Vector2D {
    pub x: i64,
    pub y: i64,
}

impl Vector2D {
    /// Both coordinates within the keyframe coordinate range.
    pub open spec fn in_bounds(self) -> bool {
        &&& -VAL_LIMIT <= self.x <= VAL_LIMIT
        &&& -VAL_LIMIT <= self.y <= VAL_LIMIT
    }

    /// The origin.
    pub open spec fn spec_origin() -> Vector2D {
        Vector2D { x: 0, y: 0 }
    }

    /// The origin, the default for absent anchor and position properties.
    pub fn origin() -> (r: Vector2D)
        ensures
            r == Vector2D::spec_origin(),
    {
        Vector2D { x: 0, y: 0 }
    }
}

/// A 3-channel color with 8-bit channels.
///
/// Blending is a componentwise linear blend of the stored channel values
/// (that is, in the color space the channels are given in), with each
/// blended channel clamped back to `0..=255`.
#[derive(Clone, Copy, Debug, PartialEq, Eq, Structural)]
pub struct Rgb {
    pub r: u8,
    pub g: u8,
    pub b: u8,
}

/// One contour of a path shape: vertices plus the parallel lists of
/// incoming and outgoing tangent handles.
#[derive(Clone, Debug)]
pub struct Bezier {
    pub verticies: Vec<Vector2D>,
    pub in_tangent: Vec<Vector2D>,
    pub out_tangent: Vec<Vector2D>,
}

/// Mathematical model of a [`Bezier`]: its three point lists as sequences.
#[verifier::ext_equal]
pub struct BezierView {
    pub verticies: Seq<Vector2D>,
    pub in_tangent: Seq<Vector2D>,
    pub out_tangent: Seq<Vector2D>,
}

/// Model of one contour.
pub open spec fn bez_view(b: Bezier) -> BezierView {
    BezierView { verticies: b.verticies@, in_tangent: b.in_tangent@, out_tangent: b.out_tangent@ }
}

/// All points of a sequence within the keyframe coordinate range.
pub open spec fn points_in_bounds(s: Seq<Vector2D>) -> bool {
    forall|j: int| 0 <= j < s.len() ==> (#[trigger] s[j]).in_bounds()
}

/// All points of a contour within the keyframe coordinate range.
pub open spec fn bezier_in_bounds(b: Bezier) -> bool {
    &&& points_in_bounds(b.verticies@)
    &&& points_in_bounds(b.in_tangent@)
    &&& points_in_bounds(b.out_tangent@)
}

/// Blend `t` of the point `s` into the point `o`, componentwise.
pub open spec fn blend_point(s: Vector2D, o: Vector2D, t: int) -> Vector2D {
    Vector2D {
        x: fx_lerp(o.x as int, s.x as int, t) as i64,
        y: fx_lerp(o.y as int, s.y as int, t) as i64,
    }
}

/// Elementwise blend of two equally long point sequences.
pub open spec fn blend_points(s: Seq<Vector2D>, o: Seq<Vector2D>, t: int) -> Seq<Vector2D> {
    Seq::new(s.len(), |j: int| blend_point(s[j], o[j], t))
}

} // verus!
