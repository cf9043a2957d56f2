//! A single keyframe: a value anchored at a frame, with the easing handles
//! shaping the segment that starts here.

use vstd::prelude::*;
use crate::geometry::Vector2D;

verus! {

/// A `(frame, value)` anchor point on an animated property's timeline.
///
/// `easing_out` is the handle leaving this keyframe, `easing_in` the handle
/// entering the next one; both must be present on every non-terminal
/// keyframe of an animated property.
#[derive(Debug)]
pub struct KeyFrame<T> {
    pub value: T,
    pub start_frame: Option<u32>,
    pub easing_out: Option<Vector2D>,
    pub easing_in: Option<Vector2D>,
}

impl<T> KeyFrame<T> {
    /// A keyframe with the same timing and easing carrying another value.
    pub fn alter_value<U>(&self, value: U) -> (r: KeyFrame<U>)
        ensures
            r.value == value,
            r.start_frame == self.start_frame,
            r.easing_out == self.easing_out,
            r.easing_in == self.easing_in,
    {
        KeyFrame {
            value,
            start_frame: self.start_frame,
            easing_out: self.easing_out,
            easing_in: self.easing_in,
        }
    }
}

} // verus!
