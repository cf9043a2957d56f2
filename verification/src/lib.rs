//! Animation-value resolution engine.
//!
//! Given sparse, unevenly spaced keyframes with per-segment cubic-bezier
//! easing, this crate computes the value of a time-varying property (scalar,
//! 2D vector, color, path geometry) at an arbitrary integer frame, and
//! composes such properties into a 2D affine transform with optional
//! motion-direction auto-orientation.
//!
//! Every scalar quantity is a signed 64-bit fixed-point number counting
//! millionths (see [`fixed::ONE`]), which keeps the whole engine inside
//! verified integer arithmetic while meeting the format's ~1e-4 precision
//! expectations for easing curves.

pub mod animated;
pub mod easing;
pub mod filename;
pub mod fixed;
pub mod geometry;
pub mod keyframe;
pub mod lerp;
pub mod transform;
pub mod trig;
