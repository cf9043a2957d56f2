//! The animated-value evaluator.
//!
//! An [`Animated`] property is an ordered, non-empty keyframe sequence.
//! Evaluation locates the segment whose half-open frame interval contains
//! the queried frame, derives the time fraction, asks the easing resolver
//! for the eased ratio, and blends the *later* keyframe toward the
//! *earlier* one by that ratio (an eased ratio of 0 yields the earlier
//! value, of `ONE` the later value). Outside the keyframe range the nearest
//! end's value is returned unchanged.

use vstd::prelude::*;
use crate::easing::{diagonal, ease, eases_to, handle_in_bounds};
use crate::fixed::{HANDLE_LIMIT, ONE, RATIO_LIMIT, VAL_LIMIT};
use crate::geometry::Vector2D;
use crate::keyframe::KeyFrame;
use crate::lerp::Lerp;

verus! {

/// A time-varying property: evaluation per frame plus the stored
/// animation flag.
pub trait AnimatedExt: Sized {
    type Target;

    /// The property is structurally valid; evaluation assumes it.
    spec fn wf(self) -> bool;

    /// The stored animation flag (for a transform: of any sub-property).
    spec fn spec_is_animated(self) -> bool;

    /// What `initial_value` promises of its result.
    spec fn initial_post(self, r: Self::Target) -> bool;

    /// What `value` promises of its result.
    spec fn value_post(self, frame: u32, r: Self::Target) -> bool;

    /// The property's value before any keyframe applies.
    fn initial_value(&self) -> (r: Self::Target)
        requires
            self.wf(),
        ensures
            self.initial_post(r),
    ;

    /// The property's value at `frame`.
    fn value(&self, frame: u32) -> (r: Self::Target)
        requires
            self.wf(),
        ensures
            self.value_post(frame, r),
    ;

    /// Whether the value changes over time.
    fn is_animated(&self) -> (r: bool)
        ensures
            r == self.spec_is_animated(),
    ;
}

/// An ordered, non-empty sequence of keyframes with the flag marking
/// whether the value changes over time.
#[derive(Debug)]
pub struct Animated<T> {
    pub animated: bool,
    pub keyframes: Vec<KeyFrame<T>>,
}

/// The structural defect found when validating an [`Animated`] property,
/// reported by [`Animated::new`] in the order the checks run.
#[derive(Clone, Copy, Debug, PartialEq, Eq, Structural)]
pub enum ValidationError {
    /// The keyframe sequence is empty.
    Empty,
    /// A keyframe value has a coordinate outside the accepted range.
    ValueOutOfRange,
    /// Two adjacent keyframe values cannot be blended (mismatched shapes).
    IncompatibleValues,
    /// An animated property has a keyframe without a start frame.
    MissingStartFrame,
    /// Start frames are not strictly increasing.
    NonIncreasingStartFrames,
    /// A non-terminal keyframe of an animated property misses an easing
    /// handle.
    MissingEasing,
    /// An easing handle has a coordinate outside the accepted range.
    EasingOutOfRange,
}

impl<T: Lerp> Animated<T> {
    /// Number of keyframes.
    pub open spec fn klen(self) -> int {
        self.keyframes@.len() as int
    }

    /// The keyframe at position `i`.
    pub open spec fn kf(self, i: int) -> KeyFrame<T> {
        self.keyframes@[i]
    }

    /// Start frame of the keyframe at position `i`.
    pub open spec fn start_at(self, i: int) -> int {
        self.kf(i).start_frame.unwrap() as int
    }

    /// Outgoing easing handle of the keyframe at position `i`.
    pub open spec fn ease_out_at(self, i: int) -> Vector2D {
        self.kf(i).easing_out.unwrap()
    }

    /// Incoming easing handle stored on the keyframe at position `i`.
    pub open spec fn ease_in_at(self, i: int) -> Vector2D {
        self.kf(i).easing_in.unwrap()
    }

    /// Every keyframe value within the accepted coordinate range.
    pub open spec fn values_in_bounds(self) -> bool {
        forall|i: int| 0 <= i < self.klen() ==> (#[trigger] self.kf(i)).value.in_bounds()
    }

    /// Every adjacent pair of keyframe values blendable.
    pub open spec fn values_compatible(self) -> bool {
        forall|i: int|
            0 <= i < self.klen() - 1 ==> (#[trigger] self.kf(i + 1)).value.compatible(
                self.kf(i).value,
            )
    }

    /// Every keyframe carries a start frame.
    pub open spec fn starts_present(self) -> bool {
        forall|i: int| 0 <= i < self.klen() ==> (#[trigger] self.kf(i)).start_frame is Some
    }

    /// Start frames strictly increase along the sequence.
    pub open spec fn starts_increasing(self) -> bool {
        forall|i: int| 0 <= i < self.klen() - 1 ==> #[trigger] self.start_at(i) < self.start_at(i + 1)
    }

    /// Every non-terminal keyframe carries both easing handles.
    pub open spec fn easing_present(self) -> bool {
        forall|i: int|
            0 <= i < self.klen() - 1 ==> (#[trigger] self.kf(i)).easing_out is Some && self.kf(
                i,
            ).easing_in is Some
    }

    /// Every easing handle within the accepted handle range.
    pub open spec fn easing_in_range(self) -> bool {
        &&& forall|i: int|
            0 <= i < self.klen() - 1 ==> handle_in_bounds(#[trigger] self.ease_out_at(i))
        &&& forall|i: int|
            0 <= i < self.klen() - 1 ==> handle_in_bounds(#[trigger] self.ease_in_at(i))
    }

    /// The segment starting at keyframe `i` contains `frame`.
    pub open spec fn in_seg(self, frame: u32, i: int) -> bool {
        &&& 0 <= i < self.klen() - 1
        &&& self.start_at(i) <= frame < self.start_at(i + 1)
    }

    /// Time fraction of `frame` within the segment starting at keyframe
    /// `i`, in fixed-point units.
    pub open spec fn seg_x(self, frame: u32, i: int) -> int {
        ((frame - self.start_at(i)) * (ONE as int)) / (self.start_at(i + 1) - self.start_at(i))
    }

    /// Strictly increasing adjacent start frames order the whole sequence.
    pub proof fn lemma_sorted(self, i: int, j: int)
        requires
            self.starts_increasing(),
            0 <= i < j < self.klen(),
        ensures
            self.start_at(i) < self.start_at(j),
        decreases j - i,
    {
        if j > i + 1 {
            self.lemma_sorted(i, j - 1);
        }
    }

    /// At most one segment contains a given frame.
    pub proof fn lemma_seg_unique(self, frame: u32, i: int, j: int)
        requires
            self.starts_increasing(),
            self.in_seg(frame, i),
            self.in_seg(frame, j),
        ensures
            i == j,
    {
        if i < j {
            if i + 1 < j {
                self.lemma_sorted(i + 1, j);
            }
        }
        if j < i {
            if j + 1 < i {
                self.lemma_sorted(j + 1, i);
            }
        }
    }

    /// A frame inside some segment lies strictly before the last keyframe's
    /// start.
    pub proof fn lemma_in_seg_below_last(self, frame: u32, i: int)
        requires
            self.starts_increasing(),
            self.in_seg(frame, i),
        ensures
            frame < self.start_at(self.klen() - 1),
    {
        if i + 1 < self.klen() - 1 {
            self.lemma_sorted(i + 1, self.klen() - 1);
        }
    }

    /// The first failing structural check, in the order the checks run,
    /// or `None` for a well-formed property.
    pub open spec fn spec_validate(self) -> Option<ValidationError> {
        if self.klen() < 1 {
            Some(ValidationError::Empty)
        } else if !self.values_in_bounds() {
            Some(ValidationError::ValueOutOfRange)
        } else if !self.values_compatible() {
            Some(ValidationError::IncompatibleValues)
        } else if self.animated && !self.starts_present() {
            Some(ValidationError::MissingStartFrame)
        } else if self.animated && !self.starts_increasing() {
            Some(ValidationError::NonIncreasingStartFrames)
        } else if self.animated && !self.easing_present() {
            Some(ValidationError::MissingEasing)
        } else if self.animated && !self.easing_in_range() {
            Some(ValidationError::EasingOutOfRange)
        } else {
            None
        }
    }

    /// A keyframe sequence passes validation exactly when it is
    /// well-formed.
    pub proof fn lemma_validate_none_iff_wf(self)
        ensures
            self.spec_validate() is None <==> self.wf(),
    {
    }

    /// Validate a keyframe sequence once, at construction, so evaluation
    /// can assume well-formed input unconditionally.
    #[verifier::rlimit(60)]
    pub fn new(animated: bool, keyframes: Vec<KeyFrame<T>>) -> (r: Result<
        Animated<T>,
        ValidationError,
    >)
        ensures
            ({
                let cand = (Animated { animated, keyframes });
                match r {
                    Ok(a) => a == cand && a.wf() && cand.spec_validate() is None,
                    Err(e) => Some(e) == cand.spec_validate() && !cand.wf(),
                }
            }),
    {
        let ghost cand = (Animated { animated, keyframes });
        let n = keyframes.len();
        if n == 0 {
            return Err(ValidationError::Empty);
        }
        for i in 0..n
            invariant
                n == keyframes@.len(),
                cand == (Animated { animated, keyframes }),
                forall|k: int| 0 <= k < i ==> (#[trigger] cand.kf(k)).value.in_bounds(),
        {
            if !keyframes[i].value.check_in_bounds() {
                assert(!(cand.kf(i as int)).value.in_bounds());
                return Err(ValidationError::ValueOutOfRange);
            }
            assert((cand.kf(i as int)).value.in_bounds());
        }
        for i in 0..n - 1
            invariant
                n == keyframes@.len(),
                n >= 1,
                cand == (Animated { animated, keyframes }),
                cand.values_in_bounds(),
                forall|k: int|
                    0 <= k < i ==> (#[trigger] cand.kf(k + 1)).value.compatible(cand.kf(k).value),
        {
            if !keyframes[i + 1].value.compatible_with(&keyframes[i].value) {
                assert(!(cand.kf(i + 1)).value.compatible(cand.kf(i as int).value));
                return Err(ValidationError::IncompatibleValues);
            }
            assert((cand.kf(i + 1)).value.compatible(cand.kf(i as int).value));
        }
        if animated {
            for i in 0..n
                invariant
                    n == keyframes@.len(),
                    animated,
                    cand == (Animated { animated, keyframes }),
                    cand.values_in_bounds(),
                    cand.values_compatible(),
                    forall|k: int| 0 <= k < i ==> (#[trigger] cand.kf(k)).start_frame is Some,
            {
                if keyframes[i].start_frame.is_none() {
                    assert(!((cand.kf(i as int)).start_frame is Some));
                    return Err(ValidationError::MissingStartFrame);
                }
                assert((cand.kf(i as int)).start_frame is Some);
            }
            for i in 0..n - 1
                invariant
                    n == keyframes@.len(),
                    n >= 1,
                    animated,
                    cand == (Animated { animated, keyframes }),
                    cand.values_in_bounds(),
                    cand.values_compatible(),
                    cand.starts_present(),
                    forall|k: int| 0 <= k < i ==> #[trigger] cand.start_at(k) < cand.start_at(k + 1),
            {
                assert(cand.kf(i as int).start_frame is Some);
                assert(cand.kf(i + 1).start_frame is Some);
                if keyframes[i].start_frame.unwrap() >= keyframes[i + 1].start_frame.unwrap() {
                    assert(!(cand.start_at(i as int) < cand.start_at(i + 1)));
                    return Err(ValidationError::NonIncreasingStartFrames);
                }
                assert(cand.start_at(i as int) < cand.start_at(i + 1));
            }
            for i in 0..n - 1
                invariant
                    n == keyframes@.len(),
                    n >= 1,
                    animated,
                    cand == (Animated { animated, keyframes }),
                    cand.values_in_bounds(),
                    cand.values_compatible(),
                    cand.starts_present(),
                    cand.starts_increasing(),
                    forall|k: int|
                        0 <= k < i ==> (#[trigger] cand.kf(k)).easing_out is Some && cand.kf(
                            k,
                        ).easing_in is Some,
            {
                if keyframes[i].easing_out.is_none() || keyframes[i].easing_in.is_none() {
                    assert(!((cand.kf(i as int)).easing_out is Some && (cand.kf(
                        i as int,
                    )).easing_in is Some));
                    return Err(ValidationError::MissingEasing);
                }
                assert((cand.kf(i as int)).easing_out is Some && (cand.kf(
                    i as int,
                )).easing_in is Some);
            }
            for i in 0..n - 1
                invariant
                    n == keyframes@.len(),
                    n >= 1,
                    animated,
                    cand == (Animated { animated, keyframes }),
                    cand.values_in_bounds(),
                    cand.values_compatible(),
                    cand.starts_present(),
                    cand.starts_increasing(),
                    cand.easing_present(),
                    forall|k: int| 0 <= k < i ==> handle_in_bounds(#[trigger] cand.ease_out_at(k)),
                    forall|k: int| 0 <= k < i ==> handle_in_bounds(#[trigger] cand.ease_in_at(k)),
            {
                assert(cand.kf(i as int).easing_out is Some);
                assert(cand.kf(i as int).easing_in is Some);
                let eo = keyframes[i].easing_out.unwrap();
                let ei = keyframes[i].easing_in.unwrap();
                if eo.x < -HANDLE_LIMIT || eo.x > HANDLE_LIMIT || eo.y < -HANDLE_LIMIT || eo.y
                    > HANDLE_LIMIT || ei.x < -HANDLE_LIMIT || ei.x > HANDLE_LIMIT || ei.y
                    < -HANDLE_LIMIT || ei.y > HANDLE_LIMIT {
                    assert(!(handle_in_bounds(cand.ease_out_at(i as int)) && handle_in_bounds(
                        cand.ease_in_at(i as int),
                    )));
                    assert(!cand.easing_in_range());
                    return Err(ValidationError::EasingOutOfRange);
                }
                assert(handle_in_bounds(cand.ease_out_at(i as int)));
                assert(handle_in_bounds(cand.ease_in_at(i as int)));
            }
        }
        proof {
            assert(cand.wf());
            assert(cand.spec_validate() is None);
        }
        Ok(Animated { animated, keyframes })
    }
}

impl<T: Lerp> AnimatedExt for Animated<T> {
    type Target = T;

    /// Structural validity: non-empty, values in range and blendable; when
    /// animated, start frames present and strictly increasing, and easing
    /// handles present and in range on every non-terminal keyframe.
    open spec fn wf(self) -> bool {
        &&& self.klen() >= 1
        &&& self.values_in_bounds()
        &&& self.values_compatible()
        &&& (self.animated ==> self.starts_present() && self.starts_increasing()
            && self.easing_present() && self.easing_in_range())
    }

    open spec fn spec_is_animated(self) -> bool {
        self.animated
    }

    /// The first keyframe's value.
    open spec fn initial_post(self, r: T) -> bool {
        r.model() == self.kf(0).value.model()
    }

    /// How the result of `value` is determined, arm by arm:
    /// a non-animated property always yields its first keyframe's value;
    /// a frame inside a segment yields the later keyframe blended toward
    /// the earlier one by an eased ratio of the segment's time fraction;
    /// a frame at or past the last keyframe's start yields the last value;
    /// a frame before the first keyframe's start yields the first value —
    /// the first and last keyframes' own start frames yield their values
    /// exactly. Handles on the diagonal ease nothing: the ratio is then
    /// exactly the plain time fraction.
    open spec fn value_post(self, frame: u32, r: T) -> bool {
        &&& (!self.animated ==> r.model() == self.kf(0).value.model())
        &&& (self.animated ==> (if exists|i: int| self.in_seg(frame, i) {
            let i = choose|i: int| self.in_seg(frame, i);
            exists|ratio: int|
                {
                    &&& #[trigger] eases_to(
                        self.ease_out_at(i),
                        self.ease_in_at(i),
                        self.seg_x(frame, i),
                        ratio,
                    )
                    &&& -RATIO_LIMIT <= ratio <= RATIO_LIMIT
                    &&& (diagonal(self.ease_out_at(i)) && diagonal(self.ease_in_at(i))
                        ==> ratio == self.seg_x(frame, i))
                    &&& r.model() == self.kf(i + 1).value.spec_lerp(self.kf(i).value, ratio)
                }
        } else if frame >= self.start_at(self.klen() - 1) {
            r.model() == self.kf(self.klen() - 1).value.model()
        } else {
            r.model() == self.kf(0).value.model()
        }))
        &&& (self.animated && self.klen() > 1 && frame == self.start_at(0) ==> r.model() == self.kf(
            0,
        ).value.model())
        &&& (self.animated && frame >= self.start_at(self.klen() - 1) ==> r.model() == self.kf(
            self.klen() - 1,
        ).value.model())
        &&& (self.animated && frame < self.start_at(0) ==> r.model() == self.kf(0).value.model())
    }

    fn initial_value(&self) -> (r: T) {
        self.keyframes[0].value.duplicate()
    }

    fn value(&self, frame: u32) -> (r: T) {
        if !self.animated {
            return self.keyframes[0].value.duplicate();
        }
        let len = self.keyframes.len();
        let mut i: usize = 0;
        while i + 1 < len
            invariant
                self.wf(),
                self.animated,
                len == self.keyframes@.len(),
                0 <= i < len,
                forall|j: int| 0 <= j < i ==> !self.in_seg(frame, j),
                frame < self.start_at(0) || frame >= self.start_at(i as int),
            decreases len - i,
        {
            assert(self.kf(i as int).start_frame is Some);
            assert(self.kf(i + 1).start_frame is Some);
            let s0 = self.keyframes[i].start_frame.unwrap();
            let s1 = self.keyframes[i + 1].start_frame.unwrap();
            assert(self.start_at(i as int) < self.start_at(i + 1));
            assert(s0 < s1);
            if frame >= s0 && frame < s1 {
                assert(self.in_seg(frame, i as int));
                assert(self.kf(i as int).easing_out is Some && self.kf(i as int).easing_in is Some);
                let eo = self.keyframes[i].easing_out.unwrap();
                let ei = self.keyframes[i].easing_in.unwrap();
                assert(handle_in_bounds(self.ease_out_at(i as int)));
                assert(handle_in_bounds(self.ease_in_at(i as int)));
                assert(handle_in_bounds(eo));
                assert(handle_in_bounds(ei));
                let fr: u32 = frame - s0;
                let denom: u32 = s1 - s0;
                let x: i64 = (((fr as u64) * (ONE as u64)) / (denom as u64)) as i64;
                proof {
                    vstd::arithmetic::div_mod::lemma_div_pos_is_pos(
                        (fr as int) * (ONE as int),
                        denom as int,
                    );
                    assert((fr as int) * (ONE as int) < (denom as int) * (ONE as int))
                        by (nonlinear_arith)
                        requires
                            (fr as int) < (denom as int),
                            ONE as int > 0,
                    ;
                    vstd::arithmetic::div_mod::lemma_multiply_divide_lt(
                        (fr as int) * (ONE as int),
                        denom as int,
                        ONE as int,
                    );
                    assert(x as int == self.seg_x(frame, i as int));
                    assert(0 <= x <= ONE);
                }
                let ratio: i64 = ease(eo, ei, x);
                assert(self.kf(i + 1).value.in_bounds() && self.kf(i as int).value.in_bounds());
                assert(self.kf(i + 1).value.compatible(self.kf(i as int).value));
                let rv = self.keyframes[i + 1].value.lerp(&self.keyframes[i].value, ratio);
                proof {
                    let ghost ii = i as int;
                    assert(eases_to(
                        self.ease_out_at(ii),
                        self.ease_in_at(ii),
                        self.seg_x(frame, ii),
                        ratio as int,
                    ));
                    let jj = choose|j: int| self.in_seg(frame, j);
                    self.lemma_seg_unique(frame, ii, jj);
                    self.lemma_in_seg_below_last(frame, ii);
                    if ii > 0 {
                        self.lemma_sorted(0, ii);
                    }
                    if self.klen() > 1 && frame == self.start_at(0) {
                        assert(self.in_seg(frame, 0));
                        self.lemma_seg_unique(frame, ii, 0);
                        assert(fr == 0);
                        vstd::arithmetic::div_mod::lemma_div_of0(denom as int);
                        assert(x == 0);
                        assert(ratio == 0);
                        self.kf(1).value.lemma_lerp_zero(self.kf(0).value);
                    }
                }
                return rv;
            }
            i = i + 1;
        }
        assert(i == len - 1);
        assert(forall|j: int| 0 <= j < self.klen() - 1 ==> !self.in_seg(frame, j));
        assert(!exists|j: int| self.in_seg(frame, j));
        proof {
            if self.klen() > 1 && frame == self.start_at(0) {
                assert(self.start_at(0) < self.start_at(1));
                assert(self.in_seg(frame, 0));
                assert(false);
            }
        }
        assert(self.kf(len - 1).start_frame is Some);
        let last_sf = self.keyframes[len - 1].start_frame.unwrap();
        if frame >= last_sf {
            let r = self.keyframes[len - 1].value.duplicate();
            proof {
                assert(!(exists|j: int| self.in_seg(frame, j)));
                assert(r.model() == self.kf(self.klen() - 1).value.model());
                if self.klen() > 1 {
                    self.lemma_sorted(0, self.klen() - 1);
                }
                assert(self.value_post(frame, r));
            }
            r
        } else {
            let r = self.keyframes[0].value.duplicate();
            proof {
                assert(!(exists|j: int| self.in_seg(frame, j)));
                assert(frame < self.start_at(0));
                assert(r.model() == self.kf(0).value.model());
                assert(self.value_post(frame, r));
            }
            r
        }
    }

    fn is_animated(&self) -> (r: bool) {
        self.animated
    }
}

} // verus!
