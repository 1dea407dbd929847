use vstd::prelude::*;
use crate::interpolate::Interpolate;
use crate::segments::tween::TweenSegment;

verus! {

/// One piece of an animation track: a value that evolves over a local time
/// interval `[0, duration]` (nanoseconds).
///
/// Evaluation is stated as relations because values are produced by
/// `Clone`, whose result is only known up to `cloned`.
pub trait AnimationSegment<T> {
    /// Length of the segment in nanoseconds.
    spec fn spec_duration(&self) -> nat;

    /// `v` is a value the segment may produce at local time `t`.
    spec fn is_value_at(&self, t: nat, v: T) -> bool;

    /// `v` is a velocity the segment may report at local time `t`.
    spec fn is_velocity_at(&self, t: nat, v: T) -> bool;

    /// `v` is a value the segment may report as its resting end value.
    spec fn is_end_value(&self, v: T) -> bool;

    fn duration(&self) -> (r: u128)
        ensures
            r == self.spec_duration(),
    ;

    fn evaluate(&self, t: u128) -> (r: T)
        ensures
            self.is_value_at(t as nat, r),
    ;

    fn velocity(&self, t: u128) -> (r: T)
        ensures
            self.is_velocity_at(t as nat, r),
    ;

    fn end_value(&self) -> (r: T)
        ensures
            self.is_end_value(r),
    ;
}

impl<T> AnimationSegment<T> for Box<dyn AnimationSegment<T>> {
    open spec fn spec_duration(&self) -> nat {
        (**self).spec_duration()
    }

    open spec fn is_value_at(&self, t: nat, v: T) -> bool {
        (**self).is_value_at(t, v)
    }

    open spec fn is_velocity_at(&self, t: nat, v: T) -> bool {
        (**self).is_velocity_at(t, v)
    }

    open spec fn is_end_value(&self, v: T) -> bool {
        (**self).is_end_value(v)
    }

    fn duration(&self) -> (r: u128) {
        (**self).duration()
    }

    fn evaluate(&self, t: u128) -> (r: T) {
        (**self).evaluate(t)
    }

    fn velocity(&self, t: u128) -> (r: T) {
        (**self).velocity(t)
    }

    fn end_value(&self) -> (r: T) {
        (**self).end_value()
    }
}

/// A segment stored in a track: either a tween built by the library or any
/// other segment implementation supplied by the caller.
#[verifier::reject_recursive_types(T)]
pub enum Segment<T> {
    Tween(TweenSegment<T>),
    Custom(Box<dyn AnimationSegment<T>>),
}

impl<T: Clone + Interpolate> AnimationSegment<T> for Segment<T> {
    open spec fn spec_duration(&self) -> nat {
        match self {
            Segment::Tween(s) => s.spec_duration(),
            Segment::Custom(b) => b.spec_duration(),
        }
    }

    open spec fn is_value_at(&self, t: nat, v: T) -> bool {
        match self {
            Segment::Tween(s) => s.is_value_at(t, v),
            Segment::Custom(b) => b.is_value_at(t, v),
        }
    }

    open spec fn is_velocity_at(&self, t: nat, v: T) -> bool {
        match self {
            Segment::Tween(s) => s.is_velocity_at(t, v),
            Segment::Custom(b) => b.is_velocity_at(t, v),
        }
    }

    open spec fn is_end_value(&self, v: T) -> bool {
        match self {
            Segment::Tween(s) => s.is_end_value(v),
            Segment::Custom(b) => b.is_end_value(v),
        }
    }

    fn duration(&self) -> (r: u128) {
        match self {
            Segment::Tween(s) => s.duration(),
            Segment::Custom(b) => b.duration(),
        }
    }

    fn evaluate(&self, t: u128) -> (r: T) {
        match self {
            Segment::Tween(s) => s.evaluate(t),
            Segment::Custom(b) => b.evaluate(t),
        }
    }

    fn velocity(&self, t: u128) -> (r: T) {
        match self {
            Segment::Tween(s) => s.velocity(t),
            Segment::Custom(b) => b.velocity(t),
        }
    }

    fn end_value(&self) -> (r: T) {
        match self {
            Segment::Tween(s) => s.end_value(),
            Segment::Custom(b) => b.end_value(),
        }
    }
}

} // verus!
