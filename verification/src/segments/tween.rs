use vstd::prelude::*;
use crate::interpolate::{interpolates_to, Interpolate};
use crate::segment::AnimationSegment;

verus! {

/// A linear blend from `start` to `target` over `duration` nanoseconds.
#[derive(Clone, Debug)]
pub struct TweenSegment<T> {
    pub start: T,
    pub target: T,
    pub duration: u128,
}

impl<T: Clone + Interpolate> AnimationSegment<T> for TweenSegment<T> {
    open spec fn spec_duration(&self) -> nat {
        self.duration as nat
    }

    /// A zero-length tween is already at its target; otherwise the progress
    /// is the local time clamped to the segment, over its length.
    open spec fn is_value_at(&self, t: nat, v: T) -> bool {
        if self.duration == 0 {
            cloned(self.target, v)
        } else {
            let clamped = if t < self.duration { t } else { self.duration as nat };
            interpolates_to(self.start, self.target, clamped, self.duration as nat, v)
        }
    }

    open spec fn is_velocity_at(&self, t: nat, v: T) -> bool {
        cloned(self.target, v)
    }

    open spec fn is_end_value(&self, v: T) -> bool {
        cloned(self.target, v)
    }

    fn duration(&self) -> (r: u128) {
        self.duration
    }

    fn evaluate(&self, t: u128) -> (r: T) {
        if self.duration == 0 {
            return self.target.clone();
        }
        let clamped = if t < self.duration { t } else { self.duration };
        self.start.interpolate(&self.target, clamped, self.duration)
    }

    fn velocity(&self, _t: u128) -> (r: T) {
        self.target.clone()
    }

    fn end_value(&self) -> (r: T) {
        self.target.clone()
    }
}

/// Inside a tween of positive length, the value at local time `t` is the
/// blend `t / duration` of the way from start to target; from the end on it
/// rests at the full blend.
pub proof fn lemma_tween_value<T: Clone + Interpolate>(tw: TweenSegment<T>, t: nat, v: T)
    requires
        tw.duration > 0,
    ensures
        t <= tw.duration ==> (tw.is_value_at(t, v) == interpolates_to(tw.start, tw.target, t, tw.duration as nat, v)),
        t >= tw.duration ==> (tw.is_value_at(t, v) == interpolates_to(
            tw.start,
            tw.target,
            tw.duration as nat,
            tw.duration as nat,
            v,
        )),
{
}

/// A tween reports its target as its velocity at every local time and as
/// its end value; a zero-length tween is at its target throughout.
pub proof fn lemma_tween_reports_target<T: Clone + Interpolate>(tw: TweenSegment<T>, t: nat, v: T)
    ensures
        tw.is_velocity_at(t, v) == cloned(tw.target, v),
        tw.is_end_value(v) == cloned(tw.target, v),
        tw.duration == 0 ==> (tw.is_value_at(t, v) == cloned(tw.target, v)),
{
}

} // verus!
