use vstd::prelude::*;
use crate::interpolate::Interpolate;
use crate::loop_mode::LoopMode;
use crate::segment::Segment;
use crate::segments::tween::TweenSegment;
use crate::track::Track;

verus! {

/// An animated property: a track together with the value most recently
/// sampled from it.
#[verifier::reject_recursive_types(T)]
pub struct Prop<T> {
    pub track: Track<T>,
    pub current_value: T,
}

impl<T: Clone + Interpolate> Prop<T> {
    /// The same property with its track set to play once.
    pub open spec fn played_once(self) -> Prop<T> {
        Prop {
            track: Track { initial: self.track.initial, segments: self.track.segments, loop_mode: LoopMode::Once },
            current_value: self.current_value,
        }
    }

    /// Constructs a new property resting at `initial`.
    pub fn new(initial: T) -> (r: Self)
        ensures
            cloned(initial, r.track.initial),
            r.track.segments@.len() == 0,
            r.track.loop_mode == LoopMode::LoopForever,
            r.current_value == initial,
    {
        Prop { track: Track::new(initial.clone()), current_value: initial }
    }

    /// Constructs a property from an existing track; its value starts at the
    /// track's initial value.
    pub fn from_track(track: Track<T>) -> (r: Self)
        ensures
            r.track == track,
            cloned(track.initial, r.current_value),
    {
        let initial = track.initial.clone();
        Prop { track, current_value: initial }
    }

    /// Reads the value at the latest sampled frame.
    pub fn get(&self) -> (r: T)
        ensures
            cloned(self.current_value, r),
    {
        self.current_value.clone()
    }

    /// Samples the track at `elapsed` and caches the result as the current value.
    pub fn update(&mut self, elapsed: u128)
        requires
            old(self).track.wf(),
        ensures
            final(self).track == old(self).track,
            final(self).track.is_sample(elapsed as nat, final(self).current_value),
    {
        let sampled = self.track.sample(elapsed);
        self.current_value = sampled;
    }

    /// Appends a tween from the track's current end value to `target`;
    /// returns the property for chaining.
    pub fn tween(&mut self, target: T, duration: u128) -> (r: &mut Self)
        ensures
            r.current_value == old(self).current_value,
            r.track.initial == old(self).track.initial,
            r.track.loop_mode == old(self).track.loop_mode,
            r.track.segments@.len() == old(self).track.segments@.len() + 1,
            r.track.segments@.drop_last() == old(self).track.segments@,
            r.track.segments@.last() matches Segment::Tween(tw) && {
                &&& tw.target == target
                &&& tw.duration == duration
                &&& old(self).track.is_current_end_value(tw.start)
            },
            *final(self) == *final(r),
    {
        let start = self.track.current_end_value();
        self.track.segments.push(Segment::Tween(TweenSegment { start, target, duration }));
        self
    }
}

/// Reading a property gives its cached value: the initial value until the
/// first update, then the latest sample. Where `T`'s clone copies
/// faithfully, every read returns exactly that value (so two reads in a row
/// agree), and after `update(e)` it is a sample of the track at `e`.
pub proof fn lemma_get_reads_cached_value<T: Clone + Interpolate>(p: Prop<T>, r1: T, r2: T)
    requires
        forall|a: T, b: T| #[trigger] cloned(a, b) ==> a == b,
        cloned(p.current_value, r1),
        cloned(p.current_value, r2),
    ensures
        r1 == p.current_value,
        r1 == r2,
        forall|e: nat| #[trigger] p.track.is_sample(e, p.current_value) ==> p.track.is_sample(e, r1),
{
}

} // verus!
