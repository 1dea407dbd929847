use vstd::prelude::*;
use crate::interpolate::Interpolate;
use crate::loop_mode::LoopMode;
use crate::property::Prop;
use crate::track::{lemma_once_holds_end_value, lemma_timing_from_segments};

verus! {

/// A track placed on a master timeline: it can be sought to a master time
/// and reports where it starts and ends (nanoseconds).
pub trait TimelineTrack {
    /// The track's own bookkeeping is consistent (its end fits in `u128`).
    spec fn spec_valid(&self) -> bool;

    /// Master time at which the track ends (start offset included).
    spec fn spec_duration(&self) -> nat;

    /// Master time at which the track begins.
    spec fn spec_start_offset(&self) -> nat;

    /// Optional identifier used by cue resolution.
    spec fn spec_name(&self) -> Option<Seq<char>>;

    /// The track currently presents master time `t`.
    spec fn spec_shows(&self, t: nat) -> bool;

    /// Total duration of this track, including its start offset.
    fn duration(&self) -> (r: u128)
        requires
            self.spec_valid(),
        ensures
            r == self.spec_duration(),
    ;

    /// Evaluates the track at master timestamp `t`.
    fn seek(&mut self, t: u128)
        requires
            old(self).spec_valid(),
        ensures
            final(self).spec_valid(),
            final(self).spec_duration() == old(self).spec_duration(),
            final(self).spec_start_offset() == old(self).spec_start_offset(),
            final(self).spec_name() == old(self).spec_name(),
            final(self).spec_shows(t as nat),
    ;

    /// Optional identifier for cue points and track-relative sequencing.
    fn name(&self) -> (r: Option<&str>)
        ensures
            match r {
                Some(s) => self.spec_name() == Some(s@),
                None => self.spec_name() is None,
            },
    ;

    /// The start timestamp of this track along the master timeline.
    fn start_offset(&self) -> (r: u128)
        ensures
            r == self.spec_start_offset(),
    ;
}

impl TimelineTrack for Box<dyn TimelineTrack> {
    open spec fn spec_valid(&self) -> bool {
        (**self).spec_valid()
    }

    open spec fn spec_duration(&self) -> nat {
        (**self).spec_duration()
    }

    open spec fn spec_start_offset(&self) -> nat {
        (**self).spec_start_offset()
    }

    open spec fn spec_name(&self) -> Option<Seq<char>> {
        (**self).spec_name()
    }

    open spec fn spec_shows(&self, t: nat) -> bool {
        (**self).spec_shows(t)
    }

    fn duration(&self) -> (r: u128) {
        (**self).duration()
    }

    fn seek(&mut self, t: u128) {
        (**self).seek(t)
    }

    fn name(&self) -> (r: Option<&str>) {
        (**self).name()
    }

    fn start_offset(&self) -> (r: u128) {
        (**self).start_offset()
    }
}

/// A track as a master timeline holds it. Seeking it changes what it
/// presents, never what it animates, so the `i`-th track stays the `i`-th
/// track. (`TimelineTrack` itself cannot state this: a relation between two
/// values of `Self` would keep it from being used as `dyn TimelineTrack`.)
pub trait ScheduledTrack: TimelineTrack + Sized {
    /// `self` animates what `other` animates, under the same name and from
    /// the same start.
    spec fn spec_same_animation(&self, other: &Self) -> bool;

    /// Seeks the track to master timestamp `t`, keeping what it animates.
    fn seek_to(&mut self, t: u128)
        requires
            old(self).spec_valid(),
        ensures
            final(self).spec_valid(),
            final(self).spec_duration() == old(self).spec_duration(),
            final(self).spec_start_offset() == old(self).spec_start_offset(),
            final(self).spec_name() == old(self).spec_name(),
            final(self).spec_shows(t as nat),
            final(self).spec_same_animation(old(self)),
    ;
}

/// Through a trait object only the track's name and span are known, so a
/// boxed track keeps those.
impl ScheduledTrack for Box<dyn TimelineTrack> {
    open spec fn spec_same_animation(&self, other: &Self) -> bool {
        &&& self.spec_name() == other.spec_name()
        &&& self.spec_start_offset() == other.spec_start_offset()
        &&& self.spec_duration() == other.spec_duration()
    }

    fn seek_to(&mut self, t: u128) {
        self.seek(t)
    }
}

/// The characters of an optional name.
pub open spec fn name_view(name: Option<String>) -> Option<Seq<char>> {
    match name {
        Some(s) => Some(s@),
        None => None,
    }
}

/// A property bound to a start offset along the master timeline.
#[verifier::reject_recursive_types(T)]
pub struct BoundTrack<T> {
    pub name: Option<String>,
    pub start_offset: u128,
    pub prop: Prop<T>,
}

impl<T: Clone + Interpolate> BoundTrack<T> {
    /// Time inside the property's track shown at master time `t`: its start
    /// before the offset, then the elapsed time clamped to the track's length.
    pub open spec fn spec_local_time(self, t: nat) -> nat {
        if t < self.start_offset {
            0
        } else {
            let local = (t - self.start_offset) as nat;
            let inner = self.prop.track.spec_total_duration();
            if local < inner { local } else { inner }
        }
    }

    /// Binds `prop` at `start_offset`; the property plays once so that it
    /// holds its end value after completing.
    pub fn new(name: Option<String>, start_offset: u128, prop: Prop<T>) -> (r: Self)
        ensures
            r.name == name,
            r.start_offset == start_offset,
            r.prop == prop.played_once(),
            r.prop.track.spec_total_duration() == prop.track.spec_total_duration(),
    {
        let mut prop = prop;
        let ghost before = prop.track;
        prop.track.loop_mode = LoopMode::Once;
        proof {
            lemma_timing_from_segments(prop.track, before, prop.track.segments@.len() as int);
        }
        BoundTrack { name, start_offset, prop }
    }
}

impl<T: Clone + Interpolate> TimelineTrack for BoundTrack<T> {
    open spec fn spec_valid(&self) -> bool {
        &&& self.prop.track.wf()
        &&& self.start_offset + self.prop.track.spec_total_duration() <= u128::MAX
    }

    open spec fn spec_duration(&self) -> nat {
        self.start_offset as nat + self.prop.track.spec_total_duration()
    }

    open spec fn spec_start_offset(&self) -> nat {
        self.start_offset as nat
    }

    open spec fn spec_name(&self) -> Option<Seq<char>> {
        name_view(self.name)
    }

    open spec fn spec_shows(&self, t: nat) -> bool {
        self.prop.track.is_sample(self.spec_local_time(t), self.prop.current_value)
    }

    fn duration(&self) -> (r: u128) {
        let inner = self.prop.track.total_duration();
        self.start_offset + inner
    }

    fn seek(&mut self, t: u128)
        ensures
            final(self).name == old(self).name,
            final(self).start_offset == old(self).start_offset,
            final(self).prop.track == old(self).prop.track,
    {
        if t < self.start_offset {
            self.prop.update(0);
        } else {
            let local_t = t - self.start_offset;
            let inner = self.prop.track.total_duration();
            let clamped = if local_t < inner { local_t } else { inner };
            self.prop.update(clamped);
        }
    }

    fn name(&self) -> (r: Option<&str>) {
        match &self.name {
            Some(s) => Some(s.as_str()),
            None => None,
        }
    }

    fn start_offset(&self) -> (r: u128) {
        self.start_offset
    }
}

/// A bound track keeps its name, its start and its property's track.
impl<T: Clone + Interpolate> ScheduledTrack for BoundTrack<T> {
    open spec fn spec_same_animation(&self, other: &Self) -> bool {
        &&& self.name == other.name
        &&& self.start_offset == other.start_offset
        &&& self.prop.track == other.prop.track
    }

    fn seek_to(&mut self, t: u128) {
        self.seek(t)
    }
}

/// Before its start a bound track presents its property at the beginning of
/// the property's track.
pub proof fn lemma_bound_track_before_start<T: Clone + Interpolate>(b: BoundTrack<T>, t: nat)
    requires
        t < b.start_offset,
    ensures
        b.spec_shows(t) == b.prop.track.is_sample(0, b.prop.current_value),
{
}

/// Once its duration has passed, a bound track that plays once holds the
/// end value of its property's track.
pub proof fn lemma_bound_track_holds_end<T: Clone + Interpolate>(b: BoundTrack<T>, t: nat)
    requires
        b.prop.track.loop_mode == LoopMode::Once,
        b.prop.track.segments@.len() > 0,
        t >= b.spec_duration(),
    ensures
        b.spec_shows(t) == b.prop.track.is_current_end_value(b.prop.current_value),
{
    let inner = b.prop.track.spec_total_duration();
    assert(b.spec_local_time(t) == inner);
    lemma_once_holds_end_value(b.prop.track, inner, b.prop.current_value);
}

/// Inside its span a bound track shows its property at the master time
/// minus its start offset.
pub proof fn lemma_bound_track_inside_span<T: Clone + Interpolate>(b: BoundTrack<T>, t: nat)
    requires
        b.start_offset <= t < b.start_offset + b.prop.track.spec_total_duration(),
    ensures
        b.spec_shows(t) == b.prop.track.is_sample((t - b.start_offset) as nat, b.prop.current_value),
{
}

/// From the end of its span on, a bound track shows its property at the
/// end of the property's track, however late the master time.
pub proof fn lemma_bound_track_after_span<T: Clone + Interpolate>(b: BoundTrack<T>, t: nat)
    requires
        t >= b.start_offset + b.prop.track.spec_total_duration(),
    ensures
        b.spec_shows(t) == b.prop.track.is_sample(b.prop.track.spec_total_duration(), b.prop.current_value),
{
}

} // verus!
