use vstd::prelude::*;
use crate::interpolate::Interpolate;
use crate::loop_mode::LoopMode;
use crate::segment::AnimationSegment;
use crate::segment::Segment;
use crate::segments::tween::TweenSegment;

verus! {

/// A piecewise animation: an initial value followed by segments played
/// back-to-back, cycled according to `loop_mode`. Times are nanoseconds.
#[verifier::reject_recursive_types(T)]
pub struct Track<T> {
    pub initial: T,
    pub segments: Vec<Segment<T>>,
    pub loop_mode: LoopMode,
}

impl<T: Clone + Interpolate> Track<T> {
    /// Total length of the first `k` segments.
    pub open spec fn elapsed_before(self, k: int) -> nat
        decreases k,
    {
        if k <= 0 {
            0
        } else {
            self.elapsed_before(k - 1) + self.segments@[k - 1].spec_duration()
        }
    }

    /// Length of one pass through all segments.
    pub open spec fn spec_total_duration(self) -> nat {
        self.elapsed_before(self.segments@.len() as int)
    }

    /// The total length is representable in nanoseconds.
    pub open spec fn wf(self) -> bool {
        self.spec_total_duration() <= u128::MAX
    }

    /// Time inside one pass that elapsed time `elapsed` is mapped to.
    pub open spec fn spec_local_time(self, elapsed: nat) -> nat {
        self.loop_mode.spec_map_time(elapsed, self.spec_total_duration())
    }

    /// Segment `i` covers pass time `t`.
    pub open spec fn is_active(self, t: nat, i: int) -> bool {
        &&& 0 <= i < self.segments@.len()
        &&& self.elapsed_before(i) <= t < self.elapsed_before(i + 1)
    }

    /// `v` is a value the track may report as its end value.
    pub open spec fn is_current_end_value(self, v: T) -> bool {
        if self.segments@.len() == 0 {
            cloned(self.initial, v)
        } else {
            self.segments@.last().is_end_value(v)
        }
    }

    /// `v` is a value the track may show at elapsed time `elapsed`: the
    /// initial value for an empty track, the active segment evaluated at its
    /// local time, or the last segment's end value when no segment covers the
    /// mapped time (the end of the pass).
    pub open spec fn is_sample(self, elapsed: nat, v: T) -> bool {
        if self.segments@.len() == 0 {
            cloned(self.initial, v)
        } else {
            let t = self.spec_local_time(elapsed);
            &&& forall|i: int| #[trigger] self.is_active(t, i)
                ==> self.segments@[i].is_value_at((t - self.elapsed_before(i)) as nat, v)
            &&& (forall|i: int| !#[trigger] self.is_active(t, i))
                ==> self.segments@.last().is_end_value(v)
        }
    }

    /// `s` is a (position, velocity) pair the track may report at `elapsed`.
    pub open spec fn is_state_sample(self, elapsed: nat, s: (T, T)) -> bool {
        if self.segments@.len() == 0 {
            cloned(self.initial, s.0) && cloned(self.initial, s.1)
        } else {
            let t = self.spec_local_time(elapsed);
            let last = self.segments@.last();
            &&& forall|i: int| #[trigger] self.is_active(t, i) ==> {
                let local = (t - self.elapsed_before(i)) as nat;
                &&& self.segments@[i].is_value_at(local, s.0)
                &&& self.segments@[i].is_velocity_at(local, s.1)
            }
            &&& (forall|i: int| !#[trigger] self.is_active(t, i)) ==> {
                &&& last.is_end_value(s.0)
                &&& last.is_velocity_at(last.spec_duration(), s.1)
            }
        }
    }

    /// Creates an empty track resting at `initial`, cycling forever.
    pub fn new(initial: T) -> (r: Self)
        ensures
            r.initial == initial,
            r.segments@.len() == 0,
            r.loop_mode == LoopMode::LoopForever,
    {
        Track { initial, segments: Vec::new(), loop_mode: LoopMode::LoopForever }
    }

    /// The value the track rests at after its last segment.
    pub fn current_end_value(&self) -> (r: T)
        ensures
            self.is_current_end_value(r),
    {
        if self.segments.len() == 0 {
            self.initial.clone()
        } else {
            self.segments[self.segments.len() - 1].end_value()
        }
    }

    /// Sum of the durations of all segments.
    pub fn total_duration(&self) -> (r: u128)
        requires
            self.wf(),
        ensures
            r == self.spec_total_duration(),
    {
        let n = self.segments.len();
        let mut sum: u128 = 0;
        let mut i: usize = 0;
        while i < n
            invariant
                n == self.segments@.len(),
                self.wf(),
                i <= n,
                sum == self.elapsed_before(i as int),
            decreases n - i,
        {
            proof {
                lemma_elapsed_before_monotone(*self, (i + 1) as int, n as int);
            }
            sum = sum + self.segments[i].duration();
            i = i + 1;
        }
        sum
    }

    /// Finds the segment covering pass time `t` and the time inside it.
    fn locate(&self, t: u128) -> (r: Option<(usize, u128)>)
        requires
            self.wf(),
        ensures
            match r {
                Some((i, local)) => {
                    &&& self.is_active(t as nat, i as int)
                    &&& local == t - self.elapsed_before(i as int)
                    &&& forall|j: int| #[trigger] self.is_active(t as nat, j) ==> j == i
                },
                None => forall|j: int| !#[trigger] self.is_active(t as nat, j),
            },
    {
        let n = self.segments.len();
        let mut accumulated: u128 = 0;
        let mut i: usize = 0;
        while i < n
            invariant
                n == self.segments@.len(),
                self.wf(),
                i <= n,
                accumulated == self.elapsed_before(i as int),
                accumulated <= t,
            decreases n - i,
        {
            proof {
                lemma_elapsed_before_monotone(*self, (i + 1) as int, n as int);
            }
            let next = accumulated + self.segments[i].duration();
            assert(next == self.elapsed_before(i + 1));
            if t < next {
                proof {
                    assert(self.is_active(t as nat, i as int));
                    lemma_active_unique(*self, t as nat, i as int);
                }
                return Some((i, t - accumulated));
            }
            accumulated = next;
            i = i + 1;
        }
        proof {
            assert(t >= self.spec_total_duration());
            lemma_none_active_past_end(*self, t as nat);
        }
        None
    }

    /// Evaluates the track at elapsed time, cycling according to the loop mode.
    pub fn sample(&self, elapsed: u128) -> (r: T)
        requires
            self.wf(),
        ensures
            self.is_sample(elapsed as nat, r),
    {
        let n = self.segments.len();
        if n == 0 {
            return self.initial.clone();
        }
        let total = self.total_duration();
        let looped = self.loop_mode.map_time(elapsed, total);
        assert(looped == self.spec_local_time(elapsed as nat));
        match self.locate(looped) {
            Some((i, local)) => self.segments[i].evaluate(local),
            None => self.segments[n - 1].end_value(),
        }
    }

    /// Samples both position and instantaneous velocity at elapsed time.
    pub fn sample_state(&self, elapsed: u128) -> (r: (T, T))
        requires
            self.wf(),
        ensures
            self.is_state_sample(elapsed as nat, r),
    {
        let n = self.segments.len();
        if n == 0 {
            return (self.initial.clone(), self.initial.clone());
        }
        let total = self.total_duration();
        let looped = self.loop_mode.map_time(elapsed, total);
        assert(looped == self.spec_local_time(elapsed as nat));
        match self.locate(looped) {
            Some((i, local)) => (self.segments[i].evaluate(local), self.segments[i].velocity(local)),
            None => {
                let last = &self.segments[n - 1];
                (last.end_value(), last.velocity(last.duration()))
            },
        }
    }
}

impl<T: Clone + Interpolate> Track<T> {
    /// Appends a tween from the track's current end value to `target`.
    pub fn tween(self, target: T, duration: u128) -> (r: Self)
        ensures
            r.initial == self.initial,
            r.loop_mode == self.loop_mode,
            r.segments@.len() == self.segments@.len() + 1,
            r.segments@.drop_last() == self.segments@,
            r.segments@.last() matches Segment::Tween(tw) && {
                &&& tw.target == target
                &&& tw.duration == duration
                &&& self.is_current_end_value(tw.start)
            },
    {
        let mut track = self;
        let start = track.current_end_value();
        track.segments.push(Segment::Tween(TweenSegment { start, target, duration }));
        track
    }
}

/// Creates a track that starts at `from` and tweens to `to` over `duration`.
pub fn tween<T: Clone + Interpolate>(from: T, to: T, duration: u128) -> (r: Track<T>)
    ensures
        r.initial == from,
        r.loop_mode == LoopMode::LoopForever,
        r.segments@.len() == 1,
        r.segments@[0] matches Segment::Tween(tw) && {
            &&& cloned(from, tw.start)
            &&& tw.target == to
            &&& tw.duration == duration
        },
{
    let start = from.clone();
    let mut track = Track::new(from);
    track.segments.push(Segment::Tween(TweenSegment { start, target: to, duration }));
    track
}

/// Timing depends only on the segments, not on the initial value or loop mode.
pub proof fn lemma_timing_from_segments<T: Clone + Interpolate>(a: Track<T>, b: Track<T>, k: int)
    requires
        a.segments@ == b.segments@,
    ensures
        a.elapsed_before(k) == b.elapsed_before(k),
    decreases k,
{
    if k > 0 {
        lemma_timing_from_segments(a, b, k - 1);
    }
}

/// Elapsed time grows with the number of segments passed.
pub proof fn lemma_elapsed_before_monotone<T: Clone + Interpolate>(track: Track<T>, j: int, k: int)
    requires
        j <= k,
    ensures
        track.elapsed_before(j) <= track.elapsed_before(k),
    decreases k - j,
{
    if j < k {
        lemma_elapsed_before_monotone(track, j, k - 1);
    }
}

/// At most one segment covers any pass time.
pub proof fn lemma_active_unique<T: Clone + Interpolate>(track: Track<T>, t: nat, i: int)
    requires
        track.is_active(t, i),
    ensures
        forall|j: int| #[trigger] track.is_active(t, j) ==> j == i,
{
    assert forall|j: int| #[trigger] track.is_active(t, j) implies j == i by {
        if j < i {
            lemma_elapsed_before_monotone(track, j + 1, i);
        } else if j > i {
            lemma_elapsed_before_monotone(track, i + 1, j);
        }
    }
}

/// A track extended by a tween comes to rest at the tween's target.
pub proof fn lemma_tween_ends_at_target<T: Clone + Interpolate>(after: Track<T>, target: T, v: T)
    requires
        after.segments@.len() > 0,
        after.segments@.last() matches Segment::Tween(tw) && tw.target == target,
    ensures
        after.is_current_end_value(v) == cloned(target, v),
{
}

/// Every instant strictly inside one pass is covered by exactly one segment.
pub proof fn lemma_pass_covered<T: Clone + Interpolate>(track: Track<T>, t: nat)
    requires
        t < track.spec_total_duration(),
    ensures
        exists|i: int| #[trigger] track.is_active(t, i),
{
    lemma_covered_up_to(track, t, track.segments@.len() as int);
}

proof fn lemma_covered_up_to<T: Clone + Interpolate>(track: Track<T>, t: nat, k: int)
    requires
        0 <= k <= track.segments@.len(),
        t < track.elapsed_before(k),
    ensures
        exists|i: int| #[trigger] track.is_active(t, i),
    decreases k,
{
    if k > 0 {
        if t >= track.elapsed_before(k - 1) {
            assert(track.is_active(t, k - 1));
        } else {
            lemma_covered_up_to(track, t, k - 1);
        }
    }
}

/// A track that loops forever shows the same value one full pass later.
pub proof fn lemma_sample_periodic<T: Clone + Interpolate>(track: Track<T>, elapsed: nat, v: T)
    requires
        track.loop_mode == LoopMode::LoopForever,
        track.spec_total_duration() > 0,
    ensures
        track.is_sample(elapsed + track.spec_total_duration(), v) == track.is_sample(elapsed, v),
{
    crate::loop_mode::lemma_loop_forever_periodic(elapsed, track.spec_total_duration());
    assert(track.spec_local_time(elapsed + track.spec_total_duration()) == track.spec_local_time(elapsed));
}

/// A track that plays once holds its final value from the end of the pass on.
pub proof fn lemma_once_holds_end_value<T: Clone + Interpolate>(track: Track<T>, elapsed: nat, v: T)
    requires
        track.loop_mode == LoopMode::Once,
        track.segments@.len() > 0,
        elapsed >= track.spec_total_duration(),
    ensures
        track.is_sample(elapsed, v) == track.is_current_end_value(v),
{
    lemma_none_active_past_end(track, track.spec_total_duration());
}

/// Inside a pass, a sample is always produced by the segment covering the
/// mapped time (never by the end-value fallback).
pub proof fn lemma_sample_inside_pass<T: Clone + Interpolate>(track: Track<T>, elapsed: nat, v: T, i: int)
    requires
        track.segments@.len() > 0,
        track.is_active(track.spec_local_time(elapsed), i),
    ensures
        track.is_sample(elapsed, v) == track.segments@[i].is_value_at(
            (track.spec_local_time(elapsed) - track.elapsed_before(i)) as nat,
            v,
        ),
{
    lemma_active_unique(track, track.spec_local_time(elapsed), i);
}

/// When the scan passes every segment without finding the mapped time, no
/// segment covers it.
proof fn lemma_none_active_past_end<T: Clone + Interpolate>(track: Track<T>, t: nat)
    requires
        t >= track.spec_total_duration(),
    ensures
        forall|i: int| !#[trigger] track.is_active(t, i),
{
    assert forall|i: int| !#[trigger] track.is_active(t, i) by {
        if 0 <= i < track.segments@.len() {
            lemma_elapsed_before_monotone(track, i + 1, track.segments@.len() as int);
        }
    }
}

/// Two elapsed times mapped to the same pass time show the same values.
proof fn lemma_same_pass_time_same_sample<T: Clone + Interpolate>(track: Track<T>, e1: nat, e2: nat, v: T)
    requires
        track.spec_local_time(e1) == track.spec_local_time(e2),
    ensures
        track.is_sample(e1, v) == track.is_sample(e2, v),
{
}

/// A track's pass time is the one its loop policy assigns to the elapsed
/// time, for every policy.
pub proof fn lemma_local_time_follows_loop_mode<T: Clone + Interpolate>(track: Track<T>, elapsed: nat)
    ensures
        track.spec_local_time(elapsed) == track.loop_mode.spec_map_time(elapsed, track.spec_total_duration()),
{
}

/// A ping-pong track repeats its first pass on even passes and plays it
/// backwards on odd ones: `r` into pass `k` shows what `r` (even `k`) or
/// `total - r` (odd `k`) shows.
pub proof fn lemma_ping_pong_track_alternates<T: Clone + Interpolate>(track: Track<T>, k: nat, r: nat, v: T)
    requires
        track.loop_mode == LoopMode::PingPong,
        r < track.spec_total_duration(),
    ensures
        track.is_sample(k * track.spec_total_duration() + r, v) == if k % 2 == 0 {
            track.is_sample(r, v)
        } else {
            track.is_sample((track.spec_total_duration() - r) as nat, v)
        },
{
    let total = track.spec_total_duration();
    crate::loop_mode::lemma_ping_pong_alternates(k, r, total);
    crate::loop_mode::lemma_first_pass_is_forward(LoopMode::PingPong, r, total);
    if r > 0 {
        crate::loop_mode::lemma_first_pass_is_forward(LoopMode::PingPong, (total - r) as nat, total);
    } else {
        crate::loop_mode::lemma_ping_pong_reverses(0, total);
    }
    if k % 2 == 0 {
        lemma_same_pass_time_same_sample(track, k * total + r, r, v);
    } else {
        lemma_same_pass_time_same_sample(track, k * total + r, (total - r) as nat, v);
    }
}

/// A ping-pong track mirrors itself around the end of its first pass:
/// `s` after the end it shows what it showed `s` before it.
pub proof fn lemma_ping_pong_track_mirrors<T: Clone + Interpolate>(track: Track<T>, s: nat, v: T)
    requires
        track.loop_mode == LoopMode::PingPong,
        s <= track.spec_total_duration(),
        track.spec_total_duration() > 0,
    ensures
        track.is_sample(track.spec_total_duration() + s, v)
            == track.is_sample((track.spec_total_duration() - s) as nat, v),
{
    let total = track.spec_total_duration();
    crate::loop_mode::lemma_ping_pong_reverses(s, total);
    if s > 0 {
        crate::loop_mode::lemma_first_pass_is_forward(LoopMode::PingPong, (total - s) as nat, total);
    } else {
        crate::loop_mode::lemma_ping_pong_reverses(0, total);
    }
    lemma_same_pass_time_same_sample(track, total + s, (total - s) as nat, v);
}

/// A counted track repeats its first pass during each of its `n` passes:
/// `r` into pass `k < n` shows what `r` shows.
pub proof fn lemma_count_track_repeats<T: Clone + Interpolate>(track: Track<T>, n: u32, k: nat, r: nat, v: T)
    requires
        track.loop_mode == LoopMode::Count(n),
        k < n,
        r < track.spec_total_duration(),
    ensures
        track.is_sample(k * track.spec_total_duration() + r, v) == track.is_sample(r, v),
{
    let total = track.spec_total_duration();
    crate::loop_mode::lemma_count_wraps_before_end(n, k, r, total);
    crate::loop_mode::lemma_first_pass_is_forward(LoopMode::Count(n), r, total);
    lemma_same_pass_time_same_sample(track, k * total + r, r, v);
}

/// A counted track freezes at its end value once its `n` passes are over.
pub proof fn lemma_count_track_freezes<T: Clone + Interpolate>(track: Track<T>, n: u32, elapsed: nat, v: T)
    requires
        track.loop_mode == LoopMode::Count(n),
        track.segments@.len() > 0,
        elapsed >= n * track.spec_total_duration(),
    ensures
        track.is_sample(elapsed, v) == track.is_current_end_value(v),
{
    crate::loop_mode::lemma_count_freezes_at_end(n, elapsed, track.spec_total_duration());
    lemma_none_active_past_end(track, track.spec_total_duration());
}

/// A counted ping-pong track alternates like a ping-pong track during its
/// `n` half-cycles.
pub proof fn lemma_ping_pong_count_track_alternates<T: Clone + Interpolate>(
    track: Track<T>,
    n: u32,
    k: nat,
    r: nat,
    v: T,
)
    requires
        track.loop_mode == LoopMode::PingPongCount(n),
        k < n,
        r < track.spec_total_duration(),
    ensures
        track.is_sample(k * track.spec_total_duration() + r, v) == if k % 2 == 0 {
            track.is_sample(r, v)
        } else {
            track.is_sample((track.spec_total_duration() - r) as nat, v)
        },
{
    let total = track.spec_total_duration();
    let mode = LoopMode::PingPongCount(n);
    crate::loop_mode::lemma_ping_pong_count_alternates(n, k, r, total);
    crate::loop_mode::lemma_first_pass_is_forward(mode, r, total);
    if k % 2 == 0 {
        lemma_same_pass_time_same_sample(track, k * total + r, r, v);
    } else {
        if r > 0 {
            crate::loop_mode::lemma_first_pass_is_forward(mode, (total - r) as nat, total);
        } else if n >= 2 {
            crate::loop_mode::lemma_ping_pong_count_reverses(n, 0, total);
        } else {
            crate::loop_mode::lemma_ping_pong_count_rests(n, total, total);
        }
        lemma_same_pass_time_same_sample(track, k * total + r, (total - r) as nat, v);
    }
}

/// Inside a pass, a state sample is the covering segment's position and
/// that same segment's velocity at the segment-local time.
pub proof fn lemma_state_sample_inside_pass<T: Clone + Interpolate>(track: Track<T>, elapsed: nat, s: (T, T), i: int)
    requires
        track.segments@.len() > 0,
        track.is_active(track.spec_local_time(elapsed), i),
    ensures
        track.is_state_sample(elapsed, s) == {
            let local = (track.spec_local_time(elapsed) - track.elapsed_before(i)) as nat;
            &&& track.segments@[i].is_value_at(local, s.0)
            &&& track.segments@[i].is_velocity_at(local, s.1)
        },
{
    lemma_active_unique(track, track.spec_local_time(elapsed), i);
}

/// Once a track that plays once has finished its pass, a state sample is
/// the last segment's end value with that segment's velocity at its end.
pub proof fn lemma_once_state_holds_end<T: Clone + Interpolate>(track: Track<T>, elapsed: nat, s: (T, T))
    requires
        track.loop_mode == LoopMode::Once,
        track.segments@.len() > 0,
        elapsed >= track.spec_total_duration(),
    ensures
        track.is_state_sample(elapsed, s) == {
            let last = track.segments@.last();
            &&& last.is_end_value(s.0)
            &&& last.is_velocity_at(last.spec_duration(), s.1)
        },
{
    lemma_none_active_past_end(track, track.spec_total_duration());
}

} // verus!
