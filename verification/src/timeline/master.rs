use vstd::prelude::*;
use crate::loop_mode::LoopMode;
use crate::property::Prop;
use crate::timeline::cues::{cue_map, cue_names_distinct, lemma_cue_map_at, lemma_cue_map_insert_new, lemma_cue_map_replace, owned_string};
use crate::timeline::sequence::{appended, schedule_item, scheduled_after, sum_all, IntoSeqGroup, IntoSeqItem};
use crate::timeline::track_binding::{ScheduledTrack, TimelineTrack};

verus! {

/// Largest end time among the first `k` tracks (0 when there is none).
pub open spec fn max_track_end<K: TimelineTrack>(tracks: Seq<K>, k: int) -> nat
    decreases k,
{
    if k <= 0 {
        0
    } else {
        let rest = max_track_end(tracks, k - 1);
        let d = tracks[k - 1].spec_duration();
        if d > rest { d } else { rest }
    }
}

/// Largest time among the first `k` entries (0 when there is none).
pub open spec fn max_time(times: Seq<nat>, k: int) -> nat
    decreases k,
{
    if k <= 0 {
        0
    } else {
        let rest = max_time(times, k - 1);
        if times[k - 1] > rest { times[k - 1] } else { rest }
    }
}

/// Track `i` carries the name `name`.
pub open spec fn track_named<K: TimelineTrack>(tracks: Seq<K>, i: int, name: Seq<char>) -> bool {
    0 <= i < tracks.len() && tracks[i].spec_name() == Some(name)
}

/// Track `i` is the first one carrying the name `name`.
pub open spec fn first_track_named<K: TimelineTrack>(tracks: Seq<K>, i: int, name: Seq<char>) -> bool {
    &&& track_named(tracks, i, name)
    &&& forall|j: int| 0 <= j < i ==> !#[trigger] track_named(tracks, j, name)
}

proof fn lemma_max_track_end<K: TimelineTrack>(tracks: Seq<K>, k: int)
    requires
        0 <= k <= tracks.len(),
    ensures
        forall|i: int| 0 <= i < k ==> max_track_end(tracks, k) >= (#[trigger] tracks[i]).spec_duration(),
        max_track_end(tracks, k) == 0 || exists|i: int| 0 <= i < k && max_track_end(tracks, k) == (#[trigger] tracks[i]).spec_duration(),
    decreases k,
{
    if k > 0 {
        lemma_max_track_end(tracks, k - 1);
    }
}

proof fn lemma_max_time(times: Seq<nat>, k: int)
    requires
        0 <= k <= times.len(),
    ensures
        forall|i: int| 0 <= i < k ==> max_time(times, k) >= #[trigger] times[i],
        max_time(times, k) == 0 || exists|i: int| 0 <= i < k && max_time(times, k) == #[trigger] times[i],
    decreases k,
{
    if k > 0 {
        lemma_max_time(times, k - 1);
    }
}

/// Coordinator that schedules tracks and cue points (nanoseconds) and drives
/// playback and scrubbing.
#[derive(Debug)]
pub struct MasterTimeline<K: TimelineTrack> {
    tracks: Vec<K>,
    cues: Vec<(String, u128)>,
    playhead: u128,
    is_playing: bool,
    loop_mode: LoopMode,
}

impl<K: TimelineTrack> MasterTimeline<K> {
    /// Every track is consistent and no cue name occurs twice.
    pub closed spec fn wf(self) -> bool {
        &&& forall|i: int| 0 <= i < self.tracks@.len() ==> (#[trigger] self.tracks@[i]).spec_valid()
        &&& cue_names_distinct(self.cues@)
    }

    /// The scheduled tracks, in registration order.
    pub closed spec fn spec_tracks(self) -> Seq<K> {
        self.tracks@
    }

    /// The cue points: a timestamp for each cue name.
    pub closed spec fn spec_cues(self) -> Map<Seq<char>, nat> {
        cue_map(self.cues@)
    }

    /// The cue timestamps in storage order.
    closed spec fn cue_times(self) -> Seq<nat> {
        self.cues@.map_values(|c: (String, u128)| c.1 as nat)
    }

    pub closed spec fn spec_playhead(self) -> nat {
        self.playhead as nat
    }

    pub closed spec fn spec_is_playing(self) -> bool {
        self.is_playing
    }

    pub closed spec fn spec_loop_mode(self) -> LoopMode {
        self.loop_mode
    }

    /// The timeline's length: the latest end among its tracks and cues.
    pub closed spec fn spec_duration(self) -> nat {
        let a = max_track_end(self.tracks@, self.tracks@.len() as int);
        let b = max_time(self.cue_times(), self.cues@.len() as int);
        if a > b { a } else { b }
    }

    /// Where a sequence anchored at `target` starts: the cue's timestamp, or
    /// else the end of the first track carrying that name, or else 0.
    pub open spec fn spec_resolve_start_time(self, target: Seq<char>) -> nat {
        if self.spec_cues().contains_key(target) {
            self.spec_cues()[target]
        } else if exists|i: int| track_named(self.spec_tracks(), i, target) {
            self.spec_tracks()[choose|i: int| first_track_named(self.spec_tracks(), i, target)].spec_duration()
        } else {
            0
        }
    }

    /// A newly created timeline: no tracks or cues, playhead at 0, playing, looping forever.
    pub open spec fn is_fresh(self) -> bool {
        &&& self.spec_tracks().len() == 0
        &&& self.spec_cues() == Map::<Seq<char>, nat>::empty()
        &&& self.spec_playhead() == 0
        &&& self.spec_is_playing()
        &&& self.spec_loop_mode() == LoopMode::LoopForever
    }

    /// Same number of tracks, each valid with the same span and name as its
    /// counterpart at the same index in `other`, and the same cue points and
    /// loop mode. What the tracks animate is `same_animations`; the playhead,
    /// the play state and what each track shows may differ.
    pub open spec fn same_schedule(self, other: Self) -> bool {
        &&& self.spec_tracks().len() == other.spec_tracks().len()
        &&& forall|i: int| 0 <= i < self.spec_tracks().len() ==> {
            &&& (#[trigger] self.spec_tracks()[i]).spec_duration() == other.spec_tracks()[i].spec_duration()
            &&& self.spec_tracks()[i].spec_name() == other.spec_tracks()[i].spec_name()
            &&& self.spec_tracks()[i].spec_start_offset() == other.spec_tracks()[i].spec_start_offset()
            &&& self.spec_tracks()[i].spec_valid()
        }
        &&& self.spec_cues() == other.spec_cues()
        &&& self.spec_loop_mode() == other.spec_loop_mode()
    }

    /// The timeline's length is the latest end among its tracks and cue
    /// points: no track ends and no cue lies after it, and it is 0 or one of
    /// those times.
    pub proof fn lemma_duration_is_latest_end(self)
        requires
            self.wf(),
        ensures
            forall|i: int| 0 <= i < self.spec_tracks().len()
                ==> self.spec_duration() >= (#[trigger] self.spec_tracks()[i]).spec_duration(),
            forall|n: Seq<char>| #[trigger] self.spec_cues().contains_key(n)
                ==> self.spec_duration() >= self.spec_cues()[n],
            self.spec_duration() == 0
                || (exists|i: int| 0 <= i < self.spec_tracks().len()
                    && self.spec_duration() == (#[trigger] self.spec_tracks()[i]).spec_duration())
                || (exists|n: Seq<char>| #[trigger] self.spec_cues().contains_key(n)
                    && self.spec_duration() == self.spec_cues()[n]),
    {
        lemma_max_track_end(self.tracks@, self.tracks@.len() as int);
        lemma_max_time(self.cue_times(), self.cues@.len() as int);
        assert forall|n: Seq<char>| #[trigger] self.spec_cues().contains_key(n)
            implies self.spec_duration() >= self.spec_cues()[n] by {
            let j = choose|j: int| 0 <= j < self.cues@.len() && #[trigger] self.cues@[j].0@ == n;
            lemma_cue_map_at(self.cues@, j);
            assert(self.cue_times()[j] == self.cues@[j].1 as nat);
        }
        let a = max_track_end(self.tracks@, self.tracks@.len() as int);
        let b = max_time(self.cue_times(), self.cues@.len() as int);
        if a <= b && b != 0 {
            let j = choose|j: int| 0 <= j < self.cues@.len() && b == #[trigger] self.cue_times()[j];
            lemma_cue_map_at(self.cues@, j);
            let n = self.cues@[j].0@;
            assert(self.cue_times()[j] == self.cues@[j].1 as nat);
            assert(self.spec_cues().contains_key(n) && self.spec_duration() == self.spec_cues()[n]);
        } else if a > b {
            let i = choose|i: int| 0 <= i < self.tracks@.len() && a == (#[trigger] self.tracks@[i]).spec_duration();
            assert(self.spec_duration() == self.spec_tracks()[i].spec_duration());
        }
    }

    /// Seeking, advancing and restarting never change the timeline's length.
    pub proof fn lemma_same_schedule_same_duration(self, other: Self)
        requires
            self.wf(),
            other.wf(),
            self.same_schedule(other),
        ensures
            self.spec_duration() == other.spec_duration(),
    {
        self.lemma_duration_is_latest_end();
        other.lemma_duration_is_latest_end();
        if self.spec_duration() != 0 {
            if exists|i: int| 0 <= i < self.spec_tracks().len()
                && self.spec_duration() == (#[trigger] self.spec_tracks()[i]).spec_duration() {
                let i = choose|i: int| 0 <= i < self.spec_tracks().len()
                    && self.spec_duration() == (#[trigger] self.spec_tracks()[i]).spec_duration();
                assert(other.spec_duration() >= other.spec_tracks()[i].spec_duration());
            } else {
                let n = choose|n: Seq<char>| #[trigger] self.spec_cues().contains_key(n)
                    && self.spec_duration() == self.spec_cues()[n];
                assert(other.spec_cues().contains_key(n));
            }
        }
        if other.spec_duration() != 0 {
            if exists|i: int| 0 <= i < other.spec_tracks().len()
                && other.spec_duration() == (#[trigger] other.spec_tracks()[i]).spec_duration() {
                let i = choose|i: int| 0 <= i < other.spec_tracks().len()
                    && other.spec_duration() == (#[trigger] other.spec_tracks()[i]).spec_duration();
                assert(self.spec_duration() >= self.spec_tracks()[i].spec_duration());
            } else {
                let n = choose|n: Seq<char>| #[trigger] other.spec_cues().contains_key(n)
                    && other.spec_duration() == other.spec_cues()[n];
                assert(self.spec_cues().contains_key(n));
            }
        }
    }

    /// Creates an empty timeline that is playing and loops forever.
    pub fn new() -> (r: Self)
        ensures
            r.wf(),
            r.is_fresh(),
    {
        let r = MasterTimeline {
            tracks: Vec::new(),
            cues: Vec::new(),
            playhead: 0,
            is_playing: true,
            loop_mode: LoopMode::LoopForever,
        };
        assert(r.spec_cues() =~= Map::<Seq<char>, nat>::empty());
        r
    }

    /// Returns the timeline with its playback policy replaced by `mode`.
    pub fn loop_mode(self, mode: LoopMode) -> (r: Self)
        requires
            self.wf(),
        ensures
            r.wf(),
            r.spec_tracks() == self.spec_tracks(),
            r.spec_cues() == self.spec_cues(),
            r.spec_playhead() == self.spec_playhead(),
            r.spec_is_playing() == self.spec_is_playing(),
            r.spec_loop_mode() == mode,
    {
        let mut r = self;
        r.set_loop_mode(mode);
        r
    }

    /// Returns the timeline set to loop forever.
    pub fn loop_forever(self) -> (r: Self)
        requires
            self.wf(),
        ensures
            r.wf(),
            r.spec_tracks() == self.spec_tracks(),
            r.spec_cues() == self.spec_cues(),
            r.spec_playhead() == self.spec_playhead(),
            r.spec_is_playing() == self.spec_is_playing(),
            r.spec_loop_mode() == LoopMode::LoopForever,
    {
        self.loop_mode(LoopMode::LoopForever)
    }

    /// Returns the timeline set to play once.
    pub fn play_once(self) -> (r: Self)
        requires
            self.wf(),
        ensures
            r.wf(),
            r.spec_tracks() == self.spec_tracks(),
            r.spec_cues() == self.spec_cues(),
            r.spec_playhead() == self.spec_playhead(),
            r.spec_is_playing() == self.spec_is_playing(),
            r.spec_loop_mode() == LoopMode::Once,
    {
        self.loop_mode(LoopMode::Once)
    }

    /// Appends a group of tracks back-to-back, starting at the current end of the timeline.
    pub fn seq<G: IntoSeqGroup<K>>(self, group: G) -> (r: Self)
        requires
            self.wf(),
            group.spec_group_valid(),
            self.spec_duration() + sum_all(group.spec_group_durations()) <= u128::MAX,
        ensures
            r.wf(),
            scheduled_after(self, r, self.spec_duration(), group.spec_group_durations(), group.spec_group_names()),
            group.spec_are_tracks_of(self.spec_duration(), appended(self, r)),
    {
        let start = self.duration();
        let mut r = self;
        group.add_to_timeline(start, &mut r);
        r
    }

    /// Appends a group of tracks back-to-back, starting at `start`.
    pub fn seq_at<G: IntoSeqGroup<K>>(self, start: u128, group: G) -> (r: Self)
        requires
            self.wf(),
            group.spec_group_valid(),
            start + sum_all(group.spec_group_durations()) <= u128::MAX,
        ensures
            r.wf(),
            scheduled_after(self, r, start as nat, group.spec_group_durations(), group.spec_group_names()),
            group.spec_are_tracks_of(start as nat, appended(self, r)),
    {
        let mut r = self;
        group.add_to_timeline(start, &mut r);
        r
    }

    /// Appends a group of tracks back-to-back, starting right after the named
    /// cue point or track.
    pub fn seq_after<G: IntoSeqGroup<K>>(self, target_name: &str, group: G) -> (r: Self)
        requires
            self.wf(),
            group.spec_group_valid(),
            self.spec_resolve_start_time(target_name@) + sum_all(group.spec_group_durations()) <= u128::MAX,
        ensures
            r.wf(),
            scheduled_after(
                self,
                r,
                self.spec_resolve_start_time(target_name@),
                group.spec_group_durations(),
                group.spec_group_names(),
            ),
            group.spec_are_tracks_of(self.spec_resolve_start_time(target_name@), appended(self, r)),
    {
        let start = self.resolve_start_time(target_name);
        let mut r = self;
        group.add_to_timeline(start, &mut r);
        r
    }

    /// Attaches an unnamed property track beginning at `offset`.
    pub fn at<T>(self, offset: u128, prop: Prop<T>) -> (r: Self)
        where Prop<T>: IntoSeqItem<K>,
        requires
            self.wf(),
            prop.spec_item_valid(),
            offset + prop.spec_item_duration() <= u128::MAX,
        ensures
            r.wf(),
            scheduled_after(self, r, offset as nat, seq![prop.spec_item_duration()], seq![prop.spec_item_name()]),
            prop.spec_is_track_of(offset, r.spec_tracks()[self.spec_tracks().len() as int]),
    {
        let mut r = self;
        schedule_item(prop, offset, &mut r);
        r
    }

    /// Attaches a named property track beginning at `offset`.
    pub fn at_named<T>(self, name: String, offset: u128, prop: Prop<T>) -> (r: Self)
        where (String, Prop<T>): IntoSeqItem<K>,
        requires
            self.wf(),
            (name, prop).spec_item_valid(),
            offset + (name, prop).spec_item_duration() <= u128::MAX,
        ensures
            r.wf(),
            scheduled_after(
                self,
                r,
                offset as nat,
                seq![(name, prop).spec_item_duration()],
                seq![(name, prop).spec_item_name()],
            ),
            (name, prop).spec_is_track_of(offset, r.spec_tracks()[self.spec_tracks().len() as int]),
    {
        let mut r = self;
        schedule_item((name, prop), offset, &mut r);
        r
    }

    /// Schedules a property to start when the named cue fires or the named track ends.
    pub fn after<T>(self, target_name: &str, prop: Prop<T>) -> (r: Self)
        where Prop<T>: IntoSeqItem<K>,
        requires
            self.wf(),
            prop.spec_item_valid(),
            self.spec_resolve_start_time(target_name@) + prop.spec_item_duration() <= u128::MAX,
        ensures
            r.wf(),
            scheduled_after(
                self,
                r,
                self.spec_resolve_start_time(target_name@),
                seq![prop.spec_item_duration()],
                seq![prop.spec_item_name()],
            ),
            prop.spec_is_track_of(
                self.spec_resolve_start_time(target_name@) as u128,
                r.spec_tracks()[self.spec_tracks().len() as int],
            ),
    {
        let start = self.resolve_start_time(target_name);
        let mut r = self;
        schedule_item(prop, start, &mut r);
        r
    }

    /// Schedules a named property to start when the named cue fires or the named track ends.
    pub fn after_named<T>(self, name: String, target_name: &str, prop: Prop<T>) -> (r: Self)
        where (String, Prop<T>): IntoSeqItem<K>,
        requires
            self.wf(),
            (name, prop).spec_item_valid(),
            self.spec_resolve_start_time(target_name@) + (name, prop).spec_item_duration() <= u128::MAX,
        ensures
            r.wf(),
            scheduled_after(
                self,
                r,
                self.spec_resolve_start_time(target_name@),
                seq![(name, prop).spec_item_duration()],
                seq![(name, prop).spec_item_name()],
            ),
            (name, prop).spec_is_track_of(
                self.spec_resolve_start_time(target_name@) as u128,
                r.spec_tracks()[self.spec_tracks().len() as int],
            ),
    {
        let start = self.resolve_start_time(target_name);
        let mut r = self;
        schedule_item((name, prop), start, &mut r);
        r
    }

    /// Registers a track; returns the timeline for chaining.
    pub fn add_track(&mut self, track: K) -> (r: &mut Self)
        requires
            old(self).wf(),
            track.spec_valid(),
        ensures
            r.wf(),
            r.spec_tracks() == old(self).spec_tracks().push(track),
            r.spec_cues() == old(self).spec_cues(),
            r.spec_playhead() == old(self).spec_playhead(),
            r.spec_is_playing() == old(self).spec_is_playing(),
            r.spec_loop_mode() == old(self).spec_loop_mode(),
            *final(self) == *final(r),
    {
        self.tracks.push(track);
        self
    }

    /// Defines (or moves) the named cue point at `timestamp`.
    pub fn cue(self, name: String, timestamp: u128) -> (r: Self)
        requires
            self.wf(),
        ensures
            r.wf(),
            r.spec_cues() == self.spec_cues().insert(name@, timestamp as nat),
            r.spec_tracks() == self.spec_tracks(),
            r.spec_playhead() == self.spec_playhead(),
            r.spec_is_playing() == self.spec_is_playing(),
            r.spec_loop_mode() == self.spec_loop_mode(),
    {
        let mut r = self;
        let mut cues = Vec::new();
        std::mem::swap(&mut cues, &mut r.cues);
        let ghost old_cues = cues@;
        let n = cues.len();
        let mut i: usize = 0;
        let mut found: Option<usize> = None;
        while i < n
            invariant
                n == cues@.len(),
                cues@ == old_cues,
                i <= n,
                found is None ==> forall|k: int| 0 <= k < i ==> (#[trigger] cues@[k]).0@ != name@,
                found matches Some(k) ==> k < n && cues@[k as int].0@ == name@,
            decreases n - i,
        {
            if found.is_none() && cues[i].0 == name {
                found = Some(i);
            }
            i = i + 1;
        }
        match found {
            Some(k) => {
                proof {
                    lemma_cue_map_replace(cues@, k as int, name, timestamp);
                }
                cues.set(k, (name, timestamp));
            },
            None => {
                proof {
                    lemma_cue_map_insert_new(cues@, name, timestamp);
                }
                cues.push((name, timestamp));
            },
        }
        r.cues = cues;
        r
    }

    /// Where a sequence anchored at `target_name` starts: a cue's timestamp,
    /// else the end of the first track with that name, else 0.
    pub fn resolve_start_time(&self, target_name: &str) -> (r: u128)
        requires
            self.wf(),
        ensures
            r == self.spec_resolve_start_time(target_name@),
    {
        let target = owned_string(target_name);
        let mut i: usize = 0;
        while i < self.cues.len()
            invariant
                i <= self.cues@.len(),
                target@ == target_name@,
                cue_names_distinct(self.cues@),
                forall|k: int| 0 <= k < i ==> (#[trigger] self.cues@[k]).0@ != target@,
            decreases self.cues@.len() - i,
        {
            if self.cues[i].0 == target {
                proof {
                    lemma_cue_map_at(self.cues@, i as int);
                }
                return self.cues[i].1;
            }
            i = i + 1;
        }
        assert(!self.spec_cues().contains_key(target@));
        let mut j: usize = 0;
        while j < self.tracks.len()
            invariant
                j <= self.tracks@.len(),
                target@ == target_name@,
                forall|k: int| 0 <= k < self.tracks@.len() ==> (#[trigger] self.tracks@[k]).spec_valid(),
                forall|k: int| 0 <= k < j ==> !#[trigger] track_named(self.tracks@, k, target@),
                !self.spec_cues().contains_key(target@),
            decreases self.tracks@.len() - j,
        {
            let named = match self.tracks[j].name() {
                Some(n) => owned_string(n) == target,
                None => false,
            };
            if named {
                assert(first_track_named(self.spec_tracks(), j as int, target@));
                assert(track_named(self.spec_tracks(), j as int, target@));
                let ghost c = choose|c: int| first_track_named(self.spec_tracks(), c, target@);
                assert(c == j) by {
                    if c < j {
                        assert(!track_named(self.tracks@, c, target@));
                    } else if c > j {
                        assert(!track_named(self.tracks@, j as int, target@));
                    }
                }
                assert(self.tracks@[j as int].spec_valid());
                return self.tracks[j].duration();
            }
            j = j + 1;
        }
        0
    }

    /// Starts playback.
    pub fn play(&mut self)
        requires
            old(self).wf(),
        ensures
            final(self).wf(),
            final(self).spec_is_playing(),
            final(self).spec_tracks() == old(self).spec_tracks(),
            final(self).spec_cues() == old(self).spec_cues(),
            final(self).spec_playhead() == old(self).spec_playhead(),
            final(self).spec_loop_mode() == old(self).spec_loop_mode(),
    {
        self.is_playing = true;
    }

    /// Pauses playback.
    pub fn pause(&mut self)
        requires
            old(self).wf(),
        ensures
            final(self).wf(),
            !final(self).spec_is_playing(),
            final(self).spec_tracks() == old(self).spec_tracks(),
            final(self).spec_cues() == old(self).spec_cues(),
            final(self).spec_playhead() == old(self).spec_playhead(),
            final(self).spec_loop_mode() == old(self).spec_loop_mode(),
    {
        self.is_playing = false;
    }

    /// Flips between playing and paused.
    pub fn toggle(&mut self)
        requires
            old(self).wf(),
        ensures
            final(self).wf(),
            final(self).spec_is_playing() == !old(self).spec_is_playing(),
            final(self).spec_tracks() == old(self).spec_tracks(),
            final(self).spec_cues() == old(self).spec_cues(),
            final(self).spec_playhead() == old(self).spec_playhead(),
            final(self).spec_loop_mode() == old(self).spec_loop_mode(),
    {
        self.is_playing = !self.is_playing;
    }

    /// Replaces the playback policy.
    pub fn set_loop_mode(&mut self, mode: LoopMode)
        requires
            old(self).wf(),
        ensures
            final(self).wf(),
            final(self).spec_loop_mode() == mode,
            final(self).spec_tracks() == old(self).spec_tracks(),
            final(self).spec_cues() == old(self).spec_cues(),
            final(self).spec_playhead() == old(self).spec_playhead(),
            final(self).spec_is_playing() == old(self).spec_is_playing(),
    {
        self.loop_mode = mode;
    }

    /// The current playhead position.
    pub fn playhead(&self) -> (r: u128)
        ensures
            r == self.spec_playhead(),
    {
        self.playhead
    }

    /// Number of scheduled tracks.
    pub fn track_count(&self) -> (r: usize)
        ensures
            r == self.spec_tracks().len(),
    {
        self.tracks.len()
    }

    /// The `index`-th scheduled track, in registration order.
    pub fn track(&self, index: usize) -> (r: &K)
        requires
            index < self.spec_tracks().len(),
        ensures
            *r == self.spec_tracks()[index as int],
    {
        &self.tracks[index]
    }

    /// Whether the timeline advances with real time.
    pub fn is_playing(&self) -> (r: bool)
        ensures
            r == self.spec_is_playing(),
    {
        self.is_playing
    }

    /// The latest end time among all tracks and cues.
    pub fn duration(&self) -> (r: u128)
        requires
            self.wf(),
        ensures
            r == self.spec_duration(),
    {
        let mut max_track: u128 = 0;
        let mut i: usize = 0;
        while i < self.tracks.len()
            invariant
                i <= self.tracks@.len(),
                forall|k: int| 0 <= k < self.tracks@.len() ==> (#[trigger] self.tracks@[k]).spec_valid(),
                max_track == max_track_end(self.tracks@, i as int),
            decreases self.tracks@.len() - i,
        {
            assert(self.tracks@[i as int].spec_valid());
            let d = self.tracks[i].duration();
            if d > max_track {
                max_track = d;
            }
            i = i + 1;
        }
        let mut max_cue: u128 = 0;
        let mut j: usize = 0;
        while j < self.cues.len()
            invariant
                j <= self.cues@.len(),
                max_cue == max_time(self.cue_times(), j as int),
            decreases self.cues@.len() - j,
        {
            let c = self.cues[j].1;
            if c > max_cue {
                max_cue = c;
            }
            j = j + 1;
        }
        if max_track > max_cue {
            max_track
        } else {
            max_cue
        }
    }
}

impl<K: ScheduledTrack> MasterTimeline<K> {
    /// Track `i` of `self` animates what track `i` of `other` animates, for
    /// every `i`: no track was replaced, dropped or moved.
    pub open spec fn same_animations(self, other: Self) -> bool {
        &&& self.spec_tracks().len() == other.spec_tracks().len()
        &&& forall|i: int| 0 <= i < self.spec_tracks().len()
            ==> (#[trigger] self.spec_tracks()[i]).spec_same_animation(&other.spec_tracks()[i])
    }

    /// Seeks every track to master time `t` (the playhead keeps `t`).
    fn seek_tracks(&mut self, t: u128)
        requires
            old(self).wf(),
        ensures
            final(self).wf(),
            final(self).same_schedule(*old(self)),
            final(self).same_animations(*old(self)),
            forall|i: int| 0 <= i < final(self).spec_tracks().len()
                ==> (#[trigger] final(self).spec_tracks()[i]).spec_shows(t as nat),
            final(self).spec_playhead() == old(self).spec_playhead(),
            final(self).spec_is_playing() == old(self).spec_is_playing(),
    {
        let mut tracks = Vec::new();
        std::mem::swap(&mut tracks, &mut self.tracks);
        let ghost before = tracks@;
        let n = tracks.len();
        let mut i: usize = 0;
        while i < n
            invariant
                n == tracks@.len(),
                n == before.len(),
                i <= n,
                forall|k: int| 0 <= k < n ==> (#[trigger] before[k]).spec_valid(),
                forall|k: int| i <= k < n ==> #[trigger] tracks@[k] == before[k],
                forall|k: int| 0 <= k < i ==> {
                    &&& (#[trigger] tracks@[k]).spec_valid()
                    &&& tracks@[k].spec_duration() == before[k].spec_duration()
                    &&& tracks@[k].spec_name() == before[k].spec_name()
                    &&& tracks@[k].spec_start_offset() == before[k].spec_start_offset()
                    &&& tracks@[k].spec_shows(t as nat)
                    &&& tracks@[k].spec_same_animation(&before[k])
                },
            decreases n - i,
        {
            assert(tracks@[i as int] == before[i as int]);
            tracks[i].seek_to(t);
            i = i + 1;
        }
        self.tracks = tracks;
    }

    /// Evaluates the timeline and all tracks at time `t`, mapped onto the
    /// timeline by its loop mode.
    pub fn seek(&mut self, t: u128)
        requires
            old(self).wf(),
        ensures
            final(self).wf(),
            final(self).same_schedule(*old(self)),
            final(self).same_animations(*old(self)),
            final(self).spec_playhead() == old(self).spec_loop_mode().spec_map_time(t as nat, old(self).spec_duration()),
            final(self).spec_playhead() <= final(self).spec_duration(),
            forall|i: int| 0 <= i < final(self).spec_tracks().len()
                ==> (#[trigger] final(self).spec_tracks()[i]).spec_shows(final(self).spec_playhead()),
            final(self).spec_is_playing() == old(self).spec_is_playing(),
    {
        let total = self.duration();
        let mapped = self.loop_mode.map_time(t, total);
        self.playhead = mapped;
        self.seek_tracks(mapped);
        proof {
            final(self).lemma_same_schedule_same_duration(*old(self));
        }
    }

    /// Seeks back to the start and resumes playback.
    pub fn restart(&mut self)
        requires
            old(self).wf(),
        ensures
            final(self).wf(),
            final(self).same_schedule(*old(self)),
            final(self).same_animations(*old(self)),
            final(self).spec_playhead() == old(self).spec_loop_mode().spec_map_time(0, old(self).spec_duration()),
            forall|i: int| 0 <= i < final(self).spec_tracks().len()
                ==> (#[trigger] final(self).spec_tracks()[i]).spec_shows(final(self).spec_playhead()),
            final(self).spec_is_playing(),
    {
        self.seek(0);
        self.is_playing = true;
    }

    /// Advances the clock by real time `dt`; `scaled_dt` is `dt` already
    /// scaled by the playback speed. Nothing happens while paused, for a zero
    /// step, or on an empty timeline.
    pub fn advance(&mut self, dt: u128, scaled_dt: u128)
        requires
            old(self).wf(),
            old(self).spec_is_playing() && dt != 0 && old(self).spec_duration() != 0
                ==> old(self).spec_playhead() + scaled_dt <= u128::MAX,
        ensures
            final(self).wf(),
            if !old(self).spec_is_playing() || dt == 0 || old(self).spec_duration() == 0 {
                &&& final(self).spec_tracks() == old(self).spec_tracks()
                &&& final(self).spec_cues() == old(self).spec_cues()
                &&& final(self).spec_playhead() == old(self).spec_playhead()
                &&& final(self).spec_is_playing() == old(self).spec_is_playing()
                &&& final(self).spec_loop_mode() == old(self).spec_loop_mode()
            } else {
                &&& final(self).same_schedule(*old(self))
                &&& final(self).same_animations(*old(self))
                &&& final(self).spec_playhead() == old(self).spec_loop_mode().spec_map_time(
                    (old(self).spec_playhead() + scaled_dt) as nat,
                    old(self).spec_duration(),
                )
                &&& forall|i: int| 0 <= i < final(self).spec_tracks().len()
                    ==> (#[trigger] final(self).spec_tracks()[i]).spec_shows(final(self).spec_playhead())
                &&& final(self).spec_is_playing()
            },
    {
        if !self.is_playing || dt == 0 {
            return;
        }
        let total = self.duration();
        if total == 0 {
            return;
        }
        let next = self.playhead + scaled_dt;
        let mapped = self.loop_mode.map_time(next, total);
        self.playhead = mapped;
        self.seek_tracks(mapped);
    }

}

impl<K: TimelineTrack> Default for MasterTimeline<K> {
    fn default() -> (r: Self)
        ensures
            r.wf(),
            r.is_fresh(),
    {
        MasterTimeline::new()
    }
}

/// Creates a timeline holding one group of tracks scheduled back-to-back from 0.
pub fn seq<K: TimelineTrack, G: IntoSeqGroup<K>>(group: G) -> (r: MasterTimeline<K>)
    requires
        group.spec_group_valid(),
        sum_all(group.spec_group_durations()) <= u128::MAX,
    ensures
        r.wf(),
        exists|fresh: MasterTimeline<K>| #[trigger] fresh.is_fresh() && scheduled_after(
            fresh,
            r,
            0,
            group.spec_group_durations(),
            group.spec_group_names(),
        ),
        group.spec_are_tracks_of(0, r.spec_tracks()),
{
    let t = MasterTimeline::new();
    proof {
        t.lemma_duration_is_latest_end();
    }
    let ghost fresh = t;
    let r = t.seq(group);
    assert(fresh.is_fresh());
    assert(appended(fresh, r) =~= r.spec_tracks());
    r
}

} // verus!
