use vstd::prelude::*;
use crate::interpolate::Interpolate;
use crate::property::Prop;
use crate::timeline::cues::owned_string;
use crate::timeline::master::MasterTimeline;
use crate::timeline::track_binding::{BoundTrack, TimelineTrack};

verus! {

/// Total of the first `k` durations.
pub open spec fn sum_prefix(durations: Seq<nat>, k: int) -> nat
    decreases k,
{
    if k <= 0 {
        0
    } else {
        sum_prefix(durations, k - 1) + durations[k - 1]
    }
}

/// Total of all durations.
pub open spec fn sum_all(durations: Seq<nat>) -> nat {
    sum_prefix(durations, durations.len() as int)
}

/// `after` is `before` with one track appended per duration, placed
/// back-to-back from `start`: the `j`-th new track starts where the previous
/// one ends and carries the `j`-th name. Nothing else changes.
pub open spec fn scheduled_after<K: TimelineTrack>(
    before: MasterTimeline<K>,
    after: MasterTimeline<K>,
    start: nat,
    durations: Seq<nat>,
    names: Seq<Option<Seq<char>>>,
) -> bool {
    let n = before.spec_tracks().len();
    &&& after.spec_tracks().len() == n + durations.len()
    &&& forall|i: int| 0 <= i < n ==> #[trigger] after.spec_tracks()[i] == before.spec_tracks()[i]
    &&& forall|j: int| 0 <= j < durations.len() ==> {
        let tr = #[trigger] after.spec_tracks()[n + j];
        &&& tr.spec_valid()
        &&& tr.spec_start_offset() == start + sum_prefix(durations, j)
        &&& tr.spec_duration() == start + sum_prefix(durations, j + 1)
        &&& tr.spec_name() == names[j]
    }
    &&& after.spec_cues() == before.spec_cues()
    &&& after.spec_playhead() == before.spec_playhead()
    &&& after.spec_is_playing() == before.spec_is_playing()
    &&& after.spec_loop_mode() == before.spec_loop_mode()
}

/// The tracks that `after` holds beyond those of `before`.
pub open spec fn appended<K: TimelineTrack>(before: MasterTimeline<K>, after: MasterTimeline<K>) -> Seq<K> {
    after.spec_tracks().skip(before.spec_tracks().len() as int)
}

/// Prefix sums only look at the entries before them.
pub proof fn lemma_sum_prefix_agree(a: Seq<nat>, b: Seq<nat>, k: int)
    requires
        0 <= k <= a.len(),
        k <= b.len(),
        forall|i: int| 0 <= i < k ==> a[i] == b[i],
    ensures
        sum_prefix(a, k) == sum_prefix(b, k),
    decreases k,
{
    if k > 0 {
        lemma_sum_prefix_agree(a, b, k - 1);
    }
}

/// Prefix sums grow with the prefix.
pub proof fn lemma_sum_prefix_monotone(a: Seq<nat>, j: int, k: int)
    requires
        j <= k,
    ensures
        sum_prefix(a, j) <= sum_prefix(a, k),
    decreases k - j,
{
    if j < k {
        lemma_sum_prefix_monotone(a, j, k - 1);
    }
}

/// Prefix sums of a concatenation.
pub proof fn lemma_sum_prefix_concat(d1: Seq<nat>, d2: Seq<nat>, k: int)
    requires
        0 <= k <= d1.len() + d2.len(),
    ensures
        sum_prefix(d1 + d2, k) == if k <= d1.len() {
            sum_prefix(d1, k)
        } else {
            sum_all(d1) + sum_prefix(d2, k - d1.len())
        },
    decreases k,
{
    let d = d1 + d2;
    let l1 = d1.len() as int;
    if k > 0 {
        lemma_sum_prefix_concat(d1, d2, k - 1);
        assert(sum_prefix(d, k) == sum_prefix(d, k - 1) + d[k - 1]);
        if k <= l1 {
            assert(d[k - 1] == d1[k - 1]);
            assert(sum_prefix(d1, k) == sum_prefix(d1, k - 1) + d1[k - 1]);
        } else if k - 1 == l1 {
            assert(d[k - 1] == d2[0]);
            assert(sum_prefix(d2, 0) == 0);
            assert(sum_prefix(d2, 1) == sum_prefix(d2, 0) + d2[0]);
        } else {
            assert(d[k - 1] == d2[k - 1 - l1]);
            assert(sum_prefix(d2, k - l1) == sum_prefix(d2, k - 1 - l1) + d2[k - 1 - l1]);
        }
    } else {
        assert(sum_prefix(d, 0) == 0);
        assert(sum_prefix(d1, 0) == 0);
    }
}

/// Scheduling one group after another schedules their concatenation.
pub proof fn lemma_scheduled_after_compose<K: TimelineTrack>(
    a: MasterTimeline<K>,
    m: MasterTimeline<K>,
    b: MasterTimeline<K>,
    start: nat,
    d1: Seq<nat>,
    n1: Seq<Option<Seq<char>>>,
    d2: Seq<nat>,
    n2: Seq<Option<Seq<char>>>,
)
    requires
        d1.len() == n1.len(),
        d2.len() == n2.len(),
        scheduled_after(a, m, start, d1, n1),
        scheduled_after(m, b, start + sum_all(d1), d2, n2),
    ensures
        scheduled_after(a, b, start, d1 + d2, n1 + n2),
{
    let n = a.spec_tracks().len();
    let l1 = d1.len();
    assert forall|j: int| 0 <= j < (d1 + d2).len() implies {
        let tr = #[trigger] b.spec_tracks()[n + j];
        &&& tr.spec_valid()
        &&& tr.spec_start_offset() == start + sum_prefix(d1 + d2, j)
        &&& tr.spec_duration() == start + sum_prefix(d1 + d2, j + 1)
        &&& tr.spec_name() == (n1 + n2)[j]
    } by {
        lemma_sum_prefix_concat(d1, d2, j);
        lemma_sum_prefix_concat(d1, d2, j + 1);
        assert(m.spec_tracks().len() == n + l1);
        if j < l1 {
            assert(b.spec_tracks()[n + j] == m.spec_tracks()[n + j]);
            let tr = m.spec_tracks()[n + j];
            assert(tr.spec_start_offset() == start + sum_prefix(d1, j));
            assert(tr.spec_duration() == start + sum_prefix(d1, j + 1));
            assert((n1 + n2)[j] == n1[j]);
        } else {
            let j2 = j - l1;
            let tr = b.spec_tracks()[(n + l1) + j2];
            assert(tr == b.spec_tracks()[n + j]);
            assert(tr.spec_start_offset() == start + sum_all(d1) + sum_prefix(d2, j2));
            assert(tr.spec_duration() == start + sum_all(d1) + sum_prefix(d2, j2 + 1));
            assert((n1 + n2)[j] == n2[j2]);
        }
    }
}

/// An item that can be placed into a sequential timeline queue.
pub trait IntoSeqItem<K: TimelineTrack> {
    spec fn spec_item_valid(&self) -> bool;

    spec fn spec_item_duration(&self) -> nat;

    spec fn spec_item_name(&self) -> Option<Seq<char>>;

    /// `track` is what this item turns into when it starts at `start_offset`.
    spec fn spec_is_track_of(&self, start_offset: u128, track: K) -> bool;

    /// Returns the execution duration of the item itself.
    fn item_duration(&self) -> (r: u128)
        requires
            self.spec_item_valid(),
        ensures
            r == self.spec_item_duration(),
    ;

    /// Consumes the item and turns it into a timeline track starting at `start_offset`.
    fn into_timeline_track(self, start_offset: u128) -> (r: K)
        requires
            self.spec_item_valid(),
            start_offset + self.spec_item_duration() <= u128::MAX,
        ensures
            r.spec_valid(),
            r.spec_start_offset() == start_offset,
            r.spec_duration() == start_offset + self.spec_item_duration(),
            r.spec_name() == self.spec_item_name(),
            self.spec_is_track_of(start_offset, r),
    ;
}

impl<T: Clone + Interpolate> IntoSeqItem<BoundTrack<T>> for Prop<T> {
    open spec fn spec_item_valid(&self) -> bool {
        self.track.wf()
    }

    open spec fn spec_item_duration(&self) -> nat {
        self.track.spec_total_duration()
    }

    open spec fn spec_item_name(&self) -> Option<Seq<char>> {
        None
    }

    /// An unnamed bound track holding this property, set to play once.
    open spec fn spec_is_track_of(&self, start_offset: u128, track: BoundTrack<T>) -> bool {
        track == (BoundTrack { name: None, start_offset, prop: self.played_once() })
    }

    fn item_duration(&self) -> (r: u128) {
        self.track.total_duration()
    }

    fn into_timeline_track(self, start_offset: u128) -> (r: BoundTrack<T>) {
        BoundTrack::new(None, start_offset, self)
    }
}

impl<T: Clone + Interpolate> IntoSeqItem<BoundTrack<T>> for (String, Prop<T>) {
    open spec fn spec_item_valid(&self) -> bool {
        self.1.track.wf()
    }

    open spec fn spec_item_duration(&self) -> nat {
        self.1.track.spec_total_duration()
    }

    open spec fn spec_item_name(&self) -> Option<Seq<char>> {
        Some(self.0@)
    }

    /// A bound track with this name holding this property, set to play once.
    open spec fn spec_is_track_of(&self, start_offset: u128, track: BoundTrack<T>) -> bool {
        track == (BoundTrack { name: Some(self.0), start_offset, prop: self.1.played_once() })
    }

    fn item_duration(&self) -> (r: u128) {
        self.1.track.total_duration()
    }

    fn into_timeline_track(self, start_offset: u128) -> (r: BoundTrack<T>) {
        let (name, prop) = self;
        BoundTrack::new(Some(name), start_offset, prop)
    }
}

impl<T: Clone + Interpolate> IntoSeqItem<BoundTrack<T>> for (&'static str, Prop<T>) {
    open spec fn spec_item_valid(&self) -> bool {
        self.1.track.wf()
    }

    open spec fn spec_item_duration(&self) -> nat {
        self.1.track.spec_total_duration()
    }

    open spec fn spec_item_name(&self) -> Option<Seq<char>> {
        Some(self.0@)
    }

    /// A bound track named by an owned copy of this name (same characters),
    /// holding this property, set to play once.
    open spec fn spec_is_track_of(&self, start_offset: u128, track: BoundTrack<T>) -> bool {
        &&& track.name matches Some(s) && s@ == self.0@
        &&& track.start_offset == start_offset
        &&& track.prop == self.1.played_once()
    }

    fn item_duration(&self) -> (r: u128) {
        self.1.track.total_duration()
    }

    fn into_timeline_track(self, start_offset: u128) -> (r: BoundTrack<T>) {
        let (name, prop) = self;
        BoundTrack::new(Some(owned_string(name)), start_offset, prop)
    }
}

/// Places `item` on `timeline` starting at `cursor`; returns where it ends.
pub fn schedule_item<K: TimelineTrack, I: IntoSeqItem<K>>(
    item: I,
    cursor: u128,
    timeline: &mut MasterTimeline<K>,
) -> (r: u128)
    requires
        old(timeline).wf(),
        item.spec_item_valid(),
        cursor + item.spec_item_duration() <= u128::MAX,
    ensures
        final(timeline).wf(),
        r == cursor + item.spec_item_duration(),
        scheduled_after(
            *old(timeline),
            *final(timeline),
            cursor as nat,
            seq![item.spec_item_duration()],
            seq![item.spec_item_name()],
        ),
        item.spec_is_track_of(cursor, final(timeline).spec_tracks()[old(timeline).spec_tracks().len() as int]),
{
    let dur = item.item_duration();
    let track = item.into_timeline_track(cursor);
    timeline.add_track(track);
    proof {
        let durs = seq![item.spec_item_duration()];
        assert(sum_prefix(durs, 0) == 0);
        assert(sum_prefix(durs, 1) == item.spec_item_duration());
        let n = old(timeline).spec_tracks().len() as int;
        assert(timeline.spec_tracks()[n + 0int] == track);
    }
    cursor + dur
}

/// Schedules the `k`-th item of a group whose first `k` items are already
/// placed; extends the placed prefix by one.
fn schedule_step<K: TimelineTrack, I: IntoSeqItem<K>>(
    item: I,
    cursor: u128,
    timeline: &mut MasterTimeline<K>,
    Ghost(first): Ghost<MasterTimeline<K>>,
    Ghost(start): Ghost<nat>,
    Ghost(durs): Ghost<Seq<nat>>,
    Ghost(names): Ghost<Seq<Option<Seq<char>>>>,
    Ghost(k): Ghost<int>,
    Ghost(converts): Ghost<spec_fn(int, K) -> bool>,
) -> (r: u128)
    requires
        old(timeline).wf(),
        item.spec_item_valid(),
        0 <= k < durs.len(),
        durs.len() == names.len(),
        durs[k] == item.spec_item_duration(),
        names[k] == item.spec_item_name(),
        start + sum_all(durs) <= u128::MAX,
        cursor == start + sum_prefix(durs, k),
        scheduled_after(first, *old(timeline), start, durs.take(k), names.take(k)),
        forall|t: K| #[trigger] converts(k, t) == item.spec_is_track_of(cursor, t),
        forall|j: int| 0 <= j < k ==> #[trigger] converts(j, appended(first, *old(timeline))[j]),
    ensures
        final(timeline).wf(),
        r == start + sum_prefix(durs, k + 1),
        scheduled_after(first, *final(timeline), start, durs.take(k + 1), names.take(k + 1)),
        forall|j: int| 0 <= j < k + 1 ==> #[trigger] converts(j, appended(first, *final(timeline))[j]),
{
    let ghost mid = *timeline;
    proof {
        lemma_sum_prefix_monotone(durs, k + 1, durs.len() as int);
    }
    let r = schedule_item(item, cursor, timeline);
    proof {
        let d1 = durs.take(k);
        let n1 = names.take(k);
        lemma_sum_prefix_agree(d1, durs, k);
        lemma_scheduled_after_compose(
            first,
            mid,
            *timeline,
            start,
            d1,
            n1,
            seq![durs[k]],
            seq![names[k]],
        );
        assert(d1 + seq![durs[k]] =~= durs.take(k + 1));
        assert(n1 + seq![names[k]] =~= names.take(k + 1));
        let n0 = first.spec_tracks().len() as int;
        assert(mid.spec_tracks().len() == n0 + k);
        assert forall|j: int| 0 <= j < k + 1 implies #[trigger] converts(j, appended(first, *timeline)[j]) by {
            if j < k {
                assert(appended(first, *timeline)[j] == timeline.spec_tracks()[n0 + j]);
                assert(timeline.spec_tracks()[n0 + j] == mid.spec_tracks()[n0 + j]);
                assert(appended(first, mid)[j] == mid.spec_tracks()[n0 + j]);
            } else {
                assert(appended(first, *timeline)[j] == timeline.spec_tracks()[n0 + k]);
            }
        }
    }
    r
}

/// A collection of items scheduled back-to-back along the timeline.
pub trait IntoSeqGroup<K: TimelineTrack> {
    spec fn spec_group_valid(&self) -> bool;

    /// Durations of the items, in scheduling order.
    spec fn spec_group_durations(&self) -> Seq<nat>;

    /// Names of the items, in scheduling order.
    spec fn spec_group_names(&self) -> Seq<Option<Seq<char>>>;

    /// `tracks` are, in order, what the items turn into when scheduled
    /// back-to-back from `start`.
    spec fn spec_are_tracks_of(&self, start: nat, tracks: Seq<K>) -> bool;

    /// Schedules the items back-to-back from `start_time`; returns the end of the last one.
    fn add_to_timeline(self, start_time: u128, timeline: &mut MasterTimeline<K>) -> (r: u128)
        requires
            old(timeline).wf(),
            self.spec_group_valid(),
            start_time + sum_all(self.spec_group_durations()) <= u128::MAX,
        ensures
            final(timeline).wf(),
            r == start_time + sum_all(self.spec_group_durations()),
            scheduled_after(
                *old(timeline),
                *final(timeline),
                start_time as nat,
                self.spec_group_durations(),
                self.spec_group_names(),
            ),
            self.spec_are_tracks_of(start_time as nat, appended(*old(timeline), *final(timeline))),
    ;
}

impl<K: TimelineTrack, I: IntoSeqItem<K>> IntoSeqGroup<K> for Vec<I> {
    open spec fn spec_group_valid(&self) -> bool {
        forall|i: int| 0 <= i < self@.len() ==> (#[trigger] self@[i]).spec_item_valid()
    }

    open spec fn spec_group_durations(&self) -> Seq<nat> {
        self@.map_values(|it: I| it.spec_item_duration())
    }

    open spec fn spec_group_names(&self) -> Seq<Option<Seq<char>>> {
        self@.map_values(|it: I| it.spec_item_name())
    }

    open spec fn spec_are_tracks_of(&self, start: nat, tracks: Seq<K>) -> bool {
        &&& tracks.len() == self@.len()
        &&& forall|j: int| 0 <= j < self@.len() ==> #[trigger] self@[j].spec_is_track_of(
            (start + sum_prefix(self.spec_group_durations(), j)) as u128,
            tracks[j],
        )
    }

    fn add_to_timeline(self, start_time: u128, timeline: &mut MasterTimeline<K>) -> (r: u128) {
        let ghost all = self@;
        let ghost durs = self.spec_group_durations();
        let ghost names = self.spec_group_names();
        let ghost before = *timeline;
        let ghost converts = |j: int, t: K|
            all[j].spec_is_track_of((start_time + sum_prefix(durs, j)) as u128, t);
        let mut items = self;
        let n = items.len();
        let mut cursor = start_time;
        let mut done: usize = 0;
        proof {
            assert(durs.take(0) =~= Seq::<nat>::empty());
            assert(names.take(0) =~= Seq::<Option<Seq<char>>>::empty());
            assert(timeline.spec_tracks() =~= before.spec_tracks() + Seq::<K>::empty());
        }
        while done < n
            invariant
                n == all.len(),
                durs == all.map_values(|it: I| it.spec_item_duration()),
                names == all.map_values(|it: I| it.spec_item_name()),
                forall|i: int| 0 <= i < n ==> (#[trigger] all[i]).spec_item_valid(),
                start_time + sum_all(durs) <= u128::MAX,
                done <= n,
                items@ == all.subrange(done as int, n as int),
                timeline.wf(),
                before == *old(timeline),
                cursor == start_time + sum_prefix(durs, done as int),
                scheduled_after(before, *timeline, start_time as nat, durs.take(done as int), names.take(done as int)),
                converts == (|j: int, t: K| all[j].spec_is_track_of((start_time + sum_prefix(durs, j)) as u128, t)),
                forall|j: int| 0 <= j < done ==> #[trigger] converts(j, appended(before, *timeline)[j]),
            decreases n - done,
        {
            let item = items.remove(0);
            assert(item == all[done as int]);
            cursor = schedule_step(
                item,
                cursor,
                timeline,
                Ghost(before),
                Ghost(start_time as nat),
                Ghost(durs),
                Ghost(names),
                Ghost(done as int),
                Ghost(converts),
            );
            done = done + 1;
        }
        proof {
            assert(durs.take(n as int) =~= durs);
            assert(names.take(n as int) =~= names);
            assert forall|j: int| 0 <= j < n implies #[trigger] all[j].spec_is_track_of(
                (start_time + sum_prefix(durs, j)) as u128,
                appended(before, *timeline)[j],
            ) by {
                assert(converts(j, appended(before, *timeline)[j]));
            }
        }
        cursor
    }
}

impl<K: TimelineTrack, A: IntoSeqItem<K>, B: IntoSeqItem<K>> IntoSeqGroup<K> for (A, B) {
    open spec fn spec_group_valid(&self) -> bool {
        self.0.spec_item_valid()
        && self.1.spec_item_valid()
    }

    open spec fn spec_group_durations(&self) -> Seq<nat> {
        seq![
            self.0.spec_item_duration(),
            self.1.spec_item_duration(),
        ]
    }

    open spec fn spec_group_names(&self) -> Seq<Option<Seq<char>>> {
        seq![
            self.0.spec_item_name(),
            self.1.spec_item_name(),
        ]
    }

    open spec fn spec_are_tracks_of(&self, start: nat, tracks: Seq<K>) -> bool {
        &&& tracks.len() == 2
        &&& self.0.spec_is_track_of((start + sum_prefix(self.spec_group_durations(), 0)) as u128, tracks[0])
        &&& self.1.spec_is_track_of((start + sum_prefix(self.spec_group_durations(), 1)) as u128, tracks[1])
    }

    fn add_to_timeline(self, start_time: u128, timeline: &mut MasterTimeline<K>) -> (r: u128) {
        let ghost durs = self.spec_group_durations();
        let ghost names = self.spec_group_names();
        let ghost before = *timeline;
        let ghost group = self;
        let ghost offset = |k: int| (start_time + sum_prefix(durs, k)) as u128;
        let ghost converts = |j: int, t: K| if j == 0 {
                group.0.spec_is_track_of(offset(0), t)
            } else {
                group.1.spec_is_track_of(offset(1), t)
            };
        let (x0, x1) = self;
        proof {
            assert(durs.take(0) =~= Seq::<nat>::empty());
            assert(names.take(0) =~= Seq::<Option<Seq<char>>>::empty());
            assert(timeline.spec_tracks() =~= before.spec_tracks() + Seq::<K>::empty());
        }
        let cursor = start_time;
        let cursor = schedule_step(
            x0,
            cursor,
            timeline,
            Ghost(before),
            Ghost(start_time as nat),
            Ghost(durs),
            Ghost(names),
            Ghost(0int),
            Ghost(converts),
        );
        let cursor = schedule_step(
            x1,
            cursor,
            timeline,
            Ghost(before),
            Ghost(start_time as nat),
            Ghost(durs),
            Ghost(names),
            Ghost(1int),
            Ghost(converts),
        );
        proof {
            assert(durs.take(2) =~= durs);
            assert(names.take(2) =~= names);
            assert(converts(0, appended(before, *timeline)[0]));
            assert(converts(1, appended(before, *timeline)[1]));
        }
        cursor
    }
}

impl<K: TimelineTrack, A: IntoSeqItem<K>, B: IntoSeqItem<K>, C: IntoSeqItem<K>> IntoSeqGroup<K> for (A, B, C) {
    open spec fn spec_group_valid(&self) -> bool {
        self.0.spec_item_valid()
        && self.1.spec_item_valid()
        && self.2.spec_item_valid()
    }

    open spec fn spec_group_durations(&self) -> Seq<nat> {
        seq![
            self.0.spec_item_duration(),
            self.1.spec_item_duration(),
            self.2.spec_item_duration(),
        ]
    }

    open spec fn spec_group_names(&self) -> Seq<Option<Seq<char>>> {
        seq![
            self.0.spec_item_name(),
            self.1.spec_item_name(),
            self.2.spec_item_name(),
        ]
    }

    open spec fn spec_are_tracks_of(&self, start: nat, tracks: Seq<K>) -> bool {
        &&& tracks.len() == 3
        &&& self.0.spec_is_track_of((start + sum_prefix(self.spec_group_durations(), 0)) as u128, tracks[0])
        &&& self.1.spec_is_track_of((start + sum_prefix(self.spec_group_durations(), 1)) as u128, tracks[1])
        &&& self.2.spec_is_track_of((start + sum_prefix(self.spec_group_durations(), 2)) as u128, tracks[2])
    }

    fn add_to_timeline(self, start_time: u128, timeline: &mut MasterTimeline<K>) -> (r: u128) {
        let ghost durs = self.spec_group_durations();
        let ghost names = self.spec_group_names();
        let ghost before = *timeline;
        let ghost group = self;
        let ghost offset = |k: int| (start_time + sum_prefix(durs, k)) as u128;
        let ghost converts = |j: int, t: K| if j == 0 {
                group.0.spec_is_track_of(offset(0), t)
            } else if j == 1 {
                group.1.spec_is_track_of(offset(1), t)
            } else {
                group.2.spec_is_track_of(offset(2), t)
            };
        let (x0, x1, x2) = self;
        proof {
            assert(durs.take(0) =~= Seq::<nat>::empty());
            assert(names.take(0) =~= Seq::<Option<Seq<char>>>::empty());
            assert(timeline.spec_tracks() =~= before.spec_tracks() + Seq::<K>::empty());
        }
        let cursor = start_time;
        let cursor = schedule_step(
            x0,
            cursor,
            timeline,
            Ghost(before),
            Ghost(start_time as nat),
            Ghost(durs),
            Ghost(names),
            Ghost(0int),
            Ghost(converts),
        );
        let cursor = schedule_step(
            x1,
            cursor,
            timeline,
            Ghost(before),
            Ghost(start_time as nat),
            Ghost(durs),
            Ghost(names),
            Ghost(1int),
            Ghost(converts),
        );
        let cursor = schedule_step(
            x2,
            cursor,
            timeline,
            Ghost(before),
            Ghost(start_time as nat),
            Ghost(durs),
            Ghost(names),
            Ghost(2int),
            Ghost(converts),
        );
        proof {
            assert(durs.take(3) =~= durs);
            assert(names.take(3) =~= names);
            assert(converts(0, appended(before, *timeline)[0]));
            assert(converts(1, appended(before, *timeline)[1]));
            assert(converts(2, appended(before, *timeline)[2]));
        }
        cursor
    }
}

impl<K: TimelineTrack, A: IntoSeqItem<K>, B: IntoSeqItem<K>, C: IntoSeqItem<K>, D: IntoSeqItem<K>> IntoSeqGroup<K> for (A, B, C, D) {
    open spec fn spec_group_valid(&self) -> bool {
        self.0.spec_item_valid()
        && self.1.spec_item_valid()
        && self.2.spec_item_valid()
        && self.3.spec_item_valid()
    }

    open spec fn spec_group_durations(&self) -> Seq<nat> {
        seq![
            self.0.spec_item_duration(),
            self.1.spec_item_duration(),
            self.2.spec_item_duration(),
            self.3.spec_item_duration(),
        ]
    }

    open spec fn spec_group_names(&self) -> Seq<Option<Seq<char>>> {
        seq![
            self.0.spec_item_name(),
            self.1.spec_item_name(),
            self.2.spec_item_name(),
            self.3.spec_item_name(),
        ]
    }

    open spec fn spec_are_tracks_of(&self, start: nat, tracks: Seq<K>) -> bool {
        &&& tracks.len() == 4
        &&& self.0.spec_is_track_of((start + sum_prefix(self.spec_group_durations(), 0)) as u128, tracks[0])
        &&& self.1.spec_is_track_of((start + sum_prefix(self.spec_group_durations(), 1)) as u128, tracks[1])
        &&& self.2.spec_is_track_of((start + sum_prefix(self.spec_group_durations(), 2)) as u128, tracks[2])
        &&& self.3.spec_is_track_of((start + sum_prefix(self.spec_group_durations(), 3)) as u128, tracks[3])
    }

    fn add_to_timeline(self, start_time: u128, timeline: &mut MasterTimeline<K>) -> (r: u128) {
        let ghost durs = self.spec_group_durations();
        let ghost names = self.spec_group_names();
        let ghost before = *timeline;
        let ghost group = self;
        let ghost offset = |k: int| (start_time + sum_prefix(durs, k)) as u128;
        let ghost converts = |j: int, t: K| if j == 0 {
                group.0.spec_is_track_of(offset(0), t)
            } else if j == 1 {
                group.1.spec_is_track_of(offset(1), t)
            } else if j == 2 {
                group.2.spec_is_track_of(offset(2), t)
            } else {
                group.3.spec_is_track_of(offset(3), t)
            };
        let (x0, x1, x2, x3) = self;
        proof {
            assert(durs.take(0) =~= Seq::<nat>::empty());
            assert(names.take(0) =~= Seq::<Option<Seq<char>>>::empty());
            assert(timeline.spec_tracks() =~= before.spec_tracks() + Seq::<K>::empty());
        }
        let cursor = start_time;
        let cursor = schedule_step(
            x0,
            cursor,
            timeline,
            Ghost(before),
            Ghost(start_time as nat),
            Ghost(durs),
            Ghost(names),
            Ghost(0int),
            Ghost(converts),
        );
        let cursor = schedule_step(
            x1,
            cursor,
            timeline,
            Ghost(before),
            Ghost(start_time as nat),
            Ghost(durs),
            Ghost(names),
            Ghost(1int),
            Ghost(converts),
        );
        let cursor = schedule_step(
            x2,
            cursor,
            timeline,
            Ghost(before),
            Ghost(start_time as nat),
            Ghost(durs),
            Ghost(names),
            Ghost(2int),
            Ghost(converts),
        );
        let cursor = schedule_step(
            x3,
            cursor,
            timeline,
            Ghost(before),
            Ghost(start_time as nat),
            Ghost(durs),
            Ghost(names),
            Ghost(3int),
            Ghost(converts),
        );
        proof {
            assert(durs.take(4) =~= durs);
            assert(names.take(4) =~= names);
            assert(converts(0, appended(before, *timeline)[0]));
            assert(converts(1, appended(before, *timeline)[1]));
            assert(converts(2, appended(before, *timeline)[2]));
            assert(converts(3, appended(before, *timeline)[3]));
        }
        cursor
    }
}

impl<K: TimelineTrack, A: IntoSeqItem<K>, B: IntoSeqItem<K>, C: IntoSeqItem<K>, D: IntoSeqItem<K>, E: IntoSeqItem<K>> IntoSeqGroup<K> for (A, B, C, D, E) {
    open spec fn spec_group_valid(&self) -> bool {
        self.0.spec_item_valid()
        && self.1.spec_item_valid()
        && self.2.spec_item_valid()
        && self.3.spec_item_valid()
        && self.4.spec_item_valid()
    }

    open spec fn spec_group_durations(&self) -> Seq<nat> {
        seq![
            self.0.spec_item_duration(),
            self.1.spec_item_duration(),
            self.2.spec_item_duration(),
            self.3.spec_item_duration(),
            self.4.spec_item_duration(),
        ]
    }

    open spec fn spec_group_names(&self) -> Seq<Option<Seq<char>>> {
        seq![
            self.0.spec_item_name(),
            self.1.spec_item_name(),
            self.2.spec_item_name(),
            self.3.spec_item_name(),
            self.4.spec_item_name(),
        ]
    }

    open spec fn spec_are_tracks_of(&self, start: nat, tracks: Seq<K>) -> bool {
        &&& tracks.len() == 5
        &&& self.0.spec_is_track_of((start + sum_prefix(self.spec_group_durations(), 0)) as u128, tracks[0])
        &&& self.1.spec_is_track_of((start + sum_prefix(self.spec_group_durations(), 1)) as u128, tracks[1])
        &&& self.2.spec_is_track_of((start + sum_prefix(self.spec_group_durations(), 2)) as u128, tracks[2])
        &&& self.3.spec_is_track_of((start + sum_prefix(self.spec_group_durations(), 3)) as u128, tracks[3])
        &&& self.4.spec_is_track_of((start + sum_prefix(self.spec_group_durations(), 4)) as u128, tracks[4])
    }

    fn add_to_timeline(self, start_time: u128, timeline: &mut MasterTimeline<K>) -> (r: u128) {
        let ghost durs = self.spec_group_durations();
        let ghost names = self.spec_group_names();
        let ghost before = *timeline;
        let ghost group = self;
        let ghost offset = |k: int| (start_time + sum_prefix(durs, k)) as u128;
        let ghost converts = |j: int, t: K| if j == 0 {
                group.0.spec_is_track_of(offset(0), t)
            } else if j == 1 {
                group.1.spec_is_track_of(offset(1), t)
            } else if j == 2 {
                group.2.spec_is_track_of(offset(2), t)
            } else if j == 3 {
                group.3.spec_is_track_of(offset(3), t)
            } else {
                group.4.spec_is_track_of(offset(4), t)
            };
        let (x0, x1, x2, x3, x4) = self;
        proof {
            assert(durs.take(0) =~= Seq::<nat>::empty());
            assert(names.take(0) =~= Seq::<Option<Seq<char>>>::empty());
            assert(timeline.spec_tracks() =~= before.spec_tracks() + Seq::<K>::empty());
        }
        let cursor = start_time;
        let cursor = schedule_step(
            x0,
            cursor,
            timeline,
            Ghost(before),
            Ghost(start_time as nat),
            Ghost(durs),
            Ghost(names),
            Ghost(0int),
            Ghost(converts),
        );
        let cursor = schedule_step(
            x1,
            cursor,
            timeline,
            Ghost(before),
            Ghost(start_time as nat),
            Ghost(durs),
            Ghost(names),
            Ghost(1int),
            Ghost(converts),
        );
        let cursor = schedule_step(
            x2,
            cursor,
            timeline,
            Ghost(before),
            Ghost(start_time as nat),
            Ghost(durs),
            Ghost(names),
            Ghost(2int),
            Ghost(converts),
        );
        let cursor = schedule_step(
            x3,
            cursor,
            timeline,
            Ghost(before),
            Ghost(start_time as nat),
            Ghost(durs),
            Ghost(names),
            Ghost(3int),
            Ghost(converts),
        );
        let cursor = schedule_step(
            x4,
            cursor,
            timeline,
            Ghost(before),
            Ghost(start_time as nat),
            Ghost(durs),
            Ghost(names),
            Ghost(4int),
            Ghost(converts),
        );
        proof {
            assert(durs.take(5) =~= durs);
            assert(names.take(5) =~= names);
            assert(converts(0, appended(before, *timeline)[0]));
            assert(converts(1, appended(before, *timeline)[1]));
            assert(converts(2, appended(before, *timeline)[2]));
            assert(converts(3, appended(before, *timeline)[3]));
            assert(converts(4, appended(before, *timeline)[4]));
        }
        cursor
    }
}

impl<K: TimelineTrack, A: IntoSeqItem<K>, B: IntoSeqItem<K>, C: IntoSeqItem<K>, D: IntoSeqItem<K>, E: IntoSeqItem<K>, F: IntoSeqItem<K>> IntoSeqGroup<K> for (A, B, C, D, E, F) {
    open spec fn spec_group_valid(&self) -> bool {
        self.0.spec_item_valid()
        && self.1.spec_item_valid()
        && self.2.spec_item_valid()
        && self.3.spec_item_valid()
        && self.4.spec_item_valid()
        && self.5.spec_item_valid()
    }

    open spec fn spec_group_durations(&self) -> Seq<nat> {
        seq![
            self.0.spec_item_duration(),
            self.1.spec_item_duration(),
            self.2.spec_item_duration(),
            self.3.spec_item_duration(),
            self.4.spec_item_duration(),
            self.5.spec_item_duration(),
        ]
    }

    open spec fn spec_group_names(&self) -> Seq<Option<Seq<char>>> {
        seq![
            self.0.spec_item_name(),
            self.1.spec_item_name(),
            self.2.spec_item_name(),
            self.3.spec_item_name(),
            self.4.spec_item_name(),
            self.5.spec_item_name(),
        ]
    }

    open spec fn spec_are_tracks_of(&self, start: nat, tracks: Seq<K>) -> bool {
        &&& tracks.len() == 6
        &&& self.0.spec_is_track_of((start + sum_prefix(self.spec_group_durations(), 0)) as u128, tracks[0])
        &&& self.1.spec_is_track_of((start + sum_prefix(self.spec_group_durations(), 1)) as u128, tracks[1])
        &&& self.2.spec_is_track_of((start + sum_prefix(self.spec_group_durations(), 2)) as u128, tracks[2])
        &&& self.3.spec_is_track_of((start + sum_prefix(self.spec_group_durations(), 3)) as u128, tracks[3])
        &&& self.4.spec_is_track_of((start + sum_prefix(self.spec_group_durations(), 4)) as u128, tracks[4])
        &&& self.5.spec_is_track_of((start + sum_prefix(self.spec_group_durations(), 5)) as u128, tracks[5])
    }

    fn add_to_timeline(self, start_time: u128, timeline: &mut MasterTimeline<K>) -> (r: u128) {
        let ghost durs = self.spec_group_durations();
        let ghost names = self.spec_group_names();
        let ghost before = *timeline;
        let ghost group = self;
        let ghost offset = |k: int| (start_time + sum_prefix(durs, k)) as u128;
        let ghost converts = |j: int, t: K| if j == 0 {
                group.0.spec_is_track_of(offset(0), t)
            } else if j == 1 {
                group.1.spec_is_track_of(offset(1), t)
            } else if j == 2 {
                group.2.spec_is_track_of(offset(2), t)
            } else if j == 3 {
                group.3.spec_is_track_of(offset(3), t)
            } else if j == 4 {
                group.4.spec_is_track_of(offset(4), t)
            } else {
                group.5.spec_is_track_of(offset(5), t)
            };
        let (x0, x1, x2, x3, x4, x5) = self;
        proof {
            assert(durs.take(0) =~= Seq::<nat>::empty());
            assert(names.take(0) =~= Seq::<Option<Seq<char>>>::empty());
            assert(timeline.spec_tracks() =~= before.spec_tracks() + Seq::<K>::empty());
        }
        let cursor = start_time;
        let cursor = schedule_step(
            x0,
            cursor,
            timeline,
            Ghost(before),
            Ghost(start_time as nat),
            Ghost(durs),
            Ghost(names),
            Ghost(0int),
            Ghost(converts),
        );
        let cursor = schedule_step(
            x1,
            cursor,
            timeline,
            Ghost(before),
            Ghost(start_time as nat),
            Ghost(durs),
            Ghost(names),
            Ghost(1int),
            Ghost(converts),
        );
        let cursor = schedule_step(
            x2,
            cursor,
            timeline,
            Ghost(before),
            Ghost(start_time as nat),
            Ghost(durs),
            Ghost(names),
            Ghost(2int),
            Ghost(converts),
        );
        let cursor = schedule_step(
            x3,
            cursor,
            timeline,
            Ghost(before),
            Ghost(start_time as nat),
            Ghost(durs),
            Ghost(names),
            Ghost(3int),
            Ghost(converts),
        );
        let cursor = schedule_step(
            x4,
            cursor,
            timeline,
            Ghost(before),
            Ghost(start_time as nat),
            Ghost(durs),
            Ghost(names),
            Ghost(4int),
            Ghost(converts),
        );
        let cursor = schedule_step(
            x5,
            cursor,
            timeline,
            Ghost(before),
            Ghost(start_time as nat),
            Ghost(durs),
            Ghost(names),
            Ghost(5int),
            Ghost(converts),
        );
        proof {
            assert(durs.take(6) =~= durs);
            assert(names.take(6) =~= names);
            assert(converts(0, appended(before, *timeline)[0]));
            assert(converts(1, appended(before, *timeline)[1]));
            assert(converts(2, appended(before, *timeline)[2]));
            assert(converts(3, appended(before, *timeline)[3]));
            assert(converts(4, appended(before, *timeline)[4]));
            assert(converts(5, appended(before, *timeline)[5]));
        }
        cursor
    }
}

impl<K: TimelineTrack, A: IntoSeqItem<K>, B: IntoSeqItem<K>, C: IntoSeqItem<K>, D: IntoSeqItem<K>, E: IntoSeqItem<K>, F: IntoSeqItem<K>, G: IntoSeqItem<K>> IntoSeqGroup<K> for (A, B, C, D, E, F, G) {
    open spec fn spec_group_valid(&self) -> bool {
        self.0.spec_item_valid()
        && self.1.spec_item_valid()
        && self.2.spec_item_valid()
        && self.3.spec_item_valid()
        && self.4.spec_item_valid()
        && self.5.spec_item_valid()
        && self.6.spec_item_valid()
    }

    open spec fn spec_group_durations(&self) -> Seq<nat> {
        seq![
            self.0.spec_item_duration(),
            self.1.spec_item_duration(),
            self.2.spec_item_duration(),
            self.3.spec_item_duration(),
            self.4.spec_item_duration(),
            self.5.spec_item_duration(),
            self.6.spec_item_duration(),
        ]
    }

    open spec fn spec_group_names(&self) -> Seq<Option<Seq<char>>> {
        seq![
            self.0.spec_item_name(),
            self.1.spec_item_name(),
            self.2.spec_item_name(),
            self.3.spec_item_name(),
            self.4.spec_item_name(),
            self.5.spec_item_name(),
            self.6.spec_item_name(),
        ]
    }

    open spec fn spec_are_tracks_of(&self, start: nat, tracks: Seq<K>) -> bool {
        &&& tracks.len() == 7
        &&& self.0.spec_is_track_of((start + sum_prefix(self.spec_group_durations(), 0)) as u128, tracks[0])
        &&& self.1.spec_is_track_of((start + sum_prefix(self.spec_group_durations(), 1)) as u128, tracks[1])
        &&& self.2.spec_is_track_of((start + sum_prefix(self.spec_group_durations(), 2)) as u128, tracks[2])
        &&& self.3.spec_is_track_of((start + sum_prefix(self.spec_group_durations(), 3)) as u128, tracks[3])
        &&& self.4.spec_is_track_of((start + sum_prefix(self.spec_group_durations(), 4)) as u128, tracks[4])
        &&& self.5.spec_is_track_of((start + sum_prefix(self.spec_group_durations(), 5)) as u128, tracks[5])
        &&& self.6.spec_is_track_of((start + sum_prefix(self.spec_group_durations(), 6)) as u128, tracks[6])
    }

    fn add_to_timeline(self, start_time: u128, timeline: &mut MasterTimeline<K>) -> (r: u128) {
        let ghost durs = self.spec_group_durations();
        let ghost names = self.spec_group_names();
        let ghost before = *timeline;
        let ghost group = self;
        let ghost offset = |k: int| (start_time + sum_prefix(durs, k)) as u128;
        let ghost converts = |j: int, t: K| if j == 0 {
                group.0.spec_is_track_of(offset(0), t)
            } else if j == 1 {
                group.1.spec_is_track_of(offset(1), t)
            } else if j == 2 {
                group.2.spec_is_track_of(offset(2), t)
            } else if j == 3 {
                group.3.spec_is_track_of(offset(3), t)
            } else if j == 4 {
                group.4.spec_is_track_of(offset(4), t)
            } else if j == 5 {
                group.5.spec_is_track_of(offset(5), t)
            } else {
                group.6.spec_is_track_of(offset(6), t)
            };
        let (x0, x1, x2, x3, x4, x5, x6) = self;
        proof {
            assert(durs.take(0) =~= Seq::<nat>::empty());
            assert(names.take(0) =~= Seq::<Option<Seq<char>>>::empty());
            assert(timeline.spec_tracks() =~= before.spec_tracks() + Seq::<K>::empty());
        }
        let cursor = start_time;
        let cursor = schedule_step(
            x0,
            cursor,
            timeline,
            Ghost(before),
            Ghost(start_time as nat),
            Ghost(durs),
            Ghost(names),
            Ghost(0int),
            Ghost(converts),
        );
        let cursor = schedule_step(
            x1,
            cursor,
            timeline,
            Ghost(before),
            Ghost(start_time as nat),
            Ghost(durs),
            Ghost(names),
            Ghost(1int),
            Ghost(converts),
        );
        let cursor = schedule_step(
            x2,
            cursor,
            timeline,
            Ghost(before),
            Ghost(start_time as nat),
            Ghost(durs),
            Ghost(names),
            Ghost(2int),
            Ghost(converts),
        );
        let cursor = schedule_step(
            x3,
            cursor,
            timeline,
            Ghost(before),
            Ghost(start_time as nat),
            Ghost(durs),
            Ghost(names),
            Ghost(3int),
            Ghost(converts),
        );
        let cursor = schedule_step(
            x4,
            cursor,
            timeline,
            Ghost(before),
            Ghost(start_time as nat),
            Ghost(durs),
            Ghost(names),
            Ghost(4int),
            Ghost(converts),
        );
        let cursor = schedule_step(
            x5,
            cursor,
            timeline,
            Ghost(before),
            Ghost(start_time as nat),
            Ghost(durs),
            Ghost(names),
            Ghost(5int),
            Ghost(converts),
        );
        let cursor = schedule_step(
            x6,
            cursor,
            timeline,
            Ghost(before),
            Ghost(start_time as nat),
            Ghost(durs),
            Ghost(names),
            Ghost(6int),
            Ghost(converts),
        );
        proof {
            assert(durs.take(7) =~= durs);
            assert(names.take(7) =~= names);
            assert(converts(0, appended(before, *timeline)[0]));
            assert(converts(1, appended(before, *timeline)[1]));
            assert(converts(2, appended(before, *timeline)[2]));
            assert(converts(3, appended(before, *timeline)[3]));
            assert(converts(4, appended(before, *timeline)[4]));
            assert(converts(5, appended(before, *timeline)[5]));
            assert(converts(6, appended(before, *timeline)[6]));
        }
        cursor
    }
}

impl<K: TimelineTrack, A: IntoSeqItem<K>, B: IntoSeqItem<K>, C: IntoSeqItem<K>, D: IntoSeqItem<K>, E: IntoSeqItem<K>, F: IntoSeqItem<K>, G: IntoSeqItem<K>, H: IntoSeqItem<K>> IntoSeqGroup<K> for (A, B, C, D, E, F, G, H) {
    open spec fn spec_group_valid(&self) -> bool {
        self.0.spec_item_valid()
        && self.1.spec_item_valid()
        && self.2.spec_item_valid()
        && self.3.spec_item_valid()
        && self.4.spec_item_valid()
        && self.5.spec_item_valid()
        && self.6.spec_item_valid()
        && self.7.spec_item_valid()
    }

    open spec fn spec_group_durations(&self) -> Seq<nat> {
        seq![
            self.0.spec_item_duration(),
            self.1.spec_item_duration(),
            self.2.spec_item_duration(),
            self.3.spec_item_duration(),
            self.4.spec_item_duration(),
            self.5.spec_item_duration(),
            self.6.spec_item_duration(),
            self.7.spec_item_duration(),
        ]
    }

    open spec fn spec_group_names(&self) -> Seq<Option<Seq<char>>> {
        seq![
            self.0.spec_item_name(),
            self.1.spec_item_name(),
            self.2.spec_item_name(),
            self.3.spec_item_name(),
            self.4.spec_item_name(),
            self.5.spec_item_name(),
            self.6.spec_item_name(),
            self.7.spec_item_name(),
        ]
    }

    open spec fn spec_are_tracks_of(&self, start: nat, tracks: Seq<K>) -> bool {
        &&& tracks.len() == 8
        &&& self.0.spec_is_track_of((start + sum_prefix(self.spec_group_durations(), 0)) as u128, tracks[0])
        &&& self.1.spec_is_track_of((start + sum_prefix(self.spec_group_durations(), 1)) as u128, tracks[1])
        &&& self.2.spec_is_track_of((start + sum_prefix(self.spec_group_durations(), 2)) as u128, tracks[2])
        &&& self.3.spec_is_track_of((start + sum_prefix(self.spec_group_durations(), 3)) as u128, tracks[3])
        &&& self.4.spec_is_track_of((start + sum_prefix(self.spec_group_durations(), 4)) as u128, tracks[4])
        &&& self.5.spec_is_track_of((start + sum_prefix(self.spec_group_durations(), 5)) as u128, tracks[5])
        &&& self.6.spec_is_track_of((start + sum_prefix(self.spec_group_durations(), 6)) as u128, tracks[6])
        &&& self.7.spec_is_track_of((start + sum_prefix(self.spec_group_durations(), 7)) as u128, tracks[7])
    }

    fn add_to_timeline(self, start_time: u128, timeline: &mut MasterTimeline<K>) -> (r: u128) {
        let ghost durs = self.spec_group_durations();
        let ghost names = self.spec_group_names();
        let ghost before = *timeline;
        let ghost group = self;
        let ghost offset = |k: int| (start_time + sum_prefix(durs, k)) as u128;
        let ghost converts = |j: int, t: K| if j == 0 {
                group.0.spec_is_track_of(offset(0), t)
            } else if j == 1 {
                group.1.spec_is_track_of(offset(1), t)
            } else if j == 2 {
                group.2.spec_is_track_of(offset(2), t)
            } else if j == 3 {
                group.3.spec_is_track_of(offset(3), t)
            } else if j == 4 {
                group.4.spec_is_track_of(offset(4), t)
            } else if j == 5 {
                group.5.spec_is_track_of(offset(5), t)
            } else if j == 6 {
                group.6.spec_is_track_of(offset(6), t)
            } else {
                group.7.spec_is_track_of(offset(7), t)
            };
        let (x0, x1, x2, x3, x4, x5, x6, x7) = self;
        proof {
            assert(durs.take(0) =~= Seq::<nat>::empty());
            assert(names.take(0) =~= Seq::<Option<Seq<char>>>::empty());
            assert(timeline.spec_tracks() =~= before.spec_tracks() + Seq::<K>::empty());
        }
        let cursor = start_time;
        let cursor = schedule_step(
            x0,
            cursor,
            timeline,
            Ghost(before),
            Ghost(start_time as nat),
            Ghost(durs),
            Ghost(names),
            Ghost(0int),
            Ghost(converts),
        );
        let cursor = schedule_step(
            x1,
            cursor,
            timeline,
            Ghost(before),
            Ghost(start_time as nat),
            Ghost(durs),
            Ghost(names),
            Ghost(1int),
            Ghost(converts),
        );
        let cursor = schedule_step(
            x2,
            cursor,
            timeline,
            Ghost(before),
            Ghost(start_time as nat),
            Ghost(durs),
            Ghost(names),
            Ghost(2int),
            Ghost(converts),
        );
        let cursor = schedule_step(
            x3,
            cursor,
            timeline,
            Ghost(before),
            Ghost(start_time as nat),
            Ghost(durs),
            Ghost(names),
            Ghost(3int),
            Ghost(converts),
        );
        let cursor = schedule_step(
            x4,
            cursor,
            timeline,
            Ghost(before),
            Ghost(start_time as nat),
            Ghost(durs),
            Ghost(names),
            Ghost(4int),
            Ghost(converts),
        );
        let cursor = schedule_step(
            x5,
            cursor,
            timeline,
            Ghost(before),
            Ghost(start_time as nat),
            Ghost(durs),
            Ghost(names),
            Ghost(5int),
            Ghost(converts),
        );
        let cursor = schedule_step(
            x6,
            cursor,
            timeline,
            Ghost(before),
            Ghost(start_time as nat),
            Ghost(durs),
            Ghost(names),
            Ghost(6int),
            Ghost(converts),
        );
        let cursor = schedule_step(
            x7,
            cursor,
            timeline,
            Ghost(before),
            Ghost(start_time as nat),
            Ghost(durs),
            Ghost(names),
            Ghost(7int),
            Ghost(converts),
        );
        proof {
            assert(durs.take(8) =~= durs);
            assert(names.take(8) =~= names);
            assert(converts(0, appended(before, *timeline)[0]));
            assert(converts(1, appended(before, *timeline)[1]));
            assert(converts(2, appended(before, *timeline)[2]));
            assert(converts(3, appended(before, *timeline)[3]));
            assert(converts(4, appended(before, *timeline)[4]));
            assert(converts(5, appended(before, *timeline)[5]));
            assert(converts(6, appended(before, *timeline)[6]));
            assert(converts(7, appended(before, *timeline)[7]));
        }
        cursor
    }
}

} // verus!
