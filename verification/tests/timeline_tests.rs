use gpui_animotion::{
    format_timecode, tween, AnimationSegment, BoundTrack, Interpolate, IntoSeqGroup, IntoSeqItem, LoopMode,
    MasterTimeline, Prop, ScheduledTrack, ScrubGesture, TimelineTrack, TweenSegment,
};

const SEC: u128 = 1_000_000_000;
const MS: u128 = 1_000_000;

#[derive(Clone, Debug, PartialEq)]
struct Val(f64);

impl Interpolate for Val {
    fn interpolate(&self, other: &Self, num: u128, den: u128) -> Self {
        Val(self.0 + (other.0 - self.0) * (num as f64) / (den as f64))
    }
}

fn ramp(from: f64, to: f64, nanos: u128) -> Prop<Val> {
    Prop::from_track(tween(Val(from), Val(to), nanos))
}

fn close(a: &Val, b: f64) -> bool {
    (a.0 - b).abs() < 1e-9
}

#[test]
fn bound_track_reports_offset_and_length() {
    let b = BoundTrack::new(Some("fade".to_string()), 2 * SEC, ramp(0.0, 1.0, SEC));
    assert_eq!(b.prop.track.loop_mode, LoopMode::Once);
    assert_eq!(b.duration(), 3 * SEC);
    assert_eq!(b.start_offset(), 2 * SEC);
    assert_eq!(b.name(), Some("fade"));
    let unnamed = BoundTrack::new(None, 0, ramp(0.0, 1.0, SEC));
    assert_eq!(unnamed.name(), None);
}

#[test]
fn bound_track_seek_clamps_to_its_span() {
    let mut b = BoundTrack::new(None, SEC, ramp(0.0, 10.0, SEC));
    b.seek(SEC / 2);
    assert!(close(&b.prop.get(), 0.0));
    b.seek(SEC + SEC / 2);
    assert!(close(&b.prop.get(), 5.0));
    b.seek(10 * SEC);
    assert!(close(&b.prop.get(), 10.0));
}

#[test]
fn new_timeline_is_empty_and_playing() {
    let tl: MasterTimeline<BoundTrack<Val>> = MasterTimeline::new();
    assert_eq!(tl.duration(), 0);
    assert_eq!(tl.playhead(), 0);
    assert!(tl.is_playing());
    assert_eq!(tl.track_count(), 0);
    let d: MasterTimeline<BoundTrack<Val>> = MasterTimeline::default();
    assert_eq!(d.duration(), 0);
}

#[test]
fn duration_is_latest_track_or_cue() {
    let tl = MasterTimeline::new()
        .at(0, ramp(0.0, 1.0, SEC))
        .at(2 * SEC, ramp(0.0, 1.0, SEC / 2));
    assert_eq!(tl.duration(), 2 * SEC + SEC / 2);
    let tl = tl.cue("late".to_string(), 7 * SEC);
    assert_eq!(tl.duration(), 7 * SEC);
    // moving the cue earlier shrinks the timeline again
    let tl = tl.cue("late".to_string(), SEC);
    assert_eq!(tl.duration(), 2 * SEC + SEC / 2);
}

#[test]
fn after_starts_at_cue_or_named_track_end() {
    let tl = MasterTimeline::new()
        .at_named("intro".to_string(), SEC, ramp(0.0, 1.0, 2 * SEC))
        .cue("beat".to_string(), 5 * SEC)
        .after("beat", ramp(0.0, 1.0, SEC))
        .after_named("outro".to_string(), "intro", ramp(0.0, 1.0, SEC))
        .after("missing", ramp(0.0, 1.0, SEC));
    assert_eq!(tl.track_count(), 4);
    assert_eq!(tl.track(1).start_offset(), 5 * SEC);
    assert_eq!(tl.track(2).start_offset(), 3 * SEC);
    assert_eq!(tl.track(2).name(), Some("outro"));
    assert_eq!(tl.track(3).start_offset(), 0);
    assert_eq!(tl.resolve_start_time("beat"), 5 * SEC);
    assert_eq!(tl.resolve_start_time("intro"), 3 * SEC);
    assert_eq!(tl.resolve_start_time("nothing"), 0);
}

#[test]
fn cue_takes_precedence_over_track_name() {
    let tl = MasterTimeline::new()
        .at_named("x".to_string(), 0, ramp(0.0, 1.0, SEC))
        .cue("x".to_string(), 4 * SEC);
    assert_eq!(tl.resolve_start_time("x"), 4 * SEC);
}

#[test]
fn seq_schedules_back_to_back_from_the_end() {
    let tl = MasterTimeline::new().at(0, ramp(0.0, 1.0, SEC));
    let tl = tl.seq(vec![ramp(0.0, 1.0, 2 * SEC), ramp(0.0, 1.0, 3 * SEC)]);
    assert_eq!(tl.track_count(), 3);
    assert_eq!(tl.track(1).start_offset(), SEC);
    assert_eq!(tl.track(1).duration(), 3 * SEC);
    assert_eq!(tl.track(2).start_offset(), 3 * SEC);
    assert_eq!(tl.duration(), 6 * SEC);
}

#[test]
fn seq_tuple_mixes_named_and_unnamed_items() {
    let tl = MasterTimeline::new().seq_at(
        SEC,
        (("a".to_string(), ramp(0.0, 1.0, SEC)), ramp(0.0, 1.0, SEC), ("c", ramp(0.0, 1.0, 2 * SEC))),
    );
    assert_eq!(tl.track_count(), 3);
    assert_eq!(tl.track(0).name(), Some("a"));
    assert_eq!(tl.track(1).name(), None);
    assert_eq!(tl.track(2).name(), Some("c"));
    assert_eq!(tl.track(2).start_offset(), 3 * SEC);
    assert_eq!(tl.duration(), 5 * SEC);
    let tl = tl.seq_after("a", vec![ramp(0.0, 1.0, SEC)]);
    assert_eq!(tl.track(3).start_offset(), 2 * SEC);
}

#[test]
fn free_seq_starts_at_zero() {
    let tl: MasterTimeline<BoundTrack<Val>> = gpui_animotion::timeline::master::seq(vec![ramp(0.0, 1.0, SEC), ramp(5.0, 6.0, SEC)]);
    assert_eq!(tl.track(0).start_offset(), 0);
    assert_eq!(tl.track(1).start_offset(), SEC);
    assert!(tl.is_playing());
}

#[test]
fn group_and_item_report_durations() {
    let p = ramp(0.0, 1.0, 3 * SEC);
    assert_eq!(IntoSeqItem::<BoundTrack<Val>>::item_duration(&p), 3 * SEC);
    let mut tl: MasterTimeline<BoundTrack<Val>> = MasterTimeline::new();
    let end = vec![ramp(0.0, 1.0, SEC), ramp(0.0, 1.0, SEC)].add_to_timeline(4 * SEC, &mut tl);
    assert_eq!(end, 6 * SEC);
}

#[test]
fn seek_maps_time_and_updates_tracks() {
    let mut tl = MasterTimeline::new()
        .at(0, ramp(0.0, 10.0, SEC))
        .at(SEC, ramp(100.0, 200.0, SEC));
    tl.seek(SEC / 2);
    assert_eq!(tl.playhead(), SEC / 2);
    assert!(close(&tl.track(0).prop.get(), 5.0));
    assert!(close(&tl.track(1).prop.get(), 100.0));
    // looping forever: 2.5 s on a 2 s timeline is 0.5 s
    tl.seek(2 * SEC + SEC / 2);
    assert_eq!(tl.playhead(), SEC / 2);
    let mut once = tl.play_once();
    once.seek(9 * SEC);
    assert_eq!(once.playhead(), 2 * SEC);
    assert!(close(&once.track(0).prop.get(), 10.0));
    assert!(close(&once.track(1).prop.get(), 200.0));
}

#[test]
fn advance_respects_pause_and_loops() {
    let mut tl = MasterTimeline::new().at(0, ramp(0.0, 10.0, SEC)).loop_forever();
    tl.advance(300 * MS, 300 * MS);
    assert_eq!(tl.playhead(), 300 * MS);
    tl.pause();
    tl.advance(300 * MS, 300 * MS);
    assert_eq!(tl.playhead(), 300 * MS);
    tl.toggle();
    assert!(tl.is_playing());
    tl.advance(0, 0);
    assert_eq!(tl.playhead(), 300 * MS);
    tl.advance(500 * MS, SEC);
    assert_eq!(tl.playhead(), 300 * MS);
    assert!(close(&tl.track(0).prop.get(), 3.0));
    tl.set_loop_mode(LoopMode::PingPong);
    tl.advance(SEC, SEC);
    assert_eq!(tl.playhead(), 700 * MS);
}

#[test]
fn seeking_keeps_the_timeline_length() {
    let mut tl = MasterTimeline::new()
        .at(0, ramp(0.0, 10.0, SEC))
        .at(SEC / 2, ramp(0.0, 10.0, 2 * SEC))
        .cue("mark".to_string(), SEC);
    let before = tl.duration();
    tl.seek(7 * SEC / 4);
    assert_eq!(tl.duration(), before);
    assert!(tl.playhead() <= tl.duration());
    tl.advance(SEC, SEC);
    assert_eq!(tl.duration(), before);
    tl.restart();
    assert_eq!(tl.duration(), before);
}

#[test]
fn add_track_chains() {
    let mut tl: MasterTimeline<BoundTrack<Val>> = MasterTimeline::new();
    tl.add_track(BoundTrack::new(None, 0, ramp(0.0, 1.0, SEC)))
        .add_track(BoundTrack::new(None, SEC, ramp(0.0, 1.0, SEC)));
    assert_eq!(tl.track_count(), 2);
    assert_eq!(tl.duration(), 2 * SEC);
}

#[test]
fn advance_on_empty_timeline_does_nothing() {
    let mut tl: MasterTimeline<BoundTrack<Val>> = MasterTimeline::new();
    tl.advance(SEC, SEC);
    assert_eq!(tl.playhead(), 0);
}

#[test]
fn restart_rewinds_and_plays() {
    let mut tl = MasterTimeline::new().at(0, ramp(0.0, 10.0, SEC));
    tl.seek(SEC / 2);
    tl.pause();
    tl.restart();
    assert_eq!(tl.playhead(), 0);
    assert!(tl.is_playing());
    assert!(close(&tl.track(0).prop.get(), 0.0));
    tl.play();
    assert!(tl.is_playing());
}

#[test]
fn loop_mode_builder_replaces_policy() {
    let mut tl = MasterTimeline::new().at(0, ramp(0.0, 10.0, SEC)).loop_mode(LoopMode::Count(1));
    tl.seek(3 * SEC);
    assert_eq!(tl.playhead(), SEC);
}

#[test]
fn dynamic_tracks_share_one_timeline() {
    let a: Box<dyn TimelineTrack> = Box::new(BoundTrack::new(None, 0, ramp(0.0, 1.0, SEC)));
    let b: Box<dyn TimelineTrack> = Box::new(BoundTrack::new(Some("b".to_string()), SEC, ramp(0.0, 1.0, SEC)));
    let mut tl: MasterTimeline<Box<dyn TimelineTrack>> = MasterTimeline::new();
    tl.add_track(a);
    tl.add_track(b);
    assert_eq!(tl.duration(), 2 * SEC);
    assert_eq!(tl.resolve_start_time("b"), 2 * SEC);
    tl.seek(SEC);
    assert_eq!(tl.playhead(), SEC);
}

#[test]
fn segment_box_delegates() {
    let s: Box<dyn AnimationSegment<Val>> = Box::new(TweenSegment { start: Val(0.0), target: Val(4.0), duration: 4 });
    assert_eq!(s.duration(), 4);
    assert!(close(&s.evaluate(1), 1.0));
}

#[test]
fn timecode_formats_minutes_seconds_centiseconds() {
    assert_eq!(format_timecode(0, 0), "00:00.00 / 00:00.00");
    assert_eq!(format_timecode(61_234 * MS, 120 * SEC), "01:01.23 / 02:00.00");
    assert_eq!(format_timecode(9_999_999, 3_599_990 * MS), "00:00.00 / 59:59.99");
    // minutes wrap at one hour
    assert_eq!(format_timecode(3_600 * SEC + 5 * SEC, 0), "00:05.00 / 00:00.00");
}

#[test]
fn scheduled_tracks_bind_the_given_properties() {
    let mut waiting = ramp(3.0, 4.0, SEC);
    waiting.update(SEC / 2);
    assert!(close(&waiting.get(), 3.5));
    let tl = MasterTimeline::new()
        .at(0, waiting)
        .seq((ramp(7.0, 8.0, SEC), ("b", ramp(1.0, 2.0, 2 * SEC))));
    assert_eq!(tl.track_count(), 3);
    // each property keeps its track, its cached value, and now plays once
    let first = &tl.track(0).prop;
    assert!(close(&first.track.initial, 3.0));
    assert!(close(&first.get(), 3.5));
    assert_eq!(first.track.loop_mode, LoopMode::Once);
    assert!(close(&tl.track(1).prop.track.initial, 7.0));
    assert!(close(&tl.track(1).prop.get(), 7.0));
    assert!(close(&tl.track(2).prop.track.current_end_value(), 2.0));
    assert_eq!(tl.track(2).name(), Some("b"));
}

#[test]
fn seeking_keeps_each_index_on_its_property() {
    let mut tl = MasterTimeline::new()
        .at(0, ramp(0.0, 1.0, SEC))
        .at(0, ramp(100.0, 200.0, SEC));
    tl.seek(SEC / 2);
    assert!(close(&tl.track(0).prop.get(), 0.5));
    assert!(close(&tl.track(1).prop.get(), 150.0));
    tl.pause();
    tl.play();
    tl.advance(SEC / 4, SEC / 4);
    assert!(close(&tl.track(0).prop.get(), 0.75));
    assert!(close(&tl.track(1).prop.get(), 175.0));
    tl.restart();
    assert!(close(&tl.track(0).prop.track.initial, 0.0));
    assert!(close(&tl.track(1).prop.track.initial, 100.0));
}

#[test]
fn bound_track_seek_to_keeps_its_property() {
    let mut b = BoundTrack::new(Some("x".to_string()), SEC, ramp(2.0, 4.0, SEC));
    b.seek_to(SEC + SEC / 2);
    assert!(close(&b.prop.get(), 3.0));
    assert_eq!(b.name, Some("x".to_string()));
    assert_eq!(b.start_offset, SEC);
    assert!(close(&b.prop.track.initial, 2.0));
}

#[test]
fn scrub_gesture_restores_play_state() {
    let mut g = ScrubGesture::new();
    assert!(!g.drag());
    assert!(!g.release());
    g.grab(true);
    assert!(g.drag());
    assert!(g.release());
    assert!(!g.drag());
    g.grab(false);
    assert!(g.drag());
    assert!(!g.release());
    // a second release without a drag does not resume
    g.grab(true);
    assert!(g.release());
    assert!(!g.release());
}

#[test]
fn paused_advance_ignores_the_step() {
    let mut tl = MasterTimeline::new().at(0, ramp(0.0, 1.0, SEC));
    tl.seek(SEC / 2);
    tl.pause();
    tl.advance(SEC, u128::MAX);
    assert_eq!(tl.playhead(), SEC / 2);
}
