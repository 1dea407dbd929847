use gpui_animotion::{tween, AnimationSegment, Interpolate, LoopMode, Prop, Segment, Track, TweenSegment};

const SEC: u128 = 1_000_000_000;

#[derive(Clone, Debug, PartialEq)]
struct Val(f64);

impl Interpolate for Val {
    fn interpolate(&self, other: &Self, num: u128, den: u128) -> Self {
        Val(self.0 + (other.0 - self.0) * (num as f64) / (den as f64))
    }
}

fn close(a: &Val, b: f64) -> bool {
    (a.0 - b).abs() < 1e-9
}

#[test]
fn empty_track_samples_initial() {
    let t: Track<Val> = Track::new(Val(3.0));
    assert_eq!(t.sample(0), Val(3.0));
    assert_eq!(t.sample(5 * SEC), Val(3.0));
    assert_eq!(t.sample_state(7), (Val(3.0), Val(3.0)));
    assert_eq!(t.total_duration(), 0);
    assert_eq!(t.current_end_value(), Val(3.0));
    assert_eq!(t.loop_mode, LoopMode::LoopForever);
}

#[test]
fn tween_samples_linearly() {
    let t = tween(Val(0.0), Val(100.0), SEC);
    assert_eq!(t.total_duration(), SEC);
    assert!(close(&t.sample(0), 0.0));
    assert!(close(&t.sample(SEC / 2), 50.0));
    assert!(close(&t.sample(SEC / 4), 25.0));
}

#[test]
fn looping_track_wraps_around() {
    let t = tween(Val(0.0), Val(100.0), SEC);
    assert!(close(&t.sample(SEC + SEC / 4), 25.0));
    assert!(close(&t.sample(3 * SEC + SEC / 2), 50.0));
    // exactly one full pass maps back to the start
    assert!(close(&t.sample(SEC), 0.0));
}

#[test]
fn once_track_holds_end_value() {
    let mut t = tween(Val(0.0), Val(100.0), SEC);
    t.loop_mode = LoopMode::Once;
    assert!(close(&t.sample(SEC), 100.0));
    assert!(close(&t.sample(10 * SEC), 100.0));
    assert!(close(&t.sample(SEC / 2), 50.0));
}

#[test]
fn chained_tweens_run_back_to_back() {
    let t = tween(Val(0.0), Val(100.0), SEC).tween(Val(50.0), 2 * SEC);
    assert_eq!(t.segments.len(), 2);
    assert_eq!(t.total_duration(), 3 * SEC);
    assert_eq!(t.current_end_value(), Val(50.0));
    assert!(close(&t.sample(SEC / 2), 50.0));
    // second segment starts where the first ended
    assert!(close(&t.sample(SEC), 100.0));
    assert!(close(&t.sample(2 * SEC), 75.0));
}

#[test]
fn zero_length_tween_is_at_target() {
    let seg = TweenSegment { start: Val(1.0), target: Val(9.0), duration: 0 };
    assert_eq!(seg.evaluate(0), Val(9.0));
    assert_eq!(seg.evaluate(5), Val(9.0));
    assert_eq!(seg.end_value(), Val(9.0));
}

#[test]
fn tween_segment_clamps_progress() {
    let seg = TweenSegment { start: Val(0.0), target: Val(10.0), duration: 100 };
    assert!(close(&seg.evaluate(50), 5.0));
    assert!(close(&seg.evaluate(100), 10.0));
    assert!(close(&seg.evaluate(1000), 10.0));
    assert_eq!(seg.velocity(30), Val(10.0));
    assert_eq!(seg.duration(), 100);
}

#[test]
fn sample_state_reports_velocity() {
    let mut t = tween(Val(0.0), Val(100.0), SEC);
    t.loop_mode = LoopMode::Once;
    let (pos, vel) = t.sample_state(SEC / 2);
    assert!(close(&pos, 50.0));
    assert_eq!(vel, Val(100.0));
    let (pos, vel) = t.sample_state(2 * SEC);
    assert_eq!(pos, Val(100.0));
    assert_eq!(vel, Val(100.0));
}

#[test]
fn custom_segments_mix_with_tweens() {
    let mut t = tween(Val(0.0), Val(10.0), SEC);
    let hold: Box<dyn AnimationSegment<Val>> =
        Box::new(TweenSegment { start: Val(42.0), target: Val(42.0), duration: SEC });
    t.segments.push(Segment::Custom(hold));
    assert_eq!(t.total_duration(), 2 * SEC);
    assert_eq!(t.sample(SEC + SEC / 2), Val(42.0));
    assert_eq!(t.current_end_value(), Val(42.0));
    let t = t.tween(Val(0.0), SEC);
    assert!(close(&t.sample(2 * SEC + SEC / 2), 21.0));
}

#[test]
fn all_zero_segments_fall_back_to_end_value() {
    let t = tween(Val(0.0), Val(5.0), 0);
    assert_eq!(t.total_duration(), 0);
    assert_eq!(t.sample(123), Val(5.0));
}

#[test]
fn prop_caches_sampled_value() {
    let mut p = Prop::new(Val(0.0));
    assert_eq!(p.get(), Val(0.0));
    p.tween(Val(100.0), SEC);
    assert_eq!(p.get(), Val(0.0));
    p.update(SEC / 2);
    assert!(close(&p.get(), 50.0));
    p.tween(Val(0.0), SEC);
    assert_eq!(p.track.total_duration(), 2 * SEC);
    p.update(SEC + SEC / 2);
    assert!(close(&p.get(), 50.0));
}

#[test]
fn prop_tweens_chain() {
    let mut p = Prop::new(Val(0.0));
    p.tween(Val(10.0), SEC).tween(Val(30.0), SEC);
    assert_eq!(p.track.segments.len(), 2);
    p.update(SEC + SEC / 2);
    assert!(close(&p.get(), 20.0));
}

#[test]
fn prop_from_track_starts_at_initial() {
    let p = Prop::from_track(tween(Val(7.0), Val(8.0), SEC));
    assert_eq!(p.get(), Val(7.0));
    assert_eq!(p.track.segments.len(), 1);
}

#[test]
fn get_reads_initial_then_latest_sample() {
    let mut p = Prop::from_track(tween(Val(0.0), Val(10.0), SEC));
    assert_eq!(p.get(), Val(0.0));
    assert_eq!(p.get(), p.get());
    p.update(SEC / 4);
    assert!(close(&p.get(), 2.5));
    assert_eq!(p.get(), p.track.sample(SEC / 4));
    assert_eq!(p.get(), p.get());
}
