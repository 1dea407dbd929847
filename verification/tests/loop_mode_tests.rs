use gpui_animotion::LoopMode;

#[test]
fn zero_length_clip_maps_to_zero() {
    for mode in [
        LoopMode::Once,
        LoopMode::LoopForever,
        LoopMode::Count(3),
        LoopMode::PingPong,
        LoopMode::PingPongCount(2),
    ] {
        assert_eq!(mode.map_time(17, 0), 0);
    }
}

#[test]
fn once_clamps_to_end() {
    assert_eq!(LoopMode::Once.map_time(40, 100), 40);
    assert_eq!(LoopMode::Once.map_time(100, 100), 100);
    assert_eq!(LoopMode::Once.map_time(250, 100), 100);
}

#[test]
fn loop_forever_wraps_modulo() {
    assert_eq!(LoopMode::LoopForever.map_time(40, 100), 40);
    assert_eq!(LoopMode::LoopForever.map_time(100, 100), 0);
    assert_eq!(LoopMode::LoopForever.map_time(250, 100), 50);
    assert_eq!(LoopMode::LoopForever.map_time(140, 100), LoopMode::LoopForever.map_time(40, 100));
}

#[test]
fn count_repeats_then_freezes() {
    let m = LoopMode::Count(2);
    assert_eq!(m.map_time(30, 100), 30);
    assert_eq!(m.map_time(130, 100), 30);
    assert_eq!(m.map_time(199, 100), 99);
    assert_eq!(m.map_time(200, 100), 100);
    assert_eq!(m.map_time(1000, 100), 100);
    assert_eq!(LoopMode::Count(0).map_time(5, 100), 100);
}

#[test]
fn ping_pong_alternates_direction() {
    let m = LoopMode::PingPong;
    assert_eq!(m.map_time(30, 100), 30);
    assert_eq!(m.map_time(100, 100), 100);
    assert_eq!(m.map_time(130, 100), 70);
    assert_eq!(m.map_time(200, 100), 0);
    assert_eq!(m.map_time(230, 100), 30);
    // the backward pass mirrors the forward pass
    for s in 0..=100u128 {
        assert_eq!(m.map_time(100 + s, 100), 100 - s);
    }
    // period of two passes
    assert_eq!(m.map_time(57 + 200, 100), m.map_time(57, 100));
}

#[test]
fn ping_pong_count_rests_after_half_cycles() {
    let odd = LoopMode::PingPongCount(3);
    assert_eq!(odd.map_time(50, 100), 50);
    assert_eq!(odd.map_time(150, 100), 50);
    assert_eq!(odd.map_time(250, 100), 50);
    assert_eq!(odd.map_time(300, 100), 100);
    assert_eq!(odd.map_time(999, 100), 100);
    let even = LoopMode::PingPongCount(2);
    assert_eq!(even.map_time(150, 100), 50);
    assert_eq!(even.map_time(200, 100), 0);
    assert_eq!(even.map_time(999, 100), 0);
    assert_eq!(LoopMode::PingPongCount(0).map_time(10, 100), 0);
}

#[test]
fn first_pass_plays_forward_in_every_mode() {
    for mode in [
        LoopMode::Once,
        LoopMode::LoopForever,
        LoopMode::Count(1),
        LoopMode::PingPong,
        LoopMode::PingPongCount(1),
    ] {
        for t in 0..100u128 {
            assert_eq!(mode.map_time(t, 100), t);
        }
    }
}

#[test]
fn mapped_time_never_leaves_the_clip() {
    for mode in [
        LoopMode::Once,
        LoopMode::LoopForever,
        LoopMode::Count(2),
        LoopMode::PingPong,
        LoopMode::PingPongCount(5),
    ] {
        for t in 0..1000u128 {
            assert!(mode.map_time(t, 37) <= 37);
        }
    }
}
