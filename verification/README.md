# gpui_animotion

A declarative animation engine for GPUI whose timing core is verified with Verus.

## Layout

- `src/` — the verified library. Times are nanoseconds (`u128`).
  - `loop_mode.rs`: playback policies (`Once`, `LoopForever`, `Count(n)`,
    `PingPong`, `PingPongCount(n)`) mapping elapsed time into one pass, with
    their laws (periodicity, mirroring, resting points).
  - `segment.rs`, `segments/tween.rs`: the segment interface and the tween
    segment (exact fractional progress through `Interpolate`).
  - `track.rs`: tracks of back-to-back segments; sampling, state sampling,
    total duration, chaining.
  - `property.rs`: animated properties caching their latest sample.
  - `timeline/`: bound tracks, sequencing groups back-to-back, the master
    timeline (cues, seeking, advancing, transport), the scrubber's drag
    gesture, and the timecode readout.
- `tests/` — runtime tests of the library.
- `app/` — GPUI glue: floating-point values (`Scalar`), spring / gravity /
  flick trajectories sampled into tween segments, shared property handles,
  element bindings, the transport with its playback speed, and the scrubber
  widget.

## Scheduling and track types

A `MasterTimeline<K>` holds tracks of one type `K`. The builders `at`,
`at_named`, `after`, `after_named`, `seq`, `seq_at` and `seq_after` turn a
`Prop<T>` (alone, or paired with a name) into a `BoundTrack<T>`, so one
timeline built with them animates properties of one value type `T`. Their
contracts state exactly which tracks are appended: each is the item's
property, set to play once, bound at its computed start.

To put properties of different value types on one timeline, either give them
one value type (an enum of the app's value types that implements
`Interpolate`), or build a `MasterTimeline<Box<dyn TimelineTrack>>` and
register hand-boxed `BoundTrack`s with `add_track`. Through a
`Box<dyn TimelineTrack>` only the trait's contract is known: timing, name and
what the track shows after a seek, not which property it binds.

Groups are `Vec`s of items or tuples of up to eight items; fixed-size arrays
are not groups (write `vec![...]`).

A view reads a property that a shared timeline drives through the app's
`TimelineProp` handle, which reads the bound property's latest sample.

## Seeking keeps every track in place

`TimelineTrack` is the object-safe track interface (it can stand behind
`Box<dyn TimelineTrack>`). Seeking, advancing and restarting a
`MasterTimeline<K>` need `K: ScheduledTrack`, which adds a relation between a
track before and after a seek: for `BoundTrack` the same name, start and
property track; for a boxed track only its name and span, which is all a trait
object exposes. The timeline's contracts state it at every index
(`same_animations`), so the `i`-th track stays the `i`-th track.

Cue points are kept as a list of `(name, timestamp)` pairs with distinct
names: vstd's hash-map specifications hold only for key types that it states
obey its key model (the primitive integers, `bool` and boxes of
them), and `String` is not among them.
