//! Verified core of a declarative animation engine: tracks of segments
//! sampled at any elapsed time under a loop policy, animated properties, and
//! a master timeline with cue points, sequencing, seeking and playback.
//!
//! All times are nanoseconds (`u128`).

pub mod interpolate;
pub mod loop_mode;
pub mod property;
pub mod segment;
pub mod segments;
pub mod timeline;
pub mod track;

pub use interpolate::{Animatable, Interpolate};
pub use loop_mode::LoopMode;
pub use property::Prop;
pub use segment::{AnimationSegment, Segment};
pub use segments::TweenSegment;
pub use timeline::{format_timecode, BoundTrack, IntoSeqGroup, IntoSeqItem, MasterTimeline, ScheduledTrack, ScrubGesture, TimelineTrack};
pub use track::{tween, Track};
