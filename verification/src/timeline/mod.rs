pub mod cues;
pub mod master;
pub mod scrub;
pub mod sequence;
pub mod timecode;
pub mod track_binding;

pub use master::MasterTimeline;
pub use sequence::{IntoSeqGroup, IntoSeqItem};
pub use scrub::ScrubGesture;
pub use timecode::format_timecode;
pub use track_binding::{BoundTrack, ScheduledTrack, TimelineTrack};
