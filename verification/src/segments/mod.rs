pub mod tween;

pub use tween::TweenSegment;
