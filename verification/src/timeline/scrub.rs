use vstd::prelude::*;

verus! {

/// The scrubber's pointer gesture: whether the rail is being dragged, and
/// whether the timeline was playing when the drag began.
#[derive(Clone, Copy, Debug)]
pub struct ScrubGesture {
    pub is_scrubbing: bool,
    pub was_playing_before_scrub: bool,
}

impl ScrubGesture {
    /// The gesture after the pointer presses the rail while the timeline's
    /// play state is `playing`.
    pub open spec fn spec_grab(self, playing: bool) -> ScrubGesture {
        ScrubGesture { is_scrubbing: true, was_playing_before_scrub: playing }
    }

    /// The gesture after the pointer is released, and whether playback resumes.
    pub open spec fn spec_release(self) -> (ScrubGesture, bool) {
        (
            ScrubGesture { is_scrubbing: false, was_playing_before_scrub: self.was_playing_before_scrub },
            self.is_scrubbing && self.was_playing_before_scrub,
        )
    }

    /// No drag in progress.
    pub fn new() -> (r: Self)
        ensures
            !r.is_scrubbing,
            !r.was_playing_before_scrub,
    {
        ScrubGesture { is_scrubbing: false, was_playing_before_scrub: false }
    }

    /// The pointer pressed the rail while the timeline's play state was
    /// `playing`: a drag begins and remembers that state. The caller pauses
    /// the timeline and seeks to the pointer.
    pub fn grab(&mut self, playing: bool)
        ensures
            *final(self) == old(self).spec_grab(playing),
    {
        self.was_playing_before_scrub = playing;
        self.is_scrubbing = true;
    }

    /// The pointer moved: returns whether the caller seeks to it, which it
    /// does only during a drag.
    pub fn drag(&self) -> (r: bool)
        ensures
            r == self.is_scrubbing,
    {
        self.is_scrubbing
    }

    /// The pointer was released: ends any drag and returns whether the
    /// caller resumes playback, which it does only when a drag ends that
    /// began while the timeline was playing.
    pub fn release(&mut self) -> (r: bool)
        ensures
            (*final(self), r) == old(self).spec_release(),
    {
        let resume = self.is_scrubbing && self.was_playing_before_scrub;
        self.is_scrubbing = false;
        resume
    }
}

/// A drag restores the play state it found: after grabbing while `playing`,
/// releasing resumes playback exactly when `playing`, whatever the gesture
/// was before, and leaves no drag in progress.
pub proof fn lemma_release_restores_play_state(g: ScrubGesture, playing: bool)
    ensures
        g.spec_grab(playing).spec_release().1 == playing,
        !g.spec_grab(playing).spec_release().0.is_scrubbing,
{
}

/// Releasing without a drag in progress never resumes playback.
pub proof fn lemma_release_without_drag_keeps_paused(g: ScrubGesture)
    requires
        !g.is_scrubbing,
    ensures
        !g.spec_release().1,
        g.spec_release().0 == g,
{
}

} // verus!
