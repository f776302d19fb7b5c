//! The blinking of a text cursor, as a state machine: each step that
//! toggles the cursor names the epoch of the next step, and the caller
//! schedules that step after `BLINK_INTERVAL_MS`. A step whose epoch is no
//! longer current does nothing, so pausing or stopping cancels what was
//! scheduled before.

use vstd::prelude::*;

verus! {

/// Milliseconds between two blinks.
pub const BLINK_INTERVAL_MS: u64 = 500;

/// Milliseconds after a pause before blinking resumes.
pub const PAUSE_DELAY_MS: u64 = 300;

/// What a blink cursor holds.
pub ghost struct BlinkView {
    pub visible: bool,
    pub paused: bool,
    pub epoch: usize,
}

pub struct BlinkCursor {
    visible: bool,
    paused: bool,
    epoch: usize,
}

impl View for BlinkCursor {
    type V = BlinkView;

    closed spec fn view(&self) -> BlinkView {
        BlinkView { visible: self.visible, paused: self.paused, epoch: self.epoch }
    }
}

impl BlinkView {
    /// Whether a blink step for `epoch` toggles the cursor: only the current
    /// epoch does, and only while not paused.
    pub open spec fn fires(self, epoch: usize) -> bool {
        !self.paused && epoch == self.epoch
    }

    /// The cursor after a blink step for `epoch`: toggled and one epoch on
    /// where the step fires, unchanged otherwise.
    pub open spec fn blinked(self, epoch: usize) -> BlinkView {
        if self.fires(epoch) {
            BlinkView { visible: !self.visible, epoch: (self.epoch + 1) as usize, ..self }
        } else {
            self
        }
    }
}

impl BlinkCursor {
    /// A hidden, running cursor at epoch 0.
    pub fn new() -> (r: Self)
        ensures
            r@ == (BlinkView { visible: false, paused: false, epoch: 0 }),
    {
        BlinkCursor { visible: false, paused: false, epoch: 0 }
    }

    /// Starts blinking at the current epoch. Returns the epoch of the next
    /// step to schedule, if the cursor blinked.
    pub fn start(&mut self) -> (next: Option<usize>)
        requires
            old(self)@.epoch < usize::MAX,
        ensures
            final(self)@ == old(self)@.blinked(old(self)@.epoch),
            next == if old(self)@.fires(old(self)@.epoch) { Some(final(self)@.epoch) } else { None },
    {
        let epoch = self.epoch;
        self.blink(epoch)
    }

    /// Stops blinking: every scheduled step becomes stale.
    pub fn stop(&mut self)
        ensures
            final(self)@ == (BlinkView { epoch: 0, ..old(self)@ }),
    {
        self.epoch = 0;
    }

    /// Moves to the next epoch and returns it.
    pub fn next_epoch(&mut self) -> (r: usize)
        requires
            old(self)@.epoch < usize::MAX,
        ensures
            final(self)@ == (BlinkView { epoch: (old(self)@.epoch + 1) as usize, ..old(self)@ }),
            r == final(self)@.epoch,
    {
        self.epoch = self.epoch + 1;
        self.epoch
    }

    /// A blink step for `epoch`: where it fires, the cursor toggles and the
    /// epoch of the next step is returned.
    pub fn blink(&mut self, epoch: usize) -> (next: Option<usize>)
        requires
            old(self)@.epoch < usize::MAX,
        ensures
            final(self)@ == old(self)@.blinked(epoch),
            next == if old(self)@.fires(epoch) { Some(final(self)@.epoch) } else { None },
    {
        if self.paused || epoch != self.epoch {
            return None;
        }
        self.visible = !self.visible;
        Some(self.next_epoch())
    }

    /// Whether the cursor is drawn: always while paused.
    pub fn visible(&self) -> (r: bool)
        ensures
            r == (self@.paused || self@.visible),
    {
        self.paused || self.visible
    }

    /// Pauses blinking and moves to the next epoch, which is returned: the
    /// caller resumes with it after `PAUSE_DELAY_MS`.
    pub fn pause(&mut self) -> (resume_epoch: usize)
        requires
            old(self)@.epoch < usize::MAX,
        ensures
            final(self)@ == (BlinkView { paused: true, epoch: (old(self)@.epoch + 1) as usize, ..old(self)@ }),
            resume_epoch == final(self)@.epoch,
    {
        self.paused = true;
        self.next_epoch()
    }

    /// Ends a pause and takes the blink step for `epoch`.
    pub fn resume(&mut self, epoch: usize) -> (next: Option<usize>)
        requires
            old(self)@.epoch < usize::MAX,
        ensures
            final(self)@ == (BlinkView { paused: false, ..old(self)@ }).blinked(epoch),
            next == if (BlinkView { paused: false, ..old(self)@ }).fires(epoch) {
                Some(final(self)@.epoch)
            } else {
                None
            },
    {
        self.paused = false;
        self.blink(epoch)
    }
}

/// A step scheduled before a pause or a stop does nothing: its epoch is
/// stale afterwards.
pub proof fn lemma_stale_step_ignored(c: BlinkView, scheduled: usize)
    requires
        scheduled <= c.epoch,
        c.epoch < usize::MAX,
    ensures
        (BlinkView { paused: true, epoch: (c.epoch + 1) as usize, ..c }).blinked(scheduled)
            == (BlinkView { paused: true, epoch: (c.epoch + 1) as usize, ..c }),
        scheduled > 0 ==> (BlinkView { epoch: 0, ..c }).blinked(scheduled) == (BlinkView { epoch: 0, ..c }),
{
}

/// While paused the cursor stays visible, whatever steps arrive.
pub proof fn lemma_paused_visible(c: BlinkView, epoch: usize)
    requires
        c.paused,
    ensures
        c.blinked(epoch) == c,
{
}

} // verus!
