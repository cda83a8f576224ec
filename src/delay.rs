//! The decisions of a delayed task: it runs once its delay has elapsed,
//! unless it was cancelled first.
use vstd::prelude::*;

verus! {

/// What a delayed task has seen so far.
#[derive(Clone, Copy, PartialEq, Eq, Debug)]
pub struct DelayedTask {
    cancelled: bool,
    finished: bool,
}

impl DelayedTask {
    /// Whether the task was cancelled.
    pub closed spec fn spec_cancelled(&self) -> bool {
        self.cancelled
    }

    /// Whether the delay elapsed, or the task was cancelled, already.
    pub closed spec fn spec_finished(&self) -> bool {
        self.finished
    }

    /// A task whose delay has just started.
    pub fn schedule() -> (r: Self)
        ensures
            !r.spec_cancelled(),
            !r.spec_finished(),
    {
        DelayedTask { cancelled: false, finished: false }
    }

    /// Cancels the task. Returns whether the timer is to be told, which is
    /// the case the first time only.
    pub fn cancel(&mut self) -> (r: bool)
        ensures
            final(self).spec_cancelled(),
            r == !old(self).spec_cancelled(),
            final(self).spec_finished() == (old(self).spec_finished() || r),
    {
        if self.cancelled {
            return false;
        }
        self.cancelled = true;
        self.finished = true;
        true
    }

    /// The delay elapsed. Returns whether the task runs now: only if it was
    /// neither cancelled nor run before.
    pub fn elapsed(&mut self) -> (r: bool)
        ensures
            r == (!old(self).spec_cancelled() && !old(self).spec_finished()),
            final(self).spec_finished(),
            final(self).spec_cancelled() == old(self).spec_cancelled(),
    {
        let run = !self.cancelled && !self.finished;
        self.finished = true;
        run
    }
}

} // verus!
