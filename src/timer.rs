//! The state that a timer computation shares with the thread that completes it.
use vstd::prelude::*;

use crate::scheduler::PollResult;

verus! {

/// Shared, under one lock, between a timer computation and its completion
/// thread. `W` is the wake handle type of the executor that polls the timer.
pub struct SharedState<W> {
    /// The timer has fired.
    pub completed: bool,
    /// The wake handle of the most recent poll that found the timer pending.
    pub waker: Option<W>,
}

impl<W> SharedState<W> {
    /// A timer that has not fired, with no wake handle stored.
    pub fn new() -> (r: Self)
        ensures
            !r.completed,
            r.waker is None,
    {
        SharedState { completed: false, waker: None }
    }

    /// One poll of the timer. A fired timer is ready and keeps its state.
    /// Otherwise the timer is pending and stores the handle of this poll,
    /// in place of any earlier one: only the latest poll waits for the wake.
    pub fn poll(&mut self, waker: W) -> (r: PollResult)
        ensures
            r == (if old(self).completed {
                PollResult::Ready
            } else {
                PollResult::Pending
            }),
            old(self).completed ==> *final(self) == *old(self),
            !old(self).completed ==> !final(self).completed && final(self).waker == Some(waker),
    {
        if self.completed {
            PollResult::Ready
        } else {
            self.waker = Some(waker);
            PollResult::Pending
        }
    }

    /// Marks the timer fired and hands out the stored wake handle, if any,
    /// for the caller to invoke once the lock is released. A timer that fires
    /// before its first poll has no handle to wake: that poll sees it fired.
    pub fn complete(&mut self) -> (r: Option<W>)
        ensures
            final(self).completed,
            final(self).waker is None,
            r == old(self).waker,
    {
        self.completed = true;
        self.waker.take()
    }
}

} // verus!
