//! The progressive renderer's bookkeeping: frame and worker counts, and
//! the decisions of the accumulation loop.  Workers render whole frames
//! concurrently against the frozen scene; a single consumer blends each
//! finished frame and offers the buffer to a display sink every ten.

use vstd::prelude::*;

verus! {

/// The requested output size.
#[derive(Clone, Copy, Debug, PartialEq, Eq, Structural)]
pub struct RenderOptions {
    pub width: usize,
    pub height: usize,
}

/// How many workers render concurrently at most.
pub const MAX_WORKERS: usize = 8;

/// Every how many blended frames the buffer is offered to the sink.
pub const REPORT_EVERY: usize = 10;

/// The consumer's counters: frames blended so far and workers in flight.
#[derive(Clone, Copy, Debug, PartialEq, Eq, Structural)]
pub struct Progress {
    pub done: usize,
    pub tasks_running: usize,
}

impl Progress {
    /// No frames blended, no workers running.
    pub fn new() -> (p: Progress)
        ensures
            p.done == 0,
            p.tasks_running == 0,
    {
        Progress { done: 0, tasks_running: 0 }
    }

    /// Whether another worker may be spawned: the pool is bounded.
    pub fn should_spawn(&self) -> (r: bool)
        ensures
            r == (self.tasks_running < MAX_WORKERS),
    {
        self.tasks_running < MAX_WORKERS
    }

    /// Records one spawned worker.
    pub fn spawned(&mut self)
        requires
            old(self).tasks_running < MAX_WORKERS,
        ensures
            final(self).tasks_running == old(self).tasks_running + 1,
            final(self).done == old(self).done,
    {
        self.tasks_running = self.tasks_running + 1;
    }

    /// Records one finished and blended frame.
    pub fn frame_blended(&mut self)
        requires
            old(self).tasks_running >= 1,
            old(self).done < usize::MAX,
        ensures
            final(self).done == old(self).done + 1,
            final(self).tasks_running == old(self).tasks_running - 1,
    {
        self.done = self.done + 1;
        self.tasks_running = self.tasks_running - 1;
    }

    /// Whether the buffer is due to be offered to the display sink: after
    /// every tenth blended frame.
    pub fn offer_due(&self) -> (r: bool)
        ensures
            r == (self.done % REPORT_EVERY == 0),
    {
        self.done % REPORT_EVERY == 0
    }
}

} // verus!
