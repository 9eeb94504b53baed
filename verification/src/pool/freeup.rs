//! The decisions of the background task that frees idle allocators.
//!
//! The task wakes up once per tick and reads how many fetches the pool has
//! seen. When some fetches were made since the last tick, the pool is busy
//! and nothing is released; otherwise one idle allocator is released (the
//! task of a channel pool waits for one when there is none). When the pool
//! closes, every idle allocator is released and the task stops.

use vstd::prelude::*;

verus! {

/// What the background task observed.
#[derive(Debug, Clone, Copy, PartialEq, Eq, Structural)]
pub enum FreeupEvent {
    /// A tick went by, and the pool had seen this many fetches.
    Tick(u64),
    /// The pool was closed.
    Closed,
}

/// What the background task does next.
#[derive(Debug, Clone, Copy, PartialEq, Eq, Structural)]
pub enum FreeupAction {
    /// Nothing: fetches were made since the last tick.
    Wait,
    /// Release one idle allocator, if there is one.
    ReleaseOne,
    /// Wait until there is an idle allocator, then release it.
    AwaitAndReleaseOne,
    /// Release every idle allocator and stop.
    ReleaseAllAndStop,
}

/// The action that `event` leads to, for a task that last saw `last` fetches
/// and that waits for an idle allocator to release when `awaits`.
pub open spec fn step_action(last: u64, awaits: bool, event: FreeupEvent) -> FreeupAction {
    match event {
        FreeupEvent::Closed => FreeupAction::ReleaseAllAndStop,
        FreeupEvent::Tick(f) => if f != last {
            FreeupAction::Wait
        } else if awaits {
            FreeupAction::AwaitAndReleaseOne
        } else {
            FreeupAction::ReleaseOne
        },
    }
}

/// The fetch count that the task compares the next tick with, after `event`.
pub open spec fn step_last(last: u64, event: FreeupEvent) -> u64 {
    match event {
        FreeupEvent::Closed => last,
        FreeupEvent::Tick(f) => f,
    }
}

/// The state of the background task: the fetch count seen at the last tick,
/// and whether it waits for an idle allocator to release.
pub struct FreeupProcessor {
    last: u64,
    awaits: bool,
}

impl FreeupProcessor {
    /// The fetch count the task compares the next tick with.
    pub closed spec fn last_seen(&self) -> u64 {
        self.last
    }

    /// Whether the task waits for an idle allocator to release.
    pub closed spec fn awaits_idle(&self) -> bool {
        self.awaits
    }

    /// The task of a queue pool: it releases an idle allocator if there is one.
    pub fn new() -> (r: Self)
        ensures
            r.last_seen() == 0,
            !r.awaits_idle(),
    {
        FreeupProcessor { last: 0, awaits: false }
    }

    /// The task of a channel pool: it waits for an idle allocator to release.
    pub fn awaiting() -> (r: Self)
        ensures
            r.last_seen() == 0,
            r.awaits_idle(),
    {
        FreeupProcessor { last: 0, awaits: true }
    }

    /// Decides what to do on `event`.
    pub fn step(&mut self, event: FreeupEvent) -> (r: FreeupAction)
        ensures
            r == step_action(old(self).last_seen(), old(self).awaits_idle(), event),
            final(self).last_seen() == step_last(old(self).last_seen(), event),
            final(self).awaits_idle() == old(self).awaits_idle(),
    {
        match event {
            FreeupEvent::Closed => FreeupAction::ReleaseAllAndStop,
            FreeupEvent::Tick(fetches) => {
                if fetches != self.last {
                    // Some retrievals were made since the last time. So, let's avoid doing a release.
                    self.last = fetches;
                    FreeupAction::Wait
                } else if self.awaits {
                    FreeupAction::AwaitAndReleaseOne
                } else {
                    FreeupAction::ReleaseOne
                }
            },
        }
    }
}

} // verus!
