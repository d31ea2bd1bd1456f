//! What a thread is doing right now: whether reads are tracked, and whose computation runs.
use vstd::prelude::*;

use crate::diagnostics::ReactorId;

verus! {

/// The tracking state of one thread.
#[derive(Clone, Copy, Debug)]
pub struct Tracking {
    /// How many untracked regions enclose the current point, within the innermost computation.
    pub untracked_depth: u32,
    /// The reactor whose computation is on top of the call stack.
    pub running: Option<ReactorId>,
}

/// Stands for an untracked region that has not ended yet.
#[must_use]
#[derive(Debug)]
pub struct UntrackGuard {}

impl Tracking {
    /// Reads record nothing here.
    pub open spec fn suspended(self) -> bool {
        self.untracked_depth > 0
    }

    /// A tracked read of a node of `reactor` reaches the innermost computation: that of another
    /// reactor is not running.
    pub open spec fn admits(self, reactor: ReactorId) -> bool {
        self.running is None || self.running == Some(reactor)
    }

    /// Inside one more untracked region.
    pub open spec fn untracked(self) -> Tracking {
        Tracking {
            untracked_depth: if self.untracked_depth == u32::MAX {
                u32::MAX
            } else {
                (self.untracked_depth + 1) as u32
            },
            ..self
        }
    }

    /// After the innermost untracked region ended.
    pub open spec fn resumed(self) -> Tracking {
        Tracking {
            untracked_depth: if self.untracked_depth == 0 {
                0
            } else {
                (self.untracked_depth - 1) as u32
            },
            ..self
        }
    }

    /// Creates the state of a thread on which nothing runs.
    pub fn new() -> (tracking: Self)
        ensures
            tracking == (Tracking { untracked_depth: 0, running: None }),
    {
        Tracking { untracked_depth: 0, running: None }
    }

    /// Returns whether tracking is suspended.
    pub fn is_untracked(&self) -> (suspended: bool)
        ensures
            suspended == self.suspended(),
    {
        self.untracked_depth > 0
    }

    /// Returns whether a tracked read of a node of `reactor` reaches the innermost computation.
    ///
    /// A program that wants to notice lost dependencies early refuses the read where it does not.
    pub fn accepts(&self, reactor: ReactorId) -> (accepted: bool)
        ensures
            accepted == self.admits(reactor),
    {
        match self.running {
            Some(running) => running == reactor,
            None => true,
        }
    }
}

/// Suspends dependency tracking until [`UntrackGuard::resume`].
///
/// Reads made in between do not record dependencies for the running observer. Cycle detection
/// remains active, and regions nest.
pub fn untrack(tracking: &mut Tracking) -> (guard: UntrackGuard)
    requires
        old(tracking).untracked_depth < u32::MAX,
    ensures
        final(tracking).suspended(),
        *final(tracking) == old(tracking).untracked(),
{
    tracking.untracked_depth = tracking.untracked_depth + 1;
    UntrackGuard {  }
}

impl UntrackGuard {
    /// Ends the region.
    pub fn resume(self, tracking: &mut Tracking)
        ensures
            *final(tracking) == old(tracking).resumed(),
    {
        tracking.untracked_depth = tracking.untracked_depth.saturating_sub(1);
    }
}

} // verus!
