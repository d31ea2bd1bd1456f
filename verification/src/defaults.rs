//! Which reactor a thread uses by default.
//!
//! The thread's default is remembered, not kept alive: whether the reactor behind an identifier
//! still exists is for the caller to say. Entering a reactor anchors it besides; keep an anchored
//! reactor alive.
use vstd::prelude::*;

use crate::diagnostics::ReactorId;

verus! {

/// Hands out reactor identifiers.
#[derive(Debug)]
pub struct ReactorIds {
    /// The next identifier.
    pub next: u64,
}

impl ReactorIds {
    /// Starts with the first identifier.
    pub fn new() -> (ids: Self)
        ensures
            ids.next == 1,
    {
        ReactorIds { next: 1 }
    }

    /// Returns the next identifier.
    pub fn allocate(&mut self) -> (id: ReactorId)
        ensures
            id == ReactorId(old(self).next),
            final(self).next == crate::model::wrapping_next(old(self).next),
    {
        let id = ReactorId(self.next);
        self.next = self.next.wrapping_add(1);
        id
    }
}

/// The default reactor of one thread.
#[derive(Debug)]
pub struct Defaults {
    /// The default, which may be gone by now.
    pub current: Option<ReactorId>,
    /// The reactor that was entered last and not left yet.
    pub anchor: Option<ReactorId>,
    /// The thread had a default at some point.
    pub had_default: bool,
}

/// Stands for a reactor that was entered and not left yet.
#[must_use]
#[derive(Debug)]
pub struct EnterGuard {
    /// The default before the reactor was entered.
    pub previous_default: Option<ReactorId>,
    /// The anchor before the reactor was entered.
    pub previous_anchor: Option<ReactorId>,
}

/// What asking for the default gave.
#[derive(Debug)]
pub enum Ambient {
    /// The default is there already.
    Reused(ReactorId),
    /// There was none, so a fresh reactor was installed. It is worth a warning if the thread had a
    /// default before: nodes created from here on are on a separate graph from the ones created
    /// before.
    Installed {
        /// The fresh reactor.
        reactor: ReactorId,
        /// The thread had a default before.
        replaces: bool,
    },
}

impl Defaults {
    /// After a reactor was entered.
    pub open spec fn entered(self, reactor: ReactorId) -> Defaults {
        Defaults { current: Some(reactor), anchor: Some(reactor), had_default: true }
    }

    /// After a reactor was left.
    pub open spec fn left(self, guard: EnterGuard) -> Defaults {
        Defaults {
            current: guard.previous_default,
            anchor: guard.previous_anchor,
            had_default: self.had_default,
        }
    }

    /// What [`enter`](Self::enter) keeps for later.
    pub open spec fn kept(self) -> EnterGuard {
        EnterGuard { previous_default: self.current, previous_anchor: self.anchor }
    }

    /// Creates the state of a thread that never had a default.
    pub fn new() -> (defaults: Self)
        ensures
            defaults == (Defaults { current: None, anchor: None, had_default: false }),
    {
        Defaults { current: None, anchor: None, had_default: false }
    }

    /// Returns the default, if there is one that still exists. Never installs one.
    pub fn try_current<F: FnOnce(ReactorId) -> bool>(&self, exists_still: F) -> (current: Option<
        ReactorId,
    >)
        requires
            self.current matches Some(id) ==> exists_still.requires((id,)),
        ensures
            match self.current {
                Some(id) => match current {
                    Some(found) => found == id && exists_still.ensures((id,), true),
                    None => exists_still.ensures((id,), false),
                },
                None => current is None,
            },
    {
        match self.current {
            Some(id) => if exists_still(id) {
                Some(id)
            } else {
                None
            },
            None => None,
        }
    }

    /// Returns the default, and installs `fresh` as the default if there is none that still exists.
    pub fn current<F: FnOnce(ReactorId) -> bool>(&mut self, exists_still: F, fresh: ReactorId) -> (
    ambient: Ambient)
        requires
            old(self).current matches Some(id) ==> exists_still.requires((id,)),
        ensures
            match ambient {
                Ambient::Reused(id) => {
                    &&& old(self).current == Some(id)
                    &&& exists_still.ensures((id,), true)
                    &&& *final(self) == *old(self)
                },
                Ambient::Installed { reactor, replaces } => {
                    &&& old(self).current matches Some(id) ==> exists_still.ensures((id,), false)
                    &&& reactor == fresh
                    &&& replaces == old(self).had_default
                    &&& *final(self) == (Defaults {
                        current: Some(fresh),
                        had_default: true,
                        ..*old(self)
                    })
                },
            },
    {
        match self.try_current(exists_still) {
            Some(id) => Ambient::Reused(id),
            None => {
                let replaces = self.had_default;
                self.current = Some(fresh);
                self.had_default = true;
                Ambient::Installed { reactor: fresh, replaces }
            },
        }
    }

    /// Makes `reactor` the default, and anchors it, until [`leave`](Self::leave).
    pub fn enter(&mut self, reactor: ReactorId) -> (guard: EnterGuard)
        ensures
            guard == old(self).kept(),
            *final(self) == old(self).entered(reactor),
    {
        let guard = EnterGuard { previous_default: self.current, previous_anchor: self.anchor };
        self.current = Some(reactor);
        self.anchor = Some(reactor);
        self.had_default = true;
        guard
    }

    /// Restores the default and the anchor from before [`enter`](Self::enter).
    pub fn leave(&mut self, guard: EnterGuard)
        ensures
            *final(self) == old(self).left(guard),
    {
        self.current = guard.previous_default;
        self.anchor = guard.previous_anchor;
    }
}

/// Entering reactors nests: while one is entered it is the default and anchored, and leaving it
/// brings back what was there before. The thread has had a default from then on.
pub proof fn entering_nests(defaults: Defaults, outer: ReactorId, inner: ReactorId)
    ensures
        defaults.entered(outer).current == Some(outer),
        defaults.entered(outer).anchor == Some(outer),
        defaults.entered(outer).entered(inner).left(defaults.entered(outer).kept())
            == defaults.entered(outer),
        defaults.entered(outer).left(defaults.kept()) == (Defaults {
            had_default: true,
            ..defaults
        }),
{
}

} // verus!
