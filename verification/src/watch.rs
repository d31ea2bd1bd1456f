//! Watches: observers that track one computation and handle its changes untracked.
use vstd::prelude::*;

use crate::diagnostics::NodeKind;
use crate::effect::EffectHandle;
use crate::id::{Location, NodeId};
use crate::model::ReactorModel;
use crate::reactor::Reactor;
use crate::scope::{Owners, OwnersModel};
use crate::thunk::Memo;
use crate::tracking::{Tracking, UntrackGuard};

verus! {

/// A watch: a memo computes what is watched, and an effect hands its changes to a handler. The
/// memo is the equality gate, so that an equal result does not reach the handler at all.
#[derive(Debug)]
pub struct Watch<S> {
    gated: Memo<S>,
    previous: Option<S>,
    effect: EffectHandle,
}

/// What creating a watch does: a memo is created, then an effect.
pub open spec fn created_watch<S>(
    origin: Location,
    reactor: ReactorModel,
    owners: OwnersModel,
    after: ReactorModel,
    owners_after: OwnersModel,
    watch: Watch<S>,
) -> bool {
    &&& watch.gate().node() == NodeId(reactor.graph.next_node)
    &&& watch.gate().graph() == reactor.id
    &&& watch.gate().held() is None
    &&& watch.handled_last() is None
    &&& crate::effect::created_effect(
        false,
        origin,
        reactor.computed_created(NodeKind::Memo, origin),
        owners,
        after,
        owners_after,
        watch.observer(),
    )
}

impl Reactor {
    /// Creates a watch. The effect runs once at first.
    pub fn watch<S>(&mut self, owners: &mut Owners, origin: Location) -> (watch: Watch<S>)
        requires
            old(self).wf(),
            old(owners).wf(),
            old(self)@.graph.next_node < u64::MAX - 1,
            old(owners)@.next < u64::MAX,
            old(owners)@.stats.owned_children < usize::MAX,
        ensures
            final(self).wf(),
            final(owners).wf(),
            created_watch(
                origin,
                old(self)@,
                old(owners)@,
                final(self)@,
                final(owners)@,
                watch,
            ),
    {
        let gated = self.memo(origin);
        let effect = self.effect(owners, origin);
        Watch { gated, previous: None, effect }
    }
}

/// Creates a watch on `reactor`.
pub fn watch_in<S>(reactor: &mut Reactor, owners: &mut Owners, origin: Location) -> (watch: Watch<
    S,
>)
    requires
        old(reactor).wf(),
        old(owners).wf(),
        old(reactor)@.graph.next_node < u64::MAX - 1,
        old(owners)@.next < u64::MAX,
        old(owners)@.stats.owned_children < usize::MAX,
    ensures
        final(reactor).wf(),
        final(owners).wf(),
        created_watch(
            origin,
            old(reactor)@,
            old(owners)@,
            final(reactor)@,
            final(owners)@,
            watch,
        ),
{
    reactor.watch(owners, origin)
}

impl<S> Watch<S> {
    /// What is watched.
    pub closed spec fn gate(self) -> Memo<S> {
        self.gated
    }

    /// The value that was handled last.
    pub closed spec fn handled_last(self) -> Option<S> {
        self.previous
    }

    /// The effect that hands changes to the handler.
    pub closed spec fn observer(self) -> EffectHandle {
        self.effect
    }

    /// Returns the memo that computes what is watched.
    pub fn gated(&self) -> (memo: &Memo<S>)
        ensures
            *memo == self.gate(),
    {
        &self.gated
    }

    /// Returns the effect.
    pub fn effect(&self) -> (effect: &EffectHandle)
        ensures
            *effect == self.observer(),
    {
        &self.effect
    }

    /// Returns the memo that computes what is watched, to hand it the results of its computation.
    pub fn gated_mut(&mut self) -> (memo: &mut Memo<S>)
        ensures
            *memo == old(self).gate(),
            final(self).gate() == *final(memo),
            final(self).handled_last() == old(self).handled_last(),
            final(self).observer() == old(self).observer(),
    {
        &mut self.gated
    }

    /// The first part of the effect's body: reads the watched value, which is up to date, and
    /// suspends tracking for the handler. The handler gets this value and
    /// [`previous`](Self::previous).
    pub fn begin(&self, reactor: &mut Reactor, tracking: &mut Tracking) -> (begun: (
        S,
        UntrackGuard,
    )) where S: Clone
        requires
            old(reactor).wf(),
            old(reactor)@.readable(*old(tracking), self.gate().node().0),
            self.gate().held() is Some,
            old(tracking).untracked_depth < u32::MAX,
        ensures
            final(reactor).wf(),
            final(reactor)@ == old(reactor)@.read(*old(tracking), self.gate().node().0),
            cloned(self.gate().held()->0, begun.0),
            final(tracking).suspended(),
            *final(tracking) == (Tracking {
                untracked_depth: (old(tracking).untracked_depth + 1) as u32,
                ..*old(tracking)
            }),
    {
        let new = self.gated.get(reactor, tracking);
        let guard = crate::tracking::untrack(tracking);
        (new, guard)
    }

    /// Returns the value that was handled last. There is none at the first run.
    pub fn previous(&self) -> (previous: Option<&S>)
        ensures
            previous == (match self.handled_last() {
                Some(previous) => Some(&previous),
                None => None,
            }),
    {
        self.previous.as_ref()
    }

    /// The last part of the effect's body: the handler has returned.
    pub fn handled(&mut self, tracking: &mut Tracking, guard: UntrackGuard, new: S)
        ensures
            final(self).handled_last() == Some(new),
            final(self).gate() == old(self).gate(),
            final(self).observer() == old(self).observer(),
            final(tracking).running == old(tracking).running,
            final(tracking).untracked_depth == (if old(tracking).untracked_depth == 0 {
                0
            } else {
                old(tracking).untracked_depth - 1
            }),
    {
        guard.resume(tracking);
        self.previous = Some(new);
    }

    /// Gives the watch up: what was watched leaves the graph. Its effect is left to
    /// [`EffectHandle::dispose`].
    pub fn release(self, reactor: &mut Reactor)
        requires
            old(reactor).wf(),
            !old(reactor)@.is_effect(self.gate().node().0),
        ensures
            final(reactor).wf(),
            exists|lost: Seq<u64>|
                crate::model::lists(
                    lost,
                    crate::model::abandoned(old(reactor)@.graph, self.gate().node().0),
                ) && final(reactor)@ == #[trigger] old(reactor)@.computed_released(
                    self.gate().node().0,
                    lost,
                ),
    {
        self.gated.release(reactor);
    }
}

} // verus!
