//! Effects: scheduled side effects, from the request to run to the end of the run.
use vstd::prelude::*;

use crate::diagnostics::{DiagnosticEvent, NodeKind, ReactorId};
use crate::id::{Location, NodeId};
use crate::model::ReactorModel;
use crate::observers::{EffectRecord, Observer, State};
use crate::reactor::{ContextGuard, Reactor};
use crate::scope::{Adoption, Owned, OwnerId, Owners, OwnersModel, Teardown};
use crate::stats::FlushItem;
use crate::tracking::Tracking;

verus! {

/// How often one effect may run in a single logical drain before the drain is taken to diverge.
pub const MAX_RUNS_PER_FLUSH: u32 = 100;

/// What is to be done next for an effect whose turn has come.
#[derive(Clone, Copy, Debug)]
pub enum RunStep {
    /// Nothing: the effect does not run now.
    Done,
    /// Find out whether a recorded dependency changed, then call
    /// [`Reactor::resume_run`](crate::Reactor::resume_run).
    Verify,
    /// Tear down what the previous run registered, then call
    /// [`Reactor::enter_body`](crate::Reactor::enter_body).
    Teardown(RunTicket),
    /// The effect ran too often in this drain: it writes state that it depends on without
    /// converging.
    Diverged,
}

/// Identifies one run of one effect.
#[derive(Clone, Copy, Debug)]
pub struct RunTicket {
    /// The effect.
    pub effect: NodeId,
    /// The flush that executes the run.
    pub flush_epoch: u64,
    /// Someone listened to diagnostics when the run started.
    pub reported: bool,
}

impl ReactorModel {
    /// How often an effect will have run in the current drain if it runs now.
    pub open spec fn runs_with_this_one(self, node: u64) -> u32 {
        let effect = self.effect(node);
        if effect.last_drain_epoch != self.drain_epoch {
            1
        } else if effect.runs_this_drain == u32::MAX {
            u32::MAX
        } else {
            (effect.runs_this_drain + 1) as u32
        }
    }

    /// After counting a run of an effect in the current drain.
    pub open spec fn run_counted(self, node: u64) -> ReactorModel {
        self.with_effect(
            node,
            EffectRecord {
                last_drain_epoch: self.drain_epoch,
                runs_this_drain: self.runs_with_this_one(node),
                ..self.effect(node)
            },
        )
    }

    /// After the run of an effect was counted, reported and opened.
    pub open spec fn run_opened(self, node: u64) -> ReactorModel {
        let counted = self.run_counted(node);
        let told = match self.origin(node) {
            Some(effect_origin) => counted.emitted(
                DiagnosticEvent::EffectRunStarted {
                    reactor: self.id,
                    effect: NodeId(node),
                    effect_origin,
                    flush_epoch: self.flush_epoch,
                },
            ),
            None => counted,
        }.recorded(FlushItem::EffectRun);
        told.with_effect(node, EffectRecord { running: true, ..told.effect(node) })
    }

    /// After an effect proved its inputs unchanged.
    pub open spec fn run_skipped(self, node: u64) -> ReactorModel {
        self.emitted(
            DiagnosticEvent::EffectRunSkipped {
                reactor: self.id,
                effect: NodeId(node),
                flush_epoch: self.flush_epoch,
            },
        ).recorded(FlushItem::EffectSkipped)
    }

    /// After the run of an effect ended, one way or another.
    pub open spec fn run_closed(self, ticket: RunTicket) -> ReactorModel {
        let node = ticket.effect.0;
        let closed = self.with_effect(node, EffectRecord { running: false, ..self.effect(node) });
        if ticket.reported {
            closed.emitted(
                DiagnosticEvent::EffectRunFinished {
                    reactor: self.id,
                    effect: ticket.effect,
                    flush_epoch: ticket.flush_epoch,
                },
            )
        } else {
            closed
        }
    }

    /// The ticket of a run that an effect opens now.
    pub open spec fn ticket(self, node: u64) -> RunTicket {
        RunTicket {
            effect: NodeId(node),
            flush_epoch: self.flush_epoch,
            reported: self.listening(),
        }
    }

    /// Opening a run: what becomes of the reactor, and what is to be done next.
    pub open spec fn run_opening(self, node: u64) -> (ReactorModel, RunStep) {
        if self.runs_with_this_one(node) > MAX_RUNS_PER_FLUSH {
            (self.run_counted(node), RunStep::Diverged)
        } else {
            (self.run_opened(node), RunStep::Teardown(self.ticket(node)))
        }
    }

    /// An effect's turn: what becomes of the reactor, and what is to be done next.
    ///
    /// Its pending run is used up. A disposed effect does nothing. One that is running already is
    /// not entered again but owes a run for afterwards. Otherwise the effect counts as up to date
    /// from here on; a dirty one runs, a check-marked one verifies first, a clean one is skipped.
    pub open spec fn turn(self, node: u64) -> (ReactorModel, RunStep) {
        let taken = self.unlatched(node);
        let effect = self.effect(node);
        if effect.disposed {
            (taken, RunStep::Done)
        } else if effect.running || self.graph.active(node) {
            (
                taken.with_effect(
                    node,
                    EffectRecord { rerun_after_current: true, ..taken.effect(node) },
                ),
                RunStep::Done,
            )
        } else {
            let cleaned = taken.with_state(node, State::Clean);
            match self.observers[node].state {
                State::Dirty => cleaned.run_opening(node),
                State::Check => (cleaned, RunStep::Verify),
                State::Clean => (cleaned.run_skipped(node), RunStep::Done),
            }
        }
    }

    /// The rest of an effect's turn once it is known whether a dependency changed.
    pub open spec fn turn_resumed(self, node: u64, changed: bool) -> (ReactorModel, RunStep) {
        if self.effect(node).disposed {
            (self, RunStep::Done)
        } else if changed {
            self.run_opening(node)
        } else {
            (self.run_skipped(node), RunStep::Done)
        }
    }

    /// After a computation failed while an effect verified its dependencies: the effect stays
    /// dirty and asks to run again.
    pub open spec fn turn_failed(self, node: u64) -> ReactorModel {
        if self.effect(node).disposed {
            self
        } else {
            self.with_state(node, State::Dirty).requested(node)
        }
    }

    /// After an effect's body returned: a run that was requested meanwhile is asked for now.
    pub open spec fn run_finished(self, ticket: RunTicket) -> ReactorModel {
        let node = ticket.effect.0;
        let left = self.ended();
        let owed = left.effect(node).rerun_after_current;
        let cleared = left.with_effect(
            node,
            EffectRecord { rerun_after_current: false, ..left.effect(node) },
        );
        let asked = if owed && !left.effect(node).disposed {
            cleared.requested(node)
        } else {
            cleared
        };
        asked.run_closed(ticket)
    }

    /// After an effect was marked as disposed; the second time changes nothing.
    pub open spec fn effect_retired(self, node: u64) -> ReactorModel {
        if self.effect(node).disposed {
            self
        } else {
            self.with_effect(node, EffectRecord { disposed: true, ..self.effect(node) }).emitted(
                DiagnosticEvent::EffectDisposed { reactor: self.id, effect: NodeId(node) },
            ).recorded(FlushItem::EffectDisposed).unlatched(node)
        }
    }
}

impl Reactor {
    fn effect_record(&self, node: NodeId) -> (record: Option<EffectRecord>)
        ensures
            record is Some <==> self@.is_effect(node.0),
            record matches Some(effect) ==> effect == self@.effect(node.0),
    {
        match self.observer(node) {
            Some(observer) => observer.effect,
            None => None,
        }
    }

    /// Counts the run and reports divergence: an effect that runs more than
    /// [`MAX_RUNS_PER_FLUSH`] times in one drain does not converge.
    fn check_divergence(&mut self, node: NodeId) -> (diverges: bool)
        requires
            old(self).wf(),
            old(self)@.is_effect(node.0),
        ensures
            final(self).wf(),
            final(self)@ == old(self)@.run_counted(node.0),
            diverges == (old(self)@.runs_with_this_one(node.0) > MAX_RUNS_PER_FLUSH),
    {
        let effect = match self.effect_record(node) {
            Some(effect) => effect,
            None => return false,
        };
        let epoch: u64 = self.drain_epoch();
        let runs: u32 = if effect.last_drain_epoch != epoch {
            1
        } else {
            effect.runs_this_drain.saturating_add(1)
        };
        self.set_effect(
            node,
            EffectRecord { last_drain_epoch: epoch, runs_this_drain: runs, ..effect },
        );
        runs > MAX_RUNS_PER_FLUSH
    }

    fn open_run(&mut self, node: NodeId) -> (step: RunStep)
        requires
            old(self).wf(),
            old(self)@.is_effect(node.0),
        ensures
            final(self).wf(),
            (final(self)@, step) == old(self)@.run_opening(node.0),
    {
        let reported = self.diagnostics_enabled();
        let flush_epoch: u64 = self.flush_epoch();
        if self.check_divergence(node) {
            return RunStep::Diverged;
        }
        let reactor = self.id();
        if let Some(effect_origin) = self.node_origin(node) {
            self.emit(
                DiagnosticEvent::EffectRunStarted {
                    reactor,
                    effect: node,
                    effect_origin,
                    flush_epoch,
                },
            );
        }
        self.record_flush(FlushItem::EffectRun);
        if let Some(effect) = self.effect_record(node) {
            self.set_effect(node, EffectRecord { running: true, ..effect });
        }
        RunStep::Teardown(RunTicket { effect: node, flush_epoch, reported })
    }

    fn skip_run(&mut self, node: NodeId)
        requires
            old(self).wf(),
        ensures
            final(self).wf(),
            final(self)@ == old(self)@.run_skipped(node.0),
    {
        let reactor = self.id();
        let flush_epoch: u64 = self.flush_epoch();
        self.emit(DiagnosticEvent::EffectRunSkipped { reactor, effect: node, flush_epoch });
        self.record_flush(FlushItem::EffectSkipped);
    }

    /// Gives an effect its turn: call this for each [`Job::Effect`](crate::Job::Effect). An effect
    /// that no longer exists has no turn.
    pub fn start_run(&mut self, node: NodeId) -> (step: RunStep)
        requires
            old(self).wf(),
        ensures
            final(self).wf(),
            old(self)@.is_effect(node.0) ==> (final(self)@, step) == old(self)@.turn(node.0),
            !old(self)@.is_effect(node.0) ==> step == RunStep::Done && final(self)@ == old(self)@,
    {
        let effect = match self.effect_record(node) {
            Some(effect) => effect,
            None => return RunStep::Done,
        };
        self.unlatch_scheduled(node);
        if effect.disposed {
            return RunStep::Done;
        }
        if effect.running || self.is_computation_active(node) {
            if let Some(effect) = self.effect_record(node) {
                self.set_effect(node, EffectRecord { rerun_after_current: true, ..effect });
            }
            return RunStep::Done;
        }
        let state = match self.observer(node) {
            Some(observer) => observer.state,
            None => State::Clean,
        };
        self.set_state(node, State::Clean);
        match state {
            State::Dirty => self.open_run(node),
            State::Check => RunStep::Verify,
            State::Clean => {
                self.skip_run(node);
                RunStep::Done
            },
        }
    }

    /// Goes on with an effect's turn once it is known whether a recorded dependency changed.
    pub fn resume_run(&mut self, node: NodeId, changed: bool) -> (step: RunStep)
        requires
            old(self).wf(),
        ensures
            final(self).wf(),
            old(self)@.is_effect(node.0) ==> (final(self)@, step) == old(self)@.turn_resumed(
                node.0,
                changed,
            ),
            !old(self)@.is_effect(node.0) ==> step == RunStep::Done && final(self)@ == old(self)@,
    {
        match self.effect_record(node) {
            Some(effect) => {
                if effect.disposed {
                    RunStep::Done
                } else if changed {
                    self.open_run(node)
                } else {
                    self.skip_run(node);
                    RunStep::Done
                }
            },
            None => RunStep::Done,
        }
    }

    /// Ends an effect's turn in which verifying a dependency failed. Without this the effect would
    /// be stranded: its stale input does not propagate the next write again.
    pub fn fail_verification(&mut self, node: NodeId)
        requires
            old(self).wf(),
        ensures
            final(self).wf(),
            old(self)@.is_effect(node.0) ==> final(self)@ == old(self)@.turn_failed(node.0),
            !old(self)@.is_effect(node.0) ==> final(self)@ == old(self)@,
    {
        if let Some(effect) = self.effect_record(node) {
            if !effect.disposed {
                self.set_state(node, State::Dirty);
                self.request_run(node);
            }
        }
    }

    fn close_run(&mut self, ticket: RunTicket)
        requires
            old(self).wf(),
            old(self)@.is_effect(ticket.effect.0),
        ensures
            final(self).wf(),
            final(self)@ == old(self)@.run_closed(ticket),
    {
        if let Some(effect) = self.effect_record(ticket.effect) {
            self.set_effect(ticket.effect, EffectRecord { running: false, ..effect });
        }
        if ticket.reported {
            let reactor = self.id();
            self.emit(
                DiagnosticEvent::EffectRunFinished {
                    reactor,
                    effect: ticket.effect,
                    flush_epoch: ticket.flush_epoch,
                },
            );
        }
    }

    /// Enters the body of an effect after teardown, or ends the run where teardown disposed the
    /// effect.
    ///
    /// `teardown` is what [`Owners::reset`] started for the effect's owner, run to its end: what the
    /// run before left with the owner is gone.
    pub fn enter_body(&mut self, tracking: &mut Tracking, ticket: RunTicket, teardown: Teardown)
        -> (guard: Option<ContextGuard>)
        requires
            old(self).wf(),
            old(self)@.is_effect(ticket.effect.0),
            teardown@.len() == 0,
            teardown.root().0 == old(self)@.effect(ticket.effect.0).owner,
            old(self)@.effect(ticket.effect.0).disposed || !old(self)@.graph.active(
                ticket.effect.0,
            ),
        ensures
            final(self).wf(),
            old(self)@.effect(ticket.effect.0).disposed ==> {
                &&& guard is None
                &&& final(self)@ == old(self)@.run_closed(ticket)
                &&& *final(tracking) == *old(tracking)
            },
            !old(self)@.effect(ticket.effect.0).disposed ==> {
                &&& guard matches Some(guard) && guard.previous == *old(tracking)
                &&& exists|lost: Seq<u64>|
                    crate::model::lists(
                        lost,
                        crate::model::abandoned(old(self)@.graph, ticket.effect.0),
                    ) && final(self)@ == #[trigger] old(self)@.started(ticket.effect.0, lost)
                &&& *final(tracking) == (Tracking {
                    untracked_depth: 0,
                    running: Some(old(self)@.id),
                })
            },
    {
        let disposed = match self.effect_record(ticket.effect) {
            Some(effect) => effect.disposed,
            None => true,
        };
        if disposed {
            self.close_run(ticket);
            None
        } else {
            Some(self.run_in_context(tracking, ticket.effect))
        }
    }

    /// Ends the run of an effect whose body returned.
    pub fn finish_run(&mut self, tracking: &mut Tracking, guard: ContextGuard, ticket: RunTicket)
        requires
            old(self).wf(),
            old(self)@.is_effect(ticket.effect.0),
        ensures
            final(self).wf(),
            final(self)@ == old(self)@.run_finished(ticket),
            *final(tracking) == guard.previous,
    {
        self.leave_context(tracking, guard);
        if let Some(effect) = self.effect_record(ticket.effect) {
            self.set_effect(ticket.effect, EffectRecord { rerun_after_current: false, ..effect });
            if effect.rerun_after_current && !effect.disposed {
                self.request_run(ticket.effect);
            }
        }
        self.close_run(ticket);
    }

    /// Ends the run of an effect whose body unwound. A run that was requested meanwhile stays owed.
    pub fn abort_run(&mut self, tracking: &mut Tracking, guard: ContextGuard, ticket: RunTicket)
        requires
            old(self).wf(),
            old(self)@.is_effect(ticket.effect.0),
        ensures
            final(self).wf(),
            final(self)@ == old(self)@.ended().run_closed(ticket),
            *final(tracking) == guard.previous,
    {
        self.leave_context(tracking, guard);
        self.close_run(ticket);
    }

    /// Ends the run of an effect whose teardown unwound, so that its body was never entered.
    pub fn abandon_run(&mut self, ticket: RunTicket)
        requires
            old(self).wf(),
            old(self)@.is_effect(ticket.effect.0),
        ensures
            final(self).wf(),
            final(self)@ == old(self)@.run_closed(ticket),
    {
        self.close_run(ticket);
    }
}

/// The record of an effect that was just created: dirty, so that its first run happens.
pub open spec fn new_effect(external: bool, owner: u64) -> Observer {
    Observer {
        state: State::Dirty,
        registered: true,
        effect: Some(
            EffectRecord {
                scheduled: false,
                rerun_after_current: false,
                running: false,
                disposed: false,
                external,
                last_drain_epoch: u64::MAX,
                runs_this_drain: 0,
                owner,
            },
        ),
    }
}

impl ReactorModel {
    /// After creating an effect, before its first run is asked for.
    pub open spec fn effect_created(
        self,
        external: bool,
        owner: u64,
        origin: Location,
    ) -> ReactorModel {
        self.created(NodeKind::Effect, origin).with_observer(
            self.graph.next_node,
            new_effect(external, owner),
        )
    }

    /// After an effect was unhooked from the graph.
    pub open spec fn effect_unhooked(self, node: u64, lost: Seq<u64>) -> ReactorModel {
        self.unregistered(node).disposed(node, lost)
    }
}

/// A failure that an error boundary contains.
#[must_use]
#[derive(Debug)]
pub struct Containment {
    /// The boundary's handler, under the number that the caller keeps it.
    pub handler: u64,
    /// Where the effect that failed was created.
    pub origin: Option<Location>,
    /// What the effect leaves to tear down, unless it was disposed before.
    pub teardown: Option<Teardown>,
}

/// A handle to an effect.
#[must_use]
#[derive(Clone, Copy, Debug)]
pub struct EffectHandle {
    id: NodeId,
    reactor: ReactorId,
    owner: OwnerId,
}

impl Reactor {
    /// Creates an effect whose runs go through the reactor's queue. Its initial run is asked for at
    /// once.
    pub fn effect(&mut self, owners: &mut Owners, origin: Location) -> (handle: EffectHandle)
        requires
            old(self).wf(),
            old(owners).wf(),
            old(self)@.graph.next_node < u64::MAX,
            old(owners)@.next < u64::MAX,
            old(owners)@.stats.owned_children < usize::MAX,
        ensures
            final(self).wf(),
            final(owners).wf(),
            created_effect(
                false,
                origin,
                old(self)@,
                old(owners)@,
                final(self)@,
                final(owners)@,
                handle,
            ),
    {
        EffectHandle::new(self, owners, false, origin)
    }

    /// Creates an effect whose runs are handed to a consumer's own lane.
    pub fn effect_with(&mut self, owners: &mut Owners, origin: Location) -> (handle: EffectHandle)
        requires
            old(self).wf(),
            old(owners).wf(),
            old(self)@.graph.next_node < u64::MAX,
            old(owners)@.next < u64::MAX,
            old(owners)@.stats.owned_children < usize::MAX,
        ensures
            final(self).wf(),
            final(owners).wf(),
            created_effect(
                true,
                origin,
                old(self)@,
                old(owners)@,
                final(self)@,
                final(owners)@,
                handle,
            ),
    {
        EffectHandle::new(self, owners, true, origin)
    }

    /// Marks an effect as disposed: it never runs again. Returns whether this call did so; the
    /// caller then tears down what the effect's owner holds and calls
    /// [`unhook_effect`](Self::unhook_effect).
    pub fn retire_effect(&mut self, node: NodeId) -> (first: bool)
        requires
            old(self).wf(),
        ensures
            final(self).wf(),
            old(self)@.is_effect(node.0) ==> {
                &&& first == !old(self)@.effect(node.0).disposed
                &&& final(self)@ == old(self)@.effect_retired(node.0)
            },
            !old(self)@.is_effect(node.0) ==> !first && final(self)@ == old(self)@,
    {
        let effect = match self.effect_record(node) {
            Some(effect) => effect,
            None => return false,
        };
        if effect.disposed {
            return false;
        }
        self.set_effect(node, EffectRecord { disposed: true, ..effect });
        let reactor = self.id();
        self.emit(DiagnosticEvent::EffectDisposed { reactor, effect: node });
        self.record_flush(FlushItem::EffectDisposed);
        self.unlatch_scheduled(node);
        true
    }

    /// Unhooks a disposed effect from the graph, whether or not its teardown succeeded.
    pub fn unhook_effect(&mut self, node: NodeId)
        requires
            old(self).wf(),
        ensures
            final(self).wf(),
            exists|lost: Seq<u64>|
                crate::model::lists(lost, crate::model::abandoned(old(self)@.graph, node.0))
                    && final(self)@ == #[trigger] old(self)@.effect_unhooked(node.0, lost),
    {
        self.unregister_observer(node);
        self.dispose(node);
        proof {
            let unregistered = old(self)@.unregistered(node.0);
            let lost = choose|lost: Seq<u64>|
                crate::model::lists(lost, crate::model::abandoned(unregistered.graph, node.0))
                    && self@ == #[trigger] unregistered.disposed(node.0, lost);
            assert(self@ == old(self)@.effect_unhooked(node.0, lost));
        }
    }
}

/// What creating an effect does: a node, a record and an owner frame come into being, the innermost
/// owner adopts the effect, and a run is asked for. Where the innermost owner is disposed already,
/// the effect is disposed at once instead and the request is absorbed.
pub open spec fn created_effect(
    external: bool,
    origin: Location,
    reactor: ReactorModel,
    owners: OwnersModel,
    reactor_after: ReactorModel,
    owners_after: OwnersModel,
    handle: EffectHandle,
) -> bool {
    let node = reactor.graph.next_node;
    let framed = owners.created(None, owners.next_registry());
    let child = Owned::Effect { reactor: reactor.id, effect: NodeId(node) };
    let created = reactor.effect_created(external, owners.next, origin);
    &&& handle.node() == NodeId(node)
    &&& handle.graph() == reactor.id
    &&& handle.frame() == OwnerId(owners.next)
    &&& if framed.shelter() == Adoption::Refused {
        let retired = created.effect_retired(node);
        &&& owners_after == framed.retired(owners.next).cleanups_taken(owners.next)
        &&& exists|lost: Seq<u64>|
            crate::model::lists(lost, crate::model::abandoned(created.graph, node))
                && reactor_after == #[trigger] retired.effect_unhooked(node, lost).requested(node)
    } else {
        &&& owners_after == framed.sheltered(child)
        &&& reactor_after == created.requested(node)
    }
}

impl EffectHandle {
    /// The effect's node.
    pub closed spec fn node(self) -> NodeId {
        self.id
    }

    /// The effect's reactor.
    pub closed spec fn graph(self) -> ReactorId {
        self.reactor
    }

    /// The effect's owner frame.
    pub closed spec fn frame(self) -> OwnerId {
        self.owner
    }

    fn new(reactor: &mut Reactor, owners: &mut Owners, external: bool, origin: Location) -> (handle:
        Self)
        requires
            old(reactor).wf(),
            old(owners).wf(),
            old(reactor)@.graph.next_node < u64::MAX,
            old(owners)@.next < u64::MAX,
            old(owners)@.stats.owned_children < usize::MAX,
        ensures
            final(reactor).wf(),
            final(owners).wf(),
            created_effect(
                external,
                origin,
                old(reactor)@,
                old(owners)@,
                final(reactor)@,
                final(owners)@,
                handle,
            ),
    {
        let ghost before = reactor@;
        proof {
            reactor.wf_content();
        }
        let owner = owners.create(None);
        let id = reactor.allocate_node(NodeKind::Effect, origin);
        let effect = EffectRecord {
            scheduled: false,
            rerun_after_current: false,
            running: false,
            disposed: false,
            external,
            last_drain_epoch: u64::MAX,
            runs_this_drain: 0,
            owner: owner.0,
        };
        reactor.register_observer(
            id,
            Observer { state: State::Dirty, registered: true, effect: Some(effect) },
        );
        let ghost created = reactor@;
        assert(created == before.effect_created(external, owner.0, origin));
        let graph = reactor.id();
        let adoption = owners.adopt_into_current(Owned::Effect { reactor: graph, effect: id });
        if adoption == Adoption::Refused {
            let _ = reactor.retire_effect(id);
            let _ = owners.dispose(owner);
            let ghost retired = reactor@;
            reactor.unhook_effect(id);
            proof {
                let lost = choose|lost: Seq<u64>|
                    crate::model::lists(lost, crate::model::abandoned(retired.graph, id.0))
                        && reactor@ == #[trigger] retired.effect_unhooked(id.0, lost);
                crate::reactor::disposal_keeps_observers(retired.unregistered(id.0), id.0, lost);
            }
        }
        reactor.request_run(id);
        EffectHandle { id, reactor: graph, owner }
    }

    /// Returns the effect's node.
    pub fn id(&self) -> (id: NodeId)
        ensures
            id == self.node(),
    {
        self.id
    }

    /// Returns the identifier of the effect's reactor.
    pub fn reactor_id(&self) -> (id: ReactorId)
        ensures
            id == self.graph(),
    {
        self.reactor
    }

    /// Returns the effect's owner frame.
    pub fn owner(&self) -> (owner: OwnerId)
        ensures
            owner == self.frame(),
    {
        self.owner
    }

    /// Returns whether the effect has been disposed.
    pub fn is_disposed(&self, reactor: &Reactor) -> (disposed: bool)
        ensures
            disposed == (reactor@.is_effect(self.node().0) ==> reactor@.effect(
                self.node().0,
            ).disposed),
    {
        match reactor.effect_record(self.id) {
            Some(effect) => effect.disposed,
            None => true,
        }
    }

    /// What disposing the effect does: the first time, the effect is retired and its owner is
    /// disposed, which leaves a teardown to run; after that, nothing.
    pub open spec fn disposes(
        self,
        reactor: ReactorModel,
        owners: OwnersModel,
        reactor_after: ReactorModel,
        owners_after: OwnersModel,
        teardown: Option<Teardown>,
    ) -> bool {
        let node = self.node().0;
        let owner = self.frame().0;
        if !reactor.is_effect(node) || reactor.effect(node).disposed {
            &&& teardown is None
            &&& reactor_after == reactor
            &&& owners_after == owners
        } else {
            &&& reactor_after == reactor.effect_retired(node)
            &&& teardown matches Some(teardown)
            &&& if owners.over(owner) {
                &&& teardown@.len() == 0
                &&& owners_after == owners
            } else {
                &&& teardown@ == crate::scope::reset_plan(owner, owners.frames[owner].cleanups)
                &&& owners_after == owners.retired(owner).cleanups_taken(owner)
            }
        }
    }

    /// Disposes the effect: it never runs again. Run the teardown that is returned, then call
    /// [`Reactor::unhook_effect`]. Returns `None` when the effect was disposed before.
    pub fn dispose(&self, reactor: &mut Reactor, owners: &mut Owners) -> (teardown: Option<
        Teardown,
    >)
        requires
            old(reactor).wf(),
            old(owners).wf(),
        ensures
            final(reactor).wf(),
            final(owners).wf(),
            self.disposes(old(reactor)@, old(owners)@, final(reactor)@, final(owners)@, teardown),
    {
        if reactor.retire_effect(self.id) {
            Some(owners.dispose(self.owner))
        } else {
            None
        }
    }

    /// Decides what becomes of a failure of the effect's turn. `handler` is the error boundary that
    /// was around the effect as the turn began: ask [`Owners::error_handler`] for it before
    /// [`Reactor::start_run`], since the turn may end the boundary's owner. Without one the failure
    /// is the caller's, and nothing changes. The boundary contains it otherwise: the effect is
    /// disposed, so that the failure is its last. Run the teardown, call
    /// [`Reactor::unhook_effect`], and only then call the handler.
    pub fn contain(&self, reactor: &mut Reactor, owners: &mut Owners, handler: Option<u64>)
        -> (containment: Option<Containment>)
        requires
            old(reactor).wf(),
            old(owners).wf(),
        ensures
            final(reactor).wf(),
            final(owners).wf(),
            match handler {
                Some(handler) => {
                    &&& containment matches Some(contained)
                    &&& contained.handler == handler
                    &&& contained.origin == old(reactor)@.origin(self.node().0)
                    &&& self.disposes(
                        old(reactor)@,
                        old(owners)@,
                        final(reactor)@,
                        final(owners)@,
                        contained.teardown,
                    )
                },
                None => {
                    &&& containment is None
                    &&& final(reactor)@ == old(reactor)@
                    &&& final(owners)@ == old(owners)@
                },
            },
    {
        match handler {
            Some(handler) => {
                let origin = reactor.node_origin(self.id);
                let teardown = self.dispose(reactor, owners);
                Some(Containment { handler, origin, teardown })
            },
            None => None,
        }
    }

    /// Gives the handle up without disposing the effect.
    pub fn leak(self) -> (id: NodeId)
        ensures
            id == self.node(),
    {
        self.id
    }
}

/// Creates an effect on `reactor`. See [`Reactor::effect`].
pub fn effect_in(reactor: &mut Reactor, owners: &mut Owners, origin: Location) -> (handle:
    EffectHandle)
    requires
        old(reactor).wf(),
        old(owners).wf(),
        old(reactor)@.graph.next_node < u64::MAX,
        old(owners)@.next < u64::MAX,
        old(owners)@.stats.owned_children < usize::MAX,
    ensures
        final(reactor).wf(),
        final(owners).wf(),
        created_effect(
            false,
            origin,
            old(reactor)@,
            old(owners)@,
            final(reactor)@,
            final(owners)@,
            handle,
        ),
{
    reactor.effect(owners, origin)
}

/// Creates an effect on `reactor` whose runs go to a consumer's lane. See
/// [`Reactor::effect_with`].
pub fn effect_with_in(reactor: &mut Reactor, owners: &mut Owners, origin: Location) -> (handle:
    EffectHandle)
    requires
        old(reactor).wf(),
        old(owners).wf(),
        old(reactor)@.graph.next_node < u64::MAX,
        old(owners)@.next < u64::MAX,
        old(owners)@.stats.owned_children < usize::MAX,
    ensures
        final(reactor).wf(),
        final(owners).wf(),
        created_effect(
            true,
            origin,
            old(reactor)@,
            old(owners)@,
            final(reactor)@,
            final(owners)@,
            handle,
        ),
{
    reactor.effect_with(owners, origin)
}

/// Decides when the effects of a consumer's lane run.
pub trait EffectScheduler {
    /// Takes charge of an effect that has a run pending: run it with [`EffectRun::run`] when its
    /// time comes, or let it go with [`EffectRun::discard`].
    fn schedule(&mut self, ready: EffectRun);
}

/// A pending run of one effect, in the hands of a consumer's lane.
#[must_use]
#[derive(Debug)]
pub struct EffectRun {
    effect: NodeId,
}

/// Stands for the flush around one effect run that a consumer started.
#[must_use]
#[derive(Debug)]
pub struct RunBoundary {
    /// The run opened a flush of its own.
    pub opened: bool,
}

impl EffectRun {
    /// The effect that is to run.
    pub closed spec fn target(self) -> NodeId {
        self.effect
    }

    /// Wraps an effect that the reactor named as ready.
    pub fn new(effect: NodeId) -> (run: Self)
        ensures
            run.target() == effect,
    {
        EffectRun { effect }
    }

    /// Begins the run: give the effect its turn with [`Reactor::start_run`], then call
    /// [`RunBoundary::finish`].
    ///
    /// Inside a flush the run belongs to that flush. Outside any flush this single run is the
    /// flush. An effect that no longer exists opens none.
    pub fn run(self, reactor: &mut Reactor) -> (boundary: RunBoundary)
        requires
            old(reactor).wf(),
        ensures
            final(reactor).wf(),
            boundary.opened == (old(reactor)@.is_effect(self.target().0)
                && old(reactor)@.flush_depth == 0),
            final(reactor)@ == (if boundary.opened {
                old(reactor)@.begun()
            } else {
                old(reactor)@
            }),
    {
        if reactor.effect_record(self.effect).is_none() || reactor.in_flush() {
            return RunBoundary { opened: false };
        }
        reactor.begin_flush();
        RunBoundary { opened: true }
    }

    /// Returns the effect, unless it no longer exists.
    pub fn id(&self, reactor: &Reactor) -> (id: Option<NodeId>)
        ensures
            id == (if reactor@.is_effect(self.target().0) {
                Some(self.target())
            } else {
                None
            }),
    {
        if reactor.effect_record(self.effect).is_some() {
            Some(self.effect)
        } else {
            None
        }
    }

    /// Returns whether running would do nothing because the effect is disposed or gone.
    pub fn is_stale(&self, reactor: &Reactor) -> (stale: bool)
        ensures
            stale == (reactor@.is_effect(self.target().0) ==> reactor@.effect(
                self.target().0,
            ).disposed),
    {
        match reactor.effect_record(self.effect) {
            Some(effect) => effect.disposed,
            None => true,
        }
    }

    /// Lets the run go without running it. The effect can be asked to run again.
    pub fn discard(self, reactor: &mut Reactor)
        requires
            old(reactor).wf(),
        ensures
            final(reactor).wf(),
            final(reactor)@ == (if old(reactor)@.is_effect(self.target().0) {
                old(reactor)@.unlatched(self.target().0)
            } else {
                old(reactor)@
            }),
    {
        if reactor.effect_record(self.effect).is_some() {
            reactor.unlatch_scheduled(self.effect);
        }
    }
}

impl RunBoundary {
    /// Closes the flush that the run opened, if it opened one.
    pub fn finish(self, reactor: &mut Reactor)
        requires
            old(reactor).wf(),
        ensures
            final(reactor).wf(),
            final(reactor)@ == (if self.opened {
                old(reactor)@.finished()
            } else {
                old(reactor)@
            }),
    {
        if self.opened {
            reactor.end_flush();
        }
    }
}

/// Requests coalesce: while a run is pending, any number of further requests adds none, neither to
/// the queue nor to a lane.
pub proof fn requests_coalesce(model: ReactorModel, node: u64)
    requires
        model.is_effect(node),
    ensures
        model.requested(node).is_effect(node),
        model.requested(node).requested(node).jobs == model.requested(node).jobs,
        model.requested(node).requested(node).ready == model.requested(node).ready,
        model.requested(node).requested(node).observers == model.requested(node).observers,
{
}

/// A disposed effect never runs again: its turn opens no run, and a request leaves none pending.
pub proof fn disposed_effects_stay_quiet(model: ReactorModel, node: u64)
    requires
        model.is_effect(node),
        model.effect(node).disposed,
    ensures
        model.turn(node).1 == RunStep::Done,
        model.turn(node).0 == model.unlatched(node),
        model.requested(node).jobs == model.jobs,
        model.requested(node).ready == model.ready,
        model.requested(node).effect(node).disposed,
        model.effect_retired(node) == model,
{
}

/// An effect runs at most once per marking: a turn uses the pending run up and leaves the effect
/// counting as up to date, so that a second turn without a new mark is skipped.
pub proof fn turn_without_a_mark_is_skipped(model: ReactorModel, node: u64)
    requires
        model.is_effect(node),
        !model.effect(node).disposed,
        !model.effect(node).running,
        !model.graph.active(node),
        model.observers[node].state is Clean,
    ensures
        model.turn(node).1 == RunStep::Done,
        !model.turn(node).0.effect(node).scheduled,
        model.turn(node).0.graph == model.graph,
{
}

/// A run is never entered while one is in progress; it is owed instead.
pub proof fn running_effects_are_not_reentered(model: ReactorModel, node: u64)
    requires
        model.is_effect(node),
        !model.effect(node).disposed,
        model.effect(node).running || model.graph.active(node),
    ensures
        model.turn(node).1 == RunStep::Done,
        model.turn(node).0.effect(node).rerun_after_current,
        model.turn(node).0.observers[node].state == model.observers[node].state,
{
}

/// A flush inside another gets a number of its own but stays in the same logical drain, so the
/// divergence guard cannot be reset from within a drain.
pub proof fn nested_flushes_stay_in_the_drain(model: ReactorModel)
    requires
        model.flush_depth > 0,
    ensures
        model.drain_started().drain_epoch == model.drain_epoch,
        model.drain_started().flush_epoch == crate::model::wrapping_next(model.flush_epoch),
        model.begun().drain_epoch == model.drain_epoch,
        model.begun().flush_epoch == model.flush_epoch,
{
}

/// The divergence guard stops the run after the last one that a drain allows.
pub proof fn divergence_is_stopped(model: ReactorModel, node: u64)
    requires
        model.is_effect(node),
        model.effect(node).last_drain_epoch == model.drain_epoch,
        model.effect(node).runs_this_drain >= MAX_RUNS_PER_FLUSH,
    ensures
        model.run_opening(node).1 == RunStep::Diverged,
{
}

} // verus!
