//! Bringing computed nodes up to date.
//!
//! A computed node that may be stale is verified before it is recomputed: the dependencies it
//! recorded are brought up to date one by one, each in the same way, and the node recomputes at
//! the first whose version differs from the one it saw. A [`Refresh`] walks the graph in this
//! manner; whenever a computation has to run, it says so and waits.
use vstd::prelude::*;

use crate::diagnostics::{ComputeOutcome, DiagnosticEvent, NodeKind};
use crate::graph::RecordedDependency;
use crate::id::{Location, NodeId};
use crate::model::ReactorModel;
use crate::observers::{Observer, State};
use crate::reactor::{ContextGuard, ReactCycleError, Reactor};
use crate::stats::FlushItem;
use crate::tracking::Tracking;

verus! {

/// An observer that is comparing its recorded dependencies with the present.
#[derive(Debug)]
pub struct Verifying {
    observer: NodeId,
    recorded: Vec<RecordedDependency>,
    next: usize,
}

/// What a [`Verifying`] holds.
#[verifier::ext_equal]
pub struct VerifyingModel {
    /// The observer that is verified.
    pub observer: u64,
    /// Its recorded dependencies, in the order in which they are compared.
    pub recorded: Seq<RecordedDependency>,
    /// How many of them were found unchanged so far.
    pub next: nat,
}

impl View for Verifying {
    type V = VerifyingModel;

    closed spec fn view(&self) -> VerifyingModel {
        VerifyingModel {
            observer: self.observer.0,
            recorded: self.recorded@,
            next: self.next as nat,
        }
    }
}

/// Where a refresh stands.
#[derive(Clone, Copy, Debug, Eq, PartialEq, Structural)]
pub enum Stage {
    /// This node is to be brought up to date.
    Visit(NodeId),
    /// The node that was visited last has been dealt with.
    Settled,
    /// The innermost observer goes on to its next recorded dependency.
    Scan,
}

/// What a step of a refresh asks of the caller.
#[derive(Debug)]
pub enum RefreshStep {
    /// Nothing: take the next step.
    Continue,
    /// Recompute this node, then take the next step.
    Recompute(NodeId),
    /// The node is up to date.
    Done,
    /// The effect's dependencies were verified; the flag says whether one of them changed.
    Verified(bool),
    /// A dependency is being computed already.
    Cycle(ReactCycleError),
}

/// A refresh in progress.
#[derive(Debug)]
pub struct Refresh {
    frames: Vec<Verifying>,
    stage: Stage,
    for_effect: bool,
}

/// What a [`Refresh`] holds.
#[verifier::ext_equal]
pub struct RefreshModel {
    /// The observers that are being verified, outermost first.
    pub frames: Seq<VerifyingModel>,
    pub stage: Stage,
    /// The outermost observer is an effect, which only wants to know whether to run.
    pub for_effect: bool,
}

impl View for Refresh {
    type V = RefreshModel;

    closed spec fn view(&self) -> RefreshModel {
        RefreshModel {
            frames: self.frames@.map_values(|frame: Verifying| frame@),
            stage: self.stage,
            for_effect: self.for_effect,
        }
    }
}

impl VerifyingModel {
    /// The comparison stands at one of the recorded dependencies, or after the last.
    pub open spec fn wf(self) -> bool {
        self.next <= self.recorded.len() <= usize::MAX
    }

    /// How many dependencies are left to compare.
    pub open spec fn left(self) -> nat {
        (self.recorded.len() - self.next) as nat
    }
}

impl RefreshModel {
    /// Every comparison stands at a place that exists, and each observer but the innermost waits
    /// for one of its dependencies.
    pub open spec fn wf(self) -> bool {
        &&& forall|at: int| #![trigger self.frames[at]]
            0 <= at < self.frames.len() ==> self.frames[at].wf()
        &&& forall|at: int| #![trigger self.frames[at]]
            0 <= at < self.frames.len() - 1 ==> self.frames[at].left() > 0
        &&& self.stage == Stage::Scan ==> self.frames.len() > 0
        &&& self.stage != Stage::Scan && self.frames.len() > 0 ==> self.frames.last().left() > 0
    }

    /// The innermost observer.
    pub open spec fn top(self) -> VerifyingModel {
        self.frames.last()
    }

    /// The dependency that the innermost observer compares.
    pub open spec fn entry(self) -> RecordedDependency {
        self.top().recorded[self.top().next as int]
    }

    /// `node` is being verified.
    pub open spec fn verifies(self, node: u64) -> bool {
        exists|at: int| 0 <= at < self.frames.len() && #[trigger] self.frames[at].observer == node
    }

    /// The innermost observer is the effect that the refresh is for.
    pub open spec fn at_effect(self) -> bool {
        self.for_effect && self.frames.len() == 1
    }

    /// After the innermost observer is done.
    pub open spec fn popped(self) -> RefreshModel {
        RefreshModel { frames: self.frames.drop_last(), stage: Stage::Settled, ..self }
    }
}

impl ReactorModel {
    /// After a check-marked computed node verified its inputs.
    pub open spec fn verification_reported(self, node: u64, recomputed: bool) -> ReactorModel {
        let counted = self.recorded(FlushItem::ComputedVerified);
        if self.graph.nodes.contains_key(node) {
            counted.emitted(
                DiagnosticEvent::ComputedVerified {
                    reactor: self.id,
                    node: NodeId(node),
                    kind: self.graph.nodes[node].kind,
                    node_origin: self.graph.nodes[node].origin,
                    flush_epoch: self.flush_epoch,
                    recomputed,
                },
            )
        } else {
            counted
        }
    }

    /// After a computation was reported and started afresh. The node counts as up to date from
    /// here on, so that a write from inside the computation marks it again.
    pub open spec fn recompute_started(self, node: u64, lost: Seq<u64>) -> ReactorModel {
        let counted = self.recorded(FlushItem::ComputedRecomputed);
        let told = if self.graph.nodes.contains_key(node) {
            counted.emitted(
                DiagnosticEvent::ComputedRecomputeStarted {
                    reactor: self.id,
                    node: NodeId(node),
                    kind: self.graph.nodes[node].kind,
                    node_origin: self.graph.nodes[node].origin,
                    flush_epoch: self.flush_epoch,
                    dependencies_before: self.graph.inputs(node).dom().len() as usize,
                },
            )
        } else {
            counted
        };
        told.with_state(node, State::Clean).started(node, lost)
    }

    /// After the end of a computation was reported.
    pub open spec fn recompute_reported(
        self,
        node: u64,
        changed: bool,
        outcome: ComputeOutcome,
    ) -> ReactorModel {
        if self.graph.nodes.contains_key(node) {
            self.emitted(
                DiagnosticEvent::ComputedRecomputeFinished {
                    reactor: self.id,
                    node: NodeId(node),
                    kind: self.graph.nodes[node].kind,
                    node_origin: self.graph.nodes[node].origin,
                    flush_epoch: self.flush_epoch,
                    dependencies_after: self.graph.inputs(node).dom().len() as usize,
                    changed,
                    outcome,
                },
            )
        } else {
            self
        }
    }

    /// After a computation's value was published: a changed one is a new version.
    pub open spec fn published(self, node: u64, changed: bool) -> ReactorModel {
        let counted = if changed {
            ReactorModel { graph: self.graph.bumped(node), ..self }.recorded(
                FlushItem::ComputedChanged,
            )
        } else {
            self.recorded(FlushItem::ComputedSuppressed)
        };
        counted.recompute_reported(node, changed, ComputeOutcome::Completed)
    }

    /// After a computation unwound: the node stays dirty, so that its next read retries.
    pub open spec fn recompute_failed(self, node: u64) -> ReactorModel {
        self.ended().with_state(node, State::Dirty).recompute_reported(
            node,
            false,
            ComputeOutcome::Panicked,
        )
    }

    /// The record of a computed node that was just created: dirty, so that its first read computes.
    pub open spec fn computed_created(self, kind: NodeKind, origin: Location) -> ReactorModel {
        self.created(kind, origin).with_observer(
            self.graph.next_node,
            Observer { state: State::Dirty, registered: true, effect: None },
        )
    }
}

impl Reactor {
    /// Creates a computed node.
    pub(crate) fn create_computed(&mut self, kind: NodeKind, origin: Location) -> (node: NodeId)
        requires
            old(self).wf(),
            old(self)@.graph.next_node < u64::MAX,
        ensures
            final(self).wf(),
            final(self)@ == old(self)@.computed_created(kind, origin),
            node == NodeId(old(self)@.graph.next_node),
    {
        proof {
            self.wf_content();
        }
        let node = self.allocate_node(kind, origin);
        self.register_observer(
            node,
            Observer { state: State::Dirty, registered: true, effect: None },
        );
        node
    }

    /// Starts the computation of a node: run it, then call [`leave_context`] and publish its value,
    /// or call [`fail_recompute`](Self::fail_recompute) when it unwound.
    ///
    /// [`leave_context`]: Self::leave_context
    pub fn start_recompute(&mut self, tracking: &mut Tracking, node: NodeId) -> (guard:
        ContextGuard)
        requires
            old(self).wf(),
            old(self)@.is_computed(node.0),
            !old(self)@.graph.active(node.0),
        ensures
            final(self).wf(),
            exists|lost: Seq<u64>|
                crate::model::lists(lost, crate::model::abandoned(old(self)@.graph, node.0))
                    && final(self)@ == #[trigger] old(self)@.recompute_started(node.0, lost),
            *final(tracking) == (Tracking {
                untracked_depth: 0,
                running: Some(old(self)@.id),
            }),
            guard.previous == *old(tracking),
    {
        let reactor = self.id();
        let flush_epoch: u64 = self.flush_epoch();
        let dependencies_before: usize = self.dependency_count(node);
        self.record_flush(FlushItem::ComputedRecomputed);
        if let Some(kind) = self.node_kind(node) {
            if let Some(node_origin) = self.node_origin(node) {
                self.emit(
                    DiagnosticEvent::ComputedRecomputeStarted {
                        reactor,
                        node,
                        kind,
                        node_origin,
                        flush_epoch,
                        dependencies_before,
                    },
                );
            }
        }
        self.set_state(node, State::Clean);
        let ghost cleaned = self@;
        let guard = self.run_in_context(tracking, node);
        proof {
            let lost = choose|lost: Seq<u64>|
                crate::model::lists(lost, crate::model::abandoned(cleaned.graph, node.0))
                    && self@ == #[trigger] cleaned.started(node.0, lost);
            assert(self@ == old(self)@.recompute_started(node.0, lost));
        }
        guard
    }

    fn report_recompute(&mut self, node: NodeId, changed: bool, outcome: ComputeOutcome)
        requires
            old(self).wf(),
        ensures
            final(self).wf(),
            final(self)@ == old(self)@.recompute_reported(node.0, changed, outcome),
    {
        let reactor = self.id();
        let flush_epoch: u64 = self.flush_epoch();
        let dependencies_after: usize = self.dependency_count(node);
        if let Some(kind) = self.node_kind(node) {
            if let Some(node_origin) = self.node_origin(node) {
                self.emit(
                    DiagnosticEvent::ComputedRecomputeFinished {
                        reactor,
                        node,
                        kind,
                        node_origin,
                        flush_epoch,
                        dependencies_after,
                        changed,
                        outcome,
                    },
                );
            }
        }
    }

    /// Publishes the value of a computation that has ended: a changed one is a new version, which
    /// is what dependents compare against.
    pub fn publish(&mut self, node: NodeId, changed: bool)
        requires
            old(self).wf(),
        ensures
            final(self).wf(),
            final(self)@ == old(self)@.published(node.0, changed),
    {
        if changed {
            self.bump_version(node);
            self.record_flush(FlushItem::ComputedChanged);
        } else {
            self.record_flush(FlushItem::ComputedSuppressed);
        }
        self.report_recompute(node, changed, ComputeOutcome::Completed);
    }

    /// Ends a computation that unwound. The node stays dirty, so that its next read retries.
    pub fn fail_recompute(&mut self, tracking: &mut Tracking, guard: ContextGuard, node: NodeId)
        requires
            old(self).wf(),
            old(self)@.is_computed(node.0),
        ensures
            final(self).wf(),
            final(self)@ == old(self)@.recompute_failed(node.0),
            *final(tracking) == guard.previous,
    {
        self.leave_context(tracking, guard);
        self.set_state(node, State::Dirty);
        self.report_recompute(node, false, ComputeOutcome::Panicked);
    }

    fn report_verification(&mut self, node: NodeId, recomputed: bool)
        requires
            old(self).wf(),
        ensures
            final(self).wf(),
            final(self)@ == old(self)@.verification_reported(node.0, recomputed),
    {
        let reactor = self.id();
        let flush_epoch: u64 = self.flush_epoch();
        self.record_flush(FlushItem::ComputedVerified);
        if let Some(kind) = self.node_kind(node) {
            if let Some(node_origin) = self.node_origin(node) {
                self.emit(
                    DiagnosticEvent::ComputedVerified {
                        reactor,
                        node,
                        kind,
                        node_origin,
                        flush_epoch,
                        recomputed,
                    },
                );
            }
        }
    }
}

impl RefreshModel {
    /// The innermost observer goes on to its next dependency.
    pub open spec fn passed(self) -> RefreshModel {
        let top = self.top();
        RefreshModel {
            frames: self.frames.update(
                self.frames.len() - 1,
                VerifyingModel { next: top.next + 1, ..top },
            ),
            stage: Stage::Scan,
            ..self
        }
    }

    /// An observer starts to compare its dependencies, in the order of `list`.
    pub open spec fn pushed(self, node: u64, list: Seq<RecordedDependency>) -> RefreshModel {
        RefreshModel {
            frames: self.frames.push(VerifyingModel { observer: node, recorded: list, next: 0 }),
            stage: Stage::Scan,
            ..self
        }
    }

    /// `node` is a computed node that this refresh brings up to date: the one it was started for,
    /// or one that is registered.
    pub open spec fn concerns(self, reactor: ReactorModel, node: u64) -> bool {
        reactor.is_computed(node) && (self.frames.len() == 0 || reactor.observers[node].registered)
    }

    /// The observers that are being verified, from position `start` inwards.
    pub open spec fn observers_from(self, start: int) -> Seq<u64> {
        self.frames.skip(start).map_values(|frame: VerifyingModel| frame.observer)
    }

    /// The path of a cycle among the observers that are being verified.
    pub open spec fn loop_through(self, node: u64, path: Seq<u64>) -> bool {
        &&& path.len() >= 2
        &&& path.first() == node
        &&& path.last() == node
        &&& exists|start: int|
            0 <= start < self.frames.len() && path.drop_last() == #[trigger] self.observers_from(
                start,
            )
    }

    /// Visiting a node: an up-to-date one is settled, a dirty one recomputes, and a check-marked
    /// one verifies its dependencies. The reactor does not change.
    pub open spec fn visits(
        self,
        reactor: ReactorModel,
        node: u64,
        after: RefreshModel,
        step: RefreshStep,
    ) -> bool {
        let settled = RefreshModel { stage: Stage::Settled, ..self };
        if !self.concerns(reactor, node) {
            step is Continue && after == settled
        } else {
            match reactor.observers[node].state {
                State::Clean => step is Continue && after == settled,
                State::Dirty => step == RefreshStep::Recompute(NodeId(node)) && after == settled,
                State::Check => if self.verifies(node) {
                    &&& after == self
                    &&& step matches RefreshStep::Cycle(error) && self.loop_through(
                        node,
                        error.path(),
                    ) && error.sites() == error.path().map_values(
                        |on_path: u64| reactor.origin(on_path),
                    )
                } else {
                    &&& step is Continue
                    &&& exists|list: Seq<RecordedDependency>|
                        crate::graph::lists_inputs(list, reactor.graph.inputs(node)) && after
                            == #[trigger] self.pushed(node, list)
                },
            }
        }
    }

    /// Comparing a dependency that is up to date now: where its version is the recorded one the
    /// observer goes on, else it has to recompute, or to run.
    pub open spec fn compares(
        self,
        reactor: ReactorModel,
        after: RefreshModel,
        reactor_after: ReactorModel,
        step: RefreshStep,
    ) -> bool {
        if self.frames.len() == 0 {
            step is Done && after == self && reactor_after == reactor
        } else if reactor.graph.version(self.entry().node.0) == self.entry().version {
            step is Continue && after == self.passed() && reactor_after == reactor
        } else if self.at_effect() {
            &&& step == RefreshStep::Verified(true)
            &&& after == self.popped()
            &&& reactor_after == reactor
        } else {
            &&& step == RefreshStep::Recompute(NodeId(self.top().observer))
            &&& after == self.popped()
            &&& reactor_after == reactor.verification_reported(self.top().observer, true)
        }
    }

    /// Going on to the next dependency: it is visited, unless it is being computed, which is a
    /// cycle. An observer with no dependency left is up to date without recomputing, or does not
    /// have to run.
    pub open spec fn scans(
        self,
        reactor: ReactorModel,
        after: RefreshModel,
        reactor_after: ReactorModel,
        step: RefreshStep,
    ) -> bool {
        let node = self.top().observer;
        if self.top().left() > 0 {
            &&& reactor_after == reactor
            &&& if reactor.graph.active(self.entry().node.0) {
                &&& after == self
                &&& step matches RefreshStep::Cycle(error) && reactor.names_cycle(
                    self.entry().node.0,
                    error,
                )
            } else {
                &&& step is Continue
                &&& after == (RefreshModel { stage: Stage::Visit(self.entry().node), ..self })
            }
        } else if self.at_effect() {
            step == RefreshStep::Verified(false) && after == self.popped() && reactor_after
                == reactor
        } else {
            &&& step is Continue
            &&& after == self.popped()
            &&& reactor_after == (if reactor.observers.contains_key(node) {
                reactor.verification_reported(node, false).with_state(node, State::Clean)
            } else {
                reactor.verification_reported(node, false)
            })
        }
    }

    /// One step of a refresh.
    pub open spec fn advances(
        self,
        reactor: ReactorModel,
        after: RefreshModel,
        reactor_after: ReactorModel,
        step: RefreshStep,
    ) -> bool {
        match self.stage {
            Stage::Visit(node) => reactor_after == reactor && self.visits(
                reactor,
                node.0,
                after,
                step,
            ),
            Stage::Settled => self.compares(reactor, after, reactor_after, step),
            Stage::Scan => self.scans(reactor, after, reactor_after, step),
        }
    }
}

impl Refresh {
    /// Starts to bring a computed node up to date.
    pub fn node(node: NodeId) -> (refresh: Self)
        ensures
            refresh@.wf(),
            refresh@ == (RefreshModel {
                frames: Seq::empty(),
                stage: Stage::Visit(node),
                for_effect: false,
            }),
            forall|reactor: ReactorModel| #[trigger] refresh@.sound(reactor),
    {
        let refresh = Refresh { frames: Vec::new(), stage: Stage::Visit(node), for_effect: false };
        assert(refresh@.frames =~= Seq::empty());
        refresh
    }

    /// Starts to find out whether a recorded dependency of an effect changed.
    pub fn effect(reactor: &Reactor, effect: NodeId) -> (refresh: Self)
        requires
            reactor.wf(),
        ensures
            refresh@.wf(),
            exists|list: Seq<RecordedDependency>|
                crate::graph::lists_inputs(list, reactor@.graph.inputs(effect.0)) && refresh@
                    == #[trigger] (RefreshModel {
                    frames: Seq::empty(),
                    stage: Stage::Scan,
                    for_effect: true,
                }).pushed(effect.0, list),
            refresh@.sound(reactor@),
    {
        let recorded = reactor.dependencies_of(effect);
        let ghost list = recorded@;
        let total: usize = recorded.len();
        let mut frames: Vec<Verifying> = Vec::new();
        frames.push(Verifying { observer: effect, recorded, next: 0 });
        let refresh = Refresh { frames, stage: Stage::Scan, for_effect: true };
        assert(refresh@ =~= (RefreshModel {
            frames: Seq::empty(),
            stage: Stage::Scan,
            for_effect: true,
        }).pushed(effect.0, list));
        assert(refresh@.frames[0].recorded == list && total == list.len());
        proof {
            crate::freshness::started_refreshes_are_sound(reactor@, effect, list);
        }
        refresh
    }

    /// Returns where `node` stands among the observers that are being verified.
    fn position(&self, node: NodeId) -> (position: Option<usize>)
        ensures
            position is Some <==> self@.verifies(node.0),
            position matches Some(at) ==> at < self@.frames.len() && self@.frames[at as int].observer
                == node.0,
    {
        let mut index: usize = 0;
        while index < self.frames.len()
            invariant
                index <= self.frames.len(),
                forall|at: int| #![trigger self@.frames[at]]
                    0 <= at < index ==> self@.frames[at].observer != node.0,
            decreases self.frames.len() - index,
        {
            assert(self@.frames[index as int] == self.frames@[index as int]@);
            if self.frames[index].observer == node {
                assert(self@.frames[index as int].observer == node.0);
                return Some(index);
            }
            index = index + 1;
        }
        None
    }

    fn visit(&mut self, reactor: &Reactor, node: NodeId) -> (step: RefreshStep)
        requires
            old(self)@.wf(),
            old(self)@.stage == Stage::Visit(node),
            reactor.wf(),
        ensures
            final(self)@.wf(),
            old(self)@.visits(reactor@, node.0, final(self)@, step),
    {
        let ghost before = self@;
        let depth: usize = self.frames.len();
        if let Some(observer) = reactor.observer(node) {
            if observer.effect.is_none() && (depth == 0 || observer.registered) {
                match observer.state {
                    State::Clean => {},
                    State::Dirty => {
                        self.stage = Stage::Settled;
                        return RefreshStep::Recompute(node);
                    },
                    State::Check => {
                        if let Some(start) = self.position(node) {
                            let path = self.path_from(start, node);
                            return RefreshStep::Cycle(reactor.cycle_error(path));
                        }
                        let recorded = reactor.dependencies_of(node);
                        let ghost list = recorded@;
                        let total: usize = recorded.len();
                        self.frames.push(Verifying { observer: node, recorded, next: 0 });
                        self.stage = Stage::Scan;
                        proof {
                            assert(self@ =~= before.pushed(node.0, list));
                            assert(total == list.len());
                            assert forall|at: int| #![trigger self@.frames[at]]
                                0 <= at < self@.frames.len() implies self@.frames[at].wf() by {
                                if at < before.frames.len() {
                                    assert(self@.frames[at] == before.frames[at]);
                                }
                            }
                            assert forall|at: int| #![trigger self@.frames[at]]
                                0 <= at < self@.frames.len() - 1 implies self@.frames[at].left()
                                > 0 by {
                                assert(self@.frames[at] == before.frames[at]);
                            }
                        }
                        return RefreshStep::Continue;
                    },
                }
            }
        }
        self.stage = Stage::Settled;
        assert(self@ =~= RefreshModel { stage: Stage::Settled, ..before });
        RefreshStep::Continue
    }

    /// Lists the observers from `start` inwards, and `node` once more.
    fn path_from(&self, start: usize, node: NodeId) -> (path: Vec<NodeId>)
        requires
            start < self@.frames.len(),
            self@.frames[start as int].observer == node.0,
        ensures
            self@.loop_through(node.0, path@.map_values(|node: NodeId| node.0)),
    {
        let mut path: Vec<NodeId> = Vec::new();
        let mut index: usize = start;
        while index < self.frames.len()
            invariant
                start <= index <= self.frames.len(),
                path@.len() == index - start,
                forall|at: int| #![trigger path@[at]]
                    0 <= at < path@.len() ==> path@[at].0 == self@.frames[start + at].observer,
            decreases self.frames.len() - index,
        {
            assert(self@.frames[index as int] == self.frames@[index as int]@);
            path.push(self.frames[index].observer);
            index = index + 1;
        }
        path.push(node);
        proof {
            let ids = path@.map_values(|node: NodeId| node.0);
            assert(ids.drop_last() =~= self@.observers_from(start as int));
        }
        path
    }

    fn pop(&mut self) -> (frame: Option<Verifying>)
        requires
            old(self)@.wf(),
            old(self)@.frames.len() > 0,
        ensures
            final(self)@.wf(),
            final(self)@ == old(self)@.popped(),
            frame matches Some(frame) && frame@ == old(self)@.top(),
    {
        let frame = self.frames.pop();
        self.stage = Stage::Settled;
        proof {
            assert(self@ =~= old(self)@.popped());
            assert forall|at: int| #![trigger self@.frames[at]]
                0 <= at < self@.frames.len() implies self@.frames[at].wf() && self@.frames[at].left()
                > 0 by {
                assert(self@.frames[at] == old(self)@.frames[at]);
            }
        }
        frame
    }

    fn compare(&mut self, reactor: &mut Reactor) -> (step: RefreshStep)
        requires
            old(self)@.wf(),
            old(self)@.stage == Stage::Settled,
            old(reactor).wf(),
        ensures
            final(self)@.wf(),
            final(reactor).wf(),
            old(self)@.compares(old(reactor)@, final(self)@, final(reactor)@, step),
    {
        let ghost before = self@;
        let depth: usize = self.frames.len();
        if depth == 0 {
            return RefreshStep::Done;
        }
        let at_effect = self.for_effect && depth == 1;
        assert(self@.frames[depth - 1] == self.frames@[depth - 1]@);
        let entry = self.frames[depth - 1].recorded[self.frames[depth - 1].next];
        if reactor.version(entry.node) == entry.version {
            if let Some(top) = self.frames.pop() {
                let Verifying { observer, recorded, next } = top;
                self.frames.push(Verifying { observer, recorded, next: next + 1 });
            }
            self.stage = Stage::Scan;
            proof {
                assert(self@ =~= before.passed());
                assert forall|at: int| #![trigger self@.frames[at]]
                    0 <= at < self@.frames.len() implies self@.frames[at].wf() by {
                    assert(before.frames[at].wf());
                }
                assert forall|at: int| #![trigger self@.frames[at]]
                    0 <= at < self@.frames.len() - 1 implies self@.frames[at].left() > 0 by {
                    assert(before.frames[at].left() > 0);
                }
            }
            return RefreshStep::Continue;
        }
        let observer = self.frames[depth - 1].observer;
        let _ = self.pop();
        if at_effect {
            return RefreshStep::Verified(true);
        }
        reactor.report_verification(observer, true);
        RefreshStep::Recompute(observer)
    }

    fn scan(&mut self, reactor: &mut Reactor) -> (step: RefreshStep)
        requires
            old(self)@.wf(),
            old(self)@.stage == Stage::Scan,
            old(reactor).wf(),
        ensures
            final(self)@.wf(),
            final(reactor).wf(),
            old(self)@.scans(old(reactor)@, final(self)@, final(reactor)@, step),
    {
        let ghost before = self@;
        let depth: usize = self.frames.len();
        let at_effect = self.for_effect && depth == 1;
        assert(self@.frames[depth - 1] == self.frames@[depth - 1]@);
        let observer = self.frames[depth - 1].observer;
        let next: usize = self.frames[depth - 1].next;
        if next < self.frames[depth - 1].recorded.len() {
            let node = self.frames[depth - 1].recorded[next].node;
            return match reactor.cycle_check(node) {
                Ok(()) => {
                    self.stage = Stage::Visit(node);
                    assert(self@ =~= RefreshModel { stage: Stage::Visit(node), ..before });
                    RefreshStep::Continue
                },
                Err(error) => RefreshStep::Cycle(error),
            };
        }
        let _ = self.pop();
        if at_effect {
            return RefreshStep::Verified(false);
        }
        reactor.report_verification(observer, false);
        if reactor.observer(observer).is_some() {
            reactor.set_state(observer, State::Clean);
        }
        RefreshStep::Continue
    }

    /// Takes one step. A refresh that is in order stays so, and what it says can be relied upon: see
    /// [`crate::freshness`].
    pub fn step(&mut self, reactor: &mut Reactor) -> (step: RefreshStep)
        requires
            old(self)@.wf(),
            old(reactor).wf(),
        ensures
            final(self)@.wf(),
            final(reactor).wf(),
            old(self)@.advances(old(reactor)@, final(self)@, final(reactor)@, step),
            old(self)@.sound(old(reactor)@) && old(reactor)@.up_to_date()
                ==> crate::freshness::step_is_sound(
                old(self)@,
                old(reactor)@,
                final(self)@,
                final(reactor)@,
                step,
            ),
    {
        let ghost (before, reactor_before) = (self@, reactor@);
        let step = match self.stage {
            Stage::Visit(node) => self.visit(reactor, node),
            Stage::Settled => self.compare(reactor),
            Stage::Scan => self.scan(reactor),
        };
        proof {
            if before.sound(reactor_before) && reactor_before.up_to_date() {
                crate::freshness::refresh_keeps_up_to_date(
                    before,
                    reactor_before,
                    self@,
                    reactor@,
                    step,
                );
            }
        }
        step
    }
}

/// How much comparing the observers have left, each of them counting once besides.
pub open spec fn comparisons_left(frames: Seq<VerifyingModel>) -> nat
    decreases frames.len(),
{
    if frames.len() == 0 {
        0
    } else {
        comparisons_left(frames.drop_last()) + frames.last().left() + 1
    }
}

impl RefreshModel {
    /// The check-marked observers that are not being verified yet.
    pub open spec fn unverified(self, reactor: ReactorModel) -> Set<u64> {
        reactor.observers.dom().filter(
            |node: u64| reactor.observers[node].state is Check && !self.verifies(node),
        )
    }

    /// The place of the stage in the course of dealing with one dependency.
    pub open spec fn stage_rank(self) -> nat {
        match self.stage {
            Stage::Scan => 2,
            Stage::Visit(_) => 1,
            Stage::Settled => 0,
        }
    }
}

/// A refresh ends: every step that asks nothing of the caller leaves fewer check-marked observers
/// that are not being verified yet, or as many and less to compare, or as much of both and a later
/// stage.
pub proof fn refresh_makes_progress(
    refresh: RefreshModel,
    reactor: ReactorModel,
    after: RefreshModel,
    reactor_after: ReactorModel,
    step: RefreshStep,
)
    requires
        refresh.wf(),
        reactor.observers.dom().finite(),
        refresh.advances(reactor, after, reactor_after, step),
        step is Continue,
    ensures
        after.unverified(reactor_after).len() <= refresh.unverified(reactor).len(),
        after.unverified(reactor_after).len() == refresh.unverified(reactor).len() ==> {
            ||| comparisons_left(after.frames) < comparisons_left(refresh.frames)
            ||| {
                &&& comparisons_left(after.frames) == comparisons_left(refresh.frames)
                &&& after.stage_rank() < refresh.stage_rank()
            }
        },
{
    let before = refresh.unverified(reactor);
    vstd::set_lib::lemma_set_subset_finite(reactor.observers.dom(), before);
    match refresh.stage {
        Stage::Visit(node) => {
            if after.stage == Stage::Settled {
                assert(after.unverified(reactor_after) =~= before);
            } else {
                let list = choose|list: Seq<RecordedDependency>|
                    crate::graph::lists_inputs(list, reactor.graph.inputs(node.0)) && after
                        == #[trigger] refresh.pushed(node.0, list);
                assert(after.frames.drop_last() =~= refresh.frames);
                assert forall|other: u64| after.verifies(other) <==> refresh.verifies(other)
                    || other == node.0 by {
                    if refresh.verifies(other) {
                        let at = choose|at: int|
                            0 <= at < refresh.frames.len() && #[trigger] refresh.frames[at].observer
                                == other;
                        assert(after.frames[at].observer == other);
                    }
                    assert(after.frames[refresh.frames.len() as int].observer == node.0);
                    if after.verifies(other) && other != node.0 {
                        let at = choose|at: int|
                            0 <= at < after.frames.len() && #[trigger] after.frames[at].observer
                                == other;
                        assert(refresh.frames[at].observer == other);
                    }
                }
                assert(after.unverified(reactor_after) =~= before.remove(node.0));
                assert(before.contains(node.0));
            }
        },
        Stage::Settled => {
            assert(after.frames.drop_last() =~= refresh.frames.drop_last());
            same_observers_verified(refresh, after);
            assert(after.unverified(reactor_after) =~= before);
        },
        Stage::Scan => {
            if refresh.top().left() > 0 {
                assert(after.unverified(reactor_after) =~= before);
            } else {
                let done = refresh.top().observer;
                assert(refresh.frames[refresh.frames.len() - 1].observer == done);
                assert forall|other: u64| other != done implies after.verifies(other)
                    == refresh.verifies(other) by {
                    if refresh.verifies(other) {
                        let at = choose|at: int|
                            0 <= at < refresh.frames.len() && #[trigger] refresh.frames[at].observer
                                == other;
                        assert(after.frames[at].observer == other);
                    }
                    if after.verifies(other) {
                        let at = choose|at: int|
                            0 <= at < after.frames.len() && #[trigger] after.frames[at].observer
                                == other;
                        assert(refresh.frames[at].observer == other);
                    }
                }
                assert(refresh.verifies(done));
                assert(after.unverified(reactor_after) =~= before);
            }
        },
    }
}

/// Going on to the next dependency keeps who is being verified.
proof fn same_observers_verified(refresh: RefreshModel, after: RefreshModel)
    requires
        refresh.frames.len() > 0,
        after == refresh.passed(),
    ensures
        forall|node: u64| after.verifies(node) == refresh.verifies(node),
{
    assert forall|node: u64| after.verifies(node) == refresh.verifies(node) by {
        if refresh.verifies(node) {
            let at = choose|at: int|
                0 <= at < refresh.frames.len() && #[trigger] refresh.frames[at].observer == node;
            assert(after.frames[at].observer == node);
        }
        if after.verifies(node) {
            let at = choose|at: int|
                0 <= at < after.frames.len() && #[trigger] after.frames[at].observer == node;
            assert(refresh.frames[at].observer == node);
        }
    }
}

/// A refresh recomputes only what has to be: a node that it visited dirty, or one of whose recorded
/// dependencies has another version than the one it saw.
pub proof fn refresh_recomputes_only_what_changed(
    refresh: RefreshModel,
    reactor: ReactorModel,
    after: RefreshModel,
    reactor_after: ReactorModel,
    node: NodeId,
)
    requires
        refresh.wf(),
        refresh.advances(reactor, after, reactor_after, RefreshStep::Recompute(node)),
    ensures
        ({
            ||| reactor.is_computed(node.0) && reactor.observers[node.0].state is Dirty
            ||| {
                &&& refresh.frames.len() > 0
                &&& refresh.top().observer == node.0
                &&& reactor.graph.version(refresh.entry().node.0) != refresh.entry().version
            }
        }),
{
}

/// A node recomputes at most once per change: as soon as it was recomputed it counts as up to date,
/// and whoever visits it then, along whichever path, finds nothing to do.
pub proof fn recomputed_nodes_are_not_recomputed_again(
    model: ReactorModel,
    node: u64,
    lost: Seq<u64>,
    changed: bool,
    refresh: RefreshModel,
    after: RefreshModel,
    reactor_after: ReactorModel,
    step: RefreshStep,
)
    requires
        model.is_computed(node),
        refresh.stage == Stage::Visit(NodeId(node)),
        refresh.advances(
            model.recompute_started(node, lost).ended().published(node, changed),
            after,
            reactor_after,
            step,
        ),
    ensures
        model.recompute_started(node, lost).observers[node].state is Clean,
        step is Continue,
        after == (RefreshModel { stage: Stage::Settled, ..refresh }),
        reactor_after == model.recompute_started(node, lost).ended().published(node, changed),
{
    crate::coherence::recompute_start_parts(model, node, lost);
}

/// A computation that failed is retried: its node, unless it is gone, stays dirty, so that the next
/// visit asks for it again.
pub proof fn failed_computations_are_retried(
    model: ReactorModel,
    node: u64,
    refresh: RefreshModel,
    after: RefreshModel,
    reactor_after: ReactorModel,
    step: RefreshStep,
)
    requires
        model.is_computed(node),
        model.observers[node].registered,
        refresh.stage == Stage::Visit(NodeId(node)),
        refresh.advances(model.recompute_failed(node), after, reactor_after, step),
    ensures
        step == RefreshStep::Recompute(NodeId(node)),
        model.recompute_failed(node).graph.nodes == model.graph.nodes,
{
}

} // verus!
