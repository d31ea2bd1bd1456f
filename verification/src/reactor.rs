//! The coordinator of a reactive graph.
use std::collections::VecDeque;
use vstd::prelude::*;

use crate::collections::HookTable;
use crate::diagnostics::{
    DiagnosticEvent, DiagnosticSubscription, InvalidationCause, NodeKind, ReactorId,
};
use crate::graph::{Graph, RecordedDependency};
use crate::id::{Location, NodeId};
use crate::model::{Job, ReactorModel};
use crate::observers::{Delivery, EffectRecord, HookState, Observer, Observers, State};
use crate::stats::{FlushAccounting, FlushItem, GraphCounters, GraphStats};
use crate::tracking::Tracking;

verus! {

/// Single-threaded coordinator for a reactive graph.
///
/// A reactor tracks dependency edges between reactive nodes, manages the stack of running
/// computations, and queues deferred jobs. It decides; whoever drives it runs the computations,
/// effects and jobs it names, and takes the diagnostic events and wake-ups it leaves.
pub struct Reactor {
    id: ReactorId,
    graph: Graph,
    observers: Observers,
    hooks: HookTable,
    jobs: VecDeque<Job>,
    ready: Vec<NodeId>,
    flush_scheduled: bool,
    wake: bool,
    flush_epoch: u64,
    open_flush_epoch: u64,
    drain_epoch: u64,
    flush_depth: u32,
    next_diagnostic: u64,
    subscribers: Vec<u64>,
    events: Vec<DiagnosticEvent>,
    counters: GraphCounters,
    flushes: FlushAccounting,
}

impl View for Reactor {
    type V = ReactorModel;

    closed spec fn view(&self) -> ReactorModel {
        ReactorModel {
            id: self.id,
            graph: self.graph@,
            observers: self.observers@,
            hooks: self.hooks@,
            jobs: self.jobs@,
            ready: self.ready@,
            flush_scheduled: self.flush_scheduled,
            wake: self.wake,
            flush_epoch: self.flush_epoch,
            open_flush_epoch: self.open_flush_epoch,
            drain_epoch: self.drain_epoch,
            flush_depth: self.flush_depth,
            next_diagnostic: self.next_diagnostic,
            subscribers: self.subscribers@,
            events: self.events@,
            counts: self.counters@,
            ledger: self.flushes@,
        }
    }
}

impl Reactor {
    /// The parts of the reactor are consistent, and so is what they hold together.
    pub closed spec fn wf(&self) -> bool {
        &&& self.graph.wf()
        &&& self.observers.wf()
        &&& self@.wf()
    }

    /// A consistent reactor holds consistent content.
    pub broadcast proof fn wf_content(&self)
        requires
            #[trigger] self.wf(),
        ensures
            self@.wf(),
    {
    }

    /// Creates a new empty reactor.
    pub fn new(id: ReactorId) -> (reactor: Self)
        ensures
            reactor.wf(),
            reactor@ == ReactorModel::fresh(id),
    {
        let reactor = Reactor {
            id,
            graph: Graph::new(),
            observers: Observers::new(),
            hooks: HookTable::new(),
            jobs: VecDeque::new(),
            ready: Vec::new(),
            flush_scheduled: false,
            wake: false,
            flush_epoch: 0,
            open_flush_epoch: 0,
            drain_epoch: 0,
            flush_depth: 0,
            next_diagnostic: 1,
            subscribers: Vec::new(),
            events: Vec::new(),
            counters: GraphCounters::new(),
            flushes: FlushAccounting::new(),
        };
        proof {
            assert(crate::model::pending_effects(reactor.observers@) =~= Set::empty());
            assert forall|kind: NodeKind| reactor@.graph.of_kind(kind) =~= Set::<u64>::empty() by {}
            assert(reactor@ =~= ReactorModel::fresh(id));
        }
        reactor
    }

    /// Returns this reactor's process-local identifier.
    pub fn id(&self) -> (id: ReactorId)
        ensures
            id == self@.id,
    {
        self.id
    }

    /// Returns whether diagnostics have a subscriber.
    pub fn diagnostics_enabled(&self) -> (enabled: bool)
        ensures
            enabled == self@.listening(),
    {
        self.subscribers.len() > 0
    }

    /// Reports an event to whoever listens.
    pub(crate) fn emit(&mut self, event: DiagnosticEvent)
        requires
            old(self).wf(),
        ensures
            final(self).wf(),
            final(self)@ == old(self)@.emitted(event),
    {
        if self.diagnostics_enabled() {
            self.events.push(event);
        }
        assert(self@ =~= old(self)@.emitted(event));
    }

    /// Adds to the totals of whichever flush this work belongs to.
    pub(crate) fn record_flush(&mut self, item: FlushItem)
        requires
            old(self).wf(),
        ensures
            final(self).wf(),
            final(self)@ == old(self)@.recorded(item),
    {
        if self.diagnostics_enabled() {
            self.flushes.record(item);
        }
        assert(self@ =~= old(self)@.recorded(item));
    }

    fn ensure_flush_scheduled(&mut self)
        requires
            old(self).wf(),
        ensures
            final(self).wf(),
            final(self)@ == old(self)@.flush_asked(),
    {
        if !self.flush_scheduled {
            self.flush_scheduled = true;
            self.wake = true;
        }
        assert(self@ =~= old(self)@.flush_asked());
    }

    /// Queues a job for the next flush.
    pub fn schedule(&mut self, job: Job)
        requires
            old(self).wf(),
        ensures
            final(self).wf(),
            final(self)@ == old(self)@.scheduled(job),
    {
        self.jobs.push_back(job);
        let pending: usize = self.jobs.len();
        self.counters.job_queued(pending);
        assert(self@.counts_agree());
        self.ensure_flush_scheduled();
        assert(self@ =~= old(self)@.scheduled(job));
    }
}

/// A new node adds one to its own kind and leaves the others as they were.
proof fn creation_counts(model: ReactorModel, kind: NodeKind, origin: Location)
    requires
        model.wf(),
        model.graph.next_node < u64::MAX,
        model.graph.allocated(kind, origin).nodes.dom().len() <= usize::MAX,
    ensures
        model.created(kind, origin).counts_agree(),
{
    let before = model.graph;
    let after = before.allocated(kind, origin);
    let node = before.next_node;
    assert(!before.nodes.contains_key(node));
    assert(after.nodes.dom() =~= before.nodes.dom().insert(node));
    assert forall|other: NodeKind| model.created(kind, origin).counts.live_nodes_by_kind[#[trigger]
        other.position()] == after.of_kind(other).len() by {
        assert(model.counts.live_nodes_by_kind[other.position()] == before.of_kind(other).len());
        vstd::set_lib::lemma_set_subset_finite(before.nodes.dom(), before.of_kind(other));
        if other == kind {
            assert(after.of_kind(kind) =~= before.of_kind(kind).insert(node));
            vstd::set_lib::lemma_len_subset(after.of_kind(kind), after.nodes.dom());
        } else {
            assert(after.of_kind(other) =~= before.of_kind(other));
            crate::diagnostics::kinds_have_distinct_positions(kind, other);
        }
        crate::diagnostics::kinds_have_distinct_positions(kind, kind);
    }
}

impl Reactor {
    /// Allocates a node.
    pub fn allocate_node(&mut self, kind: NodeKind, origin: Location) -> (node: NodeId)
        requires
            old(self).wf(),
            old(self)@.graph.next_node < u64::MAX,
        ensures
            final(self).wf(),
            final(self)@ == old(self)@.created(kind, origin),
            node == NodeId(old(self)@.graph.next_node),
    {
        let node = self.graph.allocate(kind, origin);
        let live: usize = self.graph.live_nodes();
        self.counters.node_created(kind, live);
        proof {
            creation_counts(old(self)@, kind, origin);
        }
        let reactor = self.id;
        self.emit(DiagnosticEvent::NodeCreated { reactor, node, kind, origin });
        assert(self@ =~= old(self)@.created(kind, origin));
        node
    }

    /// Records that `node` gained its first observer or lost its last, and queues delivery of the
    /// corresponding hook.
    fn note_observation_change(&mut self, node: u64, observed: bool)
        requires
            old(self).wf(),
        ensures
            final(self).wf(),
            final(self)@ == old(self)@.noted(node, observed),
    {
        if let Some(hooks) = self.hooks.get(node) {
            let _ = self.hooks.insert(node, HookState { observed, queued: true, ..hooks });
            if !hooks.queued {
                self.schedule(Job::Hook(NodeId::new(node)));
            }
        }
        assert(self@ =~= old(self)@.noted(node, observed));
    }

    /// Records that `observer` read `node` at its current version.
    fn record_dependency(&mut self, observer: NodeId, node: NodeId)
        requires
            old(self).wf(),
            old(self)@.graph.edges.dom().len() < usize::MAX,
        ensures
            final(self).wf(),
            final(self)@ == old(self)@.observing(observer.0, node.0),
    {
        let ghost before = self@;
        let ghost after = before.graph.observing(observer.0, node.0);
        let (added, became_observed) = self.graph.observe(observer, node);
        proof {
            assert(after.edges.dom() =~= before.graph.edges.dom().insert((observer.0, node.0)));
            assert forall|kind: NodeKind| after.of_kind(kind) =~= before.graph.of_kind(kind) by {}
        }
        if added {
            self.counters.edge_added();
            self.record_flush(FlushItem::EdgeAdded);
        }
        if became_observed {
            self.note_observation_change(node.0, true);
        }
        assert(self@ =~= before.observing(observer.0, node.0));
    }
}

/// Retracting as many edges as left the graph keeps the counts right.
proof fn retraction_counts(before: ReactorModel, after: ReactorModel, count: usize)
    requires
        before.wf(),
        after.graph.nodes == before.graph.nodes,
        after.graph.next_node == before.graph.next_node,
        after.observers == before.observers,
        after.counts == before.counts.edges_removed(count),
        before.graph.edges.dom().len() == after.graph.edges.dom().len() + count,
    ensures
        after.counts_agree(),
{
    assert forall|kind: NodeKind| after.graph.of_kind(kind) =~= before.graph.of_kind(kind) by {}
    assert forall|kind: NodeKind| after.counts.live_nodes_by_kind[#[trigger] kind.position()]
        == after.graph.of_kind(kind).len() by {
        assert(before.counts.live_nodes_by_kind[kind.position()] == before.graph.of_kind(
            kind,
        ).len());
    }
}

/// Every live node is of exactly one kind: the live nodes of all kinds together are the live nodes,
/// and those are the nodes that were created and not disposed.
pub proof fn kinds_add_up(model: ReactorModel)
    requires
        model.wf(),
    ensures
        forall|kind: NodeKind|
            model.counts.live_nodes_by_kind[#[trigger] kind.position()] == model.graph.of_kind(
                kind,
            ).len(),
        crate::stats::over_all_kinds(model.counts.live_nodes_by_kind)
            == model.graph.nodes.dom().len(),
        model.graph.nodes.dom().len() == model.counts.nodes_created - model.counts.nodes_disposed,
{
    let graph = model.graph;
    let all = graph.nodes.dom();
    let sources = graph.of_kind(NodeKind::Source);
    let signals = graph.of_kind(NodeKind::Signal);
    let events = graph.of_kind(NodeKind::Event);
    let thunks = graph.of_kind(NodeKind::Thunk);
    let memos = graph.of_kind(NodeKind::Memo);
    let effects = graph.of_kind(NodeKind::Effect);
    assert forall|kind: NodeKind| #[trigger] graph.of_kind(kind).finite() by {
        vstd::set_lib::lemma_set_subset_finite(all, graph.of_kind(kind));
    }
    vstd::set_lib::lemma_set_disjoint_lens(sources, signals);
    let upto_signals = sources + signals;
    vstd::set_lib::lemma_set_disjoint_lens(upto_signals, events);
    let upto_events = upto_signals + events;
    vstd::set_lib::lemma_set_disjoint_lens(upto_events, thunks);
    let upto_thunks = upto_events + thunks;
    vstd::set_lib::lemma_set_disjoint_lens(upto_thunks, memos);
    let upto_memos = upto_thunks + memos;
    vstd::set_lib::lemma_set_disjoint_lens(upto_memos, effects);
    assert(upto_memos + effects =~= all) by {
        assert forall|node: u64| all.contains(node) implies (upto_memos + effects).contains(
            node,
        ) by {
            match graph.nodes[node].kind {
                NodeKind::Source => {},
                NodeKind::Signal => {},
                NodeKind::Event => {},
                NodeKind::Thunk => {},
                NodeKind::Memo => {},
                NodeKind::Effect => {},
            }
        }
    }
    let counts = model.counts.live_nodes_by_kind;
    assert(counts[NodeKind::Source.position()] == sources.len());
    assert(counts[NodeKind::Signal.position()] == signals.len());
    assert(counts[NodeKind::Event.position()] == events.len());
    assert(counts[NodeKind::Thunk.position()] == thunks.len());
    assert(counts[NodeKind::Memo.position()] == memos.len());
    assert(counts[NodeKind::Effect.position()] == effects.len());
}

/// Disposing a live node takes one from its own kind and leaves the others as they were.
proof fn disposal_counts(before: ReactorModel, after: ReactorModel, node: u64)
    requires
        before.wf(),
        before.graph.nodes.contains_key(node),
        after.graph == before.graph.without_node(node),
        after.observers == before.observers,
        after.counts == before.counts.node_disposed(before.graph.nodes[node].kind),
    ensures
        after.counts_agree(),
{
    let kind = before.graph.nodes[node].kind;
    assert forall|other: NodeKind| after.counts.live_nodes_by_kind[#[trigger] other.position()]
        == after.graph.of_kind(other).len() by {
        assert(before.counts.live_nodes_by_kind[other.position()] == before.graph.of_kind(
            other,
        ).len());
        vstd::set_lib::lemma_set_subset_finite(
            before.graph.nodes.dom(),
            before.graph.of_kind(other),
        );
        crate::diagnostics::kinds_have_distinct_positions(kind, other);
        if other == kind {
            assert(after.graph.of_kind(kind) =~= before.graph.of_kind(kind).remove(node));
            assert(before.graph.of_kind(kind).contains(node));
        } else {
            assert(after.graph.of_kind(other) =~= before.graph.of_kind(other));
        }
    }
    assert(after.graph.nodes.dom() =~= before.graph.nodes.dom().remove(node));
}

/// Letting marks no longer reach an observer keeps who has a run pending.
proof fn unregistering_keeps_pending(model: ReactorModel, node: u64)
    ensures
        crate::model::pending_effects(model.unregistered(node).observers)
            == crate::model::pending_effects(model.observers),
        model.unregistered(node).observers.dom() == model.observers.dom(),
{
    assert(crate::model::pending_effects(model.unregistered(node).observers)
        =~= crate::model::pending_effects(model.observers));
    assert(model.unregistered(node).observers.dom() =~= model.observers.dom());
}

impl Reactor {
    /// Drops every edge `observer` recorded during its last run, and returns the nodes that lost
    /// their last observer.
    fn clear_observer_dependencies(&mut self, observer: NodeId) -> (lost: Vec<u64>)
        requires
            old(self).wf(),
        ensures
            final(self).wf(),
            crate::model::lists(
                lost@,
                crate::model::abandoned(old(self)@.graph, observer.0),
            ),
            final(self)@ == old(self)@.forgotten(observer.0, lost@),
    {
        let ghost before = self@;
        let (removed, lost) = self.graph.forget_inputs(observer);
        self.counters.edges_removed(removed);
        proof {
            crate::graph::forgetting_takes_out_the_inputs(before.graph, observer.0);
            retraction_counts(before, self@, removed);
        }
        self.record_flush(FlushItem::EdgesRemoved { count: removed });
        let ghost cut = self@;
        let mut index: usize = 0;
        assert(lost@.take(0) =~= Seq::empty());
        while index < lost.len()
            invariant
                index <= lost.len(),
                self.wf(),
                self@ == cut.noted_abandoned(lost@.take(index as int)),
            decreases lost.len() - index,
        {
            assert(lost@.take(index + 1).drop_last() =~= lost@.take(index as int));
            self.note_observation_change(lost[index], false);
            index = index + 1;
        }
        assert(lost@.take(index as int) =~= lost@);
        lost
    }

    /// Takes the registration of `node` out, so that marks no longer reach it.
    pub fn unregister_observer(&mut self, node: NodeId)
        requires
            old(self).wf(),
        ensures
            final(self).wf(),
            final(self)@ == old(self)@.unregistered(node.0),
    {
        if let Some(record) = self.observers.get(node) {
            self.observers.put(node, Observer { registered: false, ..record });
        }
        proof {
            unregistering_keeps_pending(old(self)@, node.0);
        }
        assert(self@ =~= old(self)@.unregistered(node.0));
    }

    /// Disposes all graph bookkeeping for `node`.
    ///
    /// Idempotent: a node that is already gone is a silent no-op, and its disposal is reported
    /// exactly once.
    pub fn dispose(&mut self, node: NodeId)
        requires
            old(self).wf(),
        ensures
            final(self).wf(),
            exists|lost: Seq<u64>|
                crate::model::lists(lost, crate::model::abandoned(old(self)@.graph, node.0))
                    && final(self)@ == #[trigger] old(self)@.disposed(node.0, lost),
    {
        let ghost before = self@;
        let dependencies: usize = self.graph.dependency_count(node);
        let observers: usize = self.graph.observer_count(node);
        let lost = self.clear_observer_dependencies(node);
        let ghost forgotten = self@;
        proof {
            forgetting_keeps_the_rest(before, node.0, lost@);
            crate::graph::unobserving_takes_out_the_observers(forgotten.graph, node.0);
        }
        let removed: usize = self.graph.forget_observers(node);
        self.counters.edges_removed(removed);
        proof {
            retraction_counts(forgotten, self@, removed);
        }
        self.record_flush(FlushItem::EdgesRemoved { count: removed });
        self.unregister_observer(node);
        let ghost cut = self@;
        assert(cut == forgotten.unobserved(node.0).unregistered(node.0));
        let meta = self.graph.remove_node(node);
        let _ = self.hooks.remove(node.0);
        match meta {
            Some(meta) => {
                self.counters.node_disposed(meta.kind);
                proof {
                    disposal_counts(cut, self@, node.0);
                }
                let reactor = self.id;
                self.emit(
                    DiagnosticEvent::NodeDisposed {
                        reactor,
                        node,
                        kind: meta.kind,
                        origin: meta.origin,
                        dependencies,
                        observers,
                    },
                );
            },
            None => {
                proof {
                    assert(cut.graph.nodes.remove(node.0) =~= cut.graph.nodes);
                }
            },
        }
        assert(self@ =~= before.disposed(node.0, lost@));
    }
}

/// Dropping an observer's edges changes neither the live nodes nor the observers.
pub proof fn forgetting_keeps_the_rest(model: ReactorModel, observer: u64, lost: Seq<u64>)
    ensures
        model.forgotten(observer, lost).graph == model.graph.forgetting(observer),
        model.forgotten(observer, lost).observers == model.observers,
        model.forgotten(observer, lost).id == model.id,
        model.forgotten(observer, lost).subscribers == model.subscribers,
{
    let count = model.graph.inputs(observer).dom().len() as usize;
    let cut = ReactorModel {
        graph: model.graph.forgetting(observer),
        counts: model.counts.edges_removed(count),
        ..model
    }.recorded(FlushItem::EdgesRemoved { count });
    noting_keeps_the_rest(cut, lost);
}

/// Noting that nodes lost their last observer changes hooks and the queue only.
proof fn noting_keeps_the_rest(model: ReactorModel, nodes: Seq<u64>)
    ensures
        model.noted_abandoned(nodes).graph == model.graph,
        model.noted_abandoned(nodes).observers == model.observers,
        model.noted_abandoned(nodes).id == model.id,
        model.noted_abandoned(nodes).subscribers == model.subscribers,
    decreases nodes.len(),
{
    if nodes.len() > 0 {
        noting_keeps_the_rest(model, nodes.drop_last());
    }
}

/// The error that a read would close a dependency cycle. Contains the path of nodes that form the
/// cycle.
#[derive(Clone, Debug, Eq, PartialEq)]
pub struct ReactCycleError {
    cycle: Vec<NodeId>,
    origins: Vec<Option<Location>>,
}

impl ReactCycleError {
    /// The path of the cycle, as raw ids.
    pub closed spec fn path(self) -> Seq<u64> {
        self.cycle@.map_values(|node: NodeId| node.0)
    }

    /// The creation sites of the nodes on the path.
    pub closed spec fn sites(self) -> Seq<Option<Location>> {
        self.origins@
    }

    /// Describes a cycle: its path, and where the nodes on it were created.
    pub(crate) fn new(cycle: Vec<NodeId>, origins: Vec<Option<Location>>) -> (error: Self)
        ensures
            error.path() == cycle@.map_values(|node: NodeId| node.0),
            error.sites() == origins@,
    {
        ReactCycleError { cycle, origins }
    }

    /// Returns the cycle path that was detected.
    ///
    /// The path starts and ends with the same node: the one whose read closed the cycle.
    pub fn cycle(&self) -> (cycle: &Vec<NodeId>)
        ensures
            cycle@.map_values(|node: NodeId| node.0) == self.path(),
    {
        &self.cycle
    }

    /// Returns the source locations where the nodes in the cycle path were created, in the same
    /// order as [`cycle`](Self::cycle). An entry is `None` when the node has already been
    /// disposed.
    pub fn origins(&self) -> (origins: &Vec<Option<Location>>)
        ensures
            origins@ == self.sites(),
    {
        &self.origins
    }
}

impl ReactorModel {
    /// `error` tells which computations a read of `node` would close into a cycle, and where each
    /// of them was created.
    pub open spec fn names_cycle(self, node: u64, error: ReactCycleError) -> bool {
        &&& error.path() == crate::graph::cycle_through(self.graph.stack, node)
        &&& error.sites() == error.path().map_values(|on_path: u64| self.origin(on_path))
    }
}

/// The path of a cycle starts and ends with the node whose read closed it.
pub proof fn cycle_starts_and_ends_with_the_node_read(
    model: ReactorModel,
    node: u64,
    error: ReactCycleError,
)
    requires
        model.graph.active(node),
        model.names_cycle(node, error),
    ensures
        error.path().len() >= 2,
        error.path().first() == node,
        error.path().last() == node,
        error.sites().len() == error.path().len(),
{
    let stack = model.graph.stack;
    let first = stack.index_of(node);
    assert(0 <= first < stack.len() && stack[first] == node);
}

impl Reactor {
    /// Returns an error if reading `node` right now would close a dependency cycle, i.e. if `node`
    /// is currently being computed further up the call stack.
    pub fn cycle_check(&self, node: NodeId) -> (outcome: Result<(), ReactCycleError>)
        requires
            self.wf(),
        ensures
            outcome is Err <==> self@.graph.active(node.0),
            outcome matches Err(error) ==> self@.names_cycle(node.0, error),
    {
        let cycle = match self.graph.cycle(node) {
            Some(cycle) => cycle,
            None => return Ok(()),
        };
        Err(self.cycle_error(cycle))
    }

    /// Describes a cycle through the given nodes.
    pub(crate) fn cycle_error(&self, cycle: Vec<NodeId>) -> (error: ReactCycleError)
        ensures
            error.path() == cycle@.map_values(|node: NodeId| node.0),
            error.sites() == error.path().map_values(|on_path: u64| self@.origin(on_path)),
    {
        let mut origins: Vec<Option<Location>> = Vec::new();
        let mut index: usize = 0;
        while index < cycle.len()
            invariant
                index <= cycle.len(),
                origins@.len() == index,
                forall|at: int| #![trigger origins@[at]]
                    0 <= at < index ==> origins@[at] == self@.origin(cycle@[at].0),
            decreases cycle.len() - index,
        {
            origins.push(self.node_origin(cycle[index]));
            index = index + 1;
        }
        let error = ReactCycleError::new(cycle, origins);
        assert(error.sites() =~= error.path().map_values(|on_path: u64| self@.origin(on_path)));
        error
    }

    /// Returns where a live node was created.
    pub fn node_origin(&self, node: NodeId) -> (origin: Option<Location>)
        ensures
            origin == self@.origin(node.0),
    {
        match self.graph.node(node) {
            Some(meta) => Some(meta.origin),
            None => None,
        }
    }

    /// Attempts to record a dependency on `node` for the currently running observer, returning an
    /// error if doing so would create a dependency cycle.
    ///
    /// What runs is looked up on this reactor alone: if the innermost computation of the thread
    /// belongs to another reactor, that computation does not learn of the read.
    /// [`Tracking::accepts`] tells, for a program that wants to refuse such a read.
    pub fn try_observe(&mut self, tracking: &Tracking, node: NodeId) -> (outcome: Result<
        (),
        ReactCycleError,
    >)
        requires
            old(self).wf(),
            old(self)@.has_room(*tracking, node.0),
        ensures
            final(self).wf(),
            outcome is Err <==> old(self)@.graph.active(node.0),
            outcome matches Err(error) ==> old(self)@.names_cycle(node.0, error),
            final(self)@ == old(self)@.read(*tracking, node.0),
    {
        match self.cycle_check(node) {
            Ok(()) => {},
            Err(error) => return Err(error),
        }
        if tracking.is_untracked() {
            return Ok(());
        }
        if let Some(observer) = self.graph.current() {
            self.record_dependency(observer, node);
        }
        Ok(())
    }

    /// Records a dependency on `node` for the currently running observer.
    pub fn observe(&mut self, tracking: &Tracking, node: NodeId)
        requires
            old(self).wf(),
            old(self)@.has_room(*tracking, node.0),
            !old(self)@.graph.active(node.0),
        ensures
            final(self).wf(),
            final(self)@ == old(self)@.read(*tracking, node.0),
    {
        let _ = self.try_observe(tracking, node);
    }
}

impl ReactorModel {
    /// There is room for the edge that a read of `node` records, if it records one.
    pub open spec fn has_room(self, tracking: Tracking, node: u64) -> bool {
        ||| self.graph.active(node)
        ||| tracking.suspended()
        ||| self.graph.stack.len() == 0
        ||| self.graph.edges.dom().len() < usize::MAX
    }

    /// After a read of `node`: the innermost running computation has an edge on it, unless reads
    /// are untracked, nothing is running, or the read closes a cycle.
    pub open spec fn read(self, tracking: Tracking, node: u64) -> ReactorModel {
        if self.graph.active(node) || tracking.suspended() || self.graph.stack.len() == 0 {
            self
        } else {
            self.observing(self.graph.stack.last(), node)
        }
    }
}

/// Stands for a computation that has not ended yet.
#[must_use]
#[derive(Debug)]
pub struct ContextGuard {
    /// The tracking state that the computation interrupted.
    pub previous: Tracking,
}

impl ReactorModel {
    /// After starting the computation of `observer` afresh; `lost` lists the nodes that lost their
    /// last observer because the previous run's edges were dropped.
    pub open spec fn started(self, observer: u64, lost: Seq<u64>) -> ReactorModel {
        let forgotten = self.forgotten(observer, lost);
        ReactorModel { graph: forgotten.graph.entered(observer), ..forgotten }
    }

    /// After the innermost computation ended.
    pub open spec fn ended(self) -> ReactorModel {
        ReactorModel { graph: self.graph.left(), ..self }
    }
}

impl Reactor {
    /// Enters the dependency-tracking scope of `observer`, until [`leave_context`].
    ///
    /// Existing dependencies of `observer` are cleared, and reads made in the scope become its new
    /// dependencies. Scopes nest: dependencies are recorded for the innermost observer. Entering
    /// starts a fresh tracking scope, so an enclosing untracked region does not keep the
    /// computation from recording its own reads. An observer that is already running cannot be
    /// entered again.
    ///
    /// [`leave_context`]: Self::leave_context
    pub fn run_in_context(&mut self, tracking: &mut Tracking, observer: NodeId) -> (guard:
        ContextGuard)
        requires
            old(self).wf(),
            !old(self)@.graph.active(observer.0),
        ensures
            final(self).wf(),
            exists|lost: Seq<u64>|
                crate::model::lists(lost, crate::model::abandoned(old(self)@.graph, observer.0))
                    && final(self)@ == #[trigger] old(self)@.started(observer.0, lost),
            *final(tracking) == (Tracking {
                untracked_depth: 0,
                running: Some(old(self)@.id),
            }),
            guard.previous == *old(tracking),
    {
        let lost = self.clear_observer_dependencies(observer);
        let ghost forgotten = self@;
        proof {
            forgetting_keeps_the_rest(old(self)@, observer.0, lost@);
        }
        self.graph.enter(observer);
        proof {
            assert forall|kind: NodeKind| self@.graph.of_kind(kind) =~= forgotten.graph.of_kind(
                kind,
            ) by {}
            assert(self@ =~= old(self)@.started(observer.0, lost@));
        }
        let previous = *tracking;
        tracking.untracked_depth = 0;
        tracking.running = Some(self.id);
        ContextGuard { previous }
    }

    /// Ends the innermost computation and restores the tracking state that it interrupted.
    pub fn leave_context(&mut self, tracking: &mut Tracking, guard: ContextGuard)
        requires
            old(self).wf(),
        ensures
            final(self).wf(),
            final(self)@ == old(self)@.ended(),
            *final(tracking) == guard.previous,
    {
        self.graph.leave();
        proof {
            assert forall|kind: NodeKind| self@.graph.of_kind(kind) =~= old(self)@.graph.of_kind(
                kind,
            ) by {}
        }
        *tracking = guard.previous;
        assert(self@ =~= old(self)@.ended());
    }

    /// Returns whether `observer`'s computation is currently on the call stack.
    pub fn is_computation_active(&self, observer: NodeId) -> (active: bool)
        requires
            self.wf(),
        ensures
            active == self@.graph.active(observer.0),
    {
        self.graph.is_active(observer)
    }

    /// Returns the record of an observer.
    pub(crate) fn observer(&self, node: NodeId) -> (record: Option<Observer>)
        ensures
            record == self@.observers.get(node.0),
    {
        self.observers.get(node)
    }

    /// Registers an observer that has no run pending.
    pub(crate) fn register_observer(&mut self, node: NodeId, record: Observer)
        requires
            old(self).wf(),
            node.0 < old(self)@.graph.next_node,
            !old(self)@.observers.contains_key(node.0),
            record.effect matches Some(effect) ==> !effect.scheduled,
        ensures
            final(self).wf(),
            final(self)@ == old(self)@.with_observer(node.0, record),
    {
        self.observers.put(node, record);
        assert(crate::model::pending_effects(self@.observers) =~= crate::model::pending_effects(
            old(self)@.observers,
        ));
        assert(self@ =~= old(self)@.with_observer(node.0, record));
    }

    /// Changes how stale a known observer is.
    pub(crate) fn set_state(&mut self, node: NodeId, state: State)
        requires
            old(self).wf(),
            old(self)@.observers.contains_key(node.0),
        ensures
            final(self).wf(),
            final(self)@ == old(self)@.with_state(node.0, state),
    {
        if let Some(record) = self.observers.get(node) {
            self.observers.put(node, Observer { state, ..record });
        }
        proof {
            assert(crate::model::pending_effects(self@.observers)
                =~= crate::model::pending_effects(old(self)@.observers));
            assert(self@.observers.dom() =~= old(self)@.observers.dom());
            assert(self@ =~= old(self)@.with_state(node.0, state));
        }
    }

    /// Changes the record of a known effect, except for whether a run is pending.
    pub(crate) fn set_effect(&mut self, node: NodeId, effect: EffectRecord)
        requires
            old(self).wf(),
            old(self)@.is_effect(node.0),
            effect.scheduled == old(self)@.effect(node.0).scheduled,
        ensures
            final(self).wf(),
            final(self)@ == old(self)@.with_effect(node.0, effect),
    {
        if let Some(record) = self.observers.get(node) {
            self.observers.put(node, Observer { effect: Some(effect), ..record });
        }
        proof {
            assert(crate::model::pending_effects(self@.observers)
                =~= crate::model::pending_effects(old(self)@.observers));
            assert(self@.observers.dom() =~= old(self)@.observers.dom());
            assert(self@ =~= old(self)@.with_effect(node.0, effect));
        }
    }

    /// Gives an effect a pending run, and counts it.
    fn latch_scheduled(&mut self, node: NodeId, record: Observer, effect: EffectRecord)
        requires
            old(self).wf(),
            old(self)@.is_effect(node.0),
            record == old(self)@.observers[node.0],
            effect == old(self)@.effect(node.0),
            !effect.scheduled,
        ensures
            final(self).wf(),
            final(self)@ == old(self)@.latched(node.0),
    {
        let latched = EffectRecord { scheduled: true, ..effect };
        self.observers.put(node, Observer { effect: Some(latched), ..record });
        proof {
            let before = crate::model::pending_effects(old(self)@.observers);
            let after = crate::model::pending_effects(self@.observers);
            assert(after =~= before.insert(node.0));
            vstd::set_lib::lemma_set_subset_finite(old(self)@.observers.dom(), before);
            vstd::set_lib::lemma_len_subset(after, self@.observers.dom());
            assert(self@.observers.dom() =~= old(self)@.observers.dom());
        }
        self.counters.effect_queued();
        assert(self@ =~= old(self)@.latched(node.0));
    }

    /// Releases an effect's pending run, if it has one.
    pub(crate) fn unlatch_scheduled(&mut self, node: NodeId)
        requires
            old(self).wf(),
            old(self)@.is_effect(node.0),
        ensures
            final(self).wf(),
            final(self)@ == old(self)@.unlatched(node.0),
    {
        if let Some(record) = self.observers.get(node) {
            if let Some(effect) = record.effect {
                if effect.scheduled {
                    let released = EffectRecord { scheduled: false, ..effect };
                    self.observers.put(node, Observer { effect: Some(released), ..record });
                    proof {
                        let before = crate::model::pending_effects(old(self)@.observers);
                        let after = crate::model::pending_effects(self@.observers);
                        assert(after =~= before.remove(node.0));
                        assert(before.contains(node.0));
                        vstd::set_lib::lemma_set_subset_finite(
                            old(self)@.observers.dom(),
                            before,
                        );
                        assert(self@.observers.dom() =~= old(self)@.observers.dom());
                    }
                    self.counters.effect_unqueued();
                }
            }
        }
        assert(self@ =~= old(self)@.unlatched(node.0));
    }

    /// Asks an effect to run. A request to a disposed effect, or to one that has a run pending, is
    /// absorbed.
    pub(crate) fn request_run(&mut self, node: NodeId)
        requires
            old(self).wf(),
            old(self)@.is_effect(node.0),
        ensures
            final(self).wf(),
            final(self)@ == old(self)@.requested(node.0),
    {
        let record = match self.observers.get(node) {
            Some(record) => record,
            None => return,
        };
        let effect = match record.effect {
            Some(effect) => effect,
            None => return,
        };
        let skipped = effect.disposed || effect.scheduled;
        if skipped {
            self.record_flush(FlushItem::EffectCoalesced);
        } else {
            self.latch_scheduled(node, record, effect);
            self.record_flush(FlushItem::EffectQueued);
        }
        let reactor = self.id;
        let flush_epoch: u64 = self.flush_epoch;
        if let Some(effect_origin) = self.node_origin(node) {
            self.emit(
                DiagnosticEvent::EffectScheduled {
                    reactor,
                    effect: node,
                    effect_origin,
                    queued: !skipped,
                    flush_epoch,
                },
            );
        }
        let ghost told = self@;
        if !skipped {
            if effect.external {
                self.ready.push(node);
                assert(self@ =~= ReactorModel { ready: told.ready.push(node), ..told });
            } else {
                self.schedule(Job::Effect(node));
            }
        }
        assert(self@ =~= old(self)@.requested(node.0));
    }
}

/// The consequences of one mark leave the graph and the roles of observers as they are.
proof fn receiving_keeps_the_rest(
    model: ReactorModel,
    delivery: Delivery,
    cause: Option<InvalidationCause>,
)
    ensures
        model.received(delivery, cause).graph == model.graph,
        model.received(delivery, cause).id == model.id,
        model.observers.contains_key(delivery.observer) ==> model.received(
            delivery,
            cause,
        ).observers.dom() == model.observers.dom(),
        forall|node: u64|
            model.is_effect(node) == #[trigger] model.received(delivery, cause).is_effect(node),
{
    assert(model.observers.contains_key(delivery.observer) ==> model.received(
        delivery,
        cause,
    ).observers.dom() =~= model.observers.dom());
}

/// Bumping a version keeps the nodes of each kind.
proof fn bumping_keeps_kinds(model: ReactorModel, node: u64)
    requires
        model.counts_agree(),
    ensures
        (ReactorModel { graph: model.graph.bumped(node), ..model }).counts_agree(),
{
    let after = model.graph.bumped(node);
    assert(after.nodes.dom() =~= model.graph.nodes.dom());
    assert forall|kind: NodeKind| after.of_kind(kind) =~= model.graph.of_kind(kind) by {}
    assert forall|kind: NodeKind| model.counts.live_nodes_by_kind[#[trigger] kind.position()]
        == after.of_kind(kind).len() by {
        assert(model.counts.live_nodes_by_kind[kind.position()] == model.graph.of_kind(kind).len());
    }
}

/// Marks change neither who has a run pending nor who is known.
proof fn marks_keep_pending(observers: Map<u64, Observer>, log: Seq<Delivery>)
    requires
        forall|at: int| #![trigger log[at]]
            0 <= at < log.len() ==> observers.contains_key(log[at].observer),
    ensures
        crate::model::pending_effects(crate::observers::delivered(observers, log))
            == crate::model::pending_effects(observers),
        crate::observers::delivered(observers, log).dom() == observers.dom(),
{
    let after = crate::observers::delivered(observers, log);
    assert forall|node: u64| crate::model::pending_effects(after).contains(node)
        <==> crate::model::pending_effects(observers).contains(node) by {
        crate::observers::marks_only_raise_states(observers, log, node);
    }
    crate::observers::marks_only_raise_states(observers, log, 0);
    assert(crate::model::pending_effects(after) =~= crate::model::pending_effects(observers));
}

impl Reactor {
    /// Increments the version of `node`, recording that its value changed.
    pub(crate) fn bump_version(&mut self, node: NodeId)
        requires
            old(self).wf(),
        ensures
            final(self).wf(),
            final(self)@ == (ReactorModel {
                graph: old(self)@.graph.bumped(node.0),
                ..old(self)@
            }),
    {
        self.graph.bump_version(node);
        proof {
            bumping_keeps_kinds(old(self)@, node.0);
        }
    }

    /// Carries out the consequences of one delivered mark.
    fn receive(&mut self, delivery: Delivery, cause: Option<InvalidationCause>)
        requires
            old(self).wf(),
            old(self)@.observers.contains_key(delivery.observer),
        ensures
            final(self).wf(),
            final(self)@ == old(self)@.received(delivery, cause),
    {
        let node = NodeId::new(delivery.observer);
        let is_effect = match self.observers.get(node) {
            Some(record) => record.effect.is_some(),
            None => false,
        };
        let reactor = self.id;
        let flush_epoch: u64 = self.flush_epoch;
        if let Some(cause) = cause {
            if let Some(meta) = self.graph.node(node) {
                if is_effect {
                    self.emit(
                        DiagnosticEvent::EffectInvalidated {
                            reactor,
                            effect: node,
                            effect_origin: meta.origin,
                            cause,
                            level: delivery.mark.level(),
                        },
                    );
                } else {
                    self.emit(
                        DiagnosticEvent::ComputedInvalidated {
                            reactor,
                            node,
                            kind: meta.kind,
                            node_origin: meta.origin,
                            cause,
                            level: delivery.mark.level(),
                            flush_epoch,
                            state_changed: delivery.before.raise(delivery.mark) != delivery.before,
                        },
                    );
                }
            }
        }
        if is_effect {
            self.request_run(node);
        }
        self.record_flush(FlushItem::Marked { mark: delivery.mark, depth: delivery.depth });
    }

    /// Records that `node`'s value changed and marks its dependents stale.
    ///
    /// The node's version is bumped, direct dependents are marked dirty, and transitive dependents
    /// are marked so that they verify their inputs before recomputing. Nothing recomputes inline:
    /// computed nodes refresh on their next read, and affected effects have a run pending.
    pub fn trigger(&mut self, node: NodeId, write_origin: Location)
        requires
            old(self).wf(),
        ensures
            final(self).wf(),
            exists|log: Seq<Delivery>|
                crate::observers::propagation(
                    old(self)@.graph,
                    old(self)@.observers,
                    node.0,
                    log,
                ) && final(self)@ == #[trigger] old(self)@.triggered(node.0, write_origin, log),
    {
        let ghost before = self@;
        self.bump_version(node);
        let cause = if self.diagnostics_enabled() {
            match self.graph.node(node) {
                Some(meta) => Some(
                    InvalidationCause {
                        node,
                        version: meta.version,
                        node_origin: meta.origin,
                        write_origin,
                    },
                ),
                None => None,
            }
        } else {
            None
        };
        if let Some(cause) = cause {
            let reactor = self.id;
            if let Some(meta) = self.graph.node(node) {
                self.emit(
                    DiagnosticEvent::ReactiveWrite { reactor, kind: meta.kind, cause },
                );
            }
            self.record_flush(FlushItem::RootWrite);
        }
        let ghost written = self@;
        assert(written =~= before.written(node.0, write_origin));
        let log = self.observers.propagate(&self.graph, node);
        proof {
            propagation_ignores_versions(before.graph, before.observers, node.0, log@);
            reveal(crate::observers::propagates);
            marks_keep_pending(before.observers, log@);
        }
        let ghost marked = self@;
        assert(marked =~= ReactorModel {
            observers: crate::observers::delivered(before.observers, log@),
            ..written
        });
        assert(log@.take(0) =~= Seq::empty());
        let mut index: usize = 0;
        while index < log.len()
            invariant
                index <= log.len(),
                self.wf(),
                self@ == marked.received_all(log@.take(index as int), cause),
                self@.observers.dom() == marked.observers.dom(),
                forall|at: int| #![trigger log@[at]]
                    0 <= at < log@.len() ==> marked.observers.contains_key(log@[at].observer),
            decreases log.len() - index,
        {
            proof {
                assert(log@.take(index + 1).drop_last() =~= log@.take(index as int));
                assert(log@.take(index + 1).last() == log@[index as int]);
                receiving_keeps_the_rest(self@, log@[index as int], cause);
            }
            self.receive(log[index], cause);
            index = index + 1;
        }
        assert(log@.take(index as int) =~= log@);
        assert(self@ == before.triggered(node.0, write_origin, log@));
    }
}

/// Propagation depends on the edges alone, so bumping the source first makes no difference.
proof fn propagation_ignores_versions(
    graph: crate::graph::GraphModel,
    observers: Map<u64, Observer>,
    node: u64,
    log: Seq<Delivery>,
)
    ensures
        crate::observers::propagation(graph.bumped(node), observers, node, log)
            == crate::observers::propagation(graph, observers, node, log),
{
    reveal(crate::observers::propagates);
    let bumped = graph.bumped(node);
    assert(bumped.observers(node) =~= graph.observers(node));
    assert(crate::observers::follows_edges(bumped, observers, log)
        == crate::observers::follows_edges(graph, observers, log)) by {
        if crate::observers::follows_edges(bumped, observers, log) {
            assert forall|at: int| #![trigger log[at]]
                0 <= at < log.len() implies graph.observes(log[at].observer, log[at].source)
                && crate::observers::listens(observers, log[at].observer) by {
                assert(bumped.observes(log[at].observer, log[at].source));
            }
        }
        if crate::observers::follows_edges(graph, observers, log) {
            assert forall|at: int| #![trigger log[at]]
                0 <= at < log.len() implies bumped.observes(log[at].observer, log[at].source)
                && crate::observers::listens(observers, log[at].observer) by {
                assert(graph.observes(log[at].observer, log[at].source));
            }
        }
    }
    assert forall|from: int| crate::observers::serves_all(bumped, observers, log, from)
        == crate::observers::serves_all(graph, observers, log, from) by {
        assert forall|observer: u64| bumped.observes(observer, log[from].observer)
            == graph.observes(observer, log[from].observer) by {}
    }
    assert(crate::observers::passes_on(bumped, observers, log) == crate::observers::passes_on(
        graph,
        observers,
        log,
    ));
}

/// Stands for a drain of the queue that has not ended yet.
#[must_use]
#[derive(Debug)]
pub struct DrainGuard {
    /// The number of the flush that the drain opened.
    pub epoch: u64,
}

/// Stands for a consumer-driven flush that has not ended yet.
#[must_use]
#[derive(Debug)]
pub struct FlushGuard {}

impl Reactor {
    /// Subscribes to this reactor's reactive causality events.
    ///
    /// The stream is dormant when there are no subscribers. Events accumulate until
    /// [`take_events`](Self::take_events).
    pub fn subscribe_diagnostics(&mut self) -> (subscription: DiagnosticSubscription)
        requires
            old(self).wf(),
        ensures
            final(self).wf(),
            final(self)@ == old(self)@.subscribed(),
            subscription.key() == old(self)@.next_diagnostic,
    {
        let token: u64 = self.next_diagnostic;
        let next: u64 = token.wrapping_add(1);
        self.next_diagnostic = if next == 0 {
            1
        } else {
            next
        };
        self.subscribers.push(token);
        assert(self@ =~= old(self)@.subscribed());
        DiagnosticSubscription::new(token)
    }

    /// Ends a subscription. When it was the last one, the stream goes dormant and the totals that
    /// were being accumulated are dropped, so that a later subscriber never inherits them.
    pub fn unsubscribe_diagnostics(&mut self, subscription: DiagnosticSubscription)
        requires
            old(self).wf(),
        ensures
            final(self).wf(),
            final(self)@ == old(self)@.unsubscribed(subscription.key()),
    {
        let token: u64 = subscription.token();
        let ghost other_tokens = crate::model::other_than(token);
        let mut kept: Vec<u64> = Vec::new();
        let mut index: usize = 0;
        assert(self.subscribers@.take(0).filter(other_tokens) =~= Seq::empty()) by {
            reveal(Seq::filter);
        }
        while index < self.subscribers.len()
            invariant
                index <= self.subscribers.len(),
                other_tokens == crate::model::other_than(token),
                kept@ == self.subscribers@.take(index as int).filter(other_tokens),
                self.wf(),
                *self == *old(self),
            decreases self.subscribers.len() - index,
        {
            let candidate: u64 = self.subscribers[index];
            proof {
                reveal(Seq::filter);
                let longer = self.subscribers@.take(index + 1);
                assert(longer.drop_last() =~= self.subscribers@.take(index as int));
                assert(longer.last() == candidate);
            }
            if candidate != token {
                kept.push(candidate);
            }
            index = index + 1;
        }
        assert(self.subscribers@.take(index as int) =~= self.subscribers@);
        self.subscribers = kept;
        if self.subscribers.len() == 0 {
            self.flushes.reset();
        }
        assert(self@ =~= old(self)@.unsubscribed(subscription.key()));
    }

    /// Takes the diagnostic events that were reported since the last call, oldest first.
    pub fn take_events(&mut self) -> (events: Vec<DiagnosticEvent>)
        requires
            old(self).wf(),
        ensures
            final(self).wf(),
            events@ == old(self)@.events,
            final(self)@ == (ReactorModel { events: Seq::empty(), ..old(self)@ }),
    {
        let mut events: Vec<DiagnosticEvent> = Vec::new();
        std::mem::swap(&mut events, &mut self.events);
        assert(self@ =~= ReactorModel { events: Seq::empty(), ..old(self)@ });
        events
    }

    /// Takes the effects that became ready for their consumer's lane since the last call.
    pub fn take_ready(&mut self) -> (ready: Vec<NodeId>)
        requires
            old(self).wf(),
        ensures
            final(self).wf(),
            ready@ == old(self)@.ready,
            final(self)@ == (ReactorModel { ready: Seq::empty(), ..old(self)@ }),
    {
        let mut ready: Vec<NodeId> = Vec::new();
        std::mem::swap(&mut ready, &mut self.ready);
        assert(self@ =~= ReactorModel { ready: Seq::empty(), ..old(self)@ });
        ready
    }

    /// Returns whether the host was asked to run [`flush_now`](Self::flush_now) soon, once per
    /// request.
    pub fn take_wake(&mut self) -> (wake: bool)
        requires
            old(self).wf(),
        ensures
            final(self).wf(),
            wake == old(self)@.wake,
            final(self)@ == (ReactorModel { wake: false, ..old(self)@ }),
    {
        let wake = self.wake;
        self.wake = false;
        assert(self@ =~= ReactorModel { wake: false, ..old(self)@ });
        wake
    }

    fn open_flush(&mut self)
        requires
            old(self).wf(),
        ensures
            final(self).wf(),
            final(self)@ == old(self)@.flush_opened(),
    {
        self.flush_epoch = self.flush_epoch.wrapping_add(1);
        self.counters.flush_opened();
        let pending_jobs: usize = self.jobs.len();
        if self.diagnostics_enabled() {
            self.flushes.open_flush(pending_jobs);
        }
        let reactor = self.id;
        let flush_epoch: u64 = self.flush_epoch;
        assert(self@.counts_agree());
        self.emit(DiagnosticEvent::FlushStarted { reactor, flush_epoch, pending_jobs });
        assert(self@ =~= old(self)@.flush_opened());
    }

    fn close_flush(&mut self, epoch: u64)
        requires
            old(self).wf(),
        ensures
            final(self).wf(),
            final(self)@ == old(self)@.flush_closed(epoch),
    {
        if self.diagnostics_enabled() {
            let remaining_jobs: usize = self.jobs.len();
            let effects_pending: usize = self.counters.queued_effects();
            let closed = self.flushes.close_flush(remaining_jobs, effects_pending);
            if let Some(stats) = closed {
                let reactor = self.id;
                assert(self@ =~= ReactorModel { ledger: old(self)@.ledger.closed(), ..old(self)@ });
                self.emit(
                    DiagnosticEvent::FlushFinished {
                        reactor,
                        flush_epoch: epoch,
                        remaining_jobs,
                        stats,
                    },
                );
            }
        }
        assert(self@ =~= old(self)@.flush_closed(epoch));
    }

    /// Opens a flush that the reactor is not itself driving. A flush opened inside another joins
    /// it.
    pub(crate) fn begin_flush(&mut self)
        requires
            old(self).wf(),
            old(self)@.flush_depth < u32::MAX,
        ensures
            final(self).wf(),
            final(self)@ == old(self)@.begun(),
    {
        let depth: u32 = self.flush_depth;
        self.flush_depth = depth + 1;
        if depth == 0 {
            self.drain_epoch = self.drain_epoch.wrapping_add(1);
            self.open_flush_epoch = self.flush_epoch.wrapping_add(1);
            assert(self@ =~= ReactorModel {
                drain_epoch: crate::model::wrapping_next(old(self)@.drain_epoch),
                flush_depth: 1,
                open_flush_epoch: crate::model::wrapping_next(old(self)@.flush_epoch),
                ..old(self)@
            });
            self.open_flush();
        }
        assert(self@ =~= old(self)@.begun());
    }

    /// Closes a flush opened by [`begin_flush`](Self::begin_flush).
    pub(crate) fn end_flush(&mut self)
        requires
            old(self).wf(),
        ensures
            final(self).wf(),
            final(self)@ == old(self)@.finished(),
    {
        let depth: u32 = self.flush_depth.saturating_sub(1);
        self.flush_depth = depth;
        if depth == 0 {
            assert(self@ =~= ReactorModel { flush_depth: 0, ..old(self)@ });
            let epoch: u64 = self.open_flush_epoch;
            self.close_flush(epoch);
        }
        assert(self@ =~= old(self)@.finished());
    }

    /// Opens one flush of this reactor, for consumers draining their own effect lane, until
    /// [`finish_external_flush`](Self::finish_external_flush).
    ///
    /// Every effect run in between shares one flush epoch and one logical drain. A nested call
    /// joins the enclosing flush.
    pub fn external_flush(&mut self) -> (guard: FlushGuard)
        requires
            old(self).wf(),
            old(self)@.flush_depth < u32::MAX,
        ensures
            final(self).wf(),
            final(self)@ == old(self)@.begun(),
    {
        self.begin_flush();
        FlushGuard {  }
    }

    /// Closes a flush opened by [`external_flush`](Self::external_flush).
    pub fn finish_external_flush(&mut self, guard: FlushGuard)
        requires
            old(self).wf(),
        ensures
            final(self).wf(),
            final(self)@ == old(self)@.finished(),
    {
        self.end_flush();
    }

    /// Returns whether a flush of this reactor is in progress, including one opened by
    /// [`external_flush`](Self::external_flush).
    pub fn in_flush(&self) -> (open: bool)
        ensures
            open == (self@.flush_depth > 0),
    {
        self.flush_depth > 0
    }

    /// Returns the number of the currently running (or most recent) flush.
    pub fn flush_epoch(&self) -> (epoch: u64)
        ensures
            epoch == self@.flush_epoch,
    {
        self.flush_epoch
    }

    /// Returns the number of the currently running (or most recent) logical drain.
    pub fn drain_epoch(&self) -> (epoch: u64)
        ensures
            epoch == self@.drain_epoch,
    {
        self.drain_epoch
    }

    /// Starts draining the queue: run what [`next_job`](Self::next_job) gives until it gives
    /// nothing, then call [`finish_flush`](Self::finish_flush).
    ///
    /// A drain with nothing to drain is not a flush: it opens nothing and reports nothing.
    pub fn flush_now(&mut self) -> (guard: Option<DrainGuard>)
        requires
            old(self).wf(),
            old(self)@.jobs.len() > 0 ==> old(self)@.flush_depth < u32::MAX,
        ensures
            final(self).wf(),
            guard is Some <==> old(self)@.jobs.len() > 0,
            guard is None ==> final(self)@ == (ReactorModel {
                flush_scheduled: false,
                ..old(self)@
            }),
            guard matches Some(drain) ==> {
                &&& final(self)@ == old(self)@.drain_started()
                &&& drain.epoch == final(self)@.flush_epoch
            },
    {
        if self.jobs.len() == 0 {
            self.flush_scheduled = false;
            assert(self@ =~= ReactorModel { flush_scheduled: false, ..old(self)@ });
            return None;
        }
        let depth: u32 = self.flush_depth;
        if depth == 0 {
            self.drain_epoch = self.drain_epoch.wrapping_add(1);
        }
        self.open_flush();
        self.flush_depth = depth + 1;
        assert(self@ =~= old(self)@.drain_started());
        Some(DrainGuard { epoch: self.flush_epoch })
    }

    /// Takes the next job from the queue, inside a flush.
    pub fn next_job(&mut self) -> (job: Option<Job>)
        requires
            old(self).wf(),
            old(self)@.flush_depth > 0,
        ensures
            final(self).wf(),
            final(self)@ == old(self)@.job_taken(),
            old(self)@.jobs.len() == 0 ==> job is None,
            old(self)@.jobs.len() > 0 ==> job == Some(old(self)@.jobs.first()),
    {
        let job = self.jobs.pop_front();
        assert(self@.jobs =~= old(self)@.job_taken().jobs);
        assert(self@ =~= old(self)@.job_taken());
        job
    }

    /// Ends a drain, also one that a job broke off. Jobs that are left go to a fresh flush, so that
    /// one failing job cannot silently disable the reactor.
    pub fn finish_flush(&mut self, guard: DrainGuard)
        requires
            old(self).wf(),
        ensures
            final(self).wf(),
            final(self)@ == old(self)@.drain_finished(guard.epoch),
    {
        self.flush_depth = self.flush_depth.saturating_sub(1);
        self.close_flush(guard.epoch);
        self.flush_scheduled = false;
        if self.jobs.len() > 0 {
            self.ensure_flush_scheduled();
        }
        assert(self@ =~= old(self)@.drain_finished(guard.epoch));
    }

    /// Gives `node` observation hooks, which are kept until the node is disposed.
    pub(crate) fn register_observation_hooks(&mut self, node: NodeId)
        requires
            old(self).wf(),
        ensures
            final(self).wf(),
            final(self)@ == (ReactorModel {
                hooks: old(self)@.hooks.insert(
                    node.0,
                    HookState { observed: false, delivered: false, queued: false },
                ),
                ..old(self)@
            }),
    {
        let _ = self.hooks.insert(
            node.0,
            HookState { observed: false, delivered: false, queued: false },
        );
    }

    /// Delivers the hooks of `node` for a queued job: returns whether the consumer is to be told
    /// that the node became observed (`true`) or unobserved (`false`), or `None` when the node is
    /// gone or nothing changed since the last delivery. Jobs are carried out inside a flush, so the
    /// consumer is told nothing while the graph is being changed.
    pub fn deliver_hooks(&mut self, node: NodeId) -> (news: Option<bool>)
        requires
            old(self).wf(),
            old(self)@.flush_depth > 0,
        ensures
            final(self).wf(),
            news == old(self)@.hook_news(node.0),
            final(self)@ == old(self)@.hook_delivered(node.0),
    {
        let hooks = match self.hooks.get(node.0) {
            Some(hooks) => hooks,
            None => return None,
        };
        let _ = self.hooks.insert(
            node.0,
            HookState { queued: false, delivered: hooks.observed, ..hooks },
        );
        assert(self@ =~= old(self)@.hook_delivered(node.0));
        if hooks.delivered == hooks.observed {
            None
        } else {
            Some(hooks.observed)
        }
    }
}

impl Reactor {
    /// Forgets an observer that has no run pending. Its handle is gone.
    pub fn release_observer(&mut self, node: NodeId)
        requires
            old(self).wf(),
            old(self)@.is_effect(node.0) ==> !old(self)@.effect(node.0).scheduled,
        ensures
            final(self).wf(),
            final(self)@ == (ReactorModel {
                observers: old(self)@.observers.remove(node.0),
                ..old(self)@
            }),
    {
        let _ = self.observers.take(node);
        proof {
            let before = crate::model::pending_effects(old(self)@.observers);
            assert(crate::model::pending_effects(self@.observers) =~= before);
        }
    }
}

/// Disposing a node lets marks no longer reach it, and changes no observer otherwise.
pub proof fn disposal_keeps_observers(model: ReactorModel, node: u64, lost: Seq<u64>)
    ensures
        model.disposed(node, lost).observers == model.unregistered(node).observers,
        model.disposed(node, lost).id == model.id,
        model.disposed(node, lost).subscribers == model.subscribers,
{
    forgetting_keeps_the_rest(model, node, lost);
}

impl Reactor {
    /// Returns the current version of `node`, or `None` when it is not live.
    pub fn node_version(&self, node: NodeId) -> (version: Option<u64>)
        ensures
            version == (match self@.graph.nodes.get(node.0) {
                Some(meta) => Some(meta.version),
                None => None,
            }),
    {
        match self.graph.node(node) {
            Some(meta) => Some(meta.version),
            None => None,
        }
    }

    /// Returns the primitive that `node` was created as, or `None` when it is not live.
    pub fn node_kind(&self, node: NodeId) -> (kind: Option<NodeKind>)
        ensures
            kind == (match self@.graph.nodes.get(node.0) {
                Some(meta) => Some(meta.kind),
                None => None,
            }),
    {
        match self.graph.node(node) {
            Some(meta) => Some(meta.kind),
            None => None,
        }
    }

    /// Returns the current version of `node`, or zero if the node is unknown.
    pub(crate) fn version(&self, node: NodeId) -> (version: u64)
        ensures
            version == self@.graph.version(node.0),
    {
        self.graph.version(node)
    }

    /// Returns whether `node` has an observer.
    pub fn is_observed(&self, node: NodeId) -> (observed: bool)
        requires
            self.wf(),
        ensures
            observed == (exists|observer: u64| self@.graph.observes(observer, node.0)),
            observed == (self@.graph.observers(node.0) != Set::<u64>::empty()),
    {
        let count: usize = self.graph.observer_count(node);
        proof {
            let observers = self@.graph.observers(node.0);
            crate::graph::unobserving_takes_out_the_observers(self@.graph, node.0);
            if count > 0 {
                assert(observers.contains(observers.choose()));
            }
            if exists|observer: u64| self@.graph.observes(observer, node.0) {
                let observer = choose|observer: u64| self@.graph.observes(observer, node.0);
                assert(observers.contains(observer));
            } else {
                assert(observers =~= Set::<u64>::empty());
            }
        }
        count > 0
    }

    /// Returns the number of observers of `node`.
    pub fn observer_count(&self, node: NodeId) -> (count: usize)
        requires
            self.wf(),
        ensures
            count == self@.graph.observers(node.0).len(),
    {
        self.graph.observer_count(node)
    }

    /// Returns the number of dependencies that `node` recorded.
    pub fn dependency_count(&self, node: NodeId) -> (count: usize)
        requires
            self.wf(),
        ensures
            count == self@.graph.inputs(node.0).dom().len(),
    {
        self.graph.dependency_count(node)
    }

    /// Returns the observers of `node`, in an order left open.
    pub fn dependents_of(&self, node: NodeId) -> (observers: Vec<NodeId>)
        requires
            self.wf(),
        ensures
            crate::model::lists(
                observers@.map_values(|observer: NodeId| observer.0),
                self@.graph.observers(node.0),
            ),
    {
        let raw = self.graph.observers_of(node);
        let mut observers: Vec<NodeId> = Vec::new();
        let mut index: usize = 0;
        while index < raw.len()
            invariant
                index <= raw.len(),
                observers@.len() == index,
                forall|at: int| #![trigger observers@[at]]
                    0 <= at < index ==> observers@[at].0 == raw@[at],
            decreases raw.len() - index,
        {
            observers.push(NodeId::new(raw[index]));
            index = index + 1;
        }
        assert(observers@.map_values(|observer: NodeId| observer.0) =~= raw@);
        observers
    }

    /// Returns the observers of `node`. The same as [`dependents_of`](Self::dependents_of).
    pub fn observers_of(&self, node: NodeId) -> (observers: Vec<NodeId>)
        requires
            self.wf(),
        ensures
            crate::model::lists(
                observers@.map_values(|observer: NodeId| observer.0),
                self@.graph.observers(node.0),
            ),
    {
        self.dependents_of(node)
    }

    /// Returns the dependencies that `node` recorded, with the versions it saw, in an order left
    /// open.
    pub fn dependencies_of(&self, node: NodeId) -> (dependencies: Vec<RecordedDependency>)
        requires
            self.wf(),
        ensures
            crate::graph::lists_inputs(dependencies@, self@.graph.inputs(node.0)),
    {
        self.graph.recorded(node)
    }

    /// Returns a point-in-time account of the graph. Nothing is walked and nothing is computed.
    pub fn graph_stats(&self) -> (stats: GraphStats)
        requires
            self.wf(),
        ensures
            stats.reactor == self@.id,
            stats.live_nodes == self@.graph.nodes.dom().len(),
            stats.observed_nodes == self@.graph.observed().len(),
            stats.pending_jobs == self@.jobs.len(),
            stats.flush_depth == self@.flush_depth,
            stats.flush_epoch == self@.flush_epoch,
            stats.counts() == self@.counts,
            forall|kind: NodeKind|
                stats.by_kind()[#[trigger] kind.position()] == self@.graph.of_kind(kind).len(),
            stats.live_nodes == crate::stats::over_all_kinds(stats.by_kind()),
            stats.live_nodes == stats.nodes_created - stats.nodes_disposed,
    {
        proof {
            kinds_add_up(self@);
        }
        let pending_jobs: usize = self.jobs.len();
        self.counters.snapshot(
            self.id,
            self.graph.live_nodes(),
            self.graph.observed_nodes(),
            pending_jobs,
            self.flush_depth,
            self.flush_epoch,
        )
    }
}

} // verus!
