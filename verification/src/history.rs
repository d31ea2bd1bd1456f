//! Whole histories of a reactor: what holds however many steps were taken, in whatever order.
//!
//! A history is a list of steps from the creation of a reactor on. Each operation of a reactor is
//! one step, or several. A delivery of hooks that is taken from the queue is carried out at once.
use vstd::prelude::*;

use crate::diagnostics::{NodeKind, ReactorId};
use crate::effect::RunTicket;
use crate::graph::NodeMeta;
use crate::id::{Location, NodeId};
use crate::model::{Job, ReactorModel};
use crate::observers::{Delivery, State};
use crate::tracking::Tracking;

verus! {

/// One step of a reactor.
pub enum Step {
    /// A node is allocated.
    Create { kind: NodeKind, origin: Location },
    /// A computed node is created.
    CreateComputed { kind: NodeKind, origin: Location },
    /// An effect is created.
    CreateEffect { external: bool, owner: u64, origin: Location },
    /// A source with hooks is created.
    CreateHooked { origin: Location },
    /// A node is read.
    Read { tracking: Tracking, node: u64 },
    /// An observer starts to run afresh; `lost` lists the nodes that lost their last observer.
    Start { observer: u64, lost: Seq<u64> },
    /// A computed node starts to be recomputed.
    Recompute { node: u64, lost: Seq<u64> },
    /// The innermost computation ends.
    End,
    /// The result of a computation is published.
    Publish { node: u64, changed: bool },
    /// A computation unwinds.
    Fail { node: u64 },
    /// A computed node is reported as verified.
    Verify { node: u64, recomputed: bool },
    /// A computed node is found to be up to date.
    Settle { node: u64 },
    /// A node is written to, and `log` is how the marks went.
    Write { node: u64, origin: Location, log: Seq<Delivery> },
    /// A write is suppressed.
    Suppress { node: u64, origin: Location },
    /// Marks no longer reach a node.
    Unregister { node: u64 },
    /// A node is disposed; `lost` lists the nodes that lost their last observer.
    Dispose { node: u64, lost: Seq<u64> },
    /// The record of an observer goes away.
    Forget { node: u64 },
    /// An effect is asked to run.
    Request { node: u64 },
    /// The pending run of an effect is let go.
    Unlatch { node: u64 },
    /// An effect has its turn.
    Turn { node: u64 },
    /// The turn goes on once it is known whether a dependency changed.
    Resume { node: u64, changed: bool },
    /// The turn fails.
    FailTurn { node: u64 },
    /// A run ends as its body returns.
    Finish { ticket: RunTicket },
    /// A run ends otherwise.
    Close { ticket: RunTicket },
    /// An effect is marked as disposed.
    Retire { node: u64 },
    /// A job is queued.
    Schedule { job: Job },
    /// A consumer opens a flush.
    Open,
    /// A consumer closes its flush.
    Shut,
    /// The reactor starts to drain its queue.
    Drain,
    /// The drain that was numbered `epoch` ends.
    Drained { epoch: u64 },
    /// A flush finds nothing to drain.
    Idle,
    /// A job that is no delivery of hooks is taken from the queue.
    Take,
    /// A delivery of hooks is taken from the queue and carried out.
    Serve { node: u64 },
    /// Hooks are delivered although no delivery was taken from the queue.
    Deliver { node: u64 },
    /// Someone starts to listen to diagnostics.
    Subscribe,
    /// Someone stops listening.
    Unsubscribe { token: u64 },
    /// The host empties the outboxes.
    Collect,
}

impl Step {
    /// The kind and the place of creation of the node that the step creates, if it creates one.
    pub open spec fn creates(self) -> Option<(NodeKind, Location)> {
        match self {
            Step::Create { kind, origin } => Some((kind, origin)),
            Step::CreateComputed { kind, origin } => Some((kind, origin)),
            Step::CreateEffect { origin, .. } => Some((NodeKind::Effect, origin)),
            Step::CreateHooked { origin } => Some((NodeKind::Source, origin)),
            _ => None,
        }
    }
}

impl ReactorModel {
    /// The step can be taken now: identifiers last, what is read or run was handed out by this
    /// reactor, and jobs are carried out inside a flush.
    pub open spec fn permits(self, step: Step) -> bool {
        &&& step.creates() is Some ==> self.graph.next_node < u64::MAX
        &&& match step {
            Step::Read { node, .. } => node < self.graph.next_node,
            Step::Start { observer, lost } => {
                &&& observer < self.graph.next_node
                &&& crate::model::lists(lost, crate::model::abandoned(self.graph, observer))
            },
            Step::Recompute { node, lost } => {
                &&& node < self.graph.next_node
                &&& self.is_computed(node)
                &&& crate::model::lists(lost, crate::model::abandoned(self.graph, node))
            },
            Step::Dispose { node, lost } => crate::model::lists(
                lost,
                crate::model::abandoned(self.graph, node),
            ),
            Step::Settle { node } => self.is_computed(node),
            Step::Fail { node } => self.is_computed(node),
            Step::Write { node, log, .. } => crate::observers::propagation(
                self.graph,
                self.observers,
                node,
                log,
            ),
            Step::Request { node } => self.is_effect(node),
            Step::Unlatch { node } => self.is_effect(node),
            Step::Turn { node } => self.is_effect(node),
            Step::Resume { node, .. } => self.is_effect(node),
            Step::FailTurn { node } => self.is_effect(node),
            Step::Finish { ticket } => self.is_effect(ticket.effect.0),
            Step::Close { ticket } => self.is_effect(ticket.effect.0),
            Step::Retire { node } => self.is_effect(node),
            Step::Take => {
                &&& self.flush_depth > 0
                &&& self.jobs.len() > 0
                &&& !(self.jobs[0] is Hook)
            },
            Step::Serve { node } => {
                &&& self.flush_depth > 0
                &&& self.jobs.len() > 0
                &&& self.jobs[0] == Job::Hook(NodeId(node))
            },
            Step::Deliver { .. } => self.flush_depth > 0,
            _ => true,
        }
    }

    /// After the step was taken.
    #[verifier::opaque]
    pub open spec fn stepped(self, step: Step) -> ReactorModel {
        match step {
            Step::Create { kind, origin } => self.created(kind, origin),
            Step::CreateComputed { kind, origin } => self.computed_created(kind, origin),
            Step::CreateEffect { external, owner, origin } => self.effect_created(
                external,
                owner,
                origin,
            ),
            Step::CreateHooked { origin } => self.hooked_source_created(origin),
            Step::Read { tracking, node } => self.read(tracking, node),
            Step::Start { observer, lost } => self.started(observer, lost),
            Step::Recompute { node, lost } => self.recompute_started(node, lost),
            Step::End => self.ended(),
            Step::Publish { node, changed } => self.published(node, changed),
            Step::Fail { node } => self.recompute_failed(node),
            Step::Verify { node, recomputed } => self.verification_reported(node, recomputed),
            Step::Settle { node } => self.with_state(node, State::Clean),
            Step::Write { node, origin, log } => self.triggered(node, origin, log),
            Step::Suppress { node, origin } => self.write_suppressed(node, origin),
            Step::Unregister { node } => self.unregistered(node),
            Step::Dispose { node, lost } => self.disposed(node, lost),
            Step::Forget { node } => ReactorModel {
                observers: self.observers.remove(node),
                ..self
            },
            Step::Request { node } => self.requested(node),
            Step::Unlatch { node } => self.unlatched(node),
            Step::Turn { node } => self.turn(node).0,
            Step::Resume { node, changed } => self.turn_resumed(node, changed).0,
            Step::FailTurn { node } => self.turn_failed(node),
            Step::Finish { ticket } => self.run_finished(ticket),
            Step::Close { ticket } => self.run_closed(ticket),
            Step::Retire { node } => self.effect_retired(node),
            Step::Schedule { job } => self.scheduled(job),
            Step::Open => self.begun(),
            Step::Shut => self.finished(),
            Step::Drain => self.drain_started(),
            Step::Drained { epoch } => self.drain_finished(epoch),
            Step::Idle => ReactorModel { flush_scheduled: false, ..self },
            Step::Take => self.job_taken(),
            Step::Serve { node } => self.job_taken().hook_delivered(node),
            Step::Deliver { node } => self.hook_delivered(node),
            Step::Subscribe => self.subscribed(),
            Step::Unsubscribe { token } => self.unsubscribed(token),
            Step::Collect => ReactorModel {
                events: Seq::empty(),
                ready: Seq::empty(),
                wake: false,
                ..self
            },
        }
    }

    /// What the step tells the consumer of `node`: that the node became observed, that it became
    /// unobserved, or nothing.
    pub open spec fn tells(self, step: Step, node: u64) -> Option<bool> {
        match step {
            Step::Serve { node: served } => if served == node {
                self.job_taken().hook_news(node)
            } else {
                None
            },
            Step::Deliver { node: served } => if served == node {
                self.hook_news(node)
            } else {
                None
            },
            _ => None,
        }
    }

    /// Every identifier in use was handed out, and every one that was handed out is counted.
    pub open spec fn numbered(self) -> bool {
        &&& self.counts.nodes_created == self.graph.next_node - 1
        &&& self.graph.nodes.dom().finite()
        &&& forall|node: u64| #[trigger]
            self.graph.nodes.contains_key(node) ==> node < self.graph.next_node
        &&& forall|node: u64| #[trigger]
            self.hooks.contains_key(node) ==> node < self.graph.next_node
        &&& forall|observer: u64, node: u64| #[trigger]
            self.graph.observes(observer, node) ==> observer < self.graph.next_node && node
                < self.graph.next_node
        &&& forall|at: int|
            0 <= at < self.graph.stack.len() ==> #[trigger] self.graph.stack[at]
                < self.graph.next_node
    }

    /// Nodes, edges and hooks are at most those of `before`, no observer more is running, and no
    /// identifier was handed out since.
    pub open spec fn adds_nothing_to(self, before: ReactorModel) -> bool {
        &&& self.graph.next_node == before.graph.next_node
        &&& self.counts.nodes_created == before.counts.nodes_created
        &&& forall|node: u64| #[trigger]
            self.graph.nodes.contains_key(node) ==> before.graph.nodes.contains_key(node)
        &&& forall|node: u64| #[trigger]
            self.hooks.contains_key(node) ==> before.hooks.contains_key(node)
        &&& forall|observer: u64, node: u64| #[trigger]
            self.graph.observes(observer, node) ==> before.graph.observes(observer, node)
        &&& self.graph.stack.len() <= before.graph.stack.len()
        &&& forall|at: int|
            0 <= at < self.graph.stack.len() ==> #[trigger] self.graph.stack[at]
                == before.graph.stack[at]
    }
}

/// The reactor after these steps from its creation on.
pub open spec fn lived(id: ReactorId, steps: Seq<Step>) -> ReactorModel
    decreases steps.len(),
{
    if steps.len() == 0 {
        ReactorModel::fresh(id)
    } else {
        lived(id, steps.drop_last()).stepped(steps.last())
    }
}

/// Each of the steps could be taken when it was.
pub open spec fn possible(id: ReactorId, steps: Seq<Step>) -> bool
    decreases steps.len(),
{
    steps.len() > 0 ==> possible(id, steps.drop_last()) && lived(id, steps.drop_last()).permits(
        steps.last(),
    )
}

/// How many nodes the steps created.
pub open spec fn allocations(steps: Seq<Step>) -> nat
    decreases steps.len(),
{
    if steps.len() == 0 {
        0
    } else {
        allocations(steps.drop_last()) + if steps.last().creates() is Some {
            1nat
        } else {
            0nat
        }
    }
}

/// Everything that the consumer of `node` was told, in order.
pub open spec fn heard(id: ReactorId, steps: Seq<Step>, node: u64) -> Seq<bool>
    decreases steps.len(),
{
    if steps.len() == 0 {
        Seq::empty()
    } else {
        let before = heard(id, steps.drop_last(), node);
        match lived(id, steps.drop_last()).tells(steps.last(), node) {
            Some(news) => before.push(news),
            None => before,
        }
    }
}

proof fn noting_adds_nothing(model: ReactorModel, nodes: Seq<u64>)
    ensures
        model.noted_abandoned(nodes).adds_nothing_to(model),
        model.noted_abandoned(nodes).graph == model.graph,
    decreases nodes.len(),
{
    if nodes.len() > 0 {
        noting_adds_nothing(model, nodes.drop_last());
    }
}

proof fn forgetting_adds_nothing(model: ReactorModel, observer: u64, lost: Seq<u64>)
    ensures
        model.forgotten(observer, lost).adds_nothing_to(model),
        model.forgotten(observer, lost).graph == model.graph.forgetting(observer),
{
    let count = model.graph.inputs(observer).dom().len() as usize;
    let cut = ReactorModel {
        graph: model.graph.forgetting(observer),
        counts: model.counts.edges_removed(count),
        ..model
    }.recorded(crate::stats::FlushItem::EdgesRemoved { count });
    noting_adds_nothing(cut, lost);
}

proof fn requesting_adds_nothing(model: ReactorModel, node: u64)
    ensures
        model.requested(node).adds_nothing_to(model),
        model.requested(node).graph == model.graph,
        model.requested(node).hooks == model.hooks,
{
}

proof fn receiving_adds_nothing(
    model: ReactorModel,
    log: Seq<Delivery>,
    cause: Option<crate::diagnostics::InvalidationCause>,
)
    ensures
        model.received_all(log, cause).adds_nothing_to(model),
        model.received_all(log, cause).graph == model.graph,
        model.received_all(log, cause).hooks == model.hooks,
    decreases log.len(),
{
    if log.len() > 0 {
        receiving_adds_nothing(model, log.drop_last(), cause);
        one_mark_adds_nothing(model.received_all(log.drop_last(), cause), log.last(), cause);
    }
}

proof fn one_mark_adds_nothing(
    model: ReactorModel,
    delivery: Delivery,
    cause: Option<crate::diagnostics::InvalidationCause>,
)
    ensures
        model.received(delivery, cause).adds_nothing_to(model),
        model.received(delivery, cause).graph == model.graph,
        model.received(delivery, cause).hooks == model.hooks,
{
}

proof fn writing_adds_nothing(
    model: ReactorModel,
    node: u64,
    origin: Location,
    log: Seq<Delivery>,
)
    ensures
        model.triggered(node, origin, log).adds_nothing_to(model),
{
    let marked = ReactorModel {
        observers: crate::observers::delivered(model.observers, log),
        ..model.written(node, origin)
    };
    let cause = ReactorModel { graph: model.graph.bumped(node), ..model }.write_cause(node, origin);
    receiving_adds_nothing(marked, log, cause);
    assert(marked.adds_nothing_to(model));
}

proof fn finishing_adds_nothing(model: ReactorModel, ticket: RunTicket)
    ensures
        model.run_finished(ticket).adds_nothing_to(model),
        model.run_closed(ticket).adds_nothing_to(model),
{
    let node = ticket.effect.0;
    let left = model.ended();
    let cleared = left.with_effect(
        node,
        crate::observers::EffectRecord { rerun_after_current: false, ..left.effect(node) },
    );
    requesting_adds_nothing(cleared, node);
    assert(left.adds_nothing_to(model));
    assert(cleared.adds_nothing_to(model));
}

proof fn turning_adds_nothing(model: ReactorModel, node: u64, changed: bool)
    ensures
        model.unlatched(node).adds_nothing_to(model),
        model.turn(node).0.adds_nothing_to(model),
        model.turn_resumed(node, changed).0.adds_nothing_to(model),
        model.turn_failed(node).adds_nothing_to(model),
        model.effect_retired(node).adds_nothing_to(model),
{
    requesting_adds_nothing(model.with_state(node, State::Dirty), node);
}

proof fn computing_adds_nothing(model: ReactorModel, node: u64, changed: bool)
    ensures
        model.ended().adds_nothing_to(model),
        model.published(node, changed).adds_nothing_to(model),
        model.recompute_failed(node).adds_nothing_to(model),
        model.verification_reported(node, changed).adds_nothing_to(model),
        model.with_state(node, State::Clean).adds_nothing_to(model),
{
}

proof fn disposing_adds_nothing(model: ReactorModel, node: u64, lost: Seq<u64>)
    ensures
        model.unregistered(node).adds_nothing_to(model),
        model.disposed(node, lost).adds_nothing_to(model),
{
    forgetting_adds_nothing(model, node, lost);
}

proof fn flushing_adds_nothing(model: ReactorModel, job: Job, epoch: u64, token: u64, node: u64)
    ensures
        model.scheduled(job).adds_nothing_to(model),
        model.begun().adds_nothing_to(model),
        model.finished().adds_nothing_to(model),
        model.drain_started().adds_nothing_to(model),
        model.drain_finished(epoch).adds_nothing_to(model),
        model.job_taken().adds_nothing_to(model),
        model.job_taken().hook_delivered(node).adds_nothing_to(model),
        model.hook_delivered(node).adds_nothing_to(model),
        model.subscribed().adds_nothing_to(model),
        model.unsubscribed(token).adds_nothing_to(model),
{
}

/// Every step but those that create a node, read one or start to run an observer adds nothing.
proof fn quiet_steps_add_nothing(model: ReactorModel, step: Step)
    requires
        step.creates() is None,
        !(step is Read),
        !(step is Start),
        !(step is Recompute),
    ensures
        model.stepped(step).adds_nothing_to(model),
{
    reveal(ReactorModel::stepped);
    match step {
        Step::End => computing_adds_nothing(model, 0, false),
        Step::Publish { node, changed } => computing_adds_nothing(model, node, changed),
        Step::Fail { node } => computing_adds_nothing(model, node, false),
        Step::Verify { node, recomputed } => computing_adds_nothing(model, node, recomputed),
        Step::Settle { node } => computing_adds_nothing(model, node, false),
        Step::Write { node, origin, log } => writing_adds_nothing(model, node, origin, log),
        Step::Unregister { node } => disposing_adds_nothing(model, node, Seq::empty()),
        Step::Dispose { node, lost } => disposing_adds_nothing(model, node, lost),
        Step::Request { node } => requesting_adds_nothing(model, node),
        Step::Unlatch { node } => turning_adds_nothing(model, node, false),
        Step::Turn { node } => turning_adds_nothing(model, node, false),
        Step::Resume { node, changed } => turning_adds_nothing(model, node, changed),
        Step::FailTurn { node } => turning_adds_nothing(model, node, false),
        Step::Retire { node } => turning_adds_nothing(model, node, false),
        Step::Finish { ticket } => finishing_adds_nothing(model, ticket),
        Step::Close { ticket } => finishing_adds_nothing(model, ticket),
        Step::Schedule { job } => flushing_adds_nothing(model, job, 0, 0, 0),
        Step::Drained { epoch } => flushing_adds_nothing(model, Job::Task(0), epoch, 0, 0),
        Step::Unsubscribe { token } => flushing_adds_nothing(model, Job::Task(0), 0, token, 0),
        Step::Serve { node } => flushing_adds_nothing(model, Job::Task(0), 0, 0, node),
        Step::Deliver { node } => flushing_adds_nothing(model, Job::Task(0), 0, 0, node),
        Step::Suppress { .. } => {},
        Step::Forget { .. } => {},
        Step::Idle => {},
        Step::Collect => {},
        _ => flushing_adds_nothing(model, Job::Task(0), 0, 0, 0),
    }
}

/// Every step keeps identifiers in order, and hands out the next one if it creates a node.
proof fn steps_keep_identifiers(model: ReactorModel, step: Step)
    requires
        model.numbered(),
        model.permits(step),
    ensures
        model.stepped(step).numbered(),
        model.stepped(step).graph.next_node == model.graph.next_node + if step.creates() is Some {
            1int
        } else {
            0int
        },
        forall|node: u64| #[trigger]
            model.stepped(step).hooks.contains_key(node) ==> model.hooks.contains_key(node) || (step
                is CreateHooked && node == model.graph.next_node),
{
    reveal(ReactorModel::stepped);
    let after = model.stepped(step);
    match step {
        Step::Read { tracking, node } => {
            assert forall|observer: u64, other: u64| #[trigger]
                after.graph.observes(observer, other) implies observer < after.graph.next_node
                && other < after.graph.next_node by {
                if !model.graph.observes(observer, other) {
                    assert(observer == model.graph.stack[model.graph.stack.len() - 1]);
                }
            }
        },
        Step::Start { observer, lost } => {
            forgetting_adds_nothing(model, observer, lost);
            starting_keeps_identifiers(model, observer, lost);
        },
        Step::Recompute { node, lost } => {
            let counted = model.recorded(crate::stats::FlushItem::ComputedRecomputed);
            let told = if model.graph.nodes.contains_key(node) {
                counted.emitted(
                    crate::diagnostics::DiagnosticEvent::ComputedRecomputeStarted {
                        reactor: model.id,
                        node: NodeId(node),
                        kind: model.graph.nodes[node].kind,
                        node_origin: model.graph.nodes[node].origin,
                        flush_epoch: model.flush_epoch,
                        dependencies_before: model.graph.inputs(node).dom().len() as usize,
                    },
                )
            } else {
                counted
            };
            let cleaned = told.with_state(node, State::Clean);
            assert(cleaned.adds_nothing_to(model));
            starting_keeps_identifiers(cleaned, node, lost);
        },
        _ => {
            if step.creates() is None {
                quiet_steps_add_nothing(model, step);
                vstd::set_lib::lemma_set_subset_finite(
                    model.graph.nodes.dom(),
                    after.graph.nodes.dom(),
                );
            } else {
                assert(after.graph.nodes.dom() =~= model.graph.nodes.dom().insert(
                    model.graph.next_node,
                ));
                assert forall|observer: u64, node: u64| #[trigger]
                    after.graph.observes(observer, node) implies observer < after.graph.next_node
                    && node < after.graph.next_node by {
                    assert(model.graph.observes(observer, node));
                }
                assert(after.graph.stack == model.graph.stack);
            }
        },
    }
}

proof fn starting_keeps_identifiers(model: ReactorModel, observer: u64, lost: Seq<u64>)
    requires
        model.numbered(),
        observer < model.graph.next_node,
    ensures
        model.started(observer, lost).numbered(),
        model.started(observer, lost).graph.next_node == model.graph.next_node,
        forall|node: u64| #[trigger]
            model.started(observer, lost).hooks.contains_key(node) ==> model.hooks.contains_key(
                node,
            ),
{
    forgetting_adds_nothing(model, observer, lost);
    let forgotten = model.forgotten(observer, lost);
    let after = model.started(observer, lost);
    assert forall|other: u64, node: u64| #[trigger] after.graph.observes(other, node) implies other
        < after.graph.next_node && node < after.graph.next_node by {
        assert(forgotten.graph.observes(other, node));
    }
}

/// The hooks are in order after the step, and what the consumers have been told is what they were
/// told before, but for the news of the step.
spec fn informs(model: ReactorModel, step: Step) -> bool {
    let after = model.stepped(step);
    &&& after.hooks_in_order(None)
    &&& forall|node: u64| #[trigger]
        after.hooks.contains_key(node) && model.hooks.contains_key(node) ==> match model.tells(
            step,
            node,
        ) {
            Some(news) => news == !model.hooks[node].delivered && after.hooks[node].delivered
                == news,
            None => after.hooks[node].delivered == model.hooks[node].delivered,
        }
}

proof fn creations_inform(model: ReactorModel, step: Step)
    requires
        model.numbered(),
        model.hooks_in_order(None),
        step.creates() is Some,
    ensures
        informs(model, step),
        step is CreateHooked ==> !model.stepped(step).hooks[model.graph.next_node].delivered,
{
    reveal(ReactorModel::stepped);
    let next = model.graph.next_node;
    assert(!model.graph.observed().contains(next)) by {
        if model.graph.observed().contains(next) {
            let edge = choose|edge: (u64, u64)| #[trigger]
                model.graph.edges.contains_key(edge) && edge.1 == next;
            assert(model.graph.observes(edge.0, next));
        }
    }
    assert(!model.hooks.contains_key(next));
    let (kind, origin) = step.creates()->0;
    let (external, owner) = match step {
        Step::CreateEffect { external, owner, .. } => (external, owner),
        _ => (false, 0u64),
    };
    crate::hooks::creation_keeps_hooks_in_order(
        model.id,
        model,
        kind,
        external,
        owner,
        origin,
        None,
    );
}

proof fn deliveries_inform(model: ReactorModel, step: Step)
    requires
        model.hooks_in_order(None),
        model.permits(step),
        step is Serve || step is Deliver || step is Take,
    ensures
        informs(model, step),
{
    reveal(ReactorModel::stepped);
    match step {
        Step::Serve { node } => {
            crate::hooks::taking_a_job_keeps_hooks_in_order(model);
            crate::hooks::deliveries_keep_hooks_in_order(model.job_taken(), node);
            crate::lifecycle::hooks_alternate(model.job_taken(), node);
        },
        Step::Deliver { node } => {
            assert(model.hooks_in_order(Some(node)));
            crate::hooks::deliveries_keep_hooks_in_order(model, node);
            crate::lifecycle::hooks_alternate(model, node);
        },
        _ => {
            crate::hooks::taking_a_job_keeps_hooks_in_order(model);
        },
    }
}

proof fn graph_steps_inform(model: ReactorModel, step: Step)
    requires
        model.hooks_in_order(None),
        model.permits(step),
        step is Read || step is Start || step is Recompute || step is Dispose || step is Write
            || step is Suppress,
    ensures
        informs(model, step),
{
    reveal(ReactorModel::stepped);
    match step {
        Step::Read { tracking, node } => {
            crate::hooks::reads_keep_hooks_in_order(model, tracking, node, None);
        },
        Step::Start { observer, lost } => {
            crate::hooks::forgetting_keeps_hooks_in_order(model, observer, lost, None);
        },
        Step::Recompute { node, lost } => {
            crate::hooks::computations_keep_hooks_in_order(model, node, lost, false, None);
        },
        Step::Dispose { node, lost } => {
            crate::hooks::disposal_keeps_hooks_in_order(model, node, lost, None);
        },
        Step::Write { node, origin, log } => {
            let after = model.triggered(node, origin, log);
            assert(model.is_write(node, origin, after));
            crate::hooks::writes_keep_hooks_in_order(model, node, origin, after, None);
        },
        _ => {
            crate::hooks::unrelated_steps_keep_order(model, model.stepped(step), None);
        },
    }
}

proof fn turns_inform(model: ReactorModel, step: Step)
    requires
        model.hooks_in_order(None),
        step is Request || step is Turn || step is Resume || step is FailTurn || step is Finish
            || step is Close || step is Retire,
    ensures
        informs(model, step),
{
    reveal(ReactorModel::stepped);
    let ticket = match step {
        Step::Finish { ticket } => ticket,
        Step::Close { ticket } => ticket,
        _ => RunTicket { effect: NodeId(0), flush_epoch: 0, reported: false },
    };
    let (node, changed) = match step {
        Step::Request { node } => (node, false),
        Step::Turn { node } => (node, false),
        Step::Resume { node, changed } => (node, changed),
        Step::FailTurn { node } => (node, false),
        Step::Retire { node } => (node, false),
        _ => (0, false),
    };
    crate::hooks::turns_keep_hooks_in_order(model, node, changed, ticket, None);
}

proof fn flushes_inform(model: ReactorModel, step: Step)
    requires
        model.hooks_in_order(None),
        step is Schedule || step is Open || step is Shut || step is Drain || step is Drained
            || step is Subscribe || step is Unsubscribe,
    ensures
        informs(model, step),
{
    reveal(ReactorModel::stepped);
    let job = match step {
        Step::Schedule { job } => job,
        _ => Job::Task(0),
    };
    let epoch = match step {
        Step::Drained { epoch } => epoch,
        _ => 0,
    };
    let token = match step {
        Step::Unsubscribe { token } => token,
        _ => 0,
    };
    crate::hooks::flushes_keep_hooks_in_order(model, job, epoch, token, None);
}

/// Every step keeps hooks in order and informs consumers of what it says, of nothing else.
proof fn steps_inform(model: ReactorModel, step: Step)
    requires
        model.numbered(),
        model.hooks_in_order(None),
        model.permits(step),
    ensures
        informs(model, step),
{
    reveal(ReactorModel::stepped);
    match step {
        Step::Create { .. } => creations_inform(model, step),
        Step::CreateComputed { .. } => creations_inform(model, step),
        Step::CreateEffect { .. } => creations_inform(model, step),
        Step::CreateHooked { .. } => creations_inform(model, step),
        Step::Read { .. } => graph_steps_inform(model, step),
        Step::Start { .. } => graph_steps_inform(model, step),
        Step::Recompute { .. } => graph_steps_inform(model, step),
        Step::Dispose { .. } => graph_steps_inform(model, step),
        Step::Write { .. } => graph_steps_inform(model, step),
        Step::Suppress { .. } => graph_steps_inform(model, step),
        Step::Take => deliveries_inform(model, step),
        Step::Serve { .. } => deliveries_inform(model, step),
        Step::Deliver { .. } => deliveries_inform(model, step),
        Step::Request { .. } => turns_inform(model, step),
        Step::Turn { .. } => turns_inform(model, step),
        Step::Resume { .. } => turns_inform(model, step),
        Step::FailTurn { .. } => turns_inform(model, step),
        Step::Finish { .. } => turns_inform(model, step),
        Step::Close { .. } => turns_inform(model, step),
        Step::Retire { .. } => turns_inform(model, step),
        Step::Schedule { .. } => flushes_inform(model, step),
        Step::Open => flushes_inform(model, step),
        Step::Shut => flushes_inform(model, step),
        Step::Drain => flushes_inform(model, step),
        Step::Drained { .. } => flushes_inform(model, step),
        Step::Subscribe => flushes_inform(model, step),
        Step::Unsubscribe { .. } => flushes_inform(model, step),
        _ => crate::hooks::unrelated_steps_keep_order(model, model.stepped(step), None),
    }
}

/// What every history keeps: every identifier in use was handed out, as many were handed out as
/// nodes were created, and hooks are in order.
pub proof fn histories_keep_order(id: ReactorId, steps: Seq<Step>)
    requires
        possible(id, steps),
    ensures
        lived(id, steps).numbered(),
        lived(id, steps).hooks_in_order(None),
        lived(id, steps).graph.next_node == allocations(steps) + 1,
    decreases steps.len(),
{
    if steps.len() > 0 {
        let before = lived(id, steps.drop_last());
        histories_keep_order(id, steps.drop_last());
        steps_keep_identifiers(before, steps.last());
        steps_inform(before, steps.last());
    }
}

/// A node that was created at one point has a smaller number than the next one at a later point.
proof fn numbers_grow(id: ReactorId, steps: Seq<Step>, earlier: int)
    requires
        possible(id, steps),
        0 <= earlier < steps.len(),
        steps[earlier].creates() is Some,
    ensures
        possible(id, steps.take(earlier)),
        lived(id, steps.take(earlier)).graph.next_node < lived(id, steps).graph.next_node,
    decreases steps.len(),
{
    let shorter = steps.drop_last();
    histories_keep_order(id, steps);
    histories_keep_order(id, shorter);
    if earlier == shorter.len() {
        assert(steps.take(earlier) =~= shorter);
    } else {
        assert(shorter.take(earlier) =~= steps.take(earlier));
        numbers_grow(id, shorter, earlier);
    }
}

/// Identifiers count the nodes: the next node that a reactor creates gets the number of nodes it
/// created so far, and one, whatever was disposed in between. So its identifier is greater than
/// every one handed out before, and none is ever used again. The node is live, with its first
/// version, its kind and the place where it was created; no edge touches it; and it is counted.
pub proof fn identifiers_count_the_nodes(
    id: ReactorId,
    steps: Seq<Step>,
    next: Step,
    kind: NodeKind,
    origin: Location,
)
    requires
        possible(id, steps.push(next)),
        next.creates() == Some((kind, origin)),
    ensures
        ({
            let before = lived(id, steps);
            let after = lived(id, steps.push(next));
            let number = before.graph.next_node;
            &&& number == allocations(steps) + 1
            &&& forall|earlier: int|
                0 <= earlier < steps.len() && (#[trigger] steps[earlier]).creates() is Some
                    ==> lived(id, steps.take(earlier)).graph.next_node < number
            &&& !before.graph.nodes.contains_key(number)
            &&& after.graph.nodes == before.graph.nodes.insert(
                number,
                NodeMeta { version: 0, origin, kind },
            )
            &&& forall|other: u64| !#[trigger] after.graph.observes(number, other)
            &&& forall|other: u64| !#[trigger] after.graph.observes(other, number)
            &&& after.graph.nodes.dom().len() == before.graph.nodes.dom().len() + 1
            &&& before.counts.nodes_created == allocations(steps)
            &&& after.counts.nodes_created == allocations(steps) + 1
        }),
{
    let before = lived(id, steps);
    let after = lived(id, steps.push(next));
    let number = before.graph.next_node;
    assert(steps.push(next).drop_last() =~= steps);
    assert(steps.push(next).last() == next);
    histories_keep_order(id, steps);
    histories_keep_order(id, steps.push(next));
    assert(after == before.stepped(next));
    new_nodes_are_blank(before, next, kind, origin);
    assert(after.graph.nodes.dom() =~= before.graph.nodes.dom().insert(number));
    assert forall|earlier: int|
        0 <= earlier < steps.len() && (#[trigger] steps[earlier]).creates() is Some implies lived(
        id,
        steps.take(earlier),
    ).graph.next_node < number by {
        numbers_grow(id, steps, earlier);
    }
}

proof fn new_nodes_are_blank(model: ReactorModel, step: Step, kind: NodeKind, origin: Location)
    requires
        model.numbered(),
        model.permits(step),
        step.creates() == Some((kind, origin)),
    ensures
        ({
            let after = model.stepped(step);
            let number = model.graph.next_node;
            &&& !model.graph.nodes.contains_key(number)
            &&& after.graph.nodes == model.graph.nodes.insert(
                number,
                NodeMeta { version: 0, origin, kind },
            )
            &&& forall|other: u64| !#[trigger] after.graph.observes(number, other)
            &&& forall|other: u64| !#[trigger] after.graph.observes(other, number)
        }),
{
    reveal(ReactorModel::stepped);
    let after = model.stepped(step);
    let number = model.graph.next_node;
    assert(after.graph == model.graph.allocated(kind, origin));
    assert forall|other: u64| !#[trigger] after.graph.observes(number, other) by {
        assert(!model.graph.observes(number, other));
    }
    assert forall|other: u64| !#[trigger] after.graph.observes(other, number) by {
        assert(!model.graph.observes(other, number));
    }
}

/// Of a node with hooks: what its consumer was told alternates, and the last of it is what the hooks
/// hold to be known. Of a node that was not created yet nothing was told.
proof fn news_alternates(id: ReactorId, steps: Seq<Step>, node: u64)
    requires
        possible(id, steps),
    ensures
        ({
            let model = lived(id, steps);
            let told = heard(id, steps, node);
            &&& forall|at: int| 0 <= at < told.len() ==> #[trigger] told[at] == (at % 2 == 0)
            &&& model.hooks.contains_key(node) ==> model.hooks[node].delivered == (told.len() % 2
                == 1)
            &&& node >= model.graph.next_node ==> told.len() == 0
        }),
    decreases steps.len(),
{
    if steps.len() > 0 {
        let shorter = steps.drop_last();
        let step = steps.last();
        let before = lived(id, shorter);
        news_alternates(id, shorter, node);
        histories_keep_order(id, shorter);
        steps_keep_identifiers(before, step);
        steps_inform(before, step);
        let model = lived(id, steps);
        let told = heard(id, shorter, node);
        assert(model == before.stepped(step));
        if model.hooks.contains_key(node) && !before.hooks.contains_key(node) {
            creations_inform(before, step);
        }
        match before.tells(step, node) {
            Some(news) => {
                assert(before.hooks.contains_key(node));
                assert(heard(id, steps, node) == told.push(news));
                assert(news == (told.len() % 2 == 0)) by {
                    crate::lifecycle::hooks_alternate(before, node);
                }
            },
            None => {},
        }
    }
}

/// Whatever happens to a node with hooks and to its readers, in whatever order, the consumer of the
/// hooks is told in turn that the node is observed and that it is not, beginning with the former. It
/// is told so inside a flush only, never at the moment when the change happens. And whenever the
/// queue is empty, as it is when a flush ran to its end, the last thing it was told is how things
/// are; a consumer that was told nothing takes the node for unobserved.
pub proof fn consumers_are_told_in_turn(id: ReactorId, steps: Seq<Step>, node: u64)
    requires
        possible(id, steps),
    ensures
        ({
            let model = lived(id, steps);
            let told = heard(id, steps, node);
            &&& forall|at: int| 0 <= at < told.len() ==> #[trigger] told[at] == (at % 2 == 0)
            &&& model.hooks.contains_key(node) && model.jobs.len() == 0 ==> (told.len() > 0
                && told.last()) == model.graph.observed().contains(node)
        }),
        forall|at: int|
            0 <= at < steps.len() && lived(id, steps.take(at)).tells(
                #[trigger] steps[at],
                node,
            ) is Some ==> lived(id, steps.take(at)).flush_depth > 0,
{
    let model = lived(id, steps);
    let told = heard(id, steps, node);
    news_alternates(id, steps, node);
    histories_keep_order(id, steps);
    if model.hooks.contains_key(node) && model.jobs.len() == 0 {
        crate::hooks::completed_flushes_leave_consumers_informed(model);
        if told.len() > 0 {
            assert(told[told.len() - 1] == ((told.len() - 1) % 2 == 0));
        }
    }
    assert forall|at: int|
        0 <= at < steps.len() && lived(id, steps.take(at)).tells(
            #[trigger] steps[at],
            node,
        ) is Some implies lived(id, steps.take(at)).flush_depth > 0 by {
        every_step_was_permitted(id, steps, at);
        news_comes_inside_a_flush(lived(id, steps.take(at)), steps[at], node);
    }
}

proof fn news_comes_inside_a_flush(model: ReactorModel, step: Step, node: u64)
    requires
        model.permits(step),
    ensures
        model.tells(step, node) is Some ==> model.flush_depth > 0,
{
}

proof fn every_step_was_permitted(id: ReactorId, steps: Seq<Step>, at: int)
    requires
        possible(id, steps),
        0 <= at < steps.len(),
    ensures
        lived(id, steps.take(at)).permits(steps[at]),
    decreases steps.len(),
{
    let shorter = steps.drop_last();
    if at == shorter.len() {
        assert(steps.take(at) =~= shorter);
    } else {
        assert(shorter.take(at) =~= steps.take(at));
        every_step_was_permitted(id, shorter, at);
    }
}

} // verus!
