//! What a source's hooks tell: after a flush that ran to its end, the last thing the consumer heard
//! of a node is how things are.
//!
//! The property is stated of every state of a reactor, and each step is shown to keep it. The
//! deliveries themselves are jobs, so that nothing is told while the graph is being changed.
use vstd::prelude::*;

use crate::diagnostics::{InvalidationCause, NodeKind};
use crate::effect::RunTicket;
use crate::id::{Location, NodeId};
use crate::model::{Job, ReactorModel};
use crate::observers::Delivery;
use crate::tracking::Tracking;

verus! {

impl ReactorModel {
    /// The delivery of a node's hooks is in the queue.
    pub open spec fn delivers(self, node: u64) -> bool {
        self.jobs.contains(Job::Hook(NodeId(node)))
    }

    /// The hooks of a node know whether the node is observed. Unless a delivery is due, the
    /// consumer knows too; a delivery that is due is in the queue, or is `taken`, which means that
    /// it was taken from the queue and is being carried out.
    pub open spec fn hooks_in_order(self, taken: Option<u64>) -> bool {
        forall|node: u64| #[trigger]
            self.hooks.contains_key(node) ==> {
                &&& self.hooks[node].observed == self.graph.observed().contains(node)
                &&& !self.hooks[node].queued ==> self.hooks[node].delivered
                    == self.hooks[node].observed
                &&& self.hooks[node].queued ==> taken == Some(node) || self.delivers(node)
            }
    }

    /// `after` has the hooks and the edges of this reactor, and every delivery in its queue is still
    /// there: what happened had nothing to do with hooks.
    pub open spec fn leaves_hooks_alone(self, after: ReactorModel) -> bool {
        &&& after.hooks == self.hooks
        &&& after.graph.edges == self.graph.edges
        &&& self.keeps_deliveries(after)
    }

    /// Every delivery in the queue is still in the queue of `after`.
    pub open spec fn keeps_deliveries(self, after: ReactorModel) -> bool {
        forall|node: u64| #[trigger] self.delivers(node) ==> after.delivers(node)
    }

    /// The hooks are in order afterwards, and nobody was told anything.
    pub open spec fn keeps_order_quietly(self, after: ReactorModel, taken: Option<u64>) -> bool {
        &&& after.hooks_in_order(taken)
        &&& self.tells_nobody(after)
    }

    /// What the consumer heard is the same afterwards: nobody was told anything.
    pub open spec fn tells_nobody(self, after: ReactorModel) -> bool {
        forall|node: u64| #[trigger]
            after.hooks.contains_key(node) && self.hooks.contains_key(node)
                ==> after.hooks[node].delivered == self.hooks[node].delivered
    }
}

/// Once a flush ran to its end, so that the queue is empty, the last delivery told of every node
/// with hooks whether it is observed.
pub proof fn completed_flushes_leave_consumers_informed(model: ReactorModel)
    requires
        model.hooks_in_order(None),
        model.jobs.len() == 0,
    ensures
        forall|node: u64| #[trigger]
            model.hooks.contains_key(node) ==> model.hooks[node].delivered
                == model.graph.observed().contains(node),
{
    assert forall|node: u64| #[trigger] model.hooks.contains_key(node) implies model.hooks[
        node
    ].delivered == model.graph.observed().contains(node) by {
        assert(!model.delivers(node));
    }
}

/// A step that has nothing to do with hooks keeps them in order.
pub proof fn unrelated_steps_keep_order(before: ReactorModel, after: ReactorModel, taken: Option<u64>)
    requires
        before.hooks_in_order(taken),
        before.leaves_hooks_alone(after),
    ensures
        after.hooks_in_order(taken),
        before.tells_nobody(after),
{
    assert forall|node: u64| #[trigger] after.hooks.contains_key(node) implies {
        &&& after.hooks[node].observed == after.graph.observed().contains(node)
        &&& !after.hooks[node].queued ==> after.hooks[node].delivered == after.hooks[node].observed
        &&& after.hooks[node].queued ==> taken == Some(node) || after.delivers(node)
    } by {
        assert(before.hooks.contains_key(node));
        if before.delivers(node) {
            assert(after.delivers(node));
        }
    }
}

/// A job more in the queue takes none out.
proof fn queueing_keeps_deliveries(model: ReactorModel, job: Job)
    ensures
        model.keeps_deliveries(model.scheduled(job)),
        model.scheduled(job).jobs.contains(job),
{
    let after = model.scheduled(job);
    assert(after.jobs == model.jobs.push(job));
    assert(after.jobs[model.jobs.len() as int] == job);
    assert forall|node: u64| #[trigger] model.delivers(node) implies after.delivers(node) by {
        let at = choose|at: int|
            0 <= at < model.jobs.len() && model.jobs[at] == Job::Hook(NodeId(node));
        assert(after.jobs[at] == Job::Hook(NodeId(node)));
    }
}

/// What noting a change does to the hooks: those of the node know it and have a delivery due, and
/// nobody is told yet.
proof fn notes_reach_the_hooks(model: ReactorModel, node: u64, observed: bool, taken: Option<u64>)
    ensures
        ({
            let after = model.noted(node, observed);
            &&& after.graph == model.graph
            &&& after.hooks.dom() == model.hooks.dom()
            &&& model.tells_nobody(after)
            &&& model.keeps_deliveries(after)
            &&& forall|other: u64| #[trigger]
                model.hooks.contains_key(other) && other != node ==> after.hooks[other]
                    == model.hooks[other]
            &&& model.hooks.contains_key(node) ==> {
                &&& after.hooks[node].observed == observed
                &&& after.hooks[node].queued
                &&& (model.hooks[node].queued ==> taken == Some(node) || model.delivers(node))
                    ==> taken == Some(node) || after.delivers(node)
            }
        }),
{
    let after = model.noted(node, observed);
    assert(after.hooks.dom() =~= model.hooks.dom());
    if model.hooks.contains_key(node) && !model.hooks[node].queued {
        let told = ReactorModel {
            hooks: model.hooks.insert(
                node,
                crate::observers::HookState { observed, queued: true, ..model.hooks[node] },
            ),
            ..model
        };
        queueing_keeps_deliveries(told, Job::Hook(NodeId(node)));
        assert forall|other: u64| #[trigger] model.delivers(other) implies after.delivers(other) by {
            assert(told.delivers(other));
        }
    }
}

/// The same of several nodes that lost their last observer.
proof fn losses_reach_the_hooks(model: ReactorModel, nodes: Seq<u64>, taken: Option<u64>)
    requires
        forall|node: u64| #[trigger]
            model.hooks.contains_key(node) && model.hooks[node].queued ==> taken == Some(node)
                || model.delivers(node),
    ensures
        ({
            let after = model.noted_abandoned(nodes);
            &&& after.graph == model.graph
            &&& after.hooks.dom() == model.hooks.dom()
            &&& model.tells_nobody(after)
            &&& model.keeps_deliveries(after)
            &&& forall|node: u64| #[trigger]
                after.hooks.contains_key(node) ==> {
                    &&& nodes.contains(node) ==> !after.hooks[node].observed
                        && after.hooks[node].queued
                    &&& !nodes.contains(node) ==> after.hooks[node] == model.hooks[node]
                    &&& after.hooks[node].queued ==> taken == Some(node) || after.delivers(node)
                }
        }),
    decreases nodes.len(),
{
    if nodes.len() > 0 {
        let shorter = nodes.drop_last();
        losses_reach_the_hooks(model, shorter, taken);
        let before = model.noted_abandoned(shorter);
        let last = nodes.last();
        notes_reach_the_hooks(before, last, false, taken);
        let after = model.noted_abandoned(nodes);
        assert(after == before.noted(last, false));
        assert(shorter.push(last) =~= nodes);
        crate::seqs::push_members(shorter, last);
        assert forall|node: u64| #[trigger] model.delivers(node) implies after.delivers(node) by {
            assert(before.delivers(node));
        }
        assert forall|node: u64| #[trigger] after.hooks.contains_key(node) implies {
            &&& nodes.contains(node) ==> !after.hooks[node].observed && after.hooks[node].queued
            &&& !nodes.contains(node) ==> after.hooks[node] == model.hooks[node]
            &&& after.hooks[node].queued ==> taken == Some(node) || after.delivers(node)
        } by {
            assert(before.hooks.contains_key(node));
            if before.delivers(node) {
                assert(after.delivers(node));
            }
        }
        assert forall|node: u64| #[trigger]
            after.hooks.contains_key(node) && model.hooks.contains_key(node) implies after.hooks[
            node
        ].delivered == model.hooks[node].delivered by {
            assert(before.hooks.contains_key(node));
        }
    }
}

/// A reactor starts with its hooks in order, and creating nodes keeps them so, with hooks or
/// without, as long as nobody has an edge on an id that was not handed out yet. Of a new node with
/// hooks the consumer has heard nothing, so that it first hears that the node is observed.
pub proof fn creation_keeps_hooks_in_order(
    id: crate::diagnostics::ReactorId,
    model: ReactorModel,
    kind: NodeKind,
    external: bool,
    owner: u64,
    origin: Location,
    taken: Option<u64>,
)
    requires
        model.hooks_in_order(taken),
        !model.graph.observed().contains(model.graph.next_node),
    ensures
        ReactorModel::fresh(id).hooks_in_order(None),
        model.keeps_order_quietly(model.created(kind, origin), taken),
        model.keeps_order_quietly(model.computed_created(kind, origin), taken),
        model.keeps_order_quietly(model.effect_created(external, owner, origin), taken),
        model.hooked_source_created(origin).hooks_in_order(taken),
        !model.hooked_source_created(origin).hooks[model.graph.next_node].delivered,
        forall|node: u64| #[trigger]
            model.hooks.contains_key(node) && node != model.graph.next_node
                ==> model.hooked_source_created(origin).hooks[node] == model.hooks[node],
{
    let created = model.created(NodeKind::Source, origin);
    unrelated_steps_keep_order(model, created, taken);
    unrelated_steps_keep_order(model, model.created(kind, origin), taken);
    unrelated_steps_keep_order(model, model.computed_created(kind, origin), taken);
    unrelated_steps_keep_order(model, model.effect_created(external, owner, origin), taken);
    let hooked = model.hooked_source_created(origin);
    assert forall|node: u64| #[trigger] hooked.hooks.contains_key(node) implies {
        &&& hooked.hooks[node].observed == hooked.graph.observed().contains(node)
        &&& !hooked.hooks[node].queued ==> hooked.hooks[node].delivered
            == hooked.hooks[node].observed
        &&& hooked.hooks[node].queued ==> taken == Some(node) || hooked.delivers(node)
    } by {
        if node != model.graph.next_node {
            assert(created.hooks.contains_key(node));
            if created.delivers(node) {
                assert(hooked.delivers(node));
            }
        }
    }
}

/// A read keeps hooks in order, and tells nobody anything by itself.
pub proof fn reads_keep_hooks_in_order(
    model: ReactorModel,
    tracking: Tracking,
    node: u64,
    taken: Option<u64>,
)
    requires
        model.hooks_in_order(taken),
    ensures
        model.keeps_order_quietly(model.read(tracking, node), taken),
{
    let after = model.read(tracking, node);
    if !model.graph.active(node) && !tracking.suspended() && model.graph.stack.len() > 0 {
        let observer = model.graph.stack.last();
        let edges = model.graph.edges;
        let edge = (observer, node);
        let was = model.graph.observed();
        let now = after.graph.observed();
        assert forall|other: u64| now.contains(other) == (was.contains(other) || other == node) by {
            if was.contains(other) {
                let old_edge = choose|old_edge: (u64, u64)| #[trigger]
                    edges.contains_key(old_edge) && old_edge.1 == other;
                assert(after.graph.edges.contains_key(old_edge));
            }
            assert(after.graph.edges.contains_key(edge));
            if now.contains(other) && other != node {
                let new_edge = choose|new_edge: (u64, u64)| #[trigger]
                    after.graph.edges.contains_key(new_edge) && new_edge.1 == other;
                assert(edges.contains_key(new_edge));
            }
        }
        let counted = if model.graph.observes(observer, node) {
            ReactorModel { graph: model.graph.observing(observer, node), ..model }
        } else {
            ReactorModel {
                graph: model.graph.observing(observer, node),
                counts: model.counts.edge_added(),
                ..model
            }.recorded(crate::stats::FlushItem::EdgeAdded)
        };
        notes_reach_the_hooks(counted, node, true, taken);
        assert forall|other: u64| #[trigger] after.hooks.contains_key(other) implies {
            &&& after.hooks[other].observed == after.graph.observed().contains(other)
            &&& !after.hooks[other].queued ==> after.hooks[other].delivered
                == after.hooks[other].observed
            &&& after.hooks[other].queued ==> taken == Some(other) || after.delivers(other)
        } by {
            assert(model.hooks.contains_key(other));
            assert(counted.delivers(other) == model.delivers(other));
            assert(now.contains(other) == (was.contains(other) || other == node));
            if counted.delivers(other) {
                assert(after.delivers(other));
            }
        }
        assert forall|other: u64| #[trigger]
            after.hooks.contains_key(other) && model.hooks.contains_key(other) implies after.hooks[
            other
        ].delivered == model.hooks[other].delivered by {
            assert(counted.hooks.contains_key(other));
        }
    }
}

/// Forgetting what an observer read keeps hooks in order, and tells nobody anything by itself. So
/// does starting a run, which begins with it.
pub proof fn forgetting_keeps_hooks_in_order(
    model: ReactorModel,
    observer: u64,
    lost: Seq<u64>,
    taken: Option<u64>,
)
    requires
        model.hooks_in_order(taken),
        crate::model::lists(lost, crate::model::abandoned(model.graph, observer)),
    ensures
        model.keeps_order_quietly(model.forgotten(observer, lost), taken),
        model.keeps_order_quietly(model.started(observer, lost), taken),
{
    let count = model.graph.inputs(observer).dom().len() as usize;
    let cut = ReactorModel {
        graph: model.graph.forgetting(observer),
        counts: model.counts.edges_removed(count),
        ..model
    }.recorded(crate::stats::FlushItem::EdgesRemoved { count });
    let was = model.graph.observed();
    let now = cut.graph.observed();
    assert(forall|node: u64| cut.delivers(node) == model.delivers(node));
    assert forall|node: u64| #[trigger]
        cut.hooks.contains_key(node) && cut.hooks[node].queued implies taken == Some(node)
        || cut.delivers(node) by {
        assert(model.hooks.contains_key(node));
    }
    losses_reach_the_hooks(cut, lost, taken);
    let after = model.forgotten(observer, lost);
    assert(after == cut.noted_abandoned(lost));
    assert forall|node: u64| lost.contains(node) == (was.contains(node) && !now.contains(node)) by {
        assert(lost.to_set().contains(node) == lost.contains(node));
    }
    assert forall|node: u64| now.contains(node) implies was.contains(node) by {
        let edge = choose|edge: (u64, u64)| #[trigger]
            cut.graph.edges.contains_key(edge) && edge.1 == node;
        assert(model.graph.edges.contains_key(edge));
    }
    assert forall|node: u64| #[trigger] after.hooks.contains_key(node) implies {
        &&& after.hooks[node].observed == after.graph.observed().contains(node)
        &&& !after.hooks[node].queued ==> after.hooks[node].delivered == after.hooks[node].observed
        &&& after.hooks[node].queued ==> taken == Some(node) || after.delivers(node)
    } by {
        assert(model.hooks.contains_key(node));
        assert(lost.contains(node) == (was.contains(node) && !now.contains(node)));
    }
    assert forall|node: u64| #[trigger]
        after.hooks.contains_key(node) && model.hooks.contains_key(node) implies after.hooks[
        node
    ].delivered == model.hooks[node].delivered by {
        assert(cut.hooks.contains_key(node));
    }
    unrelated_steps_keep_order(after, model.started(observer, lost), taken);
}

/// Disposing a node keeps the hooks of the others in order; its own are gone.
pub proof fn disposal_keeps_hooks_in_order(
    model: ReactorModel,
    node: u64,
    lost: Seq<u64>,
    taken: Option<u64>,
)
    requires
        model.hooks_in_order(taken),
        crate::model::lists(lost, crate::model::abandoned(model.graph, node)),
    ensures
        model.keeps_order_quietly(model.disposed(node, lost), taken),
        !model.disposed(node, lost).hooks.contains_key(node),
{
    forgetting_keeps_hooks_in_order(model, node, lost, taken);
    let forgotten = model.forgotten(node, lost);
    let after = model.disposed(node, lost);
    assert(after.graph.edges == forgotten.graph.unobserving(node).edges);
    assert(after.hooks == forgotten.hooks.remove(node));
    assert(after.jobs == forgotten.jobs);
    assert forall|other: u64| #[trigger] after.hooks.contains_key(other) implies {
        &&& after.hooks[other].observed == after.graph.observed().contains(other)
        &&& !after.hooks[other].queued ==> after.hooks[other].delivered
            == after.hooks[other].observed
        &&& after.hooks[other].queued ==> taken == Some(other) || after.delivers(other)
    } by {
        assert(forgotten.hooks.contains_key(other));
        assert(after.delivers(other) == forgotten.delivers(other));
        let was = forgotten.graph.observed();
        let now = after.graph.observed();
        if was.contains(other) {
            let edge = choose|edge: (u64, u64)| #[trigger]
                forgotten.graph.edges.contains_key(edge) && edge.1 == other;
            assert(after.graph.edges.contains_key(edge));
        }
        if now.contains(other) {
            let edge = choose|edge: (u64, u64)| #[trigger]
                after.graph.edges.contains_key(edge) && edge.1 == other;
            assert(forgotten.graph.edges.contains_key(edge));
        }
    }
    assert forall|other: u64| #[trigger]
        after.hooks.contains_key(other) && model.hooks.contains_key(other) implies after.hooks[
        other
    ].delivered == model.hooks[other].delivered by {
        assert(forgotten.hooks.contains_key(other));
    }
}

/// A node that goes away with its handle, and an effect that is unhooked, leave the hooks of the
/// others in order. `lost` lists the nodes that lost their last observer.
pub proof fn releases_keep_hooks_in_order(
    model: ReactorModel,
    node: u64,
    lost: Seq<u64>,
    taken: Option<u64>,
)
    requires
        model.hooks_in_order(taken),
        crate::model::lists(lost, crate::model::abandoned(model.graph, node)),
    ensures
        model.keeps_order_quietly(model.effect_unhooked(node, lost), taken),
        model.keeps_order_quietly(model.computed_released(node, lost), taken),
{
    let silent = model.unregistered(node);
    unrelated_steps_keep_order(model, silent, taken);
    disposal_keeps_hooks_in_order(silent, node, lost, taken);
    let unhooked = silent.disposed(node, lost);
    unrelated_steps_keep_order(unhooked, model.computed_released(node, lost), taken);
}

/// Taking a job from the queue keeps hooks in order; if it is a delivery, it is being carried out
/// now.
pub proof fn taking_a_job_keeps_hooks_in_order(model: ReactorModel)
    requires
        model.hooks_in_order(None),
        model.jobs.len() > 0,
    ensures
        model.job_taken().hooks_in_order(
            match model.jobs[0] {
                Job::Hook(node) => Some(node.0),
                _ => None,
            },
        ),
        model.tells_nobody(model.job_taken()),
{
    let after = model.job_taken();
    assert forall|node: u64| #[trigger]
        after.hooks.contains_key(node) && after.hooks[node].queued implies model.jobs[0]
        == Job::Hook(NodeId(node)) || after.delivers(node) by {
        assert(model.hooks.contains_key(node));
        let at = choose|at: int|
            0 <= at < model.jobs.len() && model.jobs[at] == Job::Hook(NodeId(node));
        if at > 0 {
            assert(after.jobs[at - 1] == Job::Hook(NodeId(node)));
        }
    }
}

/// Carrying a delivery out keeps hooks in order, and tells the consumer how things are, unless it
/// was told so last.
pub proof fn deliveries_keep_hooks_in_order(model: ReactorModel, node: u64)
    requires
        model.hooks_in_order(Some(node)),
    ensures
        model.hook_delivered(node).hooks_in_order(None),
        model.hook_news(node) matches Some(news) ==> news == model.graph.observed().contains(node),
        model.hooks.contains_key(node) ==> model.hook_delivered(node).hooks[node].delivered
            == model.graph.observed().contains(node),
        forall|other: u64| #[trigger]
            model.hooks.contains_key(other) && other != node ==> model.hook_delivered(
                node,
            ).hooks[other] == model.hooks[other],
{
    let after = model.hook_delivered(node);
    assert forall|other: u64| #[trigger] after.hooks.contains_key(other) implies {
        &&& after.hooks[other].observed == after.graph.observed().contains(other)
        &&& !after.hooks[other].queued ==> after.hooks[other].delivered
            == after.hooks[other].observed
        &&& after.hooks[other].queued ==> after.delivers(other)
    } by {
        assert(model.hooks.contains_key(other));
        assert(after.delivers(other) == model.delivers(other));
    }
}

proof fn requests_leave_hooks_alone(model: ReactorModel, node: u64)
    ensures
        model.leaves_hooks_alone(model.requested(node)),
{
    let after = model.requested(node);
    assert forall|other: u64| #[trigger] model.delivers(other) implies after.delivers(other) by {
        let at = choose|at: int|
            0 <= at < model.jobs.len() && model.jobs[at] == Job::Hook(NodeId(other));
        assert(after.jobs[at] == Job::Hook(NodeId(other)));
    }
}

proof fn receipts_leave_hooks_alone(
    model: ReactorModel,
    log: Seq<Delivery>,
    cause: Option<InvalidationCause>,
)
    ensures
        model.leaves_hooks_alone(model.received_all(log, cause)),
    decreases log.len(),
{
    if log.len() > 0 {
        receipts_leave_hooks_alone(model, log.drop_last(), cause);
        let before = model.received_all(log.drop_last(), cause);
        one_receipt_leaves_hooks_alone(before, log.last(), cause);
        let after = model.received_all(log, cause);
        assert forall|node: u64| #[trigger] model.delivers(node) implies after.delivers(node) by {
            assert(before.delivers(node));
        }
    }
}

proof fn one_receipt_leaves_hooks_alone(
    model: ReactorModel,
    delivery: Delivery,
    cause: Option<InvalidationCause>,
)
    ensures
        model.leaves_hooks_alone(model.received(delivery, cause)),
{
    let node = delivery.observer;
    let after = model.received(delivery, cause);
    assert forall|other: u64| #[trigger] model.delivers(other) implies after.delivers(other) by {
        let at = choose|at: int|
            0 <= at < model.jobs.len() && model.jobs[at] == Job::Hook(NodeId(other));
        assert(after.jobs[at] == Job::Hook(NodeId(other)));
    }
}

/// A write keeps hooks in order: it changes no edge.
pub proof fn writes_keep_hooks_in_order(
    model: ReactorModel,
    node: u64,
    write_origin: Location,
    after: ReactorModel,
    taken: Option<u64>,
)
    requires
        model.hooks_in_order(taken),
        model.is_write(node, write_origin, after),
    ensures
        model.keeps_order_quietly(after, taken),
        model.keeps_order_quietly(model.write_suppressed(node, write_origin), taken),
{
    let log = choose|log: Seq<Delivery>|
        crate::observers::propagation(model.graph, model.observers, node, log) && after
            == #[trigger] model.triggered(node, write_origin, log);
    let cause = ReactorModel { graph: model.graph.bumped(node), ..model }.write_cause(
        node,
        write_origin,
    );
    let marked = ReactorModel {
        observers: crate::observers::delivered(model.observers, log),
        ..model.written(node, write_origin)
    };
    receipts_leave_hooks_alone(marked, log, cause);
    assert forall|other: u64| #[trigger] model.delivers(other) implies after.delivers(other) by {
        assert(marked.delivers(other));
    }
    unrelated_steps_keep_order(model, after, taken);
    unrelated_steps_keep_order(model, model.write_suppressed(node, write_origin), taken);
}

/// Computations keep hooks in order, from their start to their end, and so does verification.
pub proof fn computations_keep_hooks_in_order(
    model: ReactorModel,
    node: u64,
    lost: Seq<u64>,
    changed: bool,
    taken: Option<u64>,
)
    requires
        model.hooks_in_order(taken),
        crate::model::lists(lost, crate::model::abandoned(model.graph, node)),
    ensures
        model.keeps_order_quietly(model.recompute_started(node, lost), taken),
        model.keeps_order_quietly(model.ended(), taken),
        model.keeps_order_quietly(model.published(node, changed), taken),
        model.keeps_order_quietly(model.recompute_failed(node), taken),
        model.keeps_order_quietly(model.verification_reported(node, changed), taken),
{
    let counted = model.recorded(crate::stats::FlushItem::ComputedRecomputed);
    let told = if model.graph.nodes.contains_key(node) {
        counted.emitted(
            crate::diagnostics::DiagnosticEvent::ComputedRecomputeStarted {
                reactor: model.id,
                node: NodeId(node),
                kind: model.graph.nodes[node].kind,
                node_origin: model.graph.nodes[node].origin,
                flush_epoch: model.flush_epoch,
                dependencies_before: model.graph.inputs(node).dom().len() as usize,
            },
        )
    } else {
        counted
    };
    let cleaned = told.with_state(node, crate::observers::State::Clean);
    unrelated_steps_keep_order(model, cleaned, taken);
    forgetting_keeps_hooks_in_order(cleaned, node, lost, taken);
    unrelated_steps_keep_order(model, model.ended(), taken);
    unrelated_steps_keep_order(model, model.published(node, changed), taken);
    unrelated_steps_keep_order(model, model.recompute_failed(node), taken);
    unrelated_steps_keep_order(model, model.verification_reported(node, changed), taken);
}

/// The turns of effects, and the end of an effect, keep hooks in order.
pub proof fn turns_keep_hooks_in_order(
    model: ReactorModel,
    node: u64,
    changed: bool,
    ticket: RunTicket,
    taken: Option<u64>,
)
    requires
        model.hooks_in_order(taken),
    ensures
        model.keeps_order_quietly(model.requested(node), taken),
        model.keeps_order_quietly(model.turn(node).0, taken),
        model.keeps_order_quietly(model.turn_resumed(node, changed).0, taken),
        model.keeps_order_quietly(model.turn_failed(node), taken),
        model.keeps_order_quietly(model.run_finished(ticket), taken),
        model.keeps_order_quietly(model.run_closed(ticket), taken),
        model.keeps_order_quietly(model.effect_retired(node), taken),
{
    requests_leave_hooks_alone(model, node);
    unrelated_steps_keep_order(model, model.requested(node), taken);
    openings_leave_hooks_alone(model, node);
    openings_leave_hooks_alone(
        model.unlatched(node).with_state(node, crate::observers::State::Clean),
        node,
    );
    let turned = model.turn(node).0;
    assert(turned.jobs == model.jobs && turned.hooks == model.hooks && turned.graph
        == model.graph);
    assert forall|other: u64| #[trigger] model.delivers(other) implies turned.delivers(other) by {}
    unrelated_steps_keep_order(model, turned, taken);
    let resumed = model.turn_resumed(node, changed).0;
    assert(resumed.jobs == model.jobs && resumed.hooks == model.hooks && resumed.graph
        == model.graph);
    unrelated_steps_keep_order(model, resumed, taken);
    let dirtied = model.with_state(node, crate::observers::State::Dirty);
    requests_leave_hooks_alone(dirtied, node);
    let failed = model.turn_failed(node);
    assert forall|other: u64| #[trigger] model.delivers(other) implies failed.delivers(other) by {
        assert(dirtied.delivers(other));
    }
    unrelated_steps_keep_order(model, failed, taken);
    finishing_leaves_hooks_alone(model, ticket);
    unrelated_steps_keep_order(model, model.run_finished(ticket), taken);
    unrelated_steps_keep_order(model, model.run_closed(ticket), taken);
    retiring_leaves_hooks_alone(model, node);
    unrelated_steps_keep_order(model, model.effect_retired(node), taken);
}

proof fn openings_leave_hooks_alone(model: ReactorModel, node: u64)
    ensures
        model.run_opening(node).0.jobs == model.jobs,
        model.run_opening(node).0.hooks == model.hooks,
        model.run_opening(node).0.graph == model.graph,
{
}

proof fn finishing_leaves_hooks_alone(model: ReactorModel, ticket: RunTicket)
    ensures
        model.leaves_hooks_alone(model.run_finished(ticket)),
{
    let node = ticket.effect.0;
    let left = model.ended();
    let cleared = left.with_effect(
        node,
        crate::observers::EffectRecord { rerun_after_current: false, ..left.effect(node) },
    );
    requests_leave_hooks_alone(cleared, node);
    let after = model.run_finished(ticket);
    assert forall|other: u64| #[trigger] model.delivers(other) implies after.delivers(other) by {
        assert(cleared.delivers(other));
        assert(cleared.requested(node).delivers(other));
    }
}

proof fn retiring_leaves_hooks_alone(model: ReactorModel, node: u64)
    ensures
        model.leaves_hooks_alone(model.effect_retired(node)),
{
    let after = model.effect_retired(node);
    assert(after.jobs == model.jobs);
}

/// Opening and closing flushes keeps hooks in order, and so does queueing anything else, and
/// listening to what happens.
pub proof fn flushes_keep_hooks_in_order(
    model: ReactorModel,
    job: Job,
    epoch: u64,
    token: u64,
    taken: Option<u64>,
)
    requires
        model.hooks_in_order(taken),
    ensures
        model.keeps_order_quietly(model.scheduled(job), taken),
        model.keeps_order_quietly(model.begun(), taken),
        model.keeps_order_quietly(model.finished(), taken),
        model.keeps_order_quietly(model.drain_started(), taken),
        model.keeps_order_quietly(model.drain_finished(epoch), taken),
        model.keeps_order_quietly(model.subscribed(), taken),
        model.keeps_order_quietly(model.unsubscribed(token), taken),
{
    queueing_keeps_deliveries(model, job);
    unrelated_steps_keep_order(model, model.scheduled(job), taken);
    unrelated_steps_keep_order(model, model.begun(), taken);
    unrelated_steps_keep_order(model, model.finished(), taken);
    unrelated_steps_keep_order(model, model.drain_started(), taken);
    unrelated_steps_keep_order(model, model.drain_finished(epoch), taken);
    unrelated_steps_keep_order(model, model.subscribed(), taken);
    unrelated_steps_keep_order(model, model.unsubscribed(token), taken);
}

} // verus!
