//! What being up to date means, and that it lasts.
//!
//! A computed node that counts as up to date saw the current version of everything it read, and
//! every computed node among that counts as up to date as well. So no reader ever sees an old value
//! next to a new one. This module states that property of a whole reactor and proves that each step
//! keeps it, for computations that read what is up to date.
use vstd::prelude::*;

use crate::diagnostics::{InvalidationCause, NodeKind};
use crate::id::Location;
use crate::model::ReactorModel;
use crate::observers::{Delivery, Observer, State};
use crate::tracking::Tracking;

verus! {

impl ReactorModel {
    /// `node` holds its current value: it is no computed node that marks reach, or it counts as up
    /// to date.
    pub open spec fn current(self, node: u64) -> bool {
        crate::observers::listens(self.observers, node) && self.observers[node].effect is None
            ==> self.observers[node].state is Clean
    }

    /// `observer` saw `node` as it is now.
    pub open spec fn sees(self, observer: u64, node: u64) -> bool {
        self.graph.edges[(observer, node)] == self.graph.version(node) && self.current(node)
    }

    /// `node` is a computed node that marks reach and that counts as up to date.
    pub open spec fn counts_as_fresh(self, node: u64) -> bool {
        crate::observers::forwarding(self.observers, node)
    }

    /// Every computed node that counts as up to date saw everything it read as it is now.
    pub open spec fn up_to_date(self) -> bool {
        forall|observer: u64, node: u64| #![trigger self.graph.observes(observer, node)]
            self.graph.observes(observer, node) && self.counts_as_fresh(observer) ==> self.sees(
                observer,
                node,
            )
    }

    /// No computed node that depends on `node` counts as up to date.
    pub open spec fn dependents_stale(self, node: u64) -> bool {
        forall|observer: u64| #![trigger self.graph.observes(observer, node)]
            self.graph.observes(observer, node) ==> !self.counts_as_fresh(observer)
    }
}

/// Two observer tables agree on who listens, who is an effect, and how stale everybody is.
pub open spec fn same_staleness(left: Map<u64, Observer>, right: Map<u64, Observer>) -> bool {
    &&& left.dom() == right.dom()
    &&& forall|node: u64| #![trigger left[node]] #![trigger right[node]]
        left.contains_key(node) ==> {
            &&& left[node].state == right[node].state
            &&& left[node].registered == right[node].registered
            &&& left[node].effect is None == right[node].effect is None
        }
}

/// Asking an effect to run changes nobody's staleness.
pub proof fn requesting_keeps_staleness(model: ReactorModel, node: u64)
    requires
        model.is_effect(node),
    ensures
        model.requested(node).graph == model.graph,
        same_staleness(model.observers, model.requested(node).observers),
{
    let after = model.requested(node);
    assert(after.observers.dom() =~= model.observers.dom());
    assert forall|other: u64| #![trigger after.observers[other]]
        model.observers.contains_key(other) implies model.observers[other].state
        == after.observers[other].state && model.observers[other].registered
        == after.observers[other].registered && (model.observers[other].effect is None)
        == (after.observers[other].effect is None) by {}
}

/// The consequences of one mark change nobody's staleness.
proof fn one_mark_keeps_staleness(
    model: ReactorModel,
    delivery: Delivery,
    cause: Option<InvalidationCause>,
)
    ensures
        model.received(delivery, cause).graph == model.graph,
        same_staleness(model.observers, model.received(delivery, cause).observers),
{
    let node = delivery.observer;
    if model.is_effect(node) {
        let reported = match (cause, model.origin(node)) {
            (Some(cause), Some(origin)) => model.emitted(
                crate::diagnostics::DiagnosticEvent::EffectInvalidated {
                    reactor: model.id,
                    effect: crate::id::NodeId(node),
                    effect_origin: origin,
                    cause,
                    level: delivery.mark.reported(),
                },
            ),
            _ => model,
        };
        requesting_keeps_staleness(reported, node);
    }
}

/// The consequences of marks change nobody's staleness.
pub proof fn receiving_keeps_staleness(
    model: ReactorModel,
    log: Seq<Delivery>,
    cause: Option<InvalidationCause>,
)
    ensures
        model.received_all(log, cause).graph == model.graph,
        same_staleness(model.observers, model.received_all(log, cause).observers),
    decreases log.len(),
{
    if log.len() > 0 {
        let shorter = log.drop_last();
        receiving_keeps_staleness(model, shorter, cause);
        let before = model.received_all(shorter, cause);
        one_mark_keeps_staleness(before, log.last(), cause);
    }
}

/// Being up to date depends on the graph and on staleness alone.
pub proof fn up_to_date_depends_on_staleness(left: ReactorModel, right: ReactorModel)
    requires
        left.up_to_date(),
        left.graph == right.graph,
        same_staleness(left.observers, right.observers),
    ensures
        right.up_to_date(),
{
    assert forall|observer: u64, node: u64| #![trigger right.graph.observes(observer, node)]
        right.graph.observes(observer, node) && right.counts_as_fresh(observer) implies
            right.sees(observer, node) by {
        assert(left.graph.observes(observer, node));
        assert(left.observers[observer].state == right.observers[observer].state);
        assert(left.sees(observer, node));
        if crate::observers::listens(right.observers, node) {
            assert(left.observers[node].state == right.observers[node].state);
        }
    }
}

/// A write keeps it: whoever could have seen the old value is stale afterwards.
pub proof fn write_keeps_up_to_date(
    model: ReactorModel,
    node: u64,
    write_origin: Location,
    log: Seq<Delivery>,
)
    requires
        model.up_to_date(),
        crate::observers::propagation(model.graph, model.observers, node, log),
    ensures
        model.triggered(node, write_origin, log).up_to_date(),
{
    let written = model.written(node, write_origin);
    let marked = ReactorModel {
        observers: crate::observers::delivered(model.observers, log),
        ..written
    };
    let cause = ReactorModel { graph: model.graph.bumped(node), ..model }.write_cause(
        node,
        write_origin,
    );
    reveal(crate::observers::propagates);
    crate::observers::marks_only_raise_states(model.observers, log, node);
    assert(marked.graph == model.graph.bumped(node));
    assert(marked.up_to_date()) by {
        assert forall|observer: u64, other: u64| #![trigger marked.graph.observes(observer, other)]
            marked.graph.observes(observer, other) && marked.counts_as_fresh(observer) implies
                marked.sees(observer, other) by {
            assert(model.graph.observes(observer, other));
            crate::observers::marks_only_raise_states(model.observers, log, observer);
            crate::observers::marks_only_raise_states(model.observers, log, other);
            assert(model.sees(observer, other));
            if crate::observers::listens(model.observers, other)
                && model.observers[other].effect is None {
                crate::observers::write_keeps_observer_stale(
                    model.graph,
                    model.observers,
                    node,
                    log,
                    observer,
                    other,
                );
            }
            if other == node {
                crate::observers::write_dirties_direct_observers(
                    model.graph,
                    model.observers,
                    node,
                    log,
                    observer,
                );
            }
        }
    }
    receiving_keeps_staleness(marked, log, cause);
    up_to_date_depends_on_staleness(marked, marked.received_all(log, cause));
}

/// A tracked read of a node that holds its current value keeps it.
pub proof fn read_keeps_up_to_date(model: ReactorModel, tracking: Tracking, node: u64)
    requires
        model.up_to_date(),
        model.current(node),
    ensures
        model.read(tracking, node).up_to_date(),
{
    let after = model.read(tracking, node);
    assert forall|observer: u64, other: u64| #![trigger after.graph.observes(observer, other)]
        after.graph.observes(observer, other) && after.counts_as_fresh(observer) implies
            after.sees(observer, other) by {
        if model.graph.observes(observer, other) {
            assert(model.sees(observer, other));
        }
    }
}

/// Dropping an observer's edges keeps it.
pub proof fn forgetting_keeps_up_to_date(model: ReactorModel, observer: u64, lost: Seq<u64>)
    requires
        model.up_to_date(),
    ensures
        model.forgotten(observer, lost).up_to_date(),
        model.started(observer, lost).up_to_date(),
{
    crate::reactor::forgetting_keeps_the_rest(model, observer, lost);
    let after = model.forgotten(observer, lost);
    assert forall|other: u64, node: u64| #![trigger after.graph.observes(other, node)]
        after.graph.observes(other, node) && after.counts_as_fresh(other) implies
            after.sees(other, node) by {
        assert(model.graph.observes(other, node));
        assert(model.sees(other, node));
    }
    let entered = model.started(observer, lost);
    assert forall|other: u64, node: u64| #![trigger entered.graph.observes(other, node)]
        entered.graph.observes(other, node) && entered.counts_as_fresh(other) implies
            entered.sees(other, node) by {
        assert(after.graph.observes(other, node));
        assert(after.sees(other, node));
    }
}

/// Disposing a node keeps it.
pub proof fn disposal_keeps_up_to_date(model: ReactorModel, node: u64, lost: Seq<u64>)
    requires
        model.up_to_date(),
    ensures
        model.disposed(node, lost).up_to_date(),
{
    crate::reactor::forgetting_keeps_the_rest(model, node, lost);
    crate::reactor::disposal_keeps_observers(model, node, lost);
    let after = model.disposed(node, lost);
    assert(after.graph == model.graph.forgetting(node).unobserving(node).without_node(node));
    assert forall|observer: u64, other: u64| #![trigger after.graph.observes(observer, other)]
        after.graph.observes(observer, other) && after.counts_as_fresh(observer) implies
            after.sees(observer, other) by {
        assert(model.graph.observes(observer, other));
        assert(other != node && observer != node);
        assert(model.sees(observer, other));
    }
}

/// Creating a computed node keeps it, as long as nobody has an edge on an id that was not handed
/// out yet.
pub proof fn creation_keeps_up_to_date(model: ReactorModel, kind: NodeKind, origin: Location)
    requires
        model.up_to_date(),
        forall|observer: u64| !#[trigger] model.graph.observes(observer, model.graph.next_node),
        !model.graph.nodes.contains_key(model.graph.next_node),
    ensures
        model.created(kind, origin).up_to_date(),
        model.computed_created(kind, origin).up_to_date(),
{
    let created = model.created(kind, origin);
    assert forall|observer: u64, node: u64| #![trigger created.graph.observes(observer, node)]
        created.graph.observes(observer, node) && created.counts_as_fresh(observer) implies
            created.sees(observer, node) by {
        assert(model.graph.observes(observer, node));
        assert(model.sees(observer, node));
    }
    let computed = model.computed_created(kind, origin);
    assert forall|observer: u64, node: u64| #![trigger computed.graph.observes(observer, node)]
        computed.graph.observes(observer, node) && computed.counts_as_fresh(observer) implies
            computed.sees(observer, node) by {
        assert(model.graph.observes(observer, node));
        assert(model.sees(observer, node));
    }
}

/// Starting a computation keeps it: the node has no inputs until it reads some.
pub proof fn recompute_keeps_up_to_date(model: ReactorModel, node: u64, lost: Seq<u64>)
    requires
        model.up_to_date(),
        model.is_computed(node),
    ensures
        model.recompute_started(node, lost).up_to_date(),
{
    let after = model.recompute_started(node, lost);
    recompute_start_parts(model, node, lost);
    assert forall|observer: u64, other: u64| #![trigger after.graph.observes(observer, other)]
        after.graph.observes(observer, other) && after.counts_as_fresh(observer) implies
            after.sees(observer, other) by {
        assert(model.graph.observes(observer, other));
        assert(observer != node);
        assert(model.sees(observer, other));
    }
}

/// What starting a computation does to the graph and to the observers.
pub proof fn recompute_start_parts(model: ReactorModel, node: u64, lost: Seq<u64>)
    ensures
        model.recompute_started(node, lost).graph == model.graph.forgetting(node).entered(node),
        model.recompute_started(node, lost).observers == model.with_state(
            node,
            State::Clean,
        ).observers,
{
    let counted = model.recorded(crate::stats::FlushItem::ComputedRecomputed);
    let told = if model.graph.nodes.contains_key(node) {
        counted.emitted(
            crate::diagnostics::DiagnosticEvent::ComputedRecomputeStarted {
                reactor: model.id,
                node: crate::id::NodeId(node),
                kind: model.graph.nodes[node].kind,
                node_origin: model.graph.nodes[node].origin,
                flush_epoch: model.flush_epoch,
                dependencies_before: model.graph.inputs(node).dom().len() as usize,
            },
        )
    } else {
        counted
    };
    crate::reactor::forgetting_keeps_the_rest(told.with_state(node, State::Clean), node, lost);
}

/// Ending a computation keeps it.
pub proof fn ending_keeps_up_to_date(model: ReactorModel)
    requires
        model.up_to_date(),
    ensures
        model.ended().up_to_date(),
{
    let after = model.ended();
    assert forall|observer: u64, node: u64| #![trigger after.graph.observes(observer, node)]
        after.graph.observes(observer, node) && after.counts_as_fresh(observer) implies
            after.sees(observer, node) by {
        assert(model.graph.observes(observer, node));
        assert(model.sees(observer, node));
    }
}

/// Publishing a value keeps it: whoever depends on the node was stale while it was computed.
pub proof fn publishing_keeps_up_to_date(model: ReactorModel, node: u64, changed: bool)
    requires
        model.up_to_date(),
        changed ==> model.dependents_stale(node),
    ensures
        model.published(node, changed).up_to_date(),
{
    let after = model.published(node, changed);
    assert forall|observer: u64, other: u64| #![trigger after.graph.observes(observer, other)]
        after.graph.observes(observer, other) && after.counts_as_fresh(observer) implies
            after.sees(observer, other) by {
        assert(model.graph.observes(observer, other));
        assert(model.sees(observer, other));
    }
}

/// A computation that unwinds keeps it, on the same condition.
pub proof fn failing_keeps_up_to_date(model: ReactorModel, node: u64)
    requires
        model.up_to_date(),
        model.is_computed(node),
        model.dependents_stale(node),
    ensures
        model.recompute_failed(node).up_to_date(),
{
    let after = model.recompute_failed(node);
    assert forall|observer: u64, other: u64| #![trigger after.graph.observes(observer, other)]
        after.graph.observes(observer, other) && after.counts_as_fresh(observer) implies
            after.sees(observer, other) by {
        assert(model.graph.observes(observer, other));
        assert(model.sees(observer, other));
    }
}

/// Verification keeps it: a node whose recorded dependencies are all as it saw them counts as up to
/// date without recomputing.
pub proof fn settling_keeps_up_to_date(model: ReactorModel, node: u64)
    requires
        model.up_to_date(),
        model.observers.contains_key(node),
        forall|input: u64| #[trigger] model.graph.observes(node, input) ==> model.sees(node, input),
    ensures
        model.verification_reported(node, false).with_state(node, State::Clean).up_to_date(),
{
    let after = model.verification_reported(node, false).with_state(node, State::Clean);
    assert forall|observer: u64, other: u64| #![trigger after.graph.observes(observer, other)]
        after.graph.observes(observer, other) && after.counts_as_fresh(observer) implies
            after.sees(observer, other) by {
        assert(model.graph.observes(observer, other));
        assert(model.sees(observer, other));
    }
}

/// No glitches: where an observer counts as up to date, so does every computed node upstream of it,
/// however long the chain of dependencies.
pub proof fn clean_means_clean_upstream(model: ReactorModel, path: Seq<u64>)
    requires
        model.up_to_date(),
        crate::observers::depends_along(model.graph, model.observers, path),
        model.counts_as_fresh(path.last()),
    ensures
        forall|at: int| #![trigger path[at]]
            0 < at < path.len() ==> model.observers[path[at]].state is Clean,
        forall|at: int| #![trigger path[at]]
            0 < at < path.len() ==> model.sees(path[at], path[at - 1]),
    decreases path.len(),
{
    let last = path.len() - 1;
    assert(model.graph.observes(path[last], path[last - 1]));
    assert(model.sees(path[last], path[last - 1]));
    if last > 1 {
        let shorter = path.drop_last();
        assert forall|at: int| #![trigger shorter[at]]
            0 < at < shorter.len() implies model.graph.observes(shorter[at], shorter[at - 1])
            && crate::observers::listens(model.observers, shorter[at]) by {
            assert(shorter[at] == path[at]);
        }
        assert forall|at: int| #![trigger shorter[at]]
            0 < at < shorter.len() - 1 implies model.observers[shorter[at]].effect is None by {
            assert(shorter[at] == path[at]);
        }
        assert(shorter.last() == path[last - 1]);
        assert(model.observers[path[last - 1]].effect is None);
        clean_means_clean_upstream(model, shorter);
        assert forall|at: int| #![trigger path[at]] 0 < at < path.len() implies model.observers[
            path[at]
        ].state is Clean && model.sees(path[at], path[at - 1]) by {
            if at < last {
                assert(shorter[at] == path[at]);
            }
        }
    }
}

} // verus!
