//! What creation, disposal and observation hooks promise over time.
use vstd::prelude::*;

use crate::diagnostics::{DiagnosticEvent, NodeKind};
use crate::id::Location;
use crate::model::ReactorModel;
use crate::stats::FlushItem;
use crate::tracking::Tracking;

verus! {

/// Node identifiers are never reused: a new node has an identifier that no live node and no
/// observer has, and that no later node will have.
pub proof fn identifiers_are_never_reused(model: ReactorModel, kind: NodeKind, origin: Location)
    requires
        model.wf(),
        model.graph.next_node < u64::MAX,
    ensures
        !model.graph.nodes.contains_key(model.graph.next_node),
        !model.observers.contains_key(model.graph.next_node),
        model.created(kind, origin).graph.nodes.contains_key(model.graph.next_node),
        model.created(kind, origin).graph.next_node > model.graph.next_node,
{
}

/// Disposal hands no identifier back.
pub proof fn disposal_hands_no_identifier_back(model: ReactorModel, node: u64, lost: Seq<u64>)
    ensures
        model.disposed(node, lost).graph.next_node == model.graph.next_node,
        !model.disposed(node, lost).graph.nodes.contains_key(node),
{
    crate::reactor::forgetting_keeps_the_rest(model, node, lost);
}

/// After its disposal a node takes part in nothing: no edge leads to it or away from it, no mark
/// reaches it, and no hook of it is kept. The other nodes and the edges between them stay.
pub proof fn disposed_nodes_are_cut_off(model: ReactorModel, node: u64, lost: Seq<u64>)
    ensures
        forall|observer: u64, other: u64|
            #[trigger] model.disposed(node, lost).graph.observes(observer, other) <==> (
            model.graph.observes(observer, other) && observer != node && other != node),
        forall|other: u64|
            other != node ==> (#[trigger] model.disposed(node, lost).graph.nodes.contains_key(other)
                <==> model.graph.nodes.contains_key(other)),
        !crate::observers::listens(model.disposed(node, lost).observers, node),
        !model.disposed(node, lost).hooks.contains_key(node),
{
    crate::reactor::forgetting_keeps_the_rest(model, node, lost);
}

/// Disposing a node again changes nothing, and reports nothing: its disposal is reported exactly
/// once.
pub proof fn disposing_again_changes_nothing(
    model: ReactorModel,
    node: u64,
    lost: Seq<u64>,
    again: Seq<u64>,
)
    requires
        crate::model::lists(
            again,
            crate::model::abandoned(model.disposed(node, lost).graph, node),
        ),
    ensures
        model.disposed(node, lost).disposed(node, again) == model.disposed(node, lost),
{
    let once = model.disposed(node, lost);
    disposed_nodes_are_cut_off(model, node, lost);
    disposal_hands_no_identifier_back(model, node, lost);
    assert(once.graph.forgetting(node) =~= once.graph) by {
        assert forall|edge: (u64, u64)| #[trigger] once.graph.edges.contains_key(edge) implies edge.0
            != node by {
            assert(once.graph.observes(edge.0, edge.1));
        }
    }
    assert(once.graph.unobserving(node) =~= once.graph) by {
        assert forall|edge: (u64, u64)| #[trigger] once.graph.edges.contains_key(edge) implies edge.1
            != node by {
            assert(once.graph.observes(edge.0, edge.1));
        }
    }
    assert(again =~= Seq::<u64>::empty()) by {
        if again.len() > 0 {
            assert(again.to_set().contains(again[0]));
        }
    }
    assert(once.graph.inputs(node).dom() =~= Set::<u64>::empty());
    assert(once.graph.observers(node) =~= Set::<u64>::empty());
    assert(once.graph.without_node(node).nodes =~= once.graph.nodes);
    let forgotten = once.forgotten(node, again);
    assert(forgotten =~= once);
    assert(once.unobserved(node) =~= once);
    assert(once.unregistered(node).observers =~= once.observers);
    assert(once.hooks.remove(node) =~= once.hooks);
    assert(once.disposed(node, again) =~= once);
}

/// A consumer hears that a node became observed and that it became unobserved in turn, never the
/// same thing twice in a row.
pub proof fn hooks_alternate(model: ReactorModel, node: u64)
    ensures
        model.hook_news(node) matches Some(news) ==> news == !model.hooks[node].delivered,
        model.hook_news(node) matches Some(news) ==> model.hook_delivered(node).hooks[node].delivered
            == news,
        model.hook_delivered(node).hook_news(node) is None,
{
}

/// However often a node gains and loses observers before its hooks are delivered, one delivery is
/// queued, and it tells where the node ended up.
pub proof fn hook_deliveries_coalesce(model: ReactorModel, node: u64, first: bool, second: bool)
    requires
        model.hooks.contains_key(node),
    ensures
        model.noted(node, first).noted(node, second).jobs == model.noted(node, second).jobs,
        model.noted(node, first).noted(node, second).hook_news(node) == model.noted(
            node,
            second,
        ).hook_news(node),
{
}

/// A run starts without dependencies: what its observer recorded before is gone.
pub proof fn runs_start_without_dependencies(model: ReactorModel, observer: u64, lost: Seq<u64>)
    ensures
        model.started(observer, lost).graph.inputs(observer).dom() == Set::<u64>::empty(),
        model.started(observer, lost).graph.stack.last() == observer,
        forall|other: u64, node: u64|
            other != observer ==> (#[trigger] model.started(observer, lost).graph.observes(
                other,
                node,
            ) <==> model.graph.observes(other, node)),
{
    crate::reactor::forgetting_keeps_the_rest(model, observer, lost);
    assert(model.started(observer, lost).graph.inputs(observer).dom() =~= Set::<u64>::empty());
}

/// A run records what it reads, and nothing else: a tracked read adds the node that was read to the
/// dependencies of the innermost observer, at its current version.
pub proof fn runs_record_what_they_read(model: ReactorModel, tracking: Tracking, node: u64)
    requires
        model.graph.stack.len() > 0,
        !tracking.suspended(),
        !model.graph.active(node),
    ensures
        ({
            let observer = model.graph.stack.last();
            let after = model.read(tracking, node).graph;
            &&& after.inputs(observer) == model.graph.inputs(observer).insert(
                node,
                model.graph.version(node),
            )
            &&& forall|other: u64, input: u64|
                other != observer ==> (#[trigger] after.observes(other, input)
                    <==> model.graph.observes(other, input))
        }),
{
    let observer = model.graph.stack.last();
    let after = model.read(tracking, node).graph;
    assert(after.inputs(observer) =~= model.graph.inputs(observer).insert(
        node,
        model.graph.version(node),
    ));
}

/// While nobody listens, nothing is reported and nothing is counted for a flush.
pub proof fn silence_without_listeners(
    model: ReactorModel,
    event: DiagnosticEvent,
    item: FlushItem,
    node: u64,
    lost: Seq<u64>,
    kind: NodeKind,
    origin: Location,
)
    requires
        !model.listening(),
    ensures
        model.emitted(event) == model,
        model.recorded(item) == model,
        model.created(kind, origin).events == model.events,
        model.written(node, origin).events == model.events,
        model.disposed(node, lost).events == model.events,
        model.requested(node).events == model.events,
        model.published(node, true).events == model.events,
{
    quiet_notes(
        ReactorModel {
            graph: model.graph.forgetting(node),
            counts: model.counts.edges_removed(model.graph.inputs(node).dom().len() as usize),
            ..model
        },
        lost,
    );
    crate::reactor::forgetting_keeps_the_rest(model, node, lost);
}

/// Noting that nodes lost their last observer reports nothing.
proof fn quiet_notes(model: ReactorModel, nodes: Seq<u64>)
    ensures
        model.noted_abandoned(nodes).events == model.events,
        model.noted_abandoned(nodes).subscribers == model.subscribers,
    decreases nodes.len(),
{
    if nodes.len() > 0 {
        quiet_notes(model, nodes.drop_last());
    }
}

} // verus!
