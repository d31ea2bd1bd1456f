//! How nodes come into being and how they go.
//!
//! A new node has a name of its own, the kind and the site that it was asked for, and its first
//! version; nobody observes it and nothing else changes. A node that goes takes its edges, its hooks
//! and its observer with it, and nothing else.
use vstd::prelude::*;

use crate::cell::Cell;
use crate::diagnostics::{DiagnosticEvent, NodeKind};
use crate::event::Event;
use crate::id::{Location, NodeId};
use crate::model::ReactorModel;
use crate::observers::State;
use crate::reactor::Reactor;
use crate::resource::Resource;
use crate::scope::Owners;
use crate::signal::Signal;
use crate::source::Source;
use crate::stats::{Counts, GraphStats};
use crate::thunk::{Memo, Thunk};
use crate::watch::Watch;
use crate::writable::Writable;

verus! {

/// A node came into being in the graph, and nothing else there changed.
pub open spec fn is_new_in_graph(
    before: ReactorModel,
    after: ReactorModel,
    node: u64,
    kind: NodeKind,
    origin: Location,
) -> bool {
    &&& node == before.graph.next_node
    &&& !before.graph.nodes.contains_key(node)
    &&& after.graph.next_node == node + 1
    &&& after.graph.nodes.contains_key(node)
    &&& after.graph.nodes[node].kind == kind
    &&& after.graph.nodes[node].origin == origin
    &&& after.graph.nodes[node].version == 0
    &&& forall|other: u64|
        other != node ==> {
            &&& #[trigger] after.graph.nodes.contains_key(other)
                == before.graph.nodes.contains_key(other)
            &&& after.graph.nodes.contains_key(other) ==> after.graph.nodes[other]
                == before.graph.nodes[other]
        }
    &&& after.graph.edges == before.graph.edges
    &&& after.graph.stack == before.graph.stack
    &&& after.id == before.id
    &&& after.jobs == before.jobs
    &&& after.ready == before.ready
    &&& after.wake == before.wake
    &&& after.flush_scheduled == before.flush_scheduled
    &&& crate::drains::same_flush(before, after)
}

/// One more node of `kind` is counted, as created and as live.
pub open spec fn counts_the_node(before: ReactorModel, after: ReactorModel, kind: NodeKind) -> bool {
    let (was, now) = (before.counts, after.counts);
    let live = after.graph.nodes.dom().len() as usize;
    &&& was.nodes_created < u64::MAX ==> now.nodes_created == was.nodes_created + 1
    &&& now.nodes_disposed == was.nodes_disposed
    &&& now.live_nodes_by_kind.len() == was.live_nodes_by_kind.len()
    &&& was.live_nodes_by_kind.len() == 6 ==> forall|other: NodeKind| {
        let (count, counted) = (
            was.live_nodes_by_kind[#[trigger] place(other)],
            now.live_nodes_by_kind[place(other)],
        );
        if other == kind {
            count < usize::MAX ==> counted == count + 1
        } else {
            counted == count
        }
    }
    &&& now.peak_nodes >= was.peak_nodes
    &&& now.peak_nodes >= live
    &&& now.peak_nodes == was.peak_nodes || now.peak_nodes == live
    &&& now == (Counts {
        nodes_created: now.nodes_created,
        live_nodes_by_kind: now.live_nodes_by_kind,
        peak_nodes: now.peak_nodes,
        ..was
    })
}

/// Where a kind stands in a list of counts: every kind has a place of its own.
pub open spec fn place(kind: NodeKind) -> int {
    match kind {
        NodeKind::Source => 0,
        NodeKind::Signal => 1,
        NodeKind::Event => 2,
        NodeKind::Thunk => 3,
        NodeKind::Memo => 4,
        NodeKind::Effect => 5,
    }
}

/// A node came into being that is not computed, and nothing else changed but what is counted and
/// reported of it.
pub open spec fn is_new_node(
    before: ReactorModel,
    after: ReactorModel,
    node: u64,
    kind: NodeKind,
    origin: Location,
) -> bool {
    &&& is_new_in_graph(before, after, node, kind, origin)
    &&& after.observers == before.observers
    &&& counts_the_node(before, after, kind)
    &&& crate::reports::reports(
        before,
        after,
        seq![
            DiagnosticEvent::NodeCreated { reactor: before.id, node: NodeId(node), kind, origin },
        ],
        crate::reports::tally(before.ledger),
    )
}

/// A computed node came into being: it is dirty, so that its first read computes it, and marks reach
/// it.
pub open spec fn is_new_computed(
    before: ReactorModel,
    after: ReactorModel,
    node: u64,
    kind: NodeKind,
    origin: Location,
) -> bool {
    &&& is_new_in_graph(before, after, node, kind, origin)
    &&& after.observers.contains_key(node)
    &&& after.observers[node].state is Dirty
    &&& after.observers[node].registered
    &&& after.observers[node].effect is None
    &&& forall|other: u64|
        other != node ==> {
            &&& #[trigger] after.observers.contains_key(other) == before.observers.contains_key(
                other,
            )
            &&& after.observers.contains_key(other) ==> after.observers[other]
                == before.observers[other]
        }
    &&& after.hooks == before.hooks
    &&& counts_the_node(before, after, kind)
    &&& crate::reports::reports(
        before,
        after,
        seq![
            DiagnosticEvent::NodeCreated { reactor: before.id, node: NodeId(node), kind, origin },
        ],
        crate::reports::tally(before.ledger),
    )
}

/// Allocating a node is what creation comes to in the model.
proof fn allocations_are_new_nodes(before: ReactorModel, kind: NodeKind, origin: Location)
    requires
        before.wf(),
        before.graph.next_node < u64::MAX,
    ensures
        is_new_node(
            before,
            before.created(kind, origin),
            before.graph.next_node,
            kind,
            origin,
        ),
        before.created(kind, origin).hooks == before.hooks,
{
    assert(forall|other: NodeKind| #[trigger] place(other) == other.position());
}

/// Creating a computed node is what creation comes to in the model.
proof fn allocations_are_new_computed(before: ReactorModel, kind: NodeKind, origin: Location)
    requires
        before.wf(),
        before.graph.next_node < u64::MAX,
    ensures
        is_new_computed(
            before,
            before.computed_created(kind, origin),
            before.graph.next_node,
            kind,
            origin,
        ),
{
    assert(forall|other: NodeKind| #[trigger] place(other) == other.position());
}

/// What is created has the node that came into being, and holds what it was given: a plain node, a
/// source, an event, a signal or a cell.
pub proof fn plain_nodes_are_born<T>(
    reactor: &mut Reactor,
    kind: NodeKind,
    initial: T,
    origin: Location,
    node: NodeId,
    source: Source,
    event: Event,
    signal: Signal<T>,
    cell: Cell<T>,
)
    requires
        old(reactor).wf(),
        old(reactor)@.graph.next_node < u64::MAX,
    ensures
        call_ensures(Reactor::allocate_node, (reactor, kind, origin), node) ==> {
            &&& is_new_node(old(reactor)@, final(reactor)@, node.0, kind, origin)
            &&& final(reactor)@.hooks == old(reactor)@.hooks
        },
        call_ensures(Reactor::source, (reactor, origin), source) || call_ensures(
            crate::source::source_in,
            (reactor, origin),
            source,
        ) ==> {
            &&& is_new_node(
                old(reactor)@,
                final(reactor)@,
                source.node().0,
                NodeKind::Source,
                origin,
            )
            &&& final(reactor)@.hooks == old(reactor)@.hooks
            &&& source.graph() == old(reactor)@.id
        },
        call_ensures(Reactor::source_with_hooks, (reactor, origin), source) || call_ensures(
            crate::source::source_with_hooks_in,
            (reactor, origin),
            source,
        ) ==> {
            let hooks = final(reactor)@.hooks;
            &&& is_new_node(
                old(reactor)@,
                final(reactor)@,
                source.node().0,
                NodeKind::Source,
                origin,
            )
            &&& hooks.contains_key(source.node().0)
            &&& !hooks[source.node().0].observed
            &&& !hooks[source.node().0].delivered
            &&& !hooks[source.node().0].queued
            &&& hooks.remove(source.node().0) == old(reactor)@.hooks.remove(source.node().0)
            &&& source.graph() == old(reactor)@.id
        },
        call_ensures(Reactor::event, (reactor, origin), event) || call_ensures(
            crate::event::event_in,
            (reactor, origin),
            event,
        ) ==> {
            &&& is_new_node(old(reactor)@, final(reactor)@, event@.node, NodeKind::Event, origin)
            &&& final(reactor)@.hooks == old(reactor)@.hooks
            &&& event@.graph == old(reactor)@.id
            &&& forall|token: u64| !#[trigger] event@.subscribers.contains(token)
        },
        call_ensures(Reactor::signal::<T>, (reactor, initial, origin), signal) || call_ensures(
            crate::signal::signal_in::<T>,
            (reactor, initial, origin),
            signal,
        ) ==> {
            &&& is_new_node(
                old(reactor)@,
                final(reactor)@,
                signal.node().0,
                NodeKind::Signal,
                origin,
            )
            &&& final(reactor)@.hooks == old(reactor)@.hooks
            &&& signal.graph() == old(reactor)@.id
            &&& signal.held() == initial
        },
        call_ensures(Reactor::cell::<T>, (reactor, initial, origin), cell) || call_ensures(
            crate::cell::cell_in::<T>,
            (reactor, initial, origin),
            cell,
        ) ==> {
            &&& is_new_node(
                old(reactor)@,
                final(reactor)@,
                cell.node().0,
                NodeKind::Signal,
                origin,
            )
            &&& final(reactor)@.hooks == old(reactor)@.hooks
            &&& cell.graph() == old(reactor)@.id
            &&& cell.held() == initial
        },
{
    let before = old(reactor)@;
    old(reactor).wf_content();
    allocations_are_new_nodes(before, kind, origin);
    allocations_are_new_nodes(before, NodeKind::Source, origin);
    allocations_are_new_nodes(before, NodeKind::Event, origin);
    allocations_are_new_nodes(before, NodeKind::Signal, origin);
    assert(before.hooked_source_created(origin).hooks.remove(before.graph.next_node)
        =~= before.hooks.remove(before.graph.next_node));
}

/// What is created has the computed node that came into being, and no value yet: a thunk, a memo, or
/// the memo of a writable one.
pub proof fn computed_nodes_are_born<T>(
    reactor: &mut Reactor,
    origin: Location,
    thunk: Thunk<T>,
    memo: Memo<T>,
    writable: Writable<T>,
)
    requires
        old(reactor).wf(),
        old(reactor)@.graph.next_node < u64::MAX,
    ensures
        call_ensures(Reactor::thunk::<T>, (reactor, origin), thunk) || call_ensures(
            crate::thunk::thunk_in::<T>,
            (reactor, origin),
            thunk,
        ) ==> {
            &&& is_new_computed(
                old(reactor)@,
                final(reactor)@,
                thunk.node().0,
                NodeKind::Thunk,
                origin,
            )
            &&& thunk.graph() == old(reactor)@.id
            &&& thunk.held() is None
        },
        call_ensures(Reactor::memo::<T>, (reactor, origin), memo) || call_ensures(
            crate::thunk::memo_in::<T>,
            (reactor, origin),
            memo,
        ) ==> {
            &&& is_new_computed(
                old(reactor)@,
                final(reactor)@,
                memo.node().0,
                NodeKind::Memo,
                origin,
            )
            &&& memo.graph() == old(reactor)@.id
            &&& memo.held() is None
        },
        call_ensures(crate::writable::writable_in::<T>, (reactor, origin), writable) ==> {
            &&& is_new_computed(
                old(reactor)@,
                final(reactor)@,
                writable.derived().node().0,
                NodeKind::Memo,
                origin,
            )
            &&& writable.derived().graph() == old(reactor)@.id
            &&& writable.derived().held() is None
        },
{
    let before = old(reactor)@;
    old(reactor).wf_content();
    allocations_are_new_computed(before, NodeKind::Thunk, origin);
    allocations_are_new_computed(before, NodeKind::Memo, origin);
}

/// `node` is gone from the graph with every edge to it and from it, with its hooks, and marks do not
/// reach it; the other nodes, edges and observers are as they were.
pub open spec fn is_gone(before: ReactorModel, node: u64, after: ReactorModel) -> bool {
    &&& !after.graph.nodes.contains_key(node)
    &&& forall|other: u64|
        other != node ==> {
            &&& #[trigger] after.graph.nodes.contains_key(other)
                == before.graph.nodes.contains_key(other)
            &&& after.graph.nodes.contains_key(other) ==> after.graph.nodes[other]
                == before.graph.nodes[other]
        }
    &&& forall|edge: (u64, u64)|
        {
            &&& #[trigger] after.graph.edges.contains_key(edge) <==> {
                &&& before.graph.edges.contains_key(edge)
                &&& edge.0 != node
                &&& edge.1 != node
            }
            &&& after.graph.edges.contains_key(edge) ==> after.graph.edges[edge]
                == before.graph.edges[edge]
        }
    &&& !after.hooks.contains_key(node)
    &&& after.observers.contains_key(node) ==> !after.observers[node].registered
    &&& forall|other: u64|
        other != node ==> {
            &&& #[trigger] after.observers.contains_key(other) == before.observers.contains_key(
                other,
            )
            &&& after.observers.contains_key(other) ==> after.observers[other]
                == before.observers[other]
        }
    &&& after.graph.stack == before.graph.stack
    &&& after.graph.next_node == before.graph.next_node
    &&& after.ready == before.ready
    &&& crate::drains::same_flush(before, after)
}

/// The node that is gone, and its edges, are counted as gone: the node once, if it was live.
pub open spec fn counts_the_loss(before: ReactorModel, node: u64, after: ReactorModel) -> bool {
    let (was, now) = (before.counts, after.counts);
    let live = before.graph.nodes.contains_key(node);
    let kind = before.graph.nodes[node].kind;
    &&& now.nodes_created == was.nodes_created
    &&& now.edges_added == was.edges_added
    &&& now.flushes == was.flushes
    &&& now.queued_effects == was.queued_effects
    &&& now.peak_nodes == was.peak_nodes
    &&& now.peak_edges == was.peak_edges
    &&& !live ==> {
        &&& now.nodes_disposed == was.nodes_disposed
        &&& now.live_nodes_by_kind == was.live_nodes_by_kind
    }
    &&& live ==> {
        &&& was.nodes_disposed < u64::MAX ==> now.nodes_disposed == was.nodes_disposed + 1
        &&& was.live_nodes_by_kind.len() == 6 ==> forall|other: NodeKind| {
            let (count, counted) = (
                was.live_nodes_by_kind[#[trigger] place(other)],
                now.live_nodes_by_kind[place(other)],
            );
            if other == kind {
                count > 0 ==> counted == count - 1
            } else {
                counted == count
            }
        }
    }
}

/// Disposing a node is what going comes to in the model.
pub proof fn disposed_nodes_are_gone(before: ReactorModel, node: u64, lost: Seq<u64>)
    ensures
        is_gone(before, node, before.disposed(node, lost)),
        counts_the_loss(before, node, before.disposed(node, lost)),
{
    let count = before.graph.inputs(node).dom().len() as usize;
    let cut = ReactorModel {
        graph: before.graph.forgetting(node),
        counts: before.counts.edges_removed(count),
        ..before
    }.recorded(crate::stats::FlushItem::EdgesRemoved { count });
    crate::reports::noting_says_nothing(cut, lost);
    noting_keeps_the_flush(cut, lost);
    assert(forall|other: NodeKind| #[trigger] place(other) == other.position());
}

/// Telling nodes that nobody observes them any more belongs to no flush.
proof fn noting_keeps_the_flush(model: ReactorModel, nodes: Seq<u64>)
    ensures
        model.noted_abandoned(nodes).open_flush_epoch == model.open_flush_epoch,
    decreases nodes.len(),
{
    if nodes.len() > 0 {
        noting_keeps_the_flush(model, nodes.drop_last());
    }
}

/// A node that is disposed, or whose handle is given up, is gone.
pub proof fn nodes_go_whole<T>(
    reactor: &mut Reactor,
    node: NodeId,
    source: Source,
    event: Event,
    signal: Signal<T>,
    cell: Cell<T>,
)
    ensures
        call_ensures(Reactor::dispose, (reactor, node), ()) ==> {
            &&& is_gone(old(reactor)@, node.0, final(reactor)@)
            &&& counts_the_loss(old(reactor)@, node.0, final(reactor)@)
        },
        call_ensures(Source::release, (source, reactor), ()) ==> is_gone(
            old(reactor)@,
            source.node().0,
            final(reactor)@,
        ),
        call_ensures(Event::release, (event, reactor), ()) ==> is_gone(
            old(reactor)@,
            event@.node,
            final(reactor)@,
        ),
        call_ensures(Signal::<T>::release, (signal, reactor), ()) ==> is_gone(
            old(reactor)@,
            signal.node().0,
            final(reactor)@,
        ),
        call_ensures(Cell::<T>::release, (cell, reactor), ()) ==> is_gone(
            old(reactor)@,
            cell.node().0,
            final(reactor)@,
        ),
{
    let before = old(reactor)@;
    assert forall|node: u64, lost: Seq<u64>| #[trigger]
        before.disposed(node, lost) == final(reactor)@ implies {
        &&& is_gone(before, node, final(reactor)@)
        &&& counts_the_loss(before, node, final(reactor)@)
    } by {
        disposed_nodes_are_gone(before, node, lost);
    }
}

/// An effect that is unhooked is gone from the graph; a computed node whose handle is given up is
/// forgotten as an observer, too.
pub proof fn observers_go_whole<T>(
    reactor: &mut Reactor,
    node: NodeId,
    thunk: Thunk<T>,
    memo: Memo<T>,
    watch: Watch<T>,
)
    ensures
        call_ensures(Reactor::unhook_effect, (reactor, node), ()) ==> {
            &&& is_gone(old(reactor)@, node.0, final(reactor)@)
            &&& final(reactor)@.observers.dom() == old(reactor)@.observers.dom()
            &&& final(reactor)@.observers[node.0].effect == old(reactor)@.observers[node.0].effect
        },
        call_ensures(Thunk::<T>::release, (thunk, reactor), ()) ==> {
            &&& is_gone(old(reactor)@, thunk.node().0, final(reactor)@)
            &&& !final(reactor)@.observers.contains_key(thunk.node().0)
        },
        call_ensures(Memo::<T>::release, (memo, reactor), ()) ==> {
            &&& is_gone(old(reactor)@, memo.node().0, final(reactor)@)
            &&& !final(reactor)@.observers.contains_key(memo.node().0)
        },
        call_ensures(Watch::<T>::release, (watch, reactor), ()) ==> {
            &&& is_gone(old(reactor)@, watch.gate().node().0, final(reactor)@)
            &&& !final(reactor)@.observers.contains_key(watch.gate().node().0)
        },
        call_ensures(Reactor::release_observer, (reactor, node), ()) ==> {
            &&& !final(reactor)@.observers.contains_key(node.0)
            &&& final(reactor)@ == (ReactorModel {
                observers: final(reactor)@.observers,
                ..old(reactor)@
            })
            &&& forall|other: u64|
                other != node.0 ==> {
                    &&& #[trigger] final(reactor)@.observers.contains_key(other)
                        == old(reactor)@.observers.contains_key(other)
                    &&& final(reactor)@.observers[other] == old(reactor)@.observers[other]
                }
        },
        call_ensures(Reactor::unregister_observer, (reactor, node), ()) ==> {
            &&& final(reactor)@ == (ReactorModel {
                observers: final(reactor)@.observers,
                ..old(reactor)@
            })
            &&& final(reactor)@.observers.dom() == old(reactor)@.observers.dom()
            &&& forall|other: u64| #[trigger]
                old(reactor)@.observers.contains_key(other) ==> {
                    let (was, now) = (
                        old(reactor)@.observers[other],
                        final(reactor)@.observers[other],
                    );
                    &&& now.state == was.state
                    &&& now.effect == was.effect
                    &&& now.registered == (was.registered && other != node.0)
                }
        },
{
    let before = old(reactor)@;
    let after = final(reactor)@;
    assert forall|node: u64, lost: Seq<u64>| #[trigger]
        before.computed_released(node, lost) == after implies {
        &&& is_gone(before, node, after)
        &&& !after.observers.contains_key(node)
    } by {
        disposed_nodes_are_gone(before.unregistered(node), node, lost);
    }
    if call_ensures(Reactor::unhook_effect, (reactor, node), ()) {
        let lost = choose|lost: Seq<u64>|
            crate::model::lists(lost, crate::model::abandoned(before.graph, node.0)) && after
                == #[trigger] before.effect_unhooked(node.0, lost);
        disposed_nodes_are_gone(before.unregistered(node.0), node.0, lost);
        crate::reactor::disposal_keeps_observers(before.unregistered(node.0), node.0, lost);
        assert(after.observers.dom() =~= before.observers.dom());
    }
    assert(before.unregistered(node.0).observers.dom() =~= before.observers.dom());
}

/// A watch starts with a memo that has no value and an effect that is asked to run, and has handled
/// nothing. It is there in full where its owner was not disposed.
pub proof fn watches_are_born<S>(
    reactor: &mut Reactor,
    owners: &mut Owners,
    origin: Location,
    watch: Watch<S>,
)
    requires
        old(reactor).wf(),
        old(reactor)@.graph.next_node < u64::MAX - 1,
        call_ensures(Reactor::watch::<S>, (reactor, owners, origin), watch) || call_ensures(
            crate::watch::watch_in::<S>,
            (reactor, owners, origin),
            watch,
        ),
        crate::drains::owner_in_effect(old(owners)@) matches Some(owner) ==> owner
            != old(owners)@.next && !old(owners)@.frames[owner].disposed,
    ensures
        watch.gate().graph() == old(reactor)@.id,
        watch.gate().held() is None,
        watch.handled_last() is None,
        exists|between: ReactorModel|
            #![trigger is_new_computed(
                old(reactor)@,
                between,
                watch.gate().node().0,
                NodeKind::Memo,
                origin,
            )]
            is_new_computed(
                old(reactor)@,
                between,
                watch.gate().node().0,
                NodeKind::Memo,
                origin,
            ) && crate::drains::is_new_effect(
                between,
                final(reactor)@,
                watch.observer().node().0,
                false,
                watch.observer().frame().0,
                origin,
            ),
{
    let before = old(reactor)@;
    old(reactor).wf_content();
    allocations_are_new_computed(before, NodeKind::Memo, origin);
    let between = before.computed_created(NodeKind::Memo, origin);
    let framed = old(owners)@.created(None, old(owners)@.next_registry());
    assert(framed.current() == crate::drains::owner_in_effect(old(owners)@));
    assert(is_new_computed(before, between, watch.gate().node().0, NodeKind::Memo, origin));
    assert(crate::drains::is_new_effect(
        between,
        final(reactor)@,
        watch.observer().node().0,
        false,
        watch.observer().frame().0,
        origin,
    ));
}

/// A resource starts without a value, not loading, with nothing refetched and no generation open. It
/// has a signal for each, a memo for its input, and an effect that is asked to run. It is there in
/// full where its owner was not disposed.
pub proof fn resources_are_born<S, T>(
    reactor: &mut Reactor,
    owners: &mut Owners,
    origin: Location,
    created: (Resource<T>, Memo<S>),
)
    requires
        old(reactor).wf(),
        old(reactor)@.graph.next_node < u64::MAX - 4,
        call_ensures(Reactor::resource::<S, T>, (reactor, owners, origin), created) || call_ensures(
            crate::resource::resource_in::<S, T>,
            (reactor, owners, origin),
            created,
        ),
        crate::drains::owner_in_effect(old(owners)@) matches Some(owner) ==> owner
            != old(owners)@.next && !old(owners)@.frames[owner].disposed,
    ensures
        created.0.value_signal().held() is None,
        !created.0.loading_signal().held(),
        created.0.tick_signal().held() == 0,
        created.0.fetches() == 0,
        created.1.held() is None,
        created.0.value_signal().graph() == old(reactor)@.id,
        created.0.loading_signal().graph() == old(reactor)@.id,
        created.0.tick_signal().graph() == old(reactor)@.id,
        created.1.graph() == old(reactor)@.id,
        ({
            let after = final(reactor)@;
            let value = created.0.value_signal().node().0;
            let flag = created.0.loading_signal().node().0;
            let tick = created.0.tick_signal().node().0;
            let input = created.1.node().0;
            let effect = created.0.observer().node().0;
            &&& value != flag && value != tick && flag != tick
            &&& is_fresh_signal(old(reactor)@, after, value, origin)
            &&& is_fresh_signal(old(reactor)@, after, flag, origin)
            &&& is_fresh_signal(old(reactor)@, after, tick, origin)
            &&& !old(reactor)@.graph.nodes.contains_key(input)
            &&& after.graph.nodes.contains_key(input)
            &&& after.graph.nodes[input].kind is Memo
            &&& after.observers[input].state is Dirty
            &&& after.observers[input].registered
            &&& after.observers[input].effect is None
            &&& after.graph.nodes[effect].kind is Effect
            &&& after.observers[effect].state is Dirty
            &&& after.observers[effect].effect matches Some(record) && record.scheduled
                && !record.disposed && !record.external
        }),
{
    let before = old(reactor)@;
    old(reactor).wf_content();
    let framed = old(owners)@.created(None, old(owners)@.next_registry());
    assert(framed.current() == crate::drains::owner_in_effect(old(owners)@));
    let nodes = before.resource_nodes_created(origin);
    let first = before.created(NodeKind::Signal, origin);
    let second = first.created(NodeKind::Signal, origin);
    let third = second.created(NodeKind::Signal, origin);
    assert(first.graph.next_node == before.graph.next_node + 1);
    assert(second.graph.next_node == before.graph.next_node + 2);
    assert(third.graph.next_node == before.graph.next_node + 3);
    assert(nodes.graph.next_node == before.graph.next_node + 4);
}

/// `node` is a signal that was not there before.
pub open spec fn is_fresh_signal(
    before: ReactorModel,
    after: ReactorModel,
    node: u64,
    origin: Location,
) -> bool {
    &&& !before.graph.nodes.contains_key(node)
    &&& after.graph.nodes.contains_key(node)
    &&& after.graph.nodes[node].kind is Signal
    &&& after.graph.nodes[node].origin == origin
    &&& after.graph.nodes[node].version == 0
}

} // verus!
