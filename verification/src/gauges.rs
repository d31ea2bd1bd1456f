//! What a reactor tells of itself.
//!
//! Every answer is what the graph, the queue and the flushes are at the time; every total grows by
//! what happened; every peak is the highest that was reached.
use vstd::prelude::*;

use crate::diagnostics::{NodeKind, ReactorId};
use crate::effect::EffectHandle;
use crate::graph::RecordedDependency;
use crate::id::{Location, NodeId};
use crate::model::{Job, ReactorModel};
use crate::reactor::{ContextGuard, ReactCycleError, Reactor};
use crate::source::Source;
use crate::stats::{Counts, GraphStats};
use crate::tracking::Tracking;

verus! {

/// What can be asked of a node is what it is: its version, its kind and its site, if it is live.
pub proof fn nodes_are_told_as_they_are(
    reactor: Reactor,
    node: NodeId,
    version: Option<u64>,
    kind: Option<NodeKind>,
    origin: Option<Location>,
)
    ensures
        ({
            let nodes = reactor@.graph.nodes;
            let live = nodes.contains_key(node.0);
            &&& call_ensures(Reactor::node_version, (&reactor, node), version) ==> if live {
                version == Some(nodes[node.0].version)
            } else {
                version is None
            }
            &&& call_ensures(Reactor::node_kind, (&reactor, node), kind) ==> if live {
                kind == Some(nodes[node.0].kind)
            } else {
                kind is None
            }
            &&& call_ensures(Reactor::node_origin, (&reactor, node), origin) ==> if live {
                origin == Some(nodes[node.0].origin)
            } else {
                origin is None
            }
        }),
{
}

/// A node has observers exactly where someone has an edge on it.
proof fn observed_means_read(model: ReactorModel, node: u64)
    ensures
        model.graph.observers(node) != Set::<u64>::empty() ==> exists|reader: u64| #[trigger]
            model.graph.edges.contains_key((reader, node)),
        forall|reader: u64| #[trigger]
            model.graph.edges.contains_key((reader, node)) ==> model.graph.observers(node)
                != Set::<u64>::empty(),
{
    let observers = model.graph.observers(node);
    if observers != Set::<u64>::empty() {
        let reader = choose|reader: u64| observers.contains(reader);
        assert(!(observers =~= Set::<u64>::empty()));
        assert(model.graph.edges.contains_key((reader, node)));
    }
    assert forall|reader: u64| #[trigger]
        model.graph.edges.contains_key((reader, node)) implies observers
        != Set::<u64>::empty() by {
        assert(observers.contains(reader));
    }
}

/// What can be asked of edges is what they are: a node is observed if someone has an edge on it, and
/// the lists hold each of those once, or each that the node has an edge on, with the version that it
/// saw.
pub proof fn edges_are_told_as_they_are(
    reactor: Reactor,
    node: NodeId,
    source: Source,
    observed: bool,
    count: usize,
    readers: Vec<NodeId>,
    inputs: Vec<RecordedDependency>,
)
    ensures
        call_ensures(Reactor::is_observed, (&reactor, node), observed) ==> {
            &&& observed ==> exists|reader: u64| #[trigger]
                reactor@.graph.edges.contains_key((reader, node.0))
            &&& forall|reader: u64| #[trigger]
                reactor@.graph.edges.contains_key((reader, node.0)) ==> observed
        },
        call_ensures(Source::is_observed, (&source, &reactor), observed) ==> {
            &&& observed ==> exists|reader: u64| #[trigger]
                reactor@.graph.edges.contains_key((reader, source.node().0))
            &&& forall|reader: u64| #[trigger]
                reactor@.graph.edges.contains_key((reader, source.node().0)) ==> observed
        },
        call_ensures(Reactor::observer_count, (&reactor, node), count) ==> count
            == crate::reports::readers_of(reactor@, node.0).len(),
        call_ensures(Reactor::dependency_count, (&reactor, node), count) ==> count
            == crate::reports::inputs_of(reactor@, node.0).len(),
        call_ensures(Reactor::observers_of, (&reactor, node), readers) || call_ensures(
            Reactor::dependents_of,
            (&reactor, node),
            readers,
        ) ==> {
            &&& forall|reader: u64| #[trigger]
                reactor@.graph.edges.contains_key((reader, node.0)) <==> readers@.contains(
                    NodeId(reader),
                )
            &&& readers@.no_duplicates()
        },
        call_ensures(Reactor::dependencies_of, (&reactor, node), inputs)
            ==> crate::computations::holds_the_edges(inputs@, reactor@, node.0),
{
    let model = reactor@;
    observed_means_read(model, node.0);
    observed_means_read(model, source.node().0);
    assert(model.graph.observers(node.0) =~= crate::reports::readers_of(model, node.0));
    assert(model.graph.inputs(node.0).dom() =~= crate::reports::inputs_of(model, node.0));
    let raw = readers@.map_values(|observer: NodeId| observer.0);
    if crate::model::lists(raw, model.graph.observers(node.0)) {
        assert forall|reader: u64| #[trigger]
            model.graph.edges.contains_key((reader, node.0)) <==> readers@.contains(
                NodeId(reader),
            ) by {
            assert(model.graph.observers(node.0).contains(reader) == model.graph.edges.contains_key(
                (reader, node.0),
            ));
            assert(raw.to_set().contains(reader) == raw.contains(reader));
            if raw.contains(reader) {
                let at = choose|at: int| 0 <= at < raw.len() && raw[at] == reader;
                assert(readers@[at] == NodeId(reader));
            }
            if readers@.contains(NodeId(reader)) {
                let at = choose|at: int| 0 <= at < readers@.len() && readers@[at] == NodeId(reader);
                assert(raw[at] == reader);
            }
        }
        assert forall|one: int, other: int|
            0 <= one < readers@.len() && 0 <= other < readers@.len() && one
                != other implies readers@[one] != readers@[other] by {
            assert(raw[one] != raw[other]);
        }
    }
    if crate::graph::lists_inputs(inputs@, model.graph.inputs(node.0)) {
        assert forall|input: u64| #[trigger] model.graph.edges.contains_key(
            (node.0, input),
        ) implies exists|at: int| 0 <= at < inputs@.len() && #[trigger] inputs@[at].node.0
            == input by {
            assert(model.graph.inputs(node.0).contains_key(input));
        }
    }
}

/// What can be asked of the reactor itself is what it is.
pub proof fn reactors_are_told_as_they_are(
    reactor: Reactor,
    node: NodeId,
    id: ReactorId,
    enabled: bool,
    open: bool,
    active: bool,
    epoch: u64,
)
    ensures
        call_ensures(Reactor::id, (&reactor,), id) ==> id == reactor@.id,
        call_ensures(Reactor::diagnostics_enabled, (&reactor,), enabled) ==> enabled == (
        reactor@.subscribers.len() > 0),
        call_ensures(Reactor::in_flush, (&reactor,), open) ==> open == (reactor@.flush_depth > 0),
        call_ensures(Reactor::flush_epoch, (&reactor,), epoch) ==> epoch == reactor@.flush_epoch,
        call_ensures(Reactor::drain_epoch, (&reactor,), epoch) ==> epoch == reactor@.drain_epoch,
        call_ensures(Reactor::is_computation_active, (&reactor, node), active) ==> active
            == reactor@.graph.stack.contains(node.0),
{
}

/// A new reactor is empty and idle.
pub proof fn reactors_start_empty(id: ReactorId, reactor: Reactor)
    requires
        call_ensures(Reactor::new, (id,), reactor),
    ensures
        reactor@.id == id,
        forall|node: u64| !#[trigger] reactor@.graph.nodes.contains_key(node),
        forall|edge: (u64, u64)| !#[trigger] reactor@.graph.edges.contains_key(edge),
        forall|node: u64| !#[trigger] reactor@.observers.contains_key(node),
        forall|node: u64| !#[trigger] reactor@.hooks.contains_key(node),
        reactor@.graph.stack.len() == 0,
        reactor@.jobs.len() == 0,
        reactor@.ready.len() == 0,
        reactor@.subscribers.len() == 0,
        reactor@.events.len() == 0,
        reactor@.flush_depth == 0,
        reactor@.flush_epoch == 0,
        !reactor@.flush_scheduled,
        !reactor@.wake,
        reactor@.ledger.open.len() == 0,
        crate::reports::nothing_counted(reactor@.ledger.pending),
        reactor@.counts.nodes_created == 0,
        reactor@.counts.nodes_disposed == 0,
        reactor@.counts.edges_added == 0,
        reactor@.counts.edges_removed == 0,
        reactor@.counts.flushes == 0,
        reactor@.counts.live_edges == 0,
        reactor@.counts.queued_effects == 0,
        reactor@.counts.peak_nodes == 0,
        reactor@.counts.peak_edges == 0,
        reactor@.counts.peak_pending_jobs == 0,
{
}

/// An account of the graph shows what there is: nodes, edges, observed nodes, effects with a run
/// pending, waiting jobs and open flushes; live nodes of each kind where the kind is asked for; and
/// the totals and peaks that were kept.
pub proof fn accounts_show_what_there_is(
    reactor: Reactor,
    stats: GraphStats,
    kind: NodeKind,
    count: usize,
)
    requires
        reactor.wf(),
        call_ensures(Reactor::graph_stats, (&reactor,), stats),
    ensures
        ({
            let model = reactor@;
            &&& stats.reactor == model.id
            &&& stats.live_nodes == model.graph.nodes.dom().len()
            &&& stats.live_edges == model.graph.edges.dom().len()
            &&& stats.observed_nodes == model.graph.edges.dom().map(
                |edge: (u64, u64)| edge.1,
            ).len()
            &&& stats.queued_effects == model.observers.dom().filter(
                |node: u64|
                    model.observers[node].effect matches Some(effect) && effect.scheduled,
            ).len()
            &&& stats.pending_jobs == model.jobs.len()
            &&& stats.flush_depth == model.flush_depth
            &&& stats.flush_epoch == model.flush_epoch
            &&& stats.peak_nodes == model.counts.peak_nodes
            &&& stats.peak_edges == model.counts.peak_edges
            &&& stats.peak_pending_jobs == model.counts.peak_pending_jobs
            &&& stats.nodes_created == model.counts.nodes_created
            &&& stats.nodes_disposed == model.counts.nodes_disposed
            &&& stats.edges_added == model.counts.edges_added
            &&& stats.edges_removed == model.counts.edges_removed
            &&& stats.flushes == model.counts.flushes
            &&& call_ensures(GraphStats::live_nodes_of_kind, (&stats, kind), count) ==> count
                == model.graph.nodes.dom().filter(
                |node: u64| model.graph.nodes[node].kind == kind,
            ).len()
        }),
{
    reactor.wf_content();
    let model = reactor@;
    assert(model.graph.of_kind(kind) =~= model.graph.nodes.dom().filter(
        |node: u64| model.graph.nodes[node].kind == kind,
    ));
    assert(stats.by_kind()[kind.position()] == model.graph.of_kind(kind).len());
    assert(model.graph.observed() =~= model.graph.edges.dom().map(|edge: (u64, u64)| edge.1));
    assert(crate::model::pending_effects(model.observers) =~= model.observers.dom().filter(
        |node: u64| model.observers[node].effect matches Some(effect) && effect.scheduled,
    ));
}

/// A peak is the higher of what it was and what there is now.
pub open spec fn is_peak(was: usize, now: int, peak: usize) -> bool {
    &&& peak >= was
    &&& peak >= now
    &&& peak == was || peak == now
}

/// A tracked read of a node that the computation has no edge on is one edge more, in total, live and
/// towards the peak; any other read changes no count.
pub proof fn reads_count_edges(reactor: &mut Reactor, tracking: Tracking, node: NodeId)
    requires
        call_ensures(Reactor::observe, (reactor, &tracking, node), ()),
        !old(reactor)@.graph.stack.contains(node.0),
    ensures
        ({
            let (before, after) = (old(reactor)@, final(reactor)@);
            let (was, now) = (before.counts, after.counts);
            let recorded = before.graph.stack.len() > 0 && tracking.untracked_depth == 0;
            let known = before.graph.edges.contains_key((before.graph.stack.last(), node.0));
            &&& recorded && !known ==> {
                &&& was.live_edges < usize::MAX ==> now.live_edges == was.live_edges + 1
                &&& was.edges_added < u64::MAX ==> now.edges_added == was.edges_added + 1
                &&& is_peak(was.peak_edges, now.live_edges as int, now.peak_edges)
            }
            &&& !recorded || known ==> {
                &&& now.live_edges == was.live_edges
                &&& now.edges_added == was.edges_added
                &&& now.peak_edges == was.peak_edges
            }
            &&& now == (Counts {
                live_edges: now.live_edges,
                edges_added: now.edges_added,
                peak_edges: now.peak_edges,
                peak_pending_jobs: now.peak_pending_jobs,
                ..was
            })
        }),
{
}

/// Starting a computation anew takes as many edges away as it had, from the live ones and in total.
pub proof fn fresh_scopes_count_lost_edges(
    reactor: &mut Reactor,
    tracking: &mut Tracking,
    observer: NodeId,
    guard: ContextGuard,
)
    requires
        call_ensures(Reactor::run_in_context, (reactor, tracking, observer), guard),
    ensures
        ({
            let (before, after) = (old(reactor)@, final(reactor)@);
            let (was, now) = (before.counts, after.counts);
            let count = crate::reports::inputs_of(before, observer.0).len() as usize;
            &&& was.live_edges >= count ==> now.live_edges == was.live_edges - count
            &&& was.edges_removed + count <= u64::MAX ==> now.edges_removed == was.edges_removed
                + count
            &&& now == (Counts {
                live_edges: now.live_edges,
                edges_removed: now.edges_removed,
                peak_pending_jobs: now.peak_pending_jobs,
                ..was
            })
        }),
{
    let before = old(reactor)@;
    let lost = choose|lost: Seq<u64>|
        crate::model::lists(lost, crate::model::abandoned(before.graph, observer.0))
            && final(reactor)@ == #[trigger] before.started(observer.0, lost);
    let count = before.graph.inputs(observer.0).dom().len() as usize;
    assert(before.graph.inputs(observer.0).dom() =~= crate::reports::inputs_of(before, observer.0));
    let cut = ReactorModel {
        graph: before.graph.forgetting(observer.0),
        counts: before.counts.edges_removed(count),
        ..before
    }.recorded(crate::stats::FlushItem::EdgesRemoved { count });
    crate::reports::noting_says_nothing(cut, lost);
}

/// A job that is queued counts towards the peak of waiting jobs, and towards nothing else.
pub proof fn jobs_count_towards_the_peak(reactor: &mut Reactor, job: Job)
    requires
        call_ensures(Reactor::schedule, (reactor, job), ()),
    ensures
        ({
            let (was, now) = (old(reactor)@.counts, final(reactor)@.counts);
            &&& is_peak(
                was.peak_pending_jobs,
                final(reactor)@.jobs.len() as usize as int,
                now.peak_pending_jobs,
            )
            &&& now == (Counts { peak_pending_jobs: now.peak_pending_jobs, ..was })
        }),
{
}

/// A read of a node that is being computed is refused with the cycle that it would close: it starts
/// and ends with the node, and is made of the computations in progress from there on, each with the
/// site of its node. Any other read is recorded.
pub proof fn cycles_are_refused(
    reactor: &mut Reactor,
    tracking: Tracking,
    node: NodeId,
    outcome: Result<(), ReactCycleError>,
)
    requires
        old(reactor).wf(),
        call_ensures(Reactor::try_observe, (reactor, &tracking, node), outcome) || call_ensures(
            Reactor::cycle_check,
            (&*old(reactor), node),
            outcome,
        ),
    ensures
        outcome is Err == old(reactor)@.graph.stack.contains(node.0),
        outcome matches Err(error) ==> {
            let stack = old(reactor)@.graph.stack;
            let nodes = old(reactor)@.graph.nodes;
            let path = error.path();
            &&& 2 <= path.len() <= stack.len() + 1
            &&& path.last() == node.0
            &&& path.first() == node.0
            &&& forall|at: int| #![trigger path[at]]
                0 <= at < path.len() - 1 ==> path[at] == stack[stack.len() - (path.len() - 1) + at]
            &&& forall|at: int| #![trigger stack[at]]
                0 <= at < stack.len() - (path.len() - 1) ==> stack[at] != node.0
            &&& error.sites().len() == path.len()
            &&& forall|at: int| #![trigger path[at]]
                0 <= at < path.len() ==> error.sites()[at] == if nodes.contains_key(path[at]) {
                    Some(nodes[path[at]].origin)
                } else {
                    None
                }
        },
        call_ensures(Reactor::try_observe, (reactor, &tracking, node), outcome) && outcome is Err
            ==> final(reactor)@ == old(reactor)@,
        call_ensures(Reactor::try_observe, (reactor, &tracking, node), outcome) && outcome is Ok
            && old(reactor)@.graph.stack.len() > 0 && tracking.untracked_depth == 0
            ==> crate::reads::depends_now(
            old(reactor)@,
            node.0,
            final(reactor)@,
        ),
{
    let model = old(reactor)@;
    let stack = model.graph.stack;
    old(reactor).wf_content();
    if stack.contains(node.0) {
        let first = stack.index_of(node.0);
        assert(0 <= first < stack.len() && stack[first] == node.0);
        assert(crate::graph::cycle_through(stack, node.0).len() == stack.len() - first + 1);
    }
}

/// A consumer is told what became of a node that has hooks, if that is not what it was told last,
/// and knows it then; nothing else changes.
pub proof fn hooks_tell_what_became(reactor: &mut Reactor, node: NodeId, news: Option<bool>)
    requires
        call_ensures(Reactor::deliver_hooks, (reactor, node), news),
    ensures
        ({
            let (was, now) = (old(reactor)@.hooks, final(reactor)@.hooks);
            &&& final(reactor)@ == (ReactorModel { hooks: now, ..old(reactor)@ })
            &&& !was.contains_key(node.0) ==> news is None && now == was
            &&& was.contains_key(node.0) ==> {
                &&& news is Some == (was[node.0].observed != was[node.0].delivered)
                &&& news matches Some(observed) ==> observed == was[node.0].observed
                &&& now.contains_key(node.0)
                &&& now[node.0].delivered == was[node.0].observed
                &&& now[node.0].observed == was[node.0].observed
                &&& !now[node.0].queued
                &&& now.remove(node.0) == was.remove(node.0)
            }
        }),
{
    let (was, now) = (old(reactor)@.hooks, final(reactor)@.hooks);
    assert(was.contains_key(node.0) ==> now.remove(node.0) =~= was.remove(node.0));
}

} // verus!
