//! What becomes of a computed node when it is computed.
//!
//! A computation starts without dependencies and counts as up to date from its start. A value that
//! differs is a new version, and one that does not is none. A computation that fails leaves its node
//! as stale as it can be.
use vstd::prelude::*;

use crate::diagnostics::{ComputeOutcome, DiagnosticEvent, NodeKind, ReactorId};
use crate::graph::RecordedDependency;
use crate::id::{Location, NodeId};
use crate::model::ReactorModel;
use crate::observers::State;
use crate::reactor::{ContextGuard, Reactor};
use crate::refresh::{Refresh, RefreshStep, Stage};
use crate::stats::FlushStats;
use crate::thunk::{Memo, Thunk};
use crate::tracking::Tracking;

verus! {

/// `observer` is the innermost computation now, with its reads tracked and no edge left; every other
/// edge is there, and no node changed.
pub open spec fn starts_afresh(
    before: ReactorModel,
    observer: u64,
    after: ReactorModel,
    tracking: Tracking,
) -> bool {
    &&& after.graph.stack == before.graph.stack.push(observer)
    &&& after.graph.nodes == before.graph.nodes
    &&& after.graph.next_node == before.graph.next_node
    &&& forall|edge: (u64, u64)| #[trigger]
        after.graph.edges.contains_key(edge) <==> before.graph.edges.contains_key(edge) && edge.0
            != observer
    &&& forall|edge: (u64, u64)| #[trigger]
        after.graph.edges.contains_key(edge) ==> after.graph.edges[edge]
            == before.graph.edges[edge]
    &&& tracking.untracked_depth == 0
    &&& tracking.running == Some(before.id)
}

/// The innermost computation ended.
pub open spec fn has_ended(before: ReactorModel, after: ReactorModel) -> bool {
    &&& after.graph.nodes == before.graph.nodes
    &&& after.graph.edges == before.graph.edges
    &&& after.graph.next_node == before.graph.next_node
    &&& before.graph.stack.len() > 0 ==> after.graph.stack == before.graph.stack.drop_last()
    &&& before.graph.stack.len() == 0 ==> after.graph.stack == before.graph.stack
}

/// What a scope that is entered and left comes to.
pub proof fn scopes_nest(
    reactor: &mut Reactor,
    tracking: &mut Tracking,
    observer: NodeId,
    guard: ContextGuard,
)
    ensures
        call_ensures(Reactor::run_in_context, (reactor, tracking, observer), guard) ==> {
            &&& starts_afresh(old(reactor)@, observer.0, final(reactor)@, *final(tracking))
            &&& final(reactor)@.observers == old(reactor)@.observers
            &&& guard.previous == *old(tracking)
        },
        call_ensures(Reactor::leave_context, (reactor, tracking, guard), ()) ==> {
            &&& has_ended(old(reactor)@, final(reactor)@)
            &&& final(reactor)@.observers == old(reactor)@.observers
            &&& final(reactor)@.events == old(reactor)@.events
            &&& final(reactor)@.jobs == old(reactor)@.jobs
            &&& *final(tracking) == guard.previous
        },
{
    let before = old(reactor)@;
    if call_ensures(Reactor::run_in_context, (reactor, tracking, observer), guard) {
        let lost = choose|lost: Seq<u64>|
            crate::model::lists(lost, crate::model::abandoned(before.graph, observer.0))
                && final(reactor)@ == #[trigger] before.started(observer.0, lost);
        crate::reactor::forgetting_keeps_the_rest(before, observer.0, lost);
    }
}

/// A computation starts: its node counts as up to date from here on, and it starts without
/// dependencies. That is reported with the dependencies it had, and counted as one computation.
pub proof fn computations_start_afresh(
    reactor: &mut Reactor,
    tracking: &mut Tracking,
    node: NodeId,
    guard: ContextGuard,
)
    requires
        call_ensures(Reactor::start_recompute, (reactor, tracking, node), guard),
        old(reactor)@.observers.contains_key(node.0),
        crate::reports::inputs_of(old(reactor)@, node.0).len() <= u32::MAX,
    ensures
        starts_afresh(old(reactor)@, node.0, final(reactor)@, *final(tracking)),
        guard.previous == *old(tracking),
        ({
            let before = old(reactor)@;
            let after = final(reactor)@;
            let totals = crate::reports::tally(before.ledger);
            let inputs = crate::reports::inputs_of(before, node.0).len();
            &&& after.observers[node.0].state is Clean
            &&& forall|other: u64| #[trigger]
                before.observers.contains_key(other) && other != node.0 ==> after.observers[other]
                    == before.observers[other]
            &&& crate::reports::reports(
                before,
                after,
                crate::reports::if_live(
                    before,
                    node.0,
                    DiagnosticEvent::ComputedRecomputeStarted {
                        reactor: before.id,
                        node,
                        kind: before.graph.nodes[node.0].kind,
                        node_origin: before.graph.nodes[node.0].origin,
                        flush_epoch: before.flush_epoch,
                        dependencies_before: inputs as usize,
                    },
                ),
                FlushStats {
                    computed_recomputed: crate::reports::one_more(totals.computed_recomputed),
                    edges_removed: crate::reports::more_by(
                        totals.edges_removed,
                        inputs as int,
                    ) as u32,
                    ..totals
                },
            )
        }),
{
    let before = old(reactor)@;
    let lost = choose|lost: Seq<u64>|
        crate::model::lists(lost, crate::model::abandoned(before.graph, node.0)) && final(reactor)@
            == #[trigger] before.recompute_started(node.0, lost);
    assert(before.graph.inputs(node.0).dom() =~= crate::reports::inputs_of(before, node.0));
    let counted = before.recorded(crate::stats::FlushItem::ComputedRecomputed);
    let told = if before.graph.nodes.contains_key(node.0) {
        counted.emitted(
            DiagnosticEvent::ComputedRecomputeStarted {
                reactor: before.id,
                node,
                kind: before.graph.nodes[node.0].kind,
                node_origin: before.graph.nodes[node.0].origin,
                flush_epoch: before.flush_epoch,
                dependencies_before: before.graph.inputs(node.0).dom().len() as usize,
            },
        )
    } else {
        counted
    };
    let cleaned = told.with_state(node.0, State::Clean);
    assert(final(reactor)@ == cleaned.started(node.0, lost));
    crate::reports::forgetting_counts_edges(cleaned, node.0, lost);
    crate::reactor::forgetting_keeps_the_rest(cleaned, node.0, lost);
    assert(crate::reports::inputs_of(cleaned, node.0) =~= crate::reports::inputs_of(
        before,
        node.0,
    ));
}

/// The end of a computation was reported.
pub open spec fn reports_the_end(
    before: ReactorModel,
    node: u64,
    changed: bool,
    outcome: ComputeOutcome,
    totals: FlushStats,
    after: ReactorModel,
) -> bool {
    crate::reports::reports(
        before,
        after,
        crate::reports::if_live(
            before,
            node,
            DiagnosticEvent::ComputedRecomputeFinished {
                reactor: before.id,
                node: NodeId(node),
                kind: before.graph.nodes[node].kind,
                node_origin: before.graph.nodes[node].origin,
                flush_epoch: before.flush_epoch,
                dependencies_after: crate::reports::inputs_of(before, node).len() as usize,
                changed,
                outcome,
            },
        ),
        totals,
    )
}

/// A value was published: a changed one is the next version of its node, an unchanged one leaves the
/// graph as it was. Neither marks anyone: dependents compare versions when they are read. It is
/// counted and reported as what it is.
pub open spec fn publishes(
    before: ReactorModel,
    node: u64,
    changed: bool,
    after: ReactorModel,
) -> bool {
    let totals = crate::reports::tally(before.ledger);
    &&& after.graph.edges == before.graph.edges
    &&& after.graph.stack == before.graph.stack
    &&& after.graph.nodes.dom() =~= before.graph.nodes.dom()
    &&& forall|other: u64| #[trigger]
        before.graph.nodes.contains_key(other) ==> {
            let (was, now) = (before.graph.nodes[other], after.graph.nodes[other]);
            &&& now.kind == was.kind
            &&& now.origin == was.origin
            &&& if other == node && changed {
                now.version != was.version && now.version == if was.version == u64::MAX {
                    0
                } else {
                    was.version + 1
                }
            } else {
                now.version == was.version
            }
        }
    &&& after.observers == before.observers
    &&& after.jobs == before.jobs
    &&& after.ready == before.ready
    &&& after.wake == before.wake
    &&& reports_the_end(
        before,
        node,
        changed,
        ComputeOutcome::Completed,
        if changed {
            FlushStats {
                computed_changed: crate::reports::one_more(totals.computed_changed),
                ..totals
            }
        } else {
            FlushStats {
                computed_suppressed: crate::reports::one_more(totals.computed_suppressed),
                ..totals
            }
        },
        after,
    )
}

/// Publishing is publishing, whoever does it.
proof fn publishing_publishes(before: ReactorModel, node: u64, changed: bool)
    ensures
        publishes(before, node, changed, before.published(node, changed)),
{
    assert(before.graph.inputs(node).dom() =~= crate::reports::inputs_of(before, node));
    let bumped = before.graph.bumped(node);
    assert(bumped.inputs(node).dom() =~= crate::reports::inputs_of(before, node));
}

/// What the end of a computation comes to: its value is cached, and published as changed or not. A
/// thunk's is always a change. A memo's is one unless there was a value and the two compare equal.
pub proof fn results_are_versions<T: PartialEq, F: FnOnce(&T, &T) -> bool>(
    reactor: &mut Reactor,
    node: NodeId,
    thunk: &mut Thunk<T>,
    memo: &mut Memo<T>,
    next: T,
    equal: bool,
    equals: F,
    changed: bool,
)
    ensures
        call_ensures(Reactor::publish, (reactor, node, changed), ()) ==> publishes(
            old(reactor)@,
            node.0,
            changed,
            final(reactor)@,
        ),
        call_ensures(Thunk::<T>::finish, (thunk, reactor, next), ()) ==> {
            &&& publishes(old(reactor)@, old(thunk).node().0, true, final(reactor)@)
            &&& final(thunk).held() == Some(next)
            &&& final(thunk).node() == old(thunk).node()
        },
        call_ensures(Memo::<T>::finish_judged, (memo, reactor, next, equal), changed) ==> {
            &&& publishes(old(reactor)@, old(memo).node().0, changed, final(reactor)@)
            &&& final(memo).held() == Some(next)
            &&& final(memo).node() == old(memo).node()
            &&& !changed <==> old(memo).held() is Some && equal
        },
        call_ensures(Memo::<T>::finish_by::<F>, (memo, reactor, next, equals), changed) ==> {
            &&& publishes(old(reactor)@, old(memo).node().0, changed, final(reactor)@)
            &&& final(memo).held() == Some(next)
            &&& final(memo).node() == old(memo).node()
            &&& old(memo).held() is None ==> changed
            &&& old(memo).held() matches Some(current) ==> equals.ensures(
                (&current, &next),
                !changed,
            )
        },
        call_ensures(Memo::<T>::finish, (memo, reactor, next), changed) ==> {
            &&& publishes(old(reactor)@, old(memo).node().0, changed, final(reactor)@)
            &&& final(memo).held() == Some(next)
            &&& final(memo).node() == old(memo).node()
            &&& old(memo).held() is None ==> changed
            &&& old(memo).held() matches Some(current) ==> call_ensures(
                T::eq,
                (&current, &next),
                !changed,
            )
        },
{
    publishing_publishes(old(reactor)@, node.0, changed);
    publishing_publishes(old(reactor)@, old(thunk).node().0, true);
    publishing_publishes(old(reactor)@, old(memo).node().0, changed);
}

/// A computation that unwound is over, and its node is dirty: its next read computes again. Its
/// version is the one it had, and it is reported as unchanged and failed.
pub proof fn failures_leave_nodes_dirty(
    reactor: &mut Reactor,
    tracking: &mut Tracking,
    guard: ContextGuard,
    node: NodeId,
)
    requires
        call_ensures(Reactor::fail_recompute, (reactor, tracking, guard, node), ()),
        old(reactor)@.observers.contains_key(node.0),
    ensures
        has_ended(old(reactor)@, final(reactor)@),
        *final(tracking) == guard.previous,
        final(reactor)@.observers[node.0].state is Dirty,
        final(reactor)@.observers[node.0].registered == old(reactor)@.observers[node.0].registered,
        final(reactor)@.observers[node.0].effect == old(reactor)@.observers[node.0].effect,
        forall|other: u64| #[trigger]
            old(reactor)@.observers.contains_key(other) && other != node.0 ==> final(reactor)@.observers[other] == old(reactor)@.observers[other],
        reports_the_end(
            old(reactor)@,
            node.0,
            false,
            ComputeOutcome::Panicked,
            crate::reports::tally(old(reactor)@.ledger),
            final(reactor)@,
        ),
{
    let before = old(reactor)@;
    assert(before.ended().graph.inputs(node.0).dom() =~= crate::reports::inputs_of(before, node.0));
}

/// `list` holds every edge of `observer`, once, with the version that it saw.
pub open spec fn holds_the_edges(
    list: Seq<RecordedDependency>,
    model: ReactorModel,
    observer: u64,
) -> bool {
    &&& forall|at: int| #![trigger list[at]]
        0 <= at < list.len() ==> model.graph.edges.contains_key((observer, list[at].node.0))
            && model.graph.edges[(observer, list[at].node.0)] == list[at].version
    &&& forall|input: u64| #[trigger]
        model.graph.edges.contains_key((observer, input)) ==> exists|at: int|
            0 <= at < list.len() && #[trigger] list[at].node.0 == input
    &&& forall|one: int, other: int| #![trigger list[one], list[other]]
        0 <= one < other < list.len() ==> list[one].node != list[other].node
}

/// The version of a node, which is zero for one that is not live.
pub open spec fn version_of(model: ReactorModel, node: u64) -> u64 {
    if model.graph.nodes.contains_key(node) {
        model.graph.nodes[node].version
    } else {
        0
    }
}

/// That a check-marked node was verified is reported and counted.
pub open spec fn reports_the_verification(
    before: ReactorModel,
    node: u64,
    recomputed: bool,
    after: ReactorModel,
) -> bool {
    let totals = crate::reports::tally(before.ledger);
    crate::reports::reports(
        before,
        after,
        crate::reports::if_live(
            before,
            node,
            DiagnosticEvent::ComputedVerified {
                reactor: before.id,
                node: NodeId(node),
                kind: before.graph.nodes[node].kind,
                node_origin: before.graph.nodes[node].origin,
                flush_epoch: before.flush_epoch,
                recomputed,
            },
        ),
        FlushStats {
            computed_verified: crate::reports::one_more(totals.computed_verified),
            ..totals
        },
    )
}

/// What a refresh asks for. It asks to compute a node that is dirty, or one of whose recorded
/// dependencies has another version now; and it says of an effect that a dependency changed for the
/// same reason. It says that none did, or that a node is up to date after all, only when there is
/// none left to compare, and a node is up to date then. A node that was verified is reported, with
/// whether it has to be computed; nothing else is reported, and nothing else changes.
pub proof fn refreshes_compare_versions(refresh: &mut Refresh, reactor: &mut Reactor, step: RefreshStep)
    requires
        call_ensures(Refresh::step, (refresh, reactor), step),
        old(refresh)@.wf(),
    ensures
        ({
            let (before, after) = (old(reactor)@, final(reactor)@);
            let (frames, stage) = (old(refresh)@.frames, old(refresh)@.stage);
            let top = frames.last();
            match step {
                RefreshStep::Recompute(node) => {
                    if stage is Visit {
                        &&& stage == Stage::Visit(node)
                        &&& before.observers[node.0].state is Dirty
                        &&& before.observers[node.0].effect is None
                        &&& after == before
                    } else {
                        &&& stage is Settled
                        &&& node.0 == top.observer
                        &&& version_of(before, top.recorded[top.next as int].node.0)
                            != top.recorded[top.next as int].version
                        &&& reports_the_verification(before, node.0, true, after)
                        &&& after.observers == before.observers
                        &&& after.graph == before.graph
                    }
                },
                RefreshStep::Verified(changed) => {
                    &&& after == before
                    &&& old(refresh)@.for_effect && frames.len() == 1
                    &&& changed ==> stage is Settled && version_of(
                        before,
                        top.recorded[top.next as int].node.0,
                    ) != top.recorded[top.next as int].version
                    &&& !changed ==> stage is Scan && top.next == top.recorded.len()
                },
                RefreshStep::Done => {
                    &&& after == before
                    &&& frames.len() == 0
                    &&& stage is Settled
                },
                RefreshStep::Cycle(_) => {
                    &&& after == before
                    &&& final(refresh)@ == old(refresh)@
                    &&& stage is Scan ==> before.graph.stack.contains(
                        top.recorded[top.next as int].node.0,
                    )
                    &&& stage matches Stage::Visit(node) ==> exists|at: int|
                        0 <= at < frames.len() && #[trigger] frames[at].observer == node.0
                },
                RefreshStep::Continue => {
                    &&& stage is Scan && top.next == top.recorded.len() ==> {
                        &&& reports_the_verification(before, top.observer, false, after)
                        &&& before.observers.contains_key(top.observer)
                            ==> after.observers[top.observer].state is Clean
                        &&& after.graph == before.graph
                        &&& final(refresh)@.frames == frames.drop_last()
                        &&& final(refresh)@.stage is Settled
                    }
                    &&& stage is Scan && top.next < top.recorded.len() ==> {
                        &&& after == before
                        &&& final(refresh)@.frames == frames
                        &&& final(refresh)@.stage == Stage::Visit(
                            top.recorded[top.next as int].node,
                        )
                    }
                    &&& stage is Settled ==> {
                        &&& after == before
                        &&& frames.len() > 0
                        &&& version_of(before, top.recorded[top.next as int].node.0)
                            == top.recorded[top.next as int].version
                        &&& final(refresh)@.frames.last().next == top.next + 1
                        &&& final(refresh)@.frames.last().recorded == top.recorded
                        &&& final(refresh)@.frames.last().observer == top.observer
                        &&& final(refresh)@.frames.drop_last() == frames.drop_last()
                        &&& final(refresh)@.stage is Scan
                    }
                    &&& stage matches Stage::Visit(node) ==> {
                        let known = before.observers.contains_key(node.0)
                            && before.observers[node.0].effect is None && (frames.len() == 0
                            || before.observers[node.0].registered);
                        &&& after == before
                        &&& known && before.observers[node.0].state is Check ==> {
                            &&& final(refresh)@.frames.drop_last() == frames
                            &&& final(refresh)@.frames.last().observer == node.0
                            &&& final(refresh)@.frames.last().next == 0
                            &&& holds_the_edges(
                                final(refresh)@.frames.last().recorded,
                                before,
                                node.0,
                            )
                            &&& final(refresh)@.stage is Scan
                        }
                        &&& !known || !(before.observers[node.0].state is Check) ==> {
                            &&& known ==> before.observers[node.0].state is Clean
                            &&& final(refresh)@.frames == frames
                            &&& final(refresh)@.stage is Settled
                        }
                    }
                },
            }
        }),
{
    let (before, after) = (old(reactor)@, final(reactor)@);
    let was = old(refresh)@;
    if was.stage is Scan {
        assert(was.frames[was.frames.len() - 1].wf());
    }
    if let Stage::Visit(node) = was.stage {
        if step is Continue && was.concerns(before, node.0) && before.observers[node.0].state
            is Check {
            let list = choose|list: Seq<RecordedDependency>|
                crate::graph::lists_inputs(list, before.graph.inputs(node.0)) && final(refresh)@
                    == #[trigger] was.pushed(node.0, list);
            assert(final(refresh)@.frames.drop_last() =~= was.frames);
            listed_inputs_are_edges(list, before, node.0);
        }
    }
    if was.stage is Settled && step is Continue {
        assert(was.passed().frames.drop_last() =~= was.frames.drop_last());
    }
}

/// A list of an observer's inputs holds its edges.
proof fn listed_inputs_are_edges(
    list: Seq<RecordedDependency>,
    model: ReactorModel,
    observer: u64,
)
    requires
        crate::graph::lists_inputs(list, model.graph.inputs(observer)),
    ensures
        holds_the_edges(list, model, observer),
{
    let inputs = model.graph.inputs(observer);
    assert forall|input: u64| #[trigger] model.graph.edges.contains_key(
        (observer, input),
    ) implies exists|at: int| 0 <= at < list.len() && #[trigger] list[at].node.0 == input by {
        assert(inputs.contains_key(input));
    }
}

} // verus!
