//! What subscribers are told, and what the totals of a flush come to.
//!
//! Each piece of work is reported once, by the event that names it, and counted once, in the total
//! that is named after it; nothing else is reported or counted. Without a subscriber nothing is.
use vstd::prelude::*;

use crate::diagnostics::{ComputeOutcome, DiagnosticEvent, InvalidationCause, InvalidationLevel, NodeKind};
use crate::effect::{RunStep, RunTicket};
use crate::id::{Location, NodeId};
use crate::model::ReactorModel;
use crate::observers::{Delivery, EffectRecord, Mark, State};
use crate::reactor::{ContextGuard, DrainGuard, FlushGuard, Reactor};
use crate::signal::Signal;
use crate::stats::{FlushAccounting, FlushItem, FlushLedger, FlushStats};
use crate::tracking::Tracking;

verus! {

/// The totals that work is counted in: those of the flush opened last, or those that the next one
/// starts with.
pub open spec fn tally(ledger: FlushLedger) -> FlushStats {
    if ledger.open.len() > 0 {
        ledger.open[ledger.open.len() - 1]
    } else {
        ledger.pending
    }
}

/// Only the totals that work is counted in changed, and are `totals` now.
pub open spec fn counts_as(before: FlushLedger, after: FlushLedger, totals: FlushStats) -> bool {
    &&& tally(after) == totals
    &&& after.open.len() == before.open.len()
    &&& forall|at: int| #![trigger after.open[at]]
        0 <= at < before.open.len() - 1 ==> after.open[at] == before.open[at]
    &&& before.open.len() > 0 ==> after.pending == before.pending
}

/// Someone listens.
pub open spec fn heard(model: ReactorModel) -> bool {
    model.subscribers.len() > 0
}

/// While someone listens, `news` was reported and the totals became `totals`; else neither events
/// nor totals changed.
pub open spec fn reports(
    before: ReactorModel,
    after: ReactorModel,
    news: Seq<DiagnosticEvent>,
    totals: FlushStats,
) -> bool {
    &&& after.subscribers == before.subscribers
    &&& if heard(before) {
        &&& after.events =~= before.events + news
        &&& counts_as(before.ledger, after.ledger, totals)
    } else {
        &&& after.events == before.events
        &&& after.ledger == before.ledger
    }
}

/// One more, unless the count is full.
pub open spec fn one_more(count: u32) -> u32 {
    if count == u32::MAX {
        count
    } else {
        (count + 1) as u32
    }
}

/// An event, if the node that it speaks of is live.
pub open spec fn if_live(model: ReactorModel, node: u64, event: DiagnosticEvent) -> Seq<
    DiagnosticEvent,
> {
    if model.graph.nodes.contains_key(node) {
        seq![event]
    } else {
        Seq::empty()
    }
}

/// What opening a run reports.
pub open spec fn run_started(model: ReactorModel, node: u64) -> Seq<DiagnosticEvent> {
    if_live(
        model,
        node,
        DiagnosticEvent::EffectRunStarted {
            reactor: model.id,
            effect: NodeId(node),
            effect_origin: model.graph.nodes[node].origin,
            flush_epoch: model.flush_epoch,
        },
    )
}

/// What letting an effect off reports.
pub open spec fn run_skipped(model: ReactorModel, node: u64) -> Seq<DiagnosticEvent> {
    seq![
        DiagnosticEvent::EffectRunSkipped {
            reactor: model.id,
            effect: NodeId(node),
            flush_epoch: model.flush_epoch,
        },
    ]
}

/// What asking an effect for a run reports.
pub open spec fn run_asked(model: ReactorModel, node: u64, queued: bool) -> Seq<DiagnosticEvent> {
    if_live(
        model,
        node,
        DiagnosticEvent::EffectScheduled {
            reactor: model.id,
            effect: NodeId(node),
            effect_origin: model.graph.nodes[node].origin,
            queued,
            flush_epoch: model.flush_epoch,
        },
    )
}

/// An effect that is let off in its turn is counted as skipped and not as run; one that runs is
/// counted as run and not as skipped. Nothing else is counted or reported for a turn.
pub proof fn turns_are_counted(
    reactor: &mut Reactor,
    node: NodeId,
    effect: EffectRecord,
    changed: bool,
    step: RunStep,
)
    requires
        crate::drains::has_record(old(reactor)@, node.0, effect),
    ensures
        call_ensures(Reactor::start_run, (reactor, node), step) ==> {
            let before = old(reactor)@;
            let after = final(reactor)@;
            let totals = tally(before.ledger);
            if step is Teardown {
                reports(
                    before,
                    after,
                    run_started(before, node.0),
                    FlushStats { effects_run: one_more(totals.effects_run), ..totals },
                )
            } else if !effect.disposed && !effect.running && !before.graph.stack.contains(node.0)
                && before.observers[node.0].state is Clean {
                reports(
                    before,
                    after,
                    run_skipped(before, node.0),
                    FlushStats { effects_skipped: one_more(totals.effects_skipped), ..totals },
                )
            } else {
                reports(before, after, Seq::empty(), totals)
            }
        },
        call_ensures(Reactor::resume_run, (reactor, node, changed), step) ==> {
            let before = old(reactor)@;
            let after = final(reactor)@;
            let totals = tally(before.ledger);
            if step is Teardown {
                reports(
                    before,
                    after,
                    run_started(before, node.0),
                    FlushStats { effects_run: one_more(totals.effects_run), ..totals },
                )
            } else if !effect.disposed && !changed {
                reports(
                    before,
                    after,
                    run_skipped(before, node.0),
                    FlushStats { effects_skipped: one_more(totals.effects_skipped), ..totals },
                )
            } else {
                reports(before, after, Seq::empty(), totals)
            }
        },
{
    assert(old(reactor)@.is_effect(node.0));
}

/// A request for a run is counted and reported as queued where it left a run pending, and as
/// absorbed where the effect had one already.
pub proof fn requests_are_counted(reactor: &mut Reactor, node: NodeId, effect: EffectRecord)
    requires
        call_ensures(Reactor::fail_verification, (reactor, node), ()),
        crate::drains::has_record(old(reactor)@, node.0, effect),
        !effect.disposed,
    ensures
        ({
            let before = old(reactor)@;
            let totals = tally(before.ledger);
            reports(
                before,
                final(reactor)@,
                run_asked(before, node.0, !effect.scheduled),
                if effect.scheduled {
                    FlushStats { effects_coalesced: one_more(totals.effects_coalesced), ..totals }
                } else {
                    FlushStats { effects_queued: one_more(totals.effects_queued), ..totals }
                },
            )
        }),
{
    assert(old(reactor)@.is_effect(node.0));
}

/// The end of a run is reported once, if its start was, under the number that its start had; the
/// end itself counts as nothing.
pub proof fn run_ends_are_reported(
    reactor: &mut Reactor,
    tracking: &mut Tracking,
    guard: ContextGuard,
    ticket: RunTicket,
    effect: EffectRecord,
)
    requires
        crate::drains::has_record(old(reactor)@, ticket.effect.0, effect),
    ensures
        ({
            let before = old(reactor)@;
            let after = final(reactor)@;
            let totals = tally(before.ledger);
            let over = run_over(before, ticket);
            &&& call_ensures(Reactor::abort_run, (reactor, tracking, guard, ticket), ())
                || call_ensures(Reactor::abandon_run, (reactor, ticket), ()) ==> reports(
                before,
                after,
                over,
                totals,
            )
            &&& call_ensures(Reactor::finish_run, (reactor, tracking, guard, ticket), ()) ==> {
                if effect.rerun_after_current && !effect.disposed {
                    reports(
                        before,
                        after,
                        run_asked(before, ticket.effect.0, !effect.scheduled) + over,
                        if effect.scheduled {
                            FlushStats {
                                effects_coalesced: one_more(totals.effects_coalesced),
                                ..totals
                            }
                        } else {
                            FlushStats {
                                effects_queued: one_more(totals.effects_queued),
                                ..totals
                            }
                        },
                    )
                } else {
                    reports(before, after, over, totals)
                }
            }
        }),
{
    let before = old(reactor)@;
    assert(before.is_effect(ticket.effect.0));
    let over = run_over(before, ticket);
    let asked = run_asked(before, ticket.effect.0, !effect.scheduled);
    assert(before.events + (asked + over) =~= (before.events + asked) + over);
}

/// What the end of a run reports.
pub open spec fn run_over(model: ReactorModel, ticket: RunTicket) -> Seq<DiagnosticEvent> {
    if ticket.reported {
        seq![
            DiagnosticEvent::EffectRunFinished {
                reactor: model.id,
                effect: ticket.effect,
                flush_epoch: ticket.flush_epoch,
            },
        ]
    } else {
        Seq::empty()
    }
}

/// The disposal of an effect is counted and reported once.
pub proof fn retirements_are_counted(
    reactor: &mut Reactor,
    node: NodeId,
    effect: EffectRecord,
    first: bool,
)
    requires
        call_ensures(Reactor::retire_effect, (reactor, node), first),
        crate::drains::has_record(old(reactor)@, node.0, effect),
        !effect.disposed,
    ensures
        ({
            let before = old(reactor)@;
            let totals = tally(before.ledger);
            reports(
                before,
                final(reactor)@,
                seq![
                    DiagnosticEvent::EffectDisposed { reactor: before.id, effect: node },
                ],
                FlushStats { effects_disposed: one_more(totals.effects_disposed), ..totals },
            )
        }),
{
    assert(old(reactor)@.is_effect(node.0));
}

/// A flush is reported when it opens, with its number and the jobs that wait. It starts with what
/// was counted since the last one, if none is open, and the count starts anew.
pub proof fn openings_are_reported(
    reactor: &mut Reactor,
    flush: FlushGuard,
    drain: Option<DrainGuard>,
)
    ensures
        (call_ensures(Reactor::external_flush, (reactor,), flush) && old(reactor)@.flush_depth == 0)
            || (call_ensures(Reactor::flush_now, (reactor,), drain) && drain is Some) ==> {
            let before = old(reactor)@;
            let after = final(reactor)@;
            if heard(before) {
                &&& after.events == before.events.push(
                    DiagnosticEvent::FlushStarted {
                        reactor: before.id,
                        flush_epoch: after.flush_epoch,
                        pending_jobs: before.jobs.len() as usize,
                    },
                )
                &&& after.ledger.open.len() == before.ledger.open.len() + 1
                &&& forall|at: int| #![trigger after.ledger.open[at]]
                    0 <= at < before.ledger.open.len() ==> after.ledger.open[at]
                        == before.ledger.open[at]
                &&& before.jobs.len() <= u32::MAX ==> tally(after.ledger) == (FlushStats {
                    jobs_at_start: before.jobs.len() as u32,
                    ..before.ledger.pending
                })
                &&& nothing_counted(after.ledger.pending)
            } else {
                &&& after.events == before.events
                &&& after.ledger == before.ledger
            }
        },
        call_ensures(Reactor::external_flush, (reactor,), flush) && old(reactor)@.flush_depth > 0
            ==> reports(
            old(reactor)@,
            final(reactor)@,
            Seq::empty(),
            tally(old(reactor)@.ledger),
        ),
{
}

/// Totals in which nothing is counted.
pub open spec fn nothing_counted(totals: FlushStats) -> bool {
    &&& totals.root_writes == 0
    &&& totals.writes_suppressed == 0
    &&& totals.nodes_marked_check == 0
    &&& totals.nodes_marked_dirty == 0
    &&& totals.max_propagation_depth == 0
    &&& totals.effects_queued == 0
    &&& totals.effects_coalesced == 0
    &&& totals.effects_run == 0
    &&& totals.effects_skipped == 0
    &&& totals.effects_disposed == 0
    &&& totals.effects_pending == 0
    &&& totals.computed_verified == 0
    &&& totals.computed_recomputed == 0
    &&& totals.computed_changed == 0
    &&& totals.computed_suppressed == 0
    &&& totals.edges_added == 0
    &&& totals.edges_removed == 0
    &&& totals.jobs_at_start == 0
    &&& totals.jobs_at_finish == 0
}

/// A flush is reported when it closes, with everything that was counted for it, the jobs that are
/// left and the effects that have a run pending; the flush around it goes on counting where it
/// stood. A consumer's flush inside another closes without a word.
pub proof fn closings_are_reported(reactor: &mut Reactor, flush: FlushGuard, drain: DrainGuard)
    ensures
        call_ensures(Reactor::finish_flush, (reactor, drain), ()) ==> is_reported_closing(
            old(reactor)@,
            final(reactor)@,
            drain.epoch,
        ),
        call_ensures(Reactor::finish_external_flush, (reactor, flush), ()) ==> {
            if old(reactor)@.flush_depth > 1 {
                reports(
                    old(reactor)@,
                    final(reactor)@,
                    Seq::empty(),
                    tally(old(reactor)@.ledger),
                )
            } else {
                is_reported_closing(
                    old(reactor)@,
                    final(reactor)@,
                    old(reactor)@.open_flush_epoch,
                )
            }
        },
{
}

/// The innermost flush that is accounted for was closed and reported under the number `epoch`.
pub open spec fn is_reported_closing(
    before: ReactorModel,
    after: ReactorModel,
    epoch: u64,
) -> bool {
    if heard(before) && before.ledger.open.len() > 0 {
        &&& after.events.len() == before.events.len() + 1
        &&& forall|at: int| #![trigger after.events[at]]
            0 <= at < before.events.len() ==> after.events[at] == before.events[at]
        &&& after.events.last() matches DiagnosticEvent::FlushFinished {
            reactor,
            flush_epoch,
            remaining_jobs,
            stats,
        }
        &&& reactor == before.id
        &&& flush_epoch == epoch
        &&& remaining_jobs == before.jobs.len() as usize
        &&& stats == (FlushStats {
            jobs_at_finish: stats.jobs_at_finish,
            effects_pending: stats.effects_pending,
            ..tally(before.ledger)
        })
        &&& (before.jobs.len() as usize) <= u32::MAX ==> stats.jobs_at_finish
            == before.jobs.len() as usize
        &&& before.counts.queued_effects <= u32::MAX ==> stats.effects_pending
            == before.counts.queued_effects
        &&& after.ledger.pending == before.ledger.pending
        &&& after.ledger.open.len() == before.ledger.open.len() - 1
        &&& forall|at: int| #![trigger after.ledger.open[at]]
            0 <= at < after.ledger.open.len() ==> after.ledger.open[at] == before.ledger.open[at]
    } else {
        &&& after.events == before.events
        &&& after.ledger == before.ledger
    }
}

/// The end of the last subscription drops what was counted; any other changes nothing but who is
/// told. Taking the events takes each of them once.
pub proof fn subscriptions_start_and_stop_the_account(
    reactor: &mut Reactor,
    subscription: crate::diagnostics::DiagnosticSubscription,
    events: Vec<DiagnosticEvent>,
)
    ensures
        call_ensures(Reactor::subscribe_diagnostics, (reactor,), subscription) ==> {
            let before = old(reactor)@;
            let after = final(reactor)@;
            &&& after.subscribers.len() == before.subscribers.len() + 1
            &&& heard(after)
            &&& after.subscribers.drop_last() == before.subscribers
            &&& after.events == before.events
            &&& after.ledger == before.ledger
            &&& after.graph == before.graph
            &&& after.observers == before.observers
        },
        call_ensures(Reactor::unsubscribe_diagnostics, (reactor, subscription), ()) ==> {
            let before = old(reactor)@;
            let after = final(reactor)@;
            &&& after.events == before.events
            &&& after.graph == before.graph
            &&& after.observers == before.observers
            &&& heard(after) ==> after.ledger == before.ledger
            &&& !heard(after) ==> {
                &&& after.ledger.open.len() == 0
                &&& nothing_counted(after.ledger.pending)
            }
        },
        call_ensures(Reactor::take_events, (reactor,), events) ==> {
            let before = old(reactor)@;
            let after = final(reactor)@;
            &&& events@ == before.events
            &&& after == (ReactorModel { events: Seq::empty(), ..before })
        },
{
    let before = old(reactor)@;
    assert(before.subscribers.push(before.next_diagnostic).drop_last() =~= before.subscribers);
}

/// A node is reported when it is created, with its kind and its site.
pub proof fn creations_are_reported(
    reactor: &mut Reactor,
    kind: NodeKind,
    origin: Location,
    node: NodeId,
)
    requires
        call_ensures(Reactor::allocate_node, (reactor, kind, origin), node),
    ensures
        reports(
            old(reactor)@,
            final(reactor)@,
            seq![
                DiagnosticEvent::NodeCreated { reactor: old(reactor)@.id, node, kind, origin },
            ],
            tally(old(reactor)@.ledger),
        ),
{
}

/// Telling nodes that nobody observes them any more neither reports nor counts.
pub proof fn noting_says_nothing(model: ReactorModel, nodes: Seq<u64>)
    ensures
        ({
            let after = model.noted_abandoned(nodes);
            &&& after.events == model.events
            &&& after.ledger == model.ledger
            &&& after.subscribers == model.subscribers
            &&& after.id == model.id
            &&& after.graph == model.graph
            &&& after.observers == model.observers
            &&& after.ready == model.ready
            &&& after.flush_epoch == model.flush_epoch
            &&& after.drain_epoch == model.drain_epoch
            &&& after.flush_depth == model.flush_depth
            &&& after.counts == (crate::stats::Counts {
                peak_pending_jobs: after.counts.peak_pending_jobs,
                ..model.counts
            })
        }),
    decreases nodes.len(),
{
    if nodes.len() > 0 {
        noting_says_nothing(model, nodes.drop_last());
    }
}

/// What `observer` read and has an edge on.
pub open spec fn inputs_of(model: ReactorModel, observer: u64) -> Set<u64> {
    Set::new(|input: u64| model.graph.edges.contains_key((observer, input)))
}

/// Who read `node` and has an edge on it.
pub open spec fn readers_of(model: ReactorModel, node: u64) -> Set<u64> {
    Set::new(|reader: u64| model.graph.edges.contains_key((reader, node)))
}

/// So many more, unless the count becomes full.
pub open spec fn more_by(count: u32, more: int) -> int {
    if count + more > u32::MAX {
        u32::MAX as int
    } else {
        count + more
    }
}

/// What dropping an observer's edges counts.
pub proof fn forgetting_counts_edges(model: ReactorModel, observer: u64, lost: Seq<u64>)
    ensures
        ({
            let after = model.forgotten(observer, lost);
            let totals = tally(model.ledger);
            let count = inputs_of(model, observer).len() as usize;
            &&& count <= u32::MAX ==> reports(
                model,
                after,
                Seq::empty(),
                FlushStats {
                    edges_removed: more_by(totals.edges_removed, count as int) as u32,
                    ..totals
                },
            )
            &&& after.id == model.id
            &&& after.graph == model.graph.forgetting(observer)
            &&& after.observers == model.observers
            &&& after.subscribers == model.subscribers
            &&& after.flush_epoch == model.flush_epoch
        }),
{
    let count = model.graph.inputs(observer).dom().len() as usize;
    let cut = ReactorModel {
        graph: model.graph.forgetting(observer),
        counts: model.counts.edges_removed(count),
        ..model
    }.recorded(FlushItem::EdgesRemoved { count });
    noting_says_nothing(cut, lost);
    assert(model.graph.inputs(observer).dom() =~= inputs_of(model, observer));
}

/// A computation that starts anew lets its edges go, which are counted; nothing is reported.
pub proof fn fresh_scopes_count_edges(
    reactor: &mut Reactor,
    tracking: &mut Tracking,
    observer: NodeId,
    guard: ContextGuard,
)
    requires
        call_ensures(Reactor::run_in_context, (reactor, tracking, observer), guard),
        inputs_of(old(reactor)@, observer.0).len() <= u32::MAX,
    ensures
        ({
            let before = old(reactor)@;
            let totals = tally(before.ledger);
            reports(
                before,
                final(reactor)@,
                Seq::empty(),
                FlushStats {
                    edges_removed: more_by(
                        totals.edges_removed,
                        inputs_of(before, observer.0).len() as int,
                    ) as u32,
                    ..totals
                },
            )
        }),
{
    let before = old(reactor)@;
    let lost = choose|lost: Seq<u64>|
        crate::model::lists(lost, crate::model::abandoned(before.graph, observer.0))
            && final(reactor)@ == #[trigger] before.started(observer.0, lost);
    forgetting_counts_edges(before, observer.0, lost);
}

/// A tracked read counts an edge where the computation had none on the node, and nothing where it
/// had one; nothing is reported.
pub proof fn reads_count_new_edges(reactor: &mut Reactor, tracking: Tracking, node: NodeId)
    requires
        call_ensures(Reactor::observe, (reactor, &tracking, node), ()),
        !old(reactor)@.graph.stack.contains(node.0),
    ensures
        ({
            let before = old(reactor)@;
            let totals = tally(before.ledger);
            let running = before.graph.stack.len() > 0 && tracking.untracked_depth == 0;
            reports(
                before,
                final(reactor)@,
                Seq::empty(),
                if running && !before.graph.edges.contains_key((before.graph.stack.last(), node.0)) {
                    FlushStats { edges_added: one_more(totals.edges_added), ..totals }
                } else {
                    totals
                },
            )
        }),
{
}

/// A node that goes away is reported with its kind, its site and how many edges it had either way;
/// those edges are counted as removed. One that is gone already is not reported again.
pub proof fn disposals_are_reported(reactor: &mut Reactor, node: NodeId)
    requires
        call_ensures(Reactor::dispose, (reactor, node), ()),
        inputs_of(old(reactor)@, node.0).len() <= u32::MAX,
        readers_of(old(reactor)@, node.0).len() <= u32::MAX,
        !old(reactor)@.graph.edges.contains_key((node.0, node.0)),
    ensures
        ({
            let before = old(reactor)@;
            let totals = tally(before.ledger);
            let inputs = inputs_of(before, node.0).len();
            let readers = readers_of(before, node.0).len();
            reports(
                before,
                final(reactor)@,
                if_live(
                    before,
                    node.0,
                    DiagnosticEvent::NodeDisposed {
                        reactor: before.id,
                        node,
                        kind: before.graph.nodes[node.0].kind,
                        origin: before.graph.nodes[node.0].origin,
                        dependencies: inputs as usize,
                        observers: readers as usize,
                    },
                ),
                FlushStats {
                    edges_removed: more_by(
                        totals.edges_removed,
                        (inputs + readers) as int,
                    ) as u32,
                    ..totals
                },
            )
        }),
{
    let before = old(reactor)@;
    let lost = choose|lost: Seq<u64>|
        crate::model::lists(lost, crate::model::abandoned(before.graph, node.0))
            && final(reactor)@ == #[trigger] before.disposed(node.0, lost);
    forgetting_counts_edges(before, node.0, lost);
    let forgotten = before.forgotten(node.0, lost);
    assert(forgotten.graph.observers(node.0) =~= readers_of(before, node.0));
    assert(before.graph.inputs(node.0).dom() =~= inputs_of(before, node.0));
    assert(before.graph.observers(node.0) =~= readers_of(before, node.0));
}

/// A write that the signal's own comparison discards is counted and reported as such, and as
/// nothing else.
pub proof fn suppressed_writes_are_reported<T: PartialEq>(
    signal: &mut Signal<T>,
    reactor: &mut Reactor,
    value: T,
    equal: bool,
    write_origin: Location,
    previous: Option<T>,
)
    requires
        call_ensures(
            Signal::<T>::set_judged,
            (signal, reactor, value, equal, write_origin),
            previous,
        ) || call_ensures(Signal::<T>::set, (signal, reactor, value, write_origin), previous),
        previous is None,
    ensures
        is_reported_suppression(
            old(reactor)@,
            final(reactor)@,
            old(signal).node().0,
            write_origin,
        ),
{
}

/// A write to `node` was discarded by a comparison.
pub open spec fn is_reported_suppression(
    before: ReactorModel,
    after: ReactorModel,
    node: u64,
    write_origin: Location,
) -> bool {
    let totals = tally(before.ledger);
    reports(
        before,
        after,
        if_live(
            before,
            node,
            DiagnosticEvent::WriteSuppressed {
                reactor: before.id,
                node: NodeId(node),
                kind: NodeKind::Signal,
                node_origin: before.graph.nodes[node].origin,
                write_origin,
            },
        ),
        FlushStats { writes_suppressed: one_more(totals.writes_suppressed), ..totals },
    )
}

/// Counting a piece of work raises the total that is named after it by one, or, of edges that were
/// removed at once, by as many, and leaves every other; a mark also raises the depth to its own.
/// Work is counted for the flush opened last, or for the next one to open.
pub proof fn work_is_counted_where_it_belongs(account: &mut FlushAccounting, item: FlushItem)
    requires
        call_ensures(FlushAccounting::record, (account, item), ()),
    ensures
        ({
            let totals = tally(old(account)@);
            let after = tally(final(account)@);
            &&& counts_as(old(account)@, final(account)@, after)
            &&& match item {
                FlushItem::RootWrite => after == (FlushStats {
                    root_writes: one_more(totals.root_writes),
                    ..totals
                }),
                FlushItem::WriteSuppressed => after == (FlushStats {
                    writes_suppressed: one_more(totals.writes_suppressed),
                    ..totals
                }),
                FlushItem::Marked { mark, depth } => {
                    let deepest = after.max_propagation_depth;
                    &&& deepest >= depth
                    &&& deepest >= totals.max_propagation_depth
                    &&& deepest == depth || deepest == totals.max_propagation_depth
                    &&& mark is Dirty ==> after == (FlushStats {
                        nodes_marked_dirty: one_more(totals.nodes_marked_dirty),
                        max_propagation_depth: deepest,
                        ..totals
                    })
                    &&& mark is Check ==> after == (FlushStats {
                        nodes_marked_check: one_more(totals.nodes_marked_check),
                        max_propagation_depth: deepest,
                        ..totals
                    })
                },
                FlushItem::EffectQueued => after == (FlushStats {
                    effects_queued: one_more(totals.effects_queued),
                    ..totals
                }),
                FlushItem::EffectCoalesced => after == (FlushStats {
                    effects_coalesced: one_more(totals.effects_coalesced),
                    ..totals
                }),
                FlushItem::EffectRun => after == (FlushStats {
                    effects_run: one_more(totals.effects_run),
                    ..totals
                }),
                FlushItem::EffectSkipped => after == (FlushStats {
                    effects_skipped: one_more(totals.effects_skipped),
                    ..totals
                }),
                FlushItem::EffectDisposed => after == (FlushStats {
                    effects_disposed: one_more(totals.effects_disposed),
                    ..totals
                }),
                FlushItem::ComputedVerified => after == (FlushStats {
                    computed_verified: one_more(totals.computed_verified),
                    ..totals
                }),
                FlushItem::ComputedRecomputed => after == (FlushStats {
                    computed_recomputed: one_more(totals.computed_recomputed),
                    ..totals
                }),
                FlushItem::ComputedChanged => after == (FlushStats {
                    computed_changed: one_more(totals.computed_changed),
                    ..totals
                }),
                FlushItem::ComputedSuppressed => after == (FlushStats {
                    computed_suppressed: one_more(totals.computed_suppressed),
                    ..totals
                }),
                FlushItem::EdgeAdded => after == (FlushStats {
                    edges_added: one_more(totals.edges_added),
                    ..totals
                }),
                FlushItem::EdgesRemoved { count } => {
                    &&& after == (FlushStats { edges_removed: after.edges_removed, ..totals })
                    &&& count <= u32::MAX ==> after.edges_removed == more_by(
                        totals.edges_removed,
                        count as int,
                    )
                },
            }
        }),
{
}

/// What was counted outside any flush is reported by the first flush that opens after it, once:
/// whatever is counted between the opening and the closing of a flush is in its totals, on top of
/// that, and a flush that opens next starts from nothing.
pub proof fn each_flush_reports_its_own_work(
    account: &mut FlushAccounting,
    jobs: usize,
    pending: usize,
    stats: Option<FlushStats>,
)
    ensures
        call_ensures(FlushAccounting::open_flush, (account, jobs), ()) ==> {
            let before = old(account)@;
            let after = final(account)@;
            &&& after.open.len() == before.open.len() + 1
            &&& after.open.drop_last() == before.open
            &&& tally(after) == (FlushStats {
                jobs_at_start: tally(after).jobs_at_start,
                ..before.pending
            })
            &&& jobs <= u32::MAX ==> tally(after).jobs_at_start == jobs
            &&& jobs > u32::MAX ==> tally(after).jobs_at_start == u32::MAX
            &&& nothing_counted(after.pending)
        },
        call_ensures(FlushAccounting::close_flush, (account, jobs, pending), stats) ==> {
            let before = old(account)@;
            let after = final(account)@;
            &&& after.pending == before.pending
            &&& stats is Some == (before.open.len() > 0)
            &&& stats matches Some(stats) ==> {
                &&& after.open == before.open.drop_last()
                &&& stats == (FlushStats {
                    jobs_at_finish: stats.jobs_at_finish,
                    effects_pending: stats.effects_pending,
                    ..tally(before)
                })
                &&& jobs <= u32::MAX ==> stats.jobs_at_finish == jobs
                &&& jobs > u32::MAX ==> stats.jobs_at_finish == u32::MAX
                &&& pending <= u32::MAX ==> stats.effects_pending == pending
                &&& pending > u32::MAX ==> stats.effects_pending == u32::MAX
            }
            &&& stats is None ==> after == before
        },
        call_ensures(FlushAccounting::reset, (account,), ()) ==> {
            &&& final(account)@.open.len() == 0
            &&& nothing_counted(final(account)@.pending)
        },
        forall|fresh: FlushAccounting| #[trigger]
            call_ensures(FlushAccounting::new, (), fresh) ==> fresh@.open.len() == 0
                && nothing_counted(fresh@.pending),
{
    assert(old(account)@.open.push(tally(final(account)@)).drop_last() =~= old(account)@.open);
}

/// Totals are empty exactly where no work is counted in them.
pub proof fn empty_totals_count_no_work(stats: FlushStats, empty: bool, fresh: FlushStats)
    ensures
        call_ensures(FlushStats::is_empty, (&stats,), empty) ==> {
            &&& nothing_counted(stats) ==> empty
            &&& empty ==> nothing_counted(
                FlushStats {
                    max_propagation_depth: 0,
                    computed_changed: 0,
                    computed_suppressed: 0,
                    effects_pending: 0,
                    jobs_at_start: 0,
                    jobs_at_finish: 0,
                    ..stats
                },
            )
            &&& !empty ==> !nothing_counted(
                FlushStats {
                    max_propagation_depth: 0,
                    computed_changed: 0,
                    computed_suppressed: 0,
                    effects_pending: 0,
                    jobs_at_start: 0,
                    jobs_at_finish: 0,
                    ..stats
                },
            )
        },
        call_ensures(<FlushStats as Default>::default, (), fresh) ==> nothing_counted(fresh),
{
}

} // verus!
