//! When effects run: what each turn of an effect, and each flush around it, comes to.
//!
//! An effect that is dirty runs when its turn comes. The guard against divergence only stops an
//! effect that ran too often in one logical drain, and every outermost flush is a new drain.
use vstd::prelude::*;

use crate::effect::{EffectHandle, EffectRun, RunBoundary, RunStep, RunTicket, MAX_RUNS_PER_FLUSH};
use crate::id::{Location, NodeId};
use crate::model::{Job, ReactorModel};
use crate::observers::{EffectRecord, State};
use crate::reactor::{ContextGuard, DrainGuard, FlushGuard, Reactor};
use crate::scope::{Owners, Teardown};
use crate::tracking::Tracking;

verus! {

/// `node` is an effect of which the reactor keeps this record.
pub open spec fn has_record(model: ReactorModel, node: u64, effect: EffectRecord) -> bool {
    model.observers.contains_key(node) && model.observers[node].effect == Some(effect)
}

/// How often the effect ran since the current drain began.
pub open spec fn runs_so_far(model: ReactorModel, effect: EffectRecord) -> int {
    if effect.last_drain_epoch == model.drain_epoch {
        effect.runs_this_drain as int
    } else {
        0
    }
}

/// Nothing changed but what concerns the observer `node`, what was reported, and the count of
/// pending runs.
pub open spec fn only_concerns(before: ReactorModel, node: u64, after: ReactorModel) -> bool {
    &&& after.id == before.id
    &&& after.graph == before.graph
    &&& after.observers.dom() == before.observers.dom()
    &&& forall|other: u64| #[trigger]
        before.observers.contains_key(other) && other != node ==> after.observers[other]
            == before.observers[other]
    &&& after.observers[node].registered == before.observers[node].registered
    &&& after.hooks == before.hooks
    &&& after.subscribers == before.subscribers
    &&& same_flush(before, after)
}

/// The same flush is open, in the same drain.
pub open spec fn same_flush(before: ReactorModel, after: ReactorModel) -> bool {
    &&& after.flush_epoch == before.flush_epoch
    &&& after.open_flush_epoch == before.open_flush_epoch
    &&& after.drain_epoch == before.drain_epoch
    &&& after.flush_depth == before.flush_depth
}

/// Nothing was queued, handed to a lane or asked of the host.
pub open spec fn asks_nothing(before: ReactorModel, after: ReactorModel) -> bool {
    &&& after.jobs == before.jobs
    &&& after.ready == before.ready
    &&& after.flush_scheduled == before.flush_scheduled
    &&& after.wake == before.wake
}

/// What opening a run comes to: the run is opened unless the effect ran as often as a drain allows.
/// Either way the run is counted, for the current drain.
pub open spec fn opens_unless_divergent(
    before: ReactorModel,
    node: u64,
    effect: EffectRecord,
    after: ReactorModel,
    step: RunStep,
) -> bool {
    let record = after.observers[node].effect->0;
    &&& record.last_drain_epoch == before.drain_epoch
    &&& runs_so_far(before, effect) < u32::MAX ==> record.runs_this_drain == runs_so_far(
        before,
        effect,
    ) + 1
    &&& if runs_so_far(before, effect) < MAX_RUNS_PER_FLUSH {
        &&& step matches RunStep::Teardown(ticket)
        &&& ticket.effect.0 == node
        &&& ticket.flush_epoch == before.flush_epoch
        &&& ticket.reported == (before.subscribers.len() > 0)
        &&& record.running
    } else {
        &&& step is Diverged
        &&& record.running == effect.running
    }
}

/// An effect's turn. Its pending run is used up. A disposed effect does nothing. One that is running
/// is not entered again but owes a run. Any other counts as up to date from then on: a dirty one
/// runs, which is never refused for the first run of a drain; a check-marked one is verified first;
/// and one that was up to date is let off. Nothing is refused as divergent but an effect that ran
/// the allowed number of times since the drain began.
pub proof fn turns_run_what_is_dirty(
    reactor: &mut Reactor,
    node: NodeId,
    effect: EffectRecord,
    step: RunStep,
)
    requires
        call_ensures(Reactor::start_run, (reactor, node), step),
        has_record(old(reactor)@, node.0, effect),
    ensures
        ({
            let before = old(reactor)@;
            let after = final(reactor)@;
            let record = after.observers[node.0].effect->0;
            &&& only_concerns(before, node.0, after)
            &&& asks_nothing(before, after)
            &&& has_record(after, node.0, record)
            &&& !record.scheduled
            &&& record.disposed == effect.disposed
            &&& record.external == effect.external
            &&& record.owner == effect.owner
            &&& if effect.disposed {
                &&& step is Done
                &&& record == (EffectRecord { scheduled: false, ..effect })
                &&& after.observers[node.0].state == before.observers[node.0].state
            } else if effect.running || before.graph.stack.contains(node.0) {
                &&& step is Done
                &&& record == (EffectRecord {
                    scheduled: false,
                    rerun_after_current: true,
                    ..effect
                })
                &&& after.observers[node.0].state == before.observers[node.0].state
            } else {
                &&& after.observers[node.0].state is Clean
                &&& match before.observers[node.0].state {
                    State::Dirty => opens_unless_divergent(before, node.0, effect, after, step),
                    State::Check => {
                        &&& step is Verify
                        &&& record == (EffectRecord { scheduled: false, ..effect })
                    },
                    State::Clean => {
                        &&& step is Done
                        &&& record == (EffectRecord { scheduled: false, ..effect })
                    },
                }
            }
        }),
        MAX_RUNS_PER_FLUSH == 100,
{
    let before = old(reactor)@;
    let after = final(reactor)@;
    assert(before.is_effect(node.0));
    assert(after.observers.dom() =~= before.observers.dom());
}

/// Opening a run concerns the effect alone.
proof fn openings_are_guarded(
    before: ReactorModel,
    node: u64,
    effect: EffectRecord,
    after: ReactorModel,
    step: RunStep,
)
    requires
        has_record(before, node, effect),
        (after, step) == before.run_opening(node),
    ensures
        only_concerns(before, node, after),
        asks_nothing(before, after),
        opens_unless_divergent(before, node, effect, after, step),
        after.observers[node].state == before.observers[node].state,
        after.observers[node].effect->0.disposed == effect.disposed,
        after.observers[node].effect->0.owner == effect.owner,
        after.observers[node].effect->0.scheduled == effect.scheduled,
{
    assert(after.observers.dom() =~= before.observers.dom());
}

/// The rest of a turn: where a dependency changed the effect runs, under the same guard; where none
/// did it is let off.
pub proof fn resumed_turns_run_what_changed(
    reactor: &mut Reactor,
    node: NodeId,
    effect: EffectRecord,
    changed: bool,
    step: RunStep,
)
    requires
        call_ensures(Reactor::resume_run, (reactor, node, changed), step),
        has_record(old(reactor)@, node.0, effect),
    ensures
        only_concerns(old(reactor)@, node.0, final(reactor)@),
        asks_nothing(old(reactor)@, final(reactor)@),
        ({
            let before = old(reactor)@;
            let after = final(reactor)@;
            &&& after.observers[node.0].state == before.observers[node.0].state
            &&& if effect.disposed {
                step is Done && after == before
            } else if changed {
                &&& opens_unless_divergent(before, node.0, effect, after, step)
                &&& after.observers[node.0].effect->0.disposed == effect.disposed
                &&& after.observers[node.0].effect->0.owner == effect.owner
                &&& after.observers[node.0].effect->0.scheduled == effect.scheduled
            } else {
                &&& step is Done
                &&& has_record(after, node.0, effect)
            }
        }),
{
    let before = old(reactor)@;
    let after = final(reactor)@;
    assert(before.is_effect(node.0));
    if effect.disposed {
        assert(after == before);
    } else if changed {
        openings_are_guarded(before, node.0, effect, after, step);
    } else {
        assert(after == before.run_skipped(node.0));
    }
}

/// An effect that was not known, or not as an effect, has no turn.
pub proof fn strangers_have_no_turn(
    reactor: &mut Reactor,
    node: NodeId,
    changed: bool,
    step: RunStep,
)
    requires
        call_ensures(Reactor::start_run, (reactor, node), step) || call_ensures(
            Reactor::resume_run,
            (reactor, node, changed),
            step,
        ),
        forall|effect: EffectRecord| !#[trigger] has_record(old(reactor)@, node.0, effect),
    ensures
        step is Done,
        final(reactor)@ == old(reactor)@,
{
    let before = old(reactor)@;
    if before.is_effect(node.0) {
        assert(has_record(before, node.0, before.observers[node.0].effect->0));
    }
}

/// After a verification that failed the effect is dirty and has a run pending: it is not stranded.
pub proof fn failed_turns_are_repeated(reactor: &mut Reactor, node: NodeId, effect: EffectRecord)
    requires
        call_ensures(Reactor::fail_verification, (reactor, node), ()),
        has_record(old(reactor)@, node.0, effect),
    ensures
        effect.disposed ==> final(reactor)@ == old(reactor)@,
        !effect.disposed ==> {
            let after = final(reactor)@;
            &&& after.observers[node.0].state is Dirty
            &&& has_record(after, node.0, EffectRecord { scheduled: true, ..effect })
            &&& !effect.scheduled && !effect.external ==> after.jobs == old(reactor)@.jobs.push(
                Job::Effect(node),
            )
            &&& !effect.scheduled && effect.external ==> after.ready == old(reactor)@.ready.push(
                node,
            )
            &&& after.graph == old(reactor)@.graph
        },
{
    let before = old(reactor)@;
    assert(before.is_effect(node.0));
}

/// The body of an effect is entered with the effect as the innermost computation, its reads tracked,
/// and without the dependencies of the run before; an effect that its own teardown disposed is not
/// entered, and its run is over.
pub proof fn bodies_start_afresh(
    reactor: &mut Reactor,
    tracking: &mut Tracking,
    ticket: RunTicket,
    teardown: Teardown,
    effect: EffectRecord,
    guard: Option<ContextGuard>,
)
    requires
        call_ensures(Reactor::enter_body, (reactor, tracking, ticket, teardown), guard),
        has_record(old(reactor)@, ticket.effect.0, effect),
    ensures
        ({
            let before = old(reactor)@;
            let after = final(reactor)@;
            let node = ticket.effect.0;
            if effect.disposed {
                &&& guard is None
                &&& has_record(after, node, EffectRecord { running: false, ..effect })
                &&& after.graph == before.graph
                &&& *final(tracking) == *old(tracking)
            } else {
                &&& guard matches Some(guard) && guard.previous == *old(tracking)
                &&& has_record(after, node, effect)
                &&& after.graph.stack == before.graph.stack.push(node)
                &&& after.graph.nodes == before.graph.nodes
                &&& forall|other: u64, input: u64| #[trigger]
                    after.graph.edges.contains_key((other, input)) <==> before.graph.edges.contains_key(
                        (other, input),
                    ) && other != node
                &&& final(tracking).untracked_depth == 0
                &&& final(tracking).running == Some(before.id)
            }
        }),
{
    let before = old(reactor)@;
    let after = final(reactor)@;
    let node = ticket.effect.0;
    assert(before.is_effect(node));
    if !effect.disposed {
        let lost = choose|lost: Seq<u64>|
            crate::model::lists(lost, crate::model::abandoned(before.graph, node)) && after
                == #[trigger] before.started(node, lost);
        crate::reactor::forgetting_keeps_the_rest(before, node, lost);
    }
}

/// A run ends: the computation that was innermost has ended, the tracking state from before is back,
/// and the effect is not running. If its body returned, a run that it owed is pending now; if its
/// body unwound, it still owes it.
pub proof fn runs_end(
    reactor: &mut Reactor,
    tracking: &mut Tracking,
    guard: ContextGuard,
    ticket: RunTicket,
    effect: EffectRecord,
)
    requires
        has_record(old(reactor)@, ticket.effect.0, effect),
    ensures
        call_ensures(Reactor::finish_run, (reactor, tracking, guard, ticket), ()) ==> {
            let before = old(reactor)@;
            let after = final(reactor)@;
            let owed = effect.rerun_after_current && !effect.disposed;
            &&& *final(tracking) == guard.previous
            &&& before.graph.stack.len() > 0 ==> after.graph.stack == before.graph.stack.drop_last()
            &&& after.graph.edges == before.graph.edges
            &&& has_record(
                after,
                ticket.effect.0,
                EffectRecord {
                    running: false,
                    rerun_after_current: false,
                    scheduled: effect.scheduled || owed,
                    ..effect
                },
            )
            &&& owed && !effect.scheduled && !effect.external ==> after.jobs == before.jobs.push(
                Job::Effect(ticket.effect),
            )
            &&& owed && !effect.scheduled && effect.external ==> after.ready == before.ready.push(
                ticket.effect,
            )
            &&& !owed || effect.scheduled ==> after.jobs == before.jobs && after.ready
                == before.ready
            &&& after.observers[ticket.effect.0].state == before.observers[ticket.effect.0].state
        },
        call_ensures(Reactor::abort_run, (reactor, tracking, guard, ticket), ()) ==> {
            let before = old(reactor)@;
            let after = final(reactor)@;
            &&& *final(tracking) == guard.previous
            &&& before.graph.stack.len() > 0 ==> after.graph.stack == before.graph.stack.drop_last()
            &&& after.graph.edges == before.graph.edges
            &&& has_record(after, ticket.effect.0, EffectRecord { running: false, ..effect })
            &&& after.jobs == before.jobs
            &&& after.observers[ticket.effect.0].state == before.observers[ticket.effect.0].state
        },
        call_ensures(Reactor::abandon_run, (reactor, ticket), ()) ==> {
            let before = old(reactor)@;
            let after = final(reactor)@;
            &&& after.graph == before.graph
            &&& has_record(after, ticket.effect.0, EffectRecord { running: false, ..effect })
            &&& after.jobs == before.jobs
            &&& after.observers[ticket.effect.0].state == before.observers[ticket.effect.0].state
        },
{
    assert(old(reactor)@.is_effect(ticket.effect.0));
}

/// Opening a flush. Outside any other it is a new flush in a new drain; a consumer's flush inside
/// another joins it, while the reactor's own is a new flush in the same drain. Nothing is opened for
/// an empty queue, and nothing for a run that belongs to a flush already.
pub proof fn outermost_flushes_open_new_drains(
    reactor: &mut Reactor,
    run: EffectRun,
    flush: FlushGuard,
    drain: Option<DrainGuard>,
    boundary: RunBoundary,
)
    requires
        old(reactor)@.flush_depth < u32::MAX,
    ensures
        call_ensures(Reactor::external_flush, (reactor,), flush) ==> opens_flush(
            old(reactor)@,
            final(reactor)@,
            true,
        ),
        call_ensures(Reactor::flush_now, (reactor,), drain) ==> {
            &&& drain is Some == (old(reactor)@.jobs.len() > 0)
            &&& drain is None ==> {
                &&& same_flush(old(reactor)@, final(reactor)@)
                &&& final(reactor)@.jobs == old(reactor)@.jobs
                &&& final(reactor)@.events == old(reactor)@.events
                &&& !final(reactor)@.flush_scheduled
            }
            &&& drain matches Some(drain) ==> {
                &&& opens_flush(old(reactor)@, final(reactor)@, false)
                &&& drain.epoch == final(reactor)@.flush_epoch
            }
        },
        call_ensures(EffectRun::run, (run, reactor), boundary) ==> {
            &&& boundary.opened == (old(reactor)@.flush_depth == 0 && exists|effect: EffectRecord|
                #[trigger] has_record(old(reactor)@, run.target().0, effect))
            &&& boundary.opened ==> opens_flush(old(reactor)@, final(reactor)@, true)
            &&& !boundary.opened ==> final(reactor)@ == old(reactor)@
        },
{
    let before = old(reactor)@;
    let node = run.target().0;
    if before.is_effect(node) {
        assert(has_record(before, node, before.observers[node].effect->0));
    }
    if exists|effect: EffectRecord| #[trigger] has_record(before, node, effect) {
        let effect = choose|effect: EffectRecord| #[trigger] has_record(before, node, effect);
        assert(before.is_effect(node));
    }
}

/// One more flush is open. If none was, a drain with another number than before began, and a flush
/// with another number; else the drain is the same, and so is the flush if it `joins` the one that
/// is open.
pub open spec fn opens_flush(before: ReactorModel, after: ReactorModel, joins: bool) -> bool {
    &&& after.flush_depth == before.flush_depth + 1
    &&& if before.flush_depth == 0 {
        &&& after.drain_epoch != before.drain_epoch
        &&& after.drain_epoch == if before.drain_epoch == u64::MAX {
            0
        } else {
            before.drain_epoch + 1
        }
        &&& after.flush_epoch != before.flush_epoch
    } else {
        &&& after.drain_epoch == before.drain_epoch
        &&& after.flush_epoch != before.flush_epoch <==> !joins
    }
    &&& before.flush_depth == 0 || !joins ==> {
        &&& after.flush_epoch == if before.flush_epoch == u64::MAX {
            0
        } else {
            before.flush_epoch + 1
        }
        &&& before.counts.flushes < u64::MAX ==> after.counts.flushes == before.counts.flushes + 1
    }
    &&& before.flush_depth > 0 && joins ==> after.counts.flushes == before.counts.flushes
    &&& after.graph == before.graph
    &&& after.observers == before.observers
    &&& after.hooks == before.hooks
    &&& asks_nothing(before, after)
}

/// Closing a flush: one less is open, and the drain is the same. What a drain left in the queue is
/// asked for again.
pub proof fn flushes_close(
    reactor: &mut Reactor,
    flush: FlushGuard,
    drain: DrainGuard,
    boundary: RunBoundary,
)
    requires
        old(reactor)@.flush_depth > 0,
    ensures
        call_ensures(Reactor::finish_external_flush, (reactor, flush), ()) ==> closes_flush(
            old(reactor)@,
            final(reactor)@,
        ) && asks_nothing(old(reactor)@, final(reactor)@),
        call_ensures(RunBoundary::finish, (boundary, reactor), ()) ==> (if boundary.opened {
            closes_flush(old(reactor)@, final(reactor)@) && asks_nothing(
                old(reactor)@,
                final(reactor)@,
            )
        } else {
            final(reactor)@ == old(reactor)@
        }),
        call_ensures(Reactor::finish_flush, (reactor, drain), ()) ==> {
            &&& closes_flush(old(reactor)@, final(reactor)@)
            &&& final(reactor)@.jobs == old(reactor)@.jobs
            &&& final(reactor)@.flush_scheduled == (old(reactor)@.jobs.len() > 0)
            &&& old(reactor)@.jobs.len() > 0 ==> final(reactor)@.wake
            &&& old(reactor)@.jobs.len() == 0 ==> final(reactor)@.wake == old(reactor)@.wake
        },
{
}

/// One less flush is open, in the same drain.
pub open spec fn closes_flush(before: ReactorModel, after: ReactorModel) -> bool {
    &&& after.flush_depth == before.flush_depth - 1
    &&& after.drain_epoch == before.drain_epoch
    &&& after.flush_epoch == before.flush_epoch
    &&& after.graph == before.graph
    &&& after.observers == before.observers
    &&& after.hooks == before.hooks
    &&& after.ready == before.ready
    &&& after.counts == before.counts
}

/// The first run of an effect in a drain is never taken for divergence: an effect that ran in the
/// drain before, however often, and is dirty, runs in the next one, whoever opened it.
pub proof fn new_drains_count_from_one(
    opening: &mut Reactor,
    flush: FlushGuard,
    drain: Option<DrainGuard>,
    reactor: &mut Reactor,
    node: NodeId,
    effect: EffectRecord,
    step: RunStep,
)
    requires
        call_ensures(Reactor::external_flush, (opening,), flush) || (call_ensures(
            Reactor::flush_now,
            (opening,),
            drain,
        ) && drain is Some),
        old(opening)@.flush_depth == 0,
        old(reactor)@ == final(opening)@,
        has_record(old(opening)@, node.0, effect),
        effect.last_drain_epoch == old(opening)@.drain_epoch,
        !effect.disposed,
        !effect.running,
        !old(opening)@.graph.stack.contains(node.0),
        old(opening)@.observers[node.0].state is Dirty,
        call_ensures(Reactor::start_run, (reactor, node), step),
    ensures
        step is Teardown,
        final(reactor)@.observers[node.0].effect->0.runs_this_drain == 1,
        final(reactor)@.observers[node.0].effect->0.running,
{
    assert(old(reactor)@.is_effect(node.0));
}

/// Jobs come out in the order in which they went in, each once.
pub proof fn jobs_are_taken_in_order(reactor: &mut Reactor, job: Option<Job>)
    requires
        call_ensures(Reactor::next_job, (reactor,), job),
    ensures
        ({
            let before = old(reactor)@;
            let after = final(reactor)@;
            match job {
                Some(job) => before.jobs == seq![job] + after.jobs,
                None => before.jobs.len() == 0 && after == before,
            }
        }),
        ({
            let before = old(reactor)@;
            let after = final(reactor)@;
            &&& after.graph == before.graph
            &&& after.observers == before.observers
            &&& after.hooks == before.hooks
            &&& same_flush(before, after)
            &&& after.ready == before.ready
            &&& after.wake == before.wake
            &&& after.flush_scheduled == before.flush_scheduled
            &&& after.events == before.events
            &&& after.counts == before.counts
        }),
{
    let before = old(reactor)@;
    let after = final(reactor)@;
    if job is Some {
        assert(before.jobs =~= seq![job->0] + after.jobs);
    }
}

/// A job that is scheduled goes to the end of the queue, and the host is asked for a flush unless it
/// was asked already. The host is told of a request once.
pub proof fn scheduling_asks_for_a_flush(reactor: &mut Reactor, job: Job, wake: bool)
    ensures
        call_ensures(Reactor::schedule, (reactor, job), ()) ==> {
            let before = old(reactor)@;
            let after = final(reactor)@;
            &&& after.jobs == before.jobs.push(job)
            &&& after.flush_scheduled
            &&& after.wake == (before.wake || !before.flush_scheduled)
            &&& after.graph == before.graph
            &&& after.observers == before.observers
            &&& after.ready == before.ready
            &&& same_flush(before, after)
        },
        call_ensures(Reactor::take_wake, (reactor,), wake) ==> {
            &&& wake == old(reactor)@.wake
            &&& final(reactor)@ == (ReactorModel { wake: false, ..old(reactor)@ })
        },
        forall|ready: Vec<NodeId>| #[trigger]
            call_ensures(Reactor::take_ready, (reactor,), ready) ==> {
                &&& ready@ == old(reactor)@.ready
                &&& final(reactor)@ == (ReactorModel { ready: Seq::empty(), ..old(reactor)@ })
            },
{
}

/// A run that is let go is no longer pending, and the effect can be asked to run again. Which effect
/// a run is for, and whether running it would do anything, can be asked.
pub proof fn runs_can_be_let_go(
    reactor: &mut Reactor,
    run: EffectRun,
    effect: EffectRecord,
    id: Option<NodeId>,
    stale: bool,
    target: NodeId,
)
    requires
        has_record(old(reactor)@, run.target().0, effect),
    ensures
        call_ensures(EffectRun::new, (target,), run) ==> run.target() == target,
        call_ensures(EffectRun::id, (&run, &*old(reactor)), id) ==> id == Some(run.target()),
        call_ensures(EffectRun::is_stale, (&run, &*old(reactor)), stale) ==> stale
            == effect.disposed,
        call_ensures(EffectRun::discard, (run, reactor), ()) ==> {
            let after = final(reactor)@;
            &&& has_record(after, run.target().0, EffectRecord { scheduled: false, ..effect })
            &&& after.observers[run.target().0].state == old(reactor)@.observers[run.target().0].state
            &&& after.jobs == old(reactor)@.jobs
            &&& after.graph == old(reactor)@.graph
        },
{
    assert(old(reactor)@.is_effect(run.target().0));
}

/// An effect that was disposed has no run pending, and never runs again; the first disposal tells.
pub proof fn retiring_is_final(
    reactor: &mut Reactor,
    node: NodeId,
    effect: EffectRecord,
    first: bool,
)
    requires
        call_ensures(Reactor::retire_effect, (reactor, node), first),
        has_record(old(reactor)@, node.0, effect),
    ensures
        first == !effect.disposed,
        !first ==> final(reactor)@ == old(reactor)@,
        first ==> has_record(
            final(reactor)@,
            node.0,
            EffectRecord { disposed: true, scheduled: false, ..effect },
        ),
        final(reactor)@.graph == old(reactor)@.graph,
        final(reactor)@.jobs == old(reactor)@.jobs,
{
    assert(old(reactor)@.is_effect(node.0));
}

/// A new effect is dirty and listens, and its first run is pending: in the queue, or in the
/// consumer's lane for an effect that was created for one. It has an owner frame of its own, which
/// the innermost owner holds. Where that owner is disposed already the effect is disposed at once,
/// with its frame, and has no node.
pub proof fn new_effects_are_asked_to_run(
    reactor: &mut Reactor,
    owners: &mut Owners,
    origin: Location,
    handle: EffectHandle,
    lane: bool,
)
    requires
        old(reactor).wf(),
        old(owners).wf(),
        old(reactor)@.graph.next_node < u64::MAX,
        old(owners)@.next < u64::MAX,
        lane ==> call_ensures(Reactor::effect_with, (reactor, owners, origin), handle)
            || call_ensures(crate::effect::effect_with_in, (reactor, owners, origin), handle),
        !lane ==> call_ensures(Reactor::effect, (reactor, owners, origin), handle) || call_ensures(
            crate::effect::effect_in,
            (reactor, owners, origin),
            handle,
        ),
    ensures
        handle.node().0 == old(reactor)@.graph.next_node,
        handle.graph() == old(reactor)@.id,
        handle.frame().0 == old(owners)@.next,
        ({
            let before = old(reactor)@;
            let after = final(reactor)@;
            let node = handle.node().0;
            let frames = final(owners)@.frames;
            match owner_in_effect(old(owners)@) {
                Some(owner) if old(owners)@.frames[owner].disposed => {
                    &&& !after.graph.nodes.contains_key(node)
                    &&& after.observers[node].effect matches Some(effect) && effect.disposed
                        && !effect.scheduled
                    &&& !after.observers[node].registered
                    &&& frames[handle.frame().0].disposed
                    &&& frames[owner] == old(owners)@.frames[owner]
                },
                owner => {
                    &&& is_new_effect(before, after, node, lane, handle.frame().0, origin)
                    &&& !frames[handle.frame().0].disposed
                    &&& frames[handle.frame().0].parent == owner
                    &&& owner is Some ==> frames[owner->0].children
                        == old(owners)@.frames[owner->0].children.push(
                        crate::scope::Owned::Effect {
                            reactor: before.id,
                            effect: handle.node(),
                        },
                    )
                },
            }
        }),
{
    let before = old(reactor)@;
    old(reactor).wf_content();
    let node = before.graph.next_node;
    let framed = old(owners)@.created(None, old(owners)@.next_registry());
    let created = before.effect_created(lane, old(owners)@.next, origin);
    assert(framed.current() == owner_in_effect(old(owners)@));
    assert(owner_in_effect(old(owners)@) matches Some(owner) ==> old(owners)@.frames.contains_key(
        owner,
    ));
    if framed.shelter() == crate::scope::Adoption::Refused {
        let retired = created.effect_retired(node);
        let lost = choose|lost: Seq<u64>|
            crate::model::lists(lost, crate::model::abandoned(created.graph, node))
                && final(reactor)@ == #[trigger] retired.effect_unhooked(node, lost).requested(
                node,
            );
        crate::reactor::disposal_keeps_observers(retired.unregistered(node), node, lost);
    }
}

/// The owner that is in effect: the one that was entered last and not left, where one is.
pub open spec fn owner_in_effect(owners: crate::scope::OwnersModel) -> Option<u64> {
    if owners.stack.len() == 0 {
        None
    } else {
        owners.stack[owners.stack.len() - 1]
    }
}

/// `node` is an effect that came into being, with its first run pending.
pub open spec fn is_new_effect(
    before: ReactorModel,
    after: ReactorModel,
    node: u64,
    lane: bool,
    owner: u64,
    origin: Location,
) -> bool {
    &&& !before.graph.nodes.contains_key(node)
    &&& after.graph.nodes.contains_key(node)
    &&& after.graph.nodes[node].kind is Effect
    &&& after.graph.nodes[node].origin == origin
    &&& after.observers.contains_key(node)
    &&& after.observers[node].state is Dirty
    &&& after.observers[node].registered
    &&& after.observers[node].effect matches Some(effect)
    &&& effect.external == lane
    &&& effect.owner == owner
    &&& effect.scheduled
    &&& !effect.running
    &&& !effect.disposed
    &&& !effect.rerun_after_current
    &&& effect.runs_this_drain == 0
    &&& after.jobs == if lane {
        before.jobs
    } else {
        before.jobs.push(Job::Effect(NodeId(node)))
    }
    &&& after.ready == if lane {
        before.ready.push(NodeId(node))
    } else {
        before.ready
    }
    &&& after.graph.edges == before.graph.edges
    &&& after.graph.stack == before.graph.stack
}

} // verus!
