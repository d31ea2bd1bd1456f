//! No wakeup is lost: an effect that is stale has a run pending, or owes one for when its current
//! run ends; a run that is pending is in the queue; and whatever is in the queue, the host was asked
//! to flush.
use vstd::prelude::*;

use crate::diagnostics::InvalidationCause;
use crate::effect::RunTicket;
use crate::id::{Location, NodeId};
use crate::model::{Job, ReactorModel};
use crate::observers::{Delivery, EffectRecord, Observer, State};

verus! {

impl ReactorModel {
    /// An effect that is stale will be looked at again.
    pub open spec fn accounted(self, node: u64) -> bool {
        self.is_effect(node) && self.observers[node].registered && !(self.observers[node].state
            is Clean) && !self.effect(node).disposed ==> self.effect(node).scheduled
            || self.effect(node).rerun_after_current
    }

    /// Every effect that is stale will be looked at again.
    pub open spec fn all_accounted(self) -> bool {
        forall|node: u64| #[trigger] self.accounted(node)
    }

    /// The effect has a run pending, unless it is disposed.
    pub open spec fn awake(self, node: u64) -> bool {
        self.effect(node).scheduled || self.effect(node).disposed
    }
}

/// `log` delivers a mark to `node`.
pub open spec fn marks(log: Seq<Delivery>, node: u64) -> bool {
    exists|at: int| 0 <= at < log.len() && #[trigger] log[at].observer == node
}

/// Marks that are for others leave an observer as it is.
pub proof fn unmarked_observers_keep_their_record(
    observers: Map<u64, Observer>,
    log: Seq<Delivery>,
    node: u64,
)
    requires
        !marks(log, node),
    ensures
        crate::observers::delivered(observers, log)[node] == observers[node],
    decreases log.len(),
{
    if log.len() > 0 {
        let shorter = log.drop_last();
        assert forall|at: int| 0 <= at < shorter.len() implies #[trigger] shorter[at].observer
            != node by {
            assert(shorter[at] == log[at]);
        }
        unmarked_observers_keep_their_record(observers, shorter, node);
        assert(log[log.len() - 1].observer != node);
    }
}

/// `after` differs from `model` in one observer by a request to run at most.
pub open spec fn at_most_requested(model: ReactorModel, after: ReactorModel, node: u64) -> bool {
    &&& after.observers.contains_key(node) == model.observers.contains_key(node)
    &&& after.observers[node].state == model.observers[node].state
    &&& after.observers[node].registered == model.observers[node].registered
    &&& after.is_effect(node) == model.is_effect(node)
    &&& model.is_effect(node) ==> {
        &&& after.effect(node).disposed == model.effect(node).disposed
        &&& after.effect(node).rerun_after_current == model.effect(node).rerun_after_current
        &&& model.effect(node).scheduled ==> after.effect(node).scheduled
        &&& after.effect(node).running == model.effect(node).running
    }
}

/// The observers that a request to run leaves behind.
pub open spec fn after_request(model: ReactorModel, effect: u64) -> Map<u64, Observer> {
    if model.awake(effect) {
        model.observers
    } else {
        model.latched(effect).observers
    }
}

proof fn requests_only_latch(model: ReactorModel, effect: u64)
    ensures
        model.requested(effect).observers == after_request(model, effect),
{
}

proof fn one_mark_only_latches(
    model: ReactorModel,
    delivery: Delivery,
    cause: Option<InvalidationCause>,
)
    ensures
        model.received(delivery, cause).observers == (if model.is_effect(delivery.observer) {
            after_request(model, delivery.observer)
        } else {
            model.observers
        }),
{
    let node = delivery.observer;
    if model.is_effect(node) {
        let reported = match (cause, model.origin(node)) {
            (Some(cause), Some(origin)) => model.emitted(
                crate::diagnostics::DiagnosticEvent::EffectInvalidated {
                    reactor: model.id,
                    effect: NodeId(node),
                    effect_origin: origin,
                    cause,
                    level: delivery.mark.reported(),
                },
            ),
            _ => model,
        };
        requests_only_latch(reported, node);
        assert(after_request(reported, node) == after_request(model, node));
    }
}

proof fn one_mark_only_requests(
    model: ReactorModel,
    delivery: Delivery,
    cause: Option<InvalidationCause>,
    node: u64,
)
    ensures
        at_most_requested(model, model.received(delivery, cause), node),
        model.is_effect(node) && delivery.observer == node ==> model.received(
            delivery,
            cause,
        ).awake(node),
        delivery.observer != node ==> model.received(delivery, cause).observers[node]
            == model.observers[node],
{
    one_mark_only_latches(model, delivery, cause);
}

/// What the consequences of marks do to one observer: nothing but a request to run, and that only
/// if a mark was for it.
proof fn marks_only_request(
    model: ReactorModel,
    log: Seq<Delivery>,
    cause: Option<InvalidationCause>,
    node: u64,
)
    ensures
        at_most_requested(model, model.received_all(log, cause), node),
        model.is_effect(node) && marks(log, node) ==> model.received_all(log, cause).awake(node),
    decreases log.len(),
{
    if log.len() > 0 {
        let shorter = log.drop_last();
        let last = log.last();
        marks_only_request(model, shorter, cause, node);
        one_mark_only_requests(model.received_all(shorter, cause), last, cause, node);
        if marks(log, node) && last.observer != node {
            let at = choose|at: int| 0 <= at < log.len() && #[trigger] log[at].observer == node;
            assert(shorter[at].observer == node);
            assert(marks(shorter, node));
        }
    }
}

/// Every effect that a write marks has a run pending afterwards, unless it is disposed.
pub proof fn write_wakes_the_effects_it_marks(
    model: ReactorModel,
    written: u64,
    write_origin: Location,
    log: Seq<Delivery>,
    effect: u64,
)
    requires
        crate::observers::propagation(model.graph, model.observers, written, log),
        model.is_effect(effect),
        marks(log, effect),
    ensures
        model.triggered(written, write_origin, log).is_effect(effect),
        model.triggered(written, write_origin, log).awake(effect),
{
    let marked = ReactorModel {
        observers: crate::observers::delivered(model.observers, log),
        ..model.written(written, write_origin)
    };
    let cause = ReactorModel { graph: model.graph.bumped(written), ..model }.write_cause(
        written,
        write_origin,
    );
    reveal(crate::observers::propagates);
    crate::observers::marks_only_raise_states(model.observers, log, effect);
    marks_only_request(marked, log, cause, effect);
}

/// Every effect that depends on the written node has a run pending afterwards, unless it is
/// disposed.
pub proof fn write_wakes_dependent_effects(
    model: ReactorModel,
    written: u64,
    write_origin: Location,
    log: Seq<Delivery>,
    effect: u64,
)
    requires
        crate::observers::propagation(model.graph, model.observers, written, log),
        model.is_effect(effect),
        model.observers[effect].registered,
        model.graph.observes(effect, written),
    ensures
        model.triggered(written, write_origin, log).awake(effect),
{
    assert(marks(log, effect)) by {
        reveal(crate::observers::propagates);
        assert(model.graph.observers(written).contains(effect));
    }
    write_wakes_the_effects_it_marks(model, written, write_origin, log, effect);
}

/// An effect that no mark of a write was for is asked nothing.
pub proof fn write_lets_other_effects_sleep(
    model: ReactorModel,
    written: u64,
    write_origin: Location,
    log: Seq<Delivery>,
    effect: u64,
)
    requires
        crate::observers::propagation(model.graph, model.observers, written, log),
        model.is_effect(effect),
        !marks(log, effect),
    ensures
        model.triggered(written, write_origin, log).observers[effect] == model.observers[effect],
{
    let marked = ReactorModel {
        observers: crate::observers::delivered(model.observers, log),
        ..model.written(written, write_origin)
    };
    let cause = ReactorModel { graph: model.graph.bumped(written), ..model }.write_cause(
        written,
        write_origin,
    );
    unmarked_observers_keep_their_record(model.observers, log, effect);
    requests_leave_others_alone(marked, log, cause, effect);
}

proof fn requests_leave_others_alone(
    model: ReactorModel,
    log: Seq<Delivery>,
    cause: Option<InvalidationCause>,
    node: u64,
)
    requires
        !marks(log, node),
    ensures
        model.received_all(log, cause).observers[node] == model.observers[node],
    decreases log.len(),
{
    if log.len() > 0 {
        let shorter = log.drop_last();
        assert forall|at: int| 0 <= at < shorter.len() implies #[trigger] shorter[at].observer
            != node by {
            assert(shorter[at] == log[at]);
        }
        requests_leave_others_alone(model, shorter, cause, node);
        assert(log[log.len() - 1].observer != node);
        one_mark_only_requests(model.received_all(shorter, cause), log.last(), cause, node);
    }
}

/// A write runs nothing: no computation is entered, no effect starts to run and no version but that
/// of the written node moves. Effects are asked to run later.
pub proof fn writes_run_nothing(
    model: ReactorModel,
    written: u64,
    write_origin: Location,
    log: Seq<Delivery>,
    node: u64,
)
    requires
        crate::observers::propagation(model.graph, model.observers, written, log),
    ensures
        model.triggered(written, write_origin, log).graph == model.graph.bumped(written),
        model.triggered(written, write_origin, log).graph.stack == model.graph.stack,
        model.is_effect(node) ==> model.triggered(written, write_origin, log).effect(node).running
            == model.effect(node).running,
{
    let marked = ReactorModel {
        observers: crate::observers::delivered(model.observers, log),
        ..model.written(written, write_origin)
    };
    let cause = ReactorModel { graph: model.graph.bumped(written), ..model }.write_cause(
        written,
        write_origin,
    );
    reveal(crate::observers::propagates);
    crate::observers::marks_only_raise_states(model.observers, log, node);
    crate::coherence::receiving_keeps_staleness(marked, log, cause);
    marks_only_request(marked, log, cause, node);
}

/// A write forgets no effect.
pub proof fn write_forgets_no_effect(
    model: ReactorModel,
    written: u64,
    write_origin: Location,
    log: Seq<Delivery>,
)
    requires
        model.all_accounted(),
        crate::observers::propagation(model.graph, model.observers, written, log),
    ensures
        model.triggered(written, write_origin, log).all_accounted(),
{
    let marked = ReactorModel {
        observers: crate::observers::delivered(model.observers, log),
        ..model.written(written, write_origin)
    };
    let cause = ReactorModel { graph: model.graph.bumped(written), ..model }.write_cause(
        written,
        write_origin,
    );
    let after = marked.received_all(log, cause);
    assert forall|node: u64| #[trigger] after.accounted(node) by {
        assert(model.accounted(node));
        reveal(crate::observers::propagates);
        crate::observers::marks_only_raise_states(model.observers, log, node);
        marks_only_request(marked, log, cause, node);
        if !marks(log, node) {
            unmarked_observers_keep_their_record(model.observers, log, node);
        }
    }
}

/// A request to run forgets no effect, and accounts for the one that asked.
proof fn request_forgets_no_effect(model: ReactorModel, effect: u64)
    requires
        model.is_effect(effect),
        forall|node: u64| node != effect ==> #[trigger] model.accounted(node),
    ensures
        model.requested(effect).all_accounted(),
        model.requested(effect).awake(effect),
{
    let after = model.requested(effect);
    assert forall|node: u64| #[trigger] after.accounted(node) by {
        if node != effect {
            assert(model.accounted(node));
        }
    }
}

/// Creating an effect forgets none: the new one has its first run pending.
pub proof fn creation_forgets_no_effect(
    model: ReactorModel,
    external: bool,
    owner: u64,
    origin: Location,
)
    requires
        model.all_accounted(),
    ensures
        model.effect_created(external, owner, origin).requested(
            model.graph.next_node,
        ).all_accounted(),
        model.effect_created(external, owner, origin).requested(model.graph.next_node).awake(
            model.graph.next_node,
        ),
{
    let created = model.effect_created(external, owner, origin);
    assert forall|node: u64| node != model.graph.next_node implies #[trigger] created.accounted(
        node,
    ) by {
        assert(model.accounted(node));
    }
    request_forgets_no_effect(created, model.graph.next_node);
}

/// Giving an effect its turn forgets none: whatever used up its pending run looked at it, or left
/// it owing a run.
pub proof fn turn_forgets_no_effect(model: ReactorModel, effect: u64)
    requires
        model.all_accounted(),
        model.is_effect(effect),
    ensures
        model.turn(effect).0.all_accounted(),
{
    let after = model.turn(effect).0;
    assert forall|node: u64| #[trigger] after.accounted(node) by {
        assert(model.accounted(node));
    }
}

/// The rest of a turn forgets no effect.
pub proof fn resumed_turn_forgets_no_effect(model: ReactorModel, effect: u64, changed: bool)
    requires
        model.all_accounted(),
        model.is_effect(effect),
    ensures
        model.turn_resumed(effect, changed).0.all_accounted(),
{
    let after = model.turn_resumed(effect, changed).0;
    assert forall|node: u64| #[trigger] after.accounted(node) by {
        assert(model.accounted(node));
    }
}

/// A verification that failed forgets no effect: the one that verified has a run pending again.
pub proof fn failed_turn_forgets_no_effect(model: ReactorModel, effect: u64)
    requires
        model.all_accounted(),
        model.is_effect(effect),
    ensures
        model.turn_failed(effect).all_accounted(),
        model.turn_failed(effect).awake(effect),
{
    if !model.effect(effect).disposed {
        let dirty = model.with_state(effect, State::Dirty);
        assert forall|node: u64| node != effect implies #[trigger] dirty.accounted(node) by {
            assert(model.accounted(node));
        }
        request_forgets_no_effect(dirty, effect);
    }
}

/// The end of a run forgets no effect: a run that was owed is pending now.
pub proof fn finished_run_forgets_no_effect(model: ReactorModel, ticket: RunTicket)
    requires
        model.all_accounted(),
        model.is_effect(ticket.effect.0),
    ensures
        model.run_finished(ticket).all_accounted(),
        model.effect(ticket.effect.0).rerun_after_current ==> model.run_finished(ticket).awake(
            ticket.effect.0,
        ),
{
    let after = model.run_finished(ticket);
    assert forall|node: u64| #[trigger] after.accounted(node) by {
        assert(model.accounted(node));
    }
}

/// A run that unwound forgets no effect: what it owed, it still owes.
pub proof fn aborted_run_forgets_no_effect(model: ReactorModel, ticket: RunTicket)
    requires
        model.all_accounted(),
        model.is_effect(ticket.effect.0),
    ensures
        model.ended().run_closed(ticket).all_accounted(),
{
    let after = model.ended().run_closed(ticket);
    assert forall|node: u64| #[trigger] after.accounted(node) by {
        assert(model.accounted(node));
    }
}

/// Disposing an effect forgets no other.
pub proof fn retirement_forgets_no_effect(model: ReactorModel, effect: u64)
    requires
        model.all_accounted(),
        model.is_effect(effect),
    ensures
        model.effect_retired(effect).all_accounted(),
{
    let after = model.effect_retired(effect);
    assert forall|node: u64| #[trigger] after.accounted(node) by {
        assert(model.accounted(node));
    }
}

impl ReactorModel {
    /// Whatever is queued will be flushed: the host was asked to.
    pub open spec fn served(self) -> bool {
        self.jobs.len() > 0 ==> self.flush_scheduled
    }
}

/// Queueing a job asks the host for a flush, unless it was asked already.
pub proof fn queued_jobs_are_served(model: ReactorModel, job: Job)
    ensures
        model.scheduled(job).served(),
        model.scheduled(job).jobs == model.jobs.push(job),
        model.scheduled(job).wake == (model.wake || !model.flush_scheduled),
{
}

/// Requests to run, notes of observation changes and flush boundaries leave nothing in the queue
/// that the host was not asked to flush.
pub proof fn everything_queued_is_served(
    model: ReactorModel,
    node: u64,
    observed: bool,
)
    requires
        model.served(),
    ensures
        model.requested(node).served(),
        model.noted(node, observed).served(),
        model.job_taken().served(),
        model.drain_started().served(),
        model.begun().served(),
        model.finished().served(),
{
}

/// A drain that was broken off loses nothing: what is left stays queued in its order, and the host
/// is asked for another flush.
pub proof fn broken_off_drains_lose_nothing(model: ReactorModel, epoch: u64)
    ensures
        model.drain_finished(epoch).jobs == model.jobs,
        model.drain_finished(epoch).served(),
        model.jobs.len() > 0 ==> model.drain_finished(epoch).wake,
{
}

/// What a write queues is served.
pub proof fn write_keeps_the_queue_served(
    model: ReactorModel,
    written: u64,
    write_origin: Location,
    log: Seq<Delivery>,
)
    requires
        model.served(),
    ensures
        model.triggered(written, write_origin, log).served(),
{
    let marked = ReactorModel {
        observers: crate::observers::delivered(model.observers, log),
        ..model.written(written, write_origin)
    };
    let cause = ReactorModel { graph: model.graph.bumped(written), ..model }.write_cause(
        written,
        write_origin,
    );
    marks_keep_the_queue_served(marked, log, cause);
}

proof fn one_mark_keeps_the_queue_served(
    model: ReactorModel,
    delivery: Delivery,
    cause: Option<InvalidationCause>,
)
    requires
        model.served(),
    ensures
        model.received(delivery, cause).served(),
{
    let node = delivery.observer;
    if model.is_effect(node) {
        let reported = match (cause, model.origin(node)) {
            (Some(cause), Some(origin)) => model.emitted(
                crate::diagnostics::DiagnosticEvent::EffectInvalidated {
                    reactor: model.id,
                    effect: NodeId(node),
                    effect_origin: origin,
                    cause,
                    level: delivery.mark.reported(),
                },
            ),
            _ => model,
        };
        everything_queued_is_served(reported, node, false);
    }
}

proof fn marks_keep_the_queue_served(
    model: ReactorModel,
    log: Seq<Delivery>,
    cause: Option<InvalidationCause>,
)
    requires
        model.served(),
    ensures
        model.received_all(log, cause).served(),
    decreases log.len(),
{
    if log.len() > 0 {
        marks_keep_the_queue_served(model, log.drop_last(), cause);
        one_mark_keeps_the_queue_served(
            model.received_all(log.drop_last(), cause),
            log.last(),
            cause,
        );
    }
}

impl ReactorModel {
    /// The pending run of an effect is in the queue, unless the effect is in a consumer's lane or
    /// its job was just taken.
    pub open spec fn run_is_queued(self, node: u64, taken: Option<u64>) -> bool {
        self.is_effect(node) && self.effect(node).scheduled && !self.effect(node).external && taken
            != Some(node) ==> self.jobs.contains(Job::Effect(NodeId(node)))
    }

    /// Every pending run is in the queue, unless its effect is in a consumer's lane or its job was
    /// just taken.
    pub open spec fn runs_are_queued(self, taken: Option<u64>) -> bool {
        forall|node: u64| #[trigger] self.run_is_queued(node, taken)
    }
}

proof fn pushing_keeps_jobs(jobs: Seq<Job>, job: Job, other: Job)
    ensures
        jobs.contains(other) ==> jobs.push(job).contains(other),
        jobs.push(job).contains(job),
{
    if jobs.contains(other) {
        let at = choose|at: int| 0 <= at < jobs.len() && jobs[at] == other;
        assert(jobs.push(job)[at] == other);
    }
    assert(jobs.push(job)[jobs.len() as int] == job);
}

/// A request to run leaves every pending run in the queue, the new one among them.
pub proof fn requests_queue_the_run(model: ReactorModel, taken: Option<u64>, effect: u64)
    requires
        model.runs_are_queued(taken),
        model.is_effect(effect),
    ensures
        model.requested(effect).runs_are_queued(taken),
{
    let after = model.requested(effect);
    assert forall|node: u64| #[trigger] after.run_is_queued(node, taken) by {
        assert(model.run_is_queued(node, taken));
        pushing_keeps_jobs(
            model.jobs,
            Job::Effect(NodeId(effect)),
            Job::Effect(NodeId(node)),
        );
    }
}

/// A new effect has its first run in the queue.
pub proof fn created_effects_are_queued(
    model: ReactorModel,
    taken: Option<u64>,
    external: bool,
    owner: u64,
    origin: Location,
)
    requires
        model.runs_are_queued(taken),
    ensures
        model.effect_created(external, owner, origin).requested(
            model.graph.next_node,
        ).runs_are_queued(taken),
{
    let created = model.effect_created(external, owner, origin);
    assert forall|node: u64| #[trigger] created.run_is_queued(node, taken) by {
        assert(model.run_is_queued(node, taken));
    }
    requests_queue_the_run(created, taken, model.graph.next_node);
}

/// Disposing an effect leaves the pending runs of the others in the queue.
pub proof fn retirement_keeps_runs_queued(model: ReactorModel, taken: Option<u64>, effect: u64)
    requires
        model.runs_are_queued(taken),
        model.is_effect(effect),
    ensures
        model.effect_retired(effect).runs_are_queued(taken),
{
    let after = model.effect_retired(effect);
    assert forall|node: u64| #[trigger] after.run_is_queued(node, taken) by {
        assert(model.run_is_queued(node, taken));
    }
}

/// Taking a job leaves every pending run in the queue but the one that was taken.
pub proof fn taking_a_job_keeps_the_others(model: ReactorModel)
    requires
        model.runs_are_queued(None),
        model.jobs.len() > 0,
    ensures
        model.jobs.first() matches Job::Effect(effect) ==> model.job_taken().runs_are_queued(
            Some(effect.0),
        ),
        !(model.jobs.first() is Effect) ==> model.job_taken().runs_are_queued(None),
{
    let after = model.job_taken();
    let taken = match model.jobs.first() {
        Job::Effect(effect) => Some(effect.0),
        _ => None,
    };
    assert forall|node: u64| #[trigger] after.run_is_queued(node, taken) by {
        assert(model.run_is_queued(node, None));
        let job = Job::Effect(NodeId(node));
        if model.jobs.contains(job) && model.jobs.first() != job {
            let at = choose|at: int| 0 <= at < model.jobs.len() && model.jobs[at] == job;
            assert(after.jobs[at - 1] == job);
        }
    }
}

/// Giving the effect whose job was taken its turn leaves every pending run in the queue.
pub proof fn a_turn_uses_up_the_job(model: ReactorModel, effect: u64)
    requires
        model.runs_are_queued(Some(effect)),
        model.is_effect(effect),
    ensures
        model.turn(effect).0.runs_are_queued(None),
{
    let after = model.turn(effect).0;
    assert forall|node: u64| #[trigger] after.run_is_queued(node, None) by {
        assert(model.run_is_queued(node, Some(effect)));
    }
}

/// The end of a run leaves every pending run in the queue.
pub proof fn finished_runs_stay_queued(model: ReactorModel, taken: Option<u64>, ticket: RunTicket)
    requires
        model.runs_are_queued(taken),
        model.is_effect(ticket.effect.0),
    ensures
        model.run_finished(ticket).runs_are_queued(taken),
{
    let node = ticket.effect.0;
    let left = model.ended();
    let cleared = left.with_effect(
        node,
        EffectRecord { rerun_after_current: false, ..left.effect(node) },
    );
    assert forall|other: u64| #[trigger] cleared.run_is_queued(other, taken) by {
        assert(model.run_is_queued(other, taken));
    }
    let asked = if left.effect(node).rerun_after_current && !left.effect(node).disposed {
        cleared.requested(node)
    } else {
        cleared
    };
    if left.effect(node).rerun_after_current && !left.effect(node).disposed {
        requests_queue_the_run(cleared, taken, node);
    }
    let after = model.run_finished(ticket);
    assert forall|other: u64| #[trigger] after.run_is_queued(other, taken) by {
        assert(asked.run_is_queued(other, taken));
    }
}

/// A write leaves every pending run in the queue, those it asked for among them.
pub proof fn write_queues_the_runs(
    model: ReactorModel,
    taken: Option<u64>,
    written: u64,
    write_origin: Location,
    log: Seq<Delivery>,
)
    requires
        model.runs_are_queued(taken),
        crate::observers::propagation(model.graph, model.observers, written, log),
    ensures
        model.triggered(written, write_origin, log).runs_are_queued(taken),
{
    let marked = ReactorModel {
        observers: crate::observers::delivered(model.observers, log),
        ..model.written(written, write_origin)
    };
    let cause = ReactorModel { graph: model.graph.bumped(written), ..model }.write_cause(
        written,
        write_origin,
    );
    assert forall|node: u64| #[trigger] marked.run_is_queued(node, taken) by {
        assert(model.run_is_queued(node, taken));
        reveal(crate::observers::propagates);
        crate::observers::marks_only_raise_states(model.observers, log, node);
    }
    marks_queue_the_runs(marked, taken, log, cause);
}

proof fn one_mark_queues_the_run(
    model: ReactorModel,
    taken: Option<u64>,
    delivery: Delivery,
    cause: Option<InvalidationCause>,
)
    requires
        model.runs_are_queued(taken),
    ensures
        model.received(delivery, cause).runs_are_queued(taken),
{
    let node = delivery.observer;
    let after = model.received(delivery, cause);
    if model.is_effect(node) {
        let reported = match (cause, model.origin(node)) {
            (Some(cause), Some(origin)) => model.emitted(
                crate::diagnostics::DiagnosticEvent::EffectInvalidated {
                    reactor: model.id,
                    effect: NodeId(node),
                    effect_origin: origin,
                    cause,
                    level: delivery.mark.reported(),
                },
            ),
            _ => model,
        };
        assert forall|other: u64| #[trigger] reported.run_is_queued(other, taken) by {
            assert(model.run_is_queued(other, taken));
        }
        requests_queue_the_run(reported, taken, node);
        let asked = reported.requested(node);
        assert forall|other: u64| #[trigger] after.run_is_queued(other, taken) by {
            assert(asked.run_is_queued(other, taken));
        }
    } else {
        assert forall|other: u64| #[trigger] after.run_is_queued(other, taken) by {
            assert(model.run_is_queued(other, taken));
        }
    }
}

proof fn marks_queue_the_runs(
    model: ReactorModel,
    taken: Option<u64>,
    log: Seq<Delivery>,
    cause: Option<InvalidationCause>,
)
    requires
        model.runs_are_queued(taken),
    ensures
        model.received_all(log, cause).runs_are_queued(taken),
    decreases log.len(),
{
    if log.len() > 0 {
        marks_queue_the_runs(model, taken, log.drop_last(), cause);
        one_mark_queues_the_run(
            model.received_all(log.drop_last(), cause),
            taken,
            log.last(),
            cause,
        );
    }
}

} // verus!
