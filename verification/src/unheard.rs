//! Diagnostics only watch: whether anyone listens never changes what a reactor does.
//!
//! Each law here has the same shape. Forget everything that diagnostics keep, and then take a
//! step; or take the step, and forget it afterwards: it comes to the same.
use vstd::prelude::*;

use crate::diagnostics::{InvalidationCause, NodeKind};
use crate::effect::{RunStep, RunTicket};
use crate::id::Location;
use crate::model::{Job, ReactorModel};
use crate::observers::{Delivery, EffectRecord, State};
use crate::stats::{FlushItem, FlushLedger};
use crate::tracking::Tracking;

verus! {

impl ReactorModel {
    /// The reactor as it would be if nobody had ever listened to its diagnostics.
    pub open spec fn unheard(self) -> ReactorModel {
        ReactorModel {
            next_diagnostic: 1,
            subscribers: Seq::empty(),
            events: Seq::empty(),
            ledger: FlushLedger::empty(),
            ..self
        }
    }
}

/// What a turn asks for, apart from whether it is reported.
pub open spec fn same_but_for_reports(left: RunStep, right: RunStep) -> bool {
    match (left, right) {
        (RunStep::Teardown(left), RunStep::Teardown(right)) => left.effect == right.effect
            && left.flush_epoch == right.flush_epoch,
        (left, right) => left == right,
    }
}

/// Subscribing to diagnostics, and letting a subscription go, changes nothing else.
pub proof fn subscribing_changes_nothing_else(model: ReactorModel, token: u64)
    ensures
        model.subscribed().unheard() == model.unheard(),
        model.unsubscribed(token).unheard() == model.unheard(),
{
}

/// Queueing and delivering are the same whether anyone listens or not.
proof fn notes_are_unheard(model: ReactorModel, nodes: Seq<u64>)
    ensures
        model.noted_abandoned(nodes).unheard() == model.unheard().noted_abandoned(nodes),
    decreases nodes.len(),
{
    if nodes.len() > 0 {
        notes_are_unheard(model, nodes.drop_last());
        let before = model.noted_abandoned(nodes.drop_last());
        assert(before.noted(nodes.last(), false).unheard() == before.unheard().noted(
            nodes.last(),
            false,
        ));
    }
}

proof fn forgetting_is_unheard(model: ReactorModel, node: u64, lost: Seq<u64>)
    ensures
        model.forgotten(node, lost).unheard() == model.unheard().forgotten(node, lost),
{
    let count = model.graph.inputs(node).dom().len() as usize;
    let cut = ReactorModel {
        graph: model.graph.forgetting(node),
        counts: model.counts.edges_removed(count),
        ..model
    };
    notes_are_unheard(cut.recorded(FlushItem::EdgesRemoved { count }), lost);
}

/// Nodes come, are read and go the same way whether anyone listens or not.
pub proof fn graph_steps_are_unheard(
    model: ReactorModel,
    kind: NodeKind,
    origin: Location,
    tracking: Tracking,
    node: u64,
    lost: Seq<u64>,
)
    ensures
        model.created(kind, origin).unheard() == model.unheard().created(kind, origin),
        model.computed_created(kind, origin).unheard() == model.unheard().computed_created(
            kind,
            origin,
        ),
        model.read(tracking, node).unheard() == model.unheard().read(tracking, node),
        model.disposed(node, lost).unheard() == model.unheard().disposed(node, lost),
        model.computed_released(node, lost).unheard() == model.unheard().computed_released(
            node,
            lost,
        ),
{
    forgetting_is_unheard(model, node, lost);
    forgetting_is_unheard(model.unregistered(node), node, lost);
}

proof fn requests_are_unheard(model: ReactorModel, node: u64)
    ensures
        model.requested(node).unheard() == model.unheard().requested(node),
{
}

proof fn receipts_are_unheard(
    model: ReactorModel,
    log: Seq<Delivery>,
    cause: Option<InvalidationCause>,
    other: Option<InvalidationCause>,
)
    ensures
        model.received_all(log, cause).unheard() == model.unheard().received_all(log, other),
    decreases log.len(),
{
    if log.len() > 0 {
        receipts_are_unheard(model, log.drop_last(), cause, other);
        let before = model.received_all(log.drop_last(), cause);
        one_receipt_is_unheard(before, log.last(), cause, other);
    }
}

proof fn one_receipt_is_unheard(
    model: ReactorModel,
    delivery: Delivery,
    cause: Option<InvalidationCause>,
    other: Option<InvalidationCause>,
)
    ensures
        model.received(delivery, cause).unheard() == model.unheard().received(delivery, other),
{
    let node = delivery.observer;
    assert forall|heard: ReactorModel|
        heard.unheard() == model.unheard() implies #[trigger] heard.requested(node).unheard()
        == model.unheard().requested(node) by {
        requests_are_unheard(heard, node);
    }
}

/// A write marks the same observers and asks for the same runs whether anyone listens or not.
pub proof fn writes_are_unheard(
    model: ReactorModel,
    node: u64,
    write_origin: Location,
    after: ReactorModel,
)
    requires
        model.is_write(node, write_origin, after),
    ensures
        model.unheard().is_write(node, write_origin, after.unheard()),
        model.write_suppressed(node, write_origin).unheard() == model.unheard(),
{
    let log = choose|log: Seq<Delivery>|
        crate::observers::propagation(model.graph, model.observers, node, log) && after
            == #[trigger] model.triggered(node, write_origin, log);
    let written = model.written(node, write_origin);
    let cause = ReactorModel { graph: model.graph.bumped(node), ..model }.write_cause(
        node,
        write_origin,
    );
    let marked = ReactorModel {
        observers: crate::observers::delivered(model.observers, log),
        ..written
    };
    receipts_are_unheard(marked, log, cause, None);
    assert(model.unheard().written(node, write_origin) == written.unheard());
    assert(model.unheard().triggered(node, write_origin, log) == after.unheard());
}

/// Computations start, publish and fail the same way whether anyone listens or not.
pub proof fn computations_are_unheard(
    model: ReactorModel,
    node: u64,
    lost: Seq<u64>,
    changed: bool,
)
    ensures
        model.recompute_started(node, lost).unheard() == model.unheard().recompute_started(
            node,
            lost,
        ),
        model.published(node, changed).unheard() == model.unheard().published(node, changed),
        model.recompute_failed(node).unheard() == model.unheard().recompute_failed(node),
        model.verification_reported(node, changed).unheard() == model.unheard(),
{
    assert forall|heard: ReactorModel|
        heard.unheard() == model.unheard() implies #[trigger] heard.with_state(
        node,
        State::Clean,
    ).started(node, lost).unheard() == model.unheard().with_state(node, State::Clean).started(
        node,
        lost,
    ) by {
        forgetting_is_unheard(heard.with_state(node, State::Clean), node, lost);
        forgetting_is_unheard(model.with_state(node, State::Clean), node, lost);
        assert(heard.with_state(node, State::Clean).unheard() == model.with_state(
            node,
            State::Clean,
        ).unheard());
    }
}

/// Flushes open and close, and jobs are taken, the same way whether anyone listens or not.
pub proof fn flushes_are_unheard(model: ReactorModel, job: Job, epoch: u64, node: u64)
    ensures
        model.scheduled(job).unheard() == model.unheard().scheduled(job),
        model.begun().unheard() == model.unheard().begun(),
        model.finished().unheard() == model.unheard().finished(),
        model.drain_started().unheard() == model.unheard().drain_started(),
        model.drain_finished(epoch).unheard() == model.unheard().drain_finished(epoch),
        model.job_taken().unheard() == model.unheard().job_taken(),
        model.hook_delivered(node).unheard() == model.unheard().hook_delivered(node),
        model.hook_news(node) == model.unheard().hook_news(node),
{
}

/// An effect has the same turns, with the same outcome, whether anyone listens or not.
pub proof fn turns_are_unheard(
    model: ReactorModel,
    node: u64,
    changed: bool,
    ticket: RunTicket,
)
    ensures
        model.turn(node).0.unheard() == model.unheard().turn(node).0,
        same_but_for_reports(model.turn(node).1, model.unheard().turn(node).1),
        model.turn_resumed(node, changed).0.unheard() == model.unheard().turn_resumed(
            node,
            changed,
        ).0,
        same_but_for_reports(
            model.turn_resumed(node, changed).1,
            model.unheard().turn_resumed(node, changed).1,
        ),
        model.turn_failed(node).unheard() == model.unheard().turn_failed(node),
        model.run_finished(ticket).unheard() == model.unheard().run_finished(ticket),
        model.effect_retired(node).unheard() == model.unheard().effect_retired(node),
{
    let taken = model.unlatched(node);
    openings_are_unheard(model, node);
    openings_are_unheard(taken.with_state(node, State::Clean), node);
    requests_are_unheard(model.with_state(node, State::Dirty), node);
    finishing_is_unheard(model, ticket);
    retiring_is_unheard(model, node);
}

proof fn openings_are_unheard(model: ReactorModel, node: u64)
    ensures
        model.run_opening(node).0.unheard() == model.unheard().run_opening(node).0,
        same_but_for_reports(model.run_opening(node).1, model.unheard().run_opening(node).1),
        model.run_skipped(node).unheard() == model.unheard(),
{
}

proof fn finishing_is_unheard(model: ReactorModel, ticket: RunTicket)
    ensures
        model.run_finished(ticket).unheard() == model.unheard().run_finished(ticket),
{
    let node = ticket.effect.0;
    let left = model.ended();
    let cleared = left.with_effect(
        node,
        EffectRecord { rerun_after_current: false, ..left.effect(node) },
    );
    requests_are_unheard(cleared, node);
}

proof fn retiring_is_unheard(model: ReactorModel, node: u64)
    ensures
        model.effect_retired(node).unheard() == model.unheard().effect_retired(node),
{
}

} // verus!
