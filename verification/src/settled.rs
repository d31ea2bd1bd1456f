//! What a flush leaves behind: effects that saw everything as it is now.
//!
//! An effect that listens and counts as up to date saw the current version of everything that its
//! last run read, and every computed node among that counts as up to date as well. Only an effect
//! in the middle of a turn may be behind: its pending run is used up, and it has neither found its
//! dependencies unchanged nor started to read them afresh. A turn that is broken off at that point,
//! by a cleanup that panics or by the divergence guard, leaves its effect behind until it is marked
//! again. This module states that property of a whole reactor and proves that each step keeps it.
use vstd::prelude::*;

use crate::diagnostics::NodeKind;
use crate::effect::RunTicket;
use crate::id::Location;
use crate::model::ReactorModel;
use crate::observers::{Delivery, State};
use crate::refresh::{RefreshModel, RefreshStep};
use crate::tracking::Tracking;

verus! {

impl ReactorModel {
    /// `effect` is an effect that marks reach, that counts as up to date and that is not `behind`.
    pub open spec fn rests(self, effect: u64, behind: Set<u64>) -> bool {
        &&& crate::observers::listens(self.observers, effect)
        &&& self.observers[effect].effect is Some
        &&& self.observers[effect].state is Clean
        &&& !behind.contains(effect)
    }

    /// Every effect that counts as up to date, and is not `behind`, saw everything it read as it is
    /// now.
    pub open spec fn settled(self, behind: Set<u64>) -> bool {
        forall|effect: u64, node: u64| #![trigger self.graph.observes(effect, node)]
            self.graph.observes(effect, node) && self.rests(effect, behind) ==> self.sees(
                effect,
                node,
            )
    }

    /// No effect that depends on `node` counts as up to date, unless it is `behind`.
    pub open spec fn nobody_rests_on(self, node: u64, behind: Set<u64>) -> bool {
        forall|effect: u64| #![trigger self.graph.observes(effect, node)]
            self.graph.observes(effect, node) ==> !self.rests(effect, behind)
    }
}

/// Once a flush ran to its end, so that the queue is empty, every effect that the flush serves saw
/// everything it read as it is now: nothing that changed was missed. Effects in a consumer's lane
/// have their turn when the consumer gives it to them, and one that is still running, or was left
/// behind, is not done.
pub proof fn completed_flushes_leave_effects_settled(
    model: ReactorModel,
    behind: Set<u64>,
    effect: u64,
)
    requires
        model.settled(behind),
        model.all_accounted(),
        model.runs_are_queued(None),
        model.jobs.len() == 0,
        model.is_effect(effect),
        model.observers[effect].registered,
        !model.effect(effect).disposed,
        !model.effect(effect).external,
        !model.effect(effect).rerun_after_current,
        !behind.contains(effect),
    ensures
        model.observers[effect].state is Clean,
        model.saw_the_present(effect),
{
    assert(model.accounted(effect));
    assert(model.run_is_queued(effect, None));
    assert(model.rests(effect, behind));
    assert forall|input: u64| #[trigger] model.graph.observes(effect, input) implies model.sees(
        effect,
        input,
    ) by {}
}

/// A step that leaves edges and versions alone, makes no effect look more up to date and no node
/// less, keeps effects settled.
proof fn quiet_steps_keep_effects_settled(
    before: ReactorModel,
    after: ReactorModel,
    behind: Set<u64>,
    later: Set<u64>,
)
    requires
        before.settled(behind),
        after.graph.edges == before.graph.edges,
        after.graph.nodes == before.graph.nodes,
        forall|node: u64| before.current(node) ==> #[trigger] after.current(node),
        forall|effect: u64| #[trigger]
            after.rests(effect, later) ==> before.rests(effect, behind) || before.saw_the_present(
                effect,
            ),
    ensures
        after.settled(later),
{
    assert forall|effect: u64, node: u64| #![trigger after.graph.observes(effect, node)]
        after.graph.observes(effect, node) && after.rests(effect, later) implies after.sees(
        effect,
        node,
    ) by {
        assert(before.graph.observes(effect, node));
        assert(before.sees(effect, node));
        assert(after.graph.version(node) == before.graph.version(node));
        assert(after.current(node));
    }
}

/// Being settled depends on the graph and on staleness alone.
proof fn settled_depends_on_staleness(left: ReactorModel, right: ReactorModel, behind: Set<u64>)
    requires
        left.settled(behind),
        left.graph == right.graph,
        crate::coherence::same_staleness(left.observers, right.observers),
    ensures
        right.settled(behind),
{
    assert forall|node: u64| left.current(node) implies #[trigger] right.current(node) by {
        if crate::observers::listens(right.observers, node) {
            assert(left.observers[node].state == right.observers[node].state);
        }
    }
    assert forall|effect: u64| #[trigger] right.rests(effect, behind) implies left.rests(
        effect,
        behind,
    ) by {
        assert(left.observers[effect].state == right.observers[effect].state);
    }
    quiet_steps_keep_effects_settled(left, right, behind, behind);
}

/// A write keeps effects settled: whoever could have seen the old value is stale afterwards.
pub proof fn write_keeps_effects_settled(
    model: ReactorModel,
    node: u64,
    write_origin: Location,
    log: Seq<Delivery>,
    behind: Set<u64>,
)
    requires
        model.settled(behind),
        crate::observers::propagation(model.graph, model.observers, node, log),
    ensures
        model.triggered(node, write_origin, log).settled(behind),
        model.write_suppressed(node, write_origin).settled(behind),
{
    let written = model.written(node, write_origin);
    let marked = ReactorModel {
        observers: crate::observers::delivered(model.observers, log),
        ..written
    };
    let cause = ReactorModel { graph: model.graph.bumped(node), ..model }.write_cause(
        node,
        write_origin,
    );
    reveal(crate::observers::propagates);
    assert(marked.graph == model.graph.bumped(node));
    assert(marked.settled(behind)) by {
        assert forall|effect: u64, other: u64| #![trigger marked.graph.observes(effect, other)]
            marked.graph.observes(effect, other) && marked.rests(effect, behind) implies
                marked.sees(effect, other) by {
            assert(model.graph.observes(effect, other));
            crate::observers::marks_only_raise_states(model.observers, log, effect);
            crate::observers::marks_only_raise_states(model.observers, log, other);
            assert(model.rests(effect, behind));
            assert(model.sees(effect, other));
            if crate::observers::listens(model.observers, other)
                && model.observers[other].effect is None {
                crate::observers::write_keeps_observer_stale(
                    model.graph,
                    model.observers,
                    node,
                    log,
                    effect,
                    other,
                );
            }
            if other == node {
                crate::observers::write_dirties_direct_observers(
                    model.graph,
                    model.observers,
                    node,
                    log,
                    effect,
                );
            }
        }
    }
    crate::coherence::receiving_keeps_staleness(marked, log, cause);
    settled_depends_on_staleness(marked, marked.received_all(log, cause), behind);
    settled_depends_on_staleness(model, model.write_suppressed(node, write_origin), behind);
}

/// A tracked read of a node that holds its current value keeps effects settled, those that read
/// among them.
pub proof fn reads_keep_effects_settled(
    model: ReactorModel,
    tracking: Tracking,
    node: u64,
    behind: Set<u64>,
)
    requires
        model.settled(behind),
        model.current(node),
    ensures
        model.read(tracking, node).settled(behind),
{
    let after = model.read(tracking, node);
    assert forall|effect: u64, other: u64| #![trigger after.graph.observes(effect, other)]
        after.graph.observes(effect, other) && after.rests(effect, behind) implies after.sees(
        effect,
        other,
    ) by {
        assert(after.observers == model.observers);
        assert(model.rests(effect, behind));
        if model.graph.observes(effect, other) {
            assert(model.sees(effect, other));
        }
    }
}

/// An effect that starts to run is no longer behind: what it had read is forgotten. The others stay
/// settled.
pub proof fn starting_keeps_effects_settled(
    model: ReactorModel,
    observer: u64,
    lost: Seq<u64>,
    behind: Set<u64>,
)
    requires
        model.settled(behind),
    ensures
        model.forgotten(observer, lost).settled(behind.remove(observer)),
        model.started(observer, lost).settled(behind.remove(observer)),
{
    crate::reactor::forgetting_keeps_the_rest(model, observer, lost);
    let after = model.started(observer, lost);
    let forgotten = model.forgotten(observer, lost);
    assert forall|effect: u64, node: u64| #![trigger forgotten.graph.observes(effect, node)]
        forgotten.graph.observes(effect, node) && forgotten.rests(
            effect,
            behind.remove(observer),
        ) implies forgotten.sees(effect, node) by {
        assert(model.graph.observes(effect, node));
        assert(effect != observer);
        assert(model.rests(effect, behind));
        assert(model.sees(effect, node));
    }
    assert forall|effect: u64, node: u64| #![trigger after.graph.observes(effect, node)]
        after.graph.observes(effect, node) && after.rests(effect, behind.remove(observer)) implies
            after.sees(effect, node) by {
        assert(forgotten.graph.observes(effect, node));
        assert(forgotten.rests(effect, behind.remove(observer)));
        assert(forgotten.sees(effect, node));
    }
}

/// Giving an effect its turn leaves the others settled; the effect is behind until it starts to run
/// or finds its dependencies unchanged. One that was up to date is let off and stays settled.
pub proof fn turns_keep_effects_settled(
    model: ReactorModel,
    node: u64,
    changed: bool,
    behind: Set<u64>,
)
    requires
        model.settled(behind),
        model.is_effect(node),
    ensures
        model.turn(node).0.settled(behind.insert(node)),
        model.observers[node].state is Clean ==> model.turn(node).0.settled(behind),
        model.turn_resumed(node, changed).0.settled(behind),
        model.saw_the_present(node) ==> model.turn_resumed(node, false).0.settled(
            behind.remove(node),
        ),
        model.turn_failed(node).settled(behind),
        !model.effect(node).disposed ==> model.turn_failed(node).settled(behind.remove(node)),
{
    let turned = model.turn(node).0;
    turning_changes_one_state(model, node);
    assert forall|other: u64| model.current(other) implies #[trigger] turned.current(other) by {}
    assert forall|effect: u64| #[trigger] turned.rests(
        effect,
        behind.insert(node),
    ) implies model.rests(effect, behind) by {}
    quiet_steps_keep_effects_settled(model, turned, behind, behind.insert(node));
    if model.observers[node].state is Clean {
        assert forall|effect: u64| #[trigger] turned.rests(effect, behind) implies model.rests(
            effect,
            behind,
        ) by {}
        quiet_steps_keep_effects_settled(model, turned, behind, behind);
    }
    resuming_changes_no_state(model, node, changed);
    resuming_changes_no_state(model, node, false);
    settled_depends_on_staleness(model, model.turn_resumed(node, changed).0, behind);
    let skipped = model.turn_resumed(node, false).0;
    if model.saw_the_present(node) {
        assert forall|other: u64| model.current(other) implies #[trigger] skipped.current(
            other,
        ) by {
            if crate::observers::listens(skipped.observers, other) {
                assert(model.observers[other].state == skipped.observers[other].state);
            }
        }
        assert forall|effect: u64| #[trigger]
            skipped.rests(effect, behind.remove(node)) implies model.rests(effect, behind)
            || model.saw_the_present(effect) by {
            assert(model.observers[effect].state == skipped.observers[effect].state);
        }
        quiet_steps_keep_effects_settled(model, skipped, behind, behind.remove(node));
    }
    let failed = model.turn_failed(node);
    if !model.effect(node).disposed {
        let dirty = model.with_state(node, State::Dirty);
        assert forall|other: u64| model.current(other) implies #[trigger] dirty.current(other) by {}
        assert forall|effect: u64| #[trigger]
            dirty.rests(effect, behind.remove(node)) implies model.rests(effect, behind) by {}
        quiet_steps_keep_effects_settled(model, dirty, behind, behind.remove(node));
        crate::coherence::requesting_keeps_staleness(dirty, node);
        settled_depends_on_staleness(dirty, failed, behind.remove(node));
        assert(failed.settled(behind)) by {
            assert forall|effect: u64| #[trigger]
                failed.rests(effect, behind) implies failed.rests(effect, behind.remove(node)) by {}
            quiet_steps_keep_effects_settled(failed, failed, behind.remove(node), behind);
        }
    }
}

proof fn turning_changes_one_state(model: ReactorModel, node: u64)
    requires
        model.is_effect(node),
    ensures
        ({
            let after = model.turn(node).0;
            &&& after.graph == model.graph
            &&& after.observers.dom() == model.observers.dom()
            &&& forall|other: u64| #![trigger after.observers[other]]
                model.observers.contains_key(other) ==> {
                    &&& after.observers[other].registered == model.observers[other].registered
                    &&& after.observers[other].effect is None
                        == model.observers[other].effect is None
                    &&& other != node || model.observers[node].state is Clean
                        ==> after.observers[other].state == model.observers[other].state
                }
        }),
{
    let after = model.turn(node).0;
    assert(after.observers.dom() =~= model.observers.dom());
}

proof fn resuming_changes_no_state(model: ReactorModel, node: u64, changed: bool)
    requires
        model.is_effect(node),
    ensures
        model.turn_resumed(node, changed).0.graph == model.graph,
        crate::coherence::same_staleness(
            model.observers,
            model.turn_resumed(node, changed).0.observers,
        ),
{
    let after = model.turn_resumed(node, changed).0;
    assert(after.observers.dom() =~= model.observers.dom());
}

/// The end of a run, one way or another, keeps effects settled, and so does the end of an effect.
pub proof fn endings_keep_effects_settled(
    model: ReactorModel,
    ticket: RunTicket,
    behind: Set<u64>,
)
    requires
        model.settled(behind),
        model.is_effect(ticket.effect.0),
    ensures
        model.ended().settled(behind),
        model.run_finished(ticket).settled(behind),
        model.run_closed(ticket).settled(behind),
        model.effect_retired(ticket.effect.0).settled(behind),
{
    let node = ticket.effect.0;
    let left = model.ended();
    assert forall|effect: u64| #[trigger] left.rests(effect, behind) implies model.rests(
        effect,
        behind,
    ) by {}
    assert forall|other: u64| model.current(other) implies #[trigger] left.current(other) by {}
    quiet_steps_keep_effects_settled(model, left, behind, behind);
    let closed = model.run_closed(ticket);
    assert(closed.observers.dom() =~= model.observers.dom());
    settled_depends_on_staleness(model, closed, behind);
    let retired = model.effect_retired(node);
    assert(retired.observers.dom() =~= model.observers.dom());
    settled_depends_on_staleness(model, retired, behind);
    let cleared = left.with_effect(
        node,
        crate::observers::EffectRecord { rerun_after_current: false, ..left.effect(node) },
    );
    assert(cleared.observers.dom() =~= left.observers.dom());
    settled_depends_on_staleness(left, cleared, behind);
    crate::coherence::requesting_keeps_staleness(cleared, node);
    settled_depends_on_staleness(cleared, cleared.requested(node), behind);
    let asked = if left.effect(node).rerun_after_current && !left.effect(node).disposed {
        cleared.requested(node)
    } else {
        cleared
    };
    let finished = model.run_finished(ticket);
    assert(finished == asked.run_closed(ticket));
    assert(asked.is_effect(node));
    assert(finished.observers.dom() =~= asked.observers.dom());
    settled_depends_on_staleness(asked, finished, behind);
}

/// The steps of a refresh keep effects settled: it lets computed nodes count as up to date, and no
/// effect.
pub proof fn refreshes_keep_effects_settled(
    refresh: RefreshModel,
    reactor: ReactorModel,
    after: RefreshModel,
    reactor_after: ReactorModel,
    step: RefreshStep,
    behind: Set<u64>,
)
    requires
        reactor.settled(behind),
        refresh.wf(),
        refresh.sound(reactor),
        refresh.advances(reactor, after, reactor_after, step),
    ensures
        reactor_after.settled(behind),
{
    assert(reactor_after.graph == reactor.graph);
    if refresh.stage is Scan && refresh.top().left() == 0 && !refresh.at_effect() {
        let last = refresh.frames.len() - 1;
        assert(refresh.frames[last] == refresh.top());
        assert(!refresh.is_effect_at(last));
        assert(reactor.is_computed(refresh.top().observer));
    }
    assert forall|node: u64| reactor.current(node) implies #[trigger] reactor_after.current(
        node,
    ) by {}
    assert forall|effect: u64| #[trigger] reactor_after.rests(effect, behind) implies reactor.rests(
        effect,
        behind,
    ) by {}
    quiet_steps_keep_effects_settled(reactor, reactor_after, behind, behind);
}

/// A recomputation that was asked for keeps effects settled, from its start to its end, whether it
/// succeeds or fails: no effect that depends on the node counted as up to date, and none came to
/// while the computation left the others alone.
pub proof fn recomputations_keep_effects_settled(
    asked: ReactorModel,
    computed: ReactorModel,
    node: u64,
    lost: Seq<u64>,
    changed: bool,
    behind: Set<u64>,
)
    requires
        asked.settled(behind),
        asked.is_computed(node),
        crate::observers::listens(asked.observers, node),
        !(asked.observers[node].state is Clean),
        asked.recompute_started(node, lost).leaves_others_alone(computed, node),
        computed.settled(behind),
        computed.is_computed(node),
    ensures
        asked.recompute_started(node, lost).settled(behind),
        computed.ended().published(node, changed).settled(behind),
        computed.recompute_failed(node).settled(behind),
{
    let started = asked.recompute_started(node, lost);
    crate::coherence::recompute_start_parts(asked, node, lost);
    assert(asked.nobody_rests_on(node, behind)) by {
        assert forall|effect: u64| #![trigger asked.graph.observes(effect, node)]
            asked.graph.observes(effect, node) implies !asked.rests(effect, behind) by {
            assert(!asked.current(node));
        }
    }
    assert forall|effect: u64, other: u64| #![trigger started.graph.observes(effect, other)]
        started.graph.observes(effect, other) && started.rests(effect, behind) implies
            started.sees(effect, other) by {
        assert(asked.graph.observes(effect, other));
        assert(effect != node);
        assert(asked.rests(effect, behind));
        assert(asked.sees(effect, other));
    }
    let ended = computed.ended();
    let published = ended.published(node, changed);
    let failed = computed.recompute_failed(node);
    assert forall|effect: u64| #![trigger computed.graph.observes(effect, node)]
        computed.graph.observes(effect, node) implies !computed.rests(effect, behind) by {
        if effect != node {
            assert(started.graph.observes(effect, node));
            assert(asked.graph.observes(effect, node));
            assert(computed.observers.contains_key(effect) == started.observers.contains_key(
                effect,
            ));
            assert(started.observers[effect] == asked.observers[effect]);
        }
    }
    assert forall|effect: u64, other: u64| #![trigger published.graph.observes(effect, other)]
        published.graph.observes(effect, other) && published.rests(effect, behind) implies
            published.sees(effect, other) by {
        assert(computed.graph.observes(effect, other));
        assert(computed.rests(effect, behind));
        assert(computed.sees(effect, other));
        assert(other != node);
    }
    assert forall|effect: u64, other: u64| #![trigger failed.graph.observes(effect, other)]
        failed.graph.observes(effect, other) && failed.rests(effect, behind) implies failed.sees(
        effect,
        other,
    ) by {
        assert(computed.graph.observes(effect, other));
        assert(effect != node);
        assert(computed.rests(effect, behind));
        assert(computed.sees(effect, other));
        assert(other != node);
    }
}

/// A reactor starts settled, and nodes come and go without an effect being left behind. A new
/// effect has not run yet, so it does not count as up to date.
pub proof fn lifecycles_keep_effects_settled(
    id: crate::diagnostics::ReactorId,
    model: ReactorModel,
    kind: NodeKind,
    external: bool,
    owner: u64,
    origin: Location,
    node: u64,
    lost: Seq<u64>,
    behind: Set<u64>,
)
    requires
        model.settled(behind),
        forall|observer: u64| !#[trigger] model.graph.observes(observer, model.graph.next_node),
        !model.graph.nodes.contains_key(model.graph.next_node),
    ensures
        ReactorModel::fresh(id).settled(Set::empty()),
        model.created(kind, origin).settled(behind),
        model.computed_created(kind, origin).settled(behind),
        model.effect_created(external, owner, origin).settled(behind),
        model.disposed(node, lost).settled(behind),
        model.effect_unhooked(node, lost).settled(behind),
        model.computed_released(node, lost).settled(behind),
{
    let created = model.created(kind, origin);
    let computed = model.computed_created(kind, origin);
    let effected = model.effect_created(external, owner, origin);
    assert forall|effect: u64, other: u64| #![trigger created.graph.observes(effect, other)]
        created.graph.observes(effect, other) && created.rests(effect, behind) implies
            created.sees(effect, other) by {
        assert(model.graph.observes(effect, other));
        assert(model.rests(effect, behind));
        assert(model.sees(effect, other));
    }
    assert forall|effect: u64, other: u64| #![trigger computed.graph.observes(effect, other)]
        computed.graph.observes(effect, other) && computed.rests(effect, behind) implies
            computed.sees(effect, other) by {
        assert(model.graph.observes(effect, other));
        assert(model.rests(effect, behind));
        assert(model.sees(effect, other));
    }
    assert forall|effect: u64, other: u64| #![trigger effected.graph.observes(effect, other)]
        effected.graph.observes(effect, other) && effected.rests(effect, behind) implies
            effected.sees(effect, other) by {
        assert(model.graph.observes(effect, other));
        assert(model.rests(effect, behind));
        assert(model.sees(effect, other));
    }
    disposal_keeps_effects_settled(model, node, lost, behind);
    let silent = model.unregistered(node);
    assert forall|other: u64| model.current(other) implies #[trigger] silent.current(other) by {}
    assert forall|effect: u64| #[trigger] silent.rests(effect, behind) implies model.rests(
        effect,
        behind,
    ) by {}
    quiet_steps_keep_effects_settled(model, silent, behind, behind);
    disposal_keeps_effects_settled(silent, node, lost, behind);
    let unhooked = silent.disposed(node, lost);
    let released = model.computed_released(node, lost);
    assert forall|other: u64| unhooked.current(other) implies #[trigger] released.current(
        other,
    ) by {}
    assert forall|effect: u64| #[trigger] released.rests(effect, behind) implies unhooked.rests(
        effect,
        behind,
    ) by {}
    quiet_steps_keep_effects_settled(unhooked, released, behind, behind);
}

proof fn disposal_keeps_effects_settled(
    model: ReactorModel,
    node: u64,
    lost: Seq<u64>,
    behind: Set<u64>,
)
    requires
        model.settled(behind),
    ensures
        model.disposed(node, lost).settled(behind),
{
    crate::reactor::forgetting_keeps_the_rest(model, node, lost);
    crate::reactor::disposal_keeps_observers(model, node, lost);
    let after = model.disposed(node, lost);
    assert(after.graph == model.graph.forgetting(node).unobserving(node).without_node(node));
    assert forall|effect: u64, other: u64| #![trigger after.graph.observes(effect, other)]
        after.graph.observes(effect, other) && after.rests(effect, behind) implies after.sees(
        effect,
        other,
    ) by {
        assert(model.graph.observes(effect, other));
        assert(other != node && effect != node);
        assert(model.rests(effect, behind));
        assert(model.sees(effect, other));
    }
}

} // verus!
