//! What a refresh establishes: it never takes for current what is not.
//!
//! A refresh compares recorded versions with present ones, which tells something only of
//! dependencies that hold their current value. This module states that every dependency is
//! brought up to date before it is compared, and draws the conclusions: what a refresh counts as up
//! to date is up to date, an effect is let off only where it saw everything as it is now, and a
//! recomputation is asked for only where nobody who depends on the node counts as up to date.
use vstd::prelude::*;

use crate::graph::RecordedDependency;
use crate::model::ReactorModel;
use crate::observers::State;
use crate::refresh::{RefreshModel, RefreshStep, Stage, VerifyingModel};
use crate::tracking::Tracking;

verus! {

impl VerifyingModel {
    /// The observer compares what it recorded, and saw what it passed so far as it is now.
    pub open spec fn sound(self, reactor: ReactorModel) -> bool {
        &&& crate::graph::lists_inputs(self.recorded, reactor.graph.inputs(self.observer))
        &&& forall|at: int| #![trigger self.recorded[at]]
            0 <= at < self.next ==> reactor.sees(self.observer, self.recorded[at].node.0)
    }
}

impl RefreshModel {
    /// The observer at a place is the effect that the refresh is for.
    pub open spec fn is_effect_at(self, at: int) -> bool {
        self.for_effect && at == 0
    }

    /// Every observer saw what it passed so far as it is now, and each one inside another is the
    /// dependency that the other waits for. The observers are distinct and, but for the effect,
    /// computed nodes that do not count as up to date.
    pub open spec fn frames_sound(self, reactor: ReactorModel) -> bool {
        &&& forall|at: int| #![trigger self.frames[at]]
            0 <= at < self.frames.len() ==> self.frames[at].sound(reactor)
        &&& forall|at: int| #![trigger self.frames[at]]
            0 < at < self.frames.len() ==> self.frames[at].observer == self.frames[at
                - 1].recorded[self.frames[at - 1].next as int].node.0
        &&& forall|at: int| #![trigger self.frames[at]]
            0 <= at < self.frames.len() && !self.is_effect_at(at) ==> reactor.is_computed(
                self.frames[at].observer,
            ) && !(reactor.observers[self.frames[at].observer].state is Clean)
        &&& forall|at: int, later: int| #![trigger self.frames[at], self.frames[later]]
            0 <= at < later < self.frames.len() ==> self.frames[at].observer
                != self.frames[later].observer
        &&& self.for_effect ==> self.frames.len() > 0
    }

    /// A refresh that can be relied upon: what it passed so far is as it was seen, a node that it is
    /// about to visit is the dependency that is compared next, and a dependency that it is about to
    /// compare holds its current value.
    pub open spec fn sound(self, reactor: ReactorModel) -> bool {
        &&& self.frames_sound(reactor)
        &&& self.frames.len() > 0 ==> match self.stage {
            Stage::Visit(node) => node == self.entry().node,
            Stage::Settled => reactor.current(self.entry().node.0),
            Stage::Scan => true,
        }
    }

    /// A refresh that can be relied upon as soon as `node` was recomputed, for which it waits.
    pub open spec fn awaits(self, reactor: ReactorModel, node: u64) -> bool {
        &&& self.frames_sound(reactor)
        &&& self.stage is Settled
        &&& self.frames.len() > 0 ==> self.entry().node.0 == node
    }
}

impl ReactorModel {
    /// `observer` saw everything that it recorded as it is now.
    pub open spec fn saw_the_present(self, observer: u64) -> bool {
        forall|input: u64| #[trigger]
            self.graph.observes(observer, input) ==> self.sees(observer, input)
    }

    /// Something that `observer` recorded holds its current value, and that is another than the one
    /// it saw.
    pub open spec fn saw_the_past(self, observer: u64) -> bool {
        exists|input: u64| #[trigger]
            self.graph.observes(observer, input) && self.current(input)
                && self.graph.edges[(observer, input)] != self.graph.version(input)
    }

    /// `after` differs only in what concerns `node`: the other nodes have the versions, the edges
    /// and the staleness they had.
    pub open spec fn leaves_others_alone(self, after: ReactorModel, node: u64) -> bool {
        &&& forall|other: u64| #![trigger after.graph.version(other)]
            other != node ==> after.graph.version(other) == self.graph.version(other)
        &&& forall|other: u64, input: u64| #![trigger after.graph.observes(other, input)]
            other != node ==> {
                &&& after.graph.observes(other, input) == self.graph.observes(other, input)
                &&& after.graph.observes(other, input) ==> after.graph.edges[(other, input)]
                    == self.graph.edges[(other, input)]
            }
        &&& forall|other: u64| #![trigger after.observers.contains_key(other)]
            #![trigger after.observers[other]]
            other != node ==> {
                &&& after.observers.contains_key(other) == self.observers.contains_key(other)
                &&& after.observers.contains_key(other) ==> {
                    &&& after.observers[other].state == self.observers[other].state
                    &&& after.observers[other].registered == self.observers[other].registered
                    &&& after.observers[other].effect is None == self.observers[other].effect is None
                }
            }
    }
}

/// What a step of a refresh promises, given that the refresh and the reactor were in order before:
/// they still are; an effect is told that nothing changed only where it saw everything as it is now,
/// and that something changed only where that is so; and where a node is to be recomputed, nobody
/// who depends on it counts as up to date, and the refresh waits for it.
pub open spec fn step_is_sound(
    refresh: RefreshModel,
    reactor: ReactorModel,
    after: RefreshModel,
    reactor_after: ReactorModel,
    step: RefreshStep,
) -> bool {
    &&& reactor_after.up_to_date()
    &&& match step {
        RefreshStep::Continue => after.sound(reactor_after),
        RefreshStep::Recompute(node) => {
            &&& reactor.is_computed(node.0)
            &&& !(reactor.observers[node.0].state is Clean)
            &&& crate::observers::listens(reactor.observers, node.0)
                ==> reactor_after.dependents_stale(node.0)
            &&& after.awaits(reactor_after, node.0)
            &&& after.verifies(node.0) ==> reactor.observers[node.0].state is Dirty
        },
        RefreshStep::Verified(changed) => if changed {
            reactor.saw_the_past(refresh.top().observer)
        } else {
            reactor.saw_the_present(refresh.top().observer)
        },
        RefreshStep::Done | RefreshStep::Cycle(_) => after.sound(reactor_after),
    }
}

/// A refresh keeps readers up to date: each of its steps, taken in order, keeps its promises. In
/// particular a dependency is brought up to date before its version is compared, so that no value
/// counts as up to date next to one that is not.
pub proof fn refresh_keeps_up_to_date(
    refresh: RefreshModel,
    reactor: ReactorModel,
    after: RefreshModel,
    reactor_after: ReactorModel,
    step: RefreshStep,
)
    requires
        refresh.wf(),
        refresh.sound(reactor),
        reactor.up_to_date(),
        refresh.advances(reactor, after, reactor_after, step),
    ensures
        step_is_sound(refresh, reactor, after, reactor_after, step),
{
    match refresh.stage {
        Stage::Visit(node) => visits_are_sound(refresh, reactor, after, node.0, step),
        Stage::Settled => comparisons_are_sound(refresh, reactor, after, reactor_after, step),
        Stage::Scan => scans_are_sound(refresh, reactor, after, reactor_after, step),
    }
}

/// Nobody who counts as up to date depends on a computed node that does not.
proof fn stale_nodes_have_stale_dependents(reactor: ReactorModel, node: u64)
    requires
        reactor.up_to_date(),
        reactor.is_computed(node),
        !(reactor.observers[node].state is Clean),
        crate::observers::listens(reactor.observers, node),
    ensures
        reactor.dependents_stale(node),
{
    assert forall|observer: u64| #![trigger reactor.graph.observes(observer, node)]
        reactor.graph.observes(observer, node) implies !reactor.counts_as_fresh(observer) by {
        if reactor.counts_as_fresh(observer) {
            assert(reactor.sees(observer, node));
        }
    }
}

proof fn visits_are_sound(
    refresh: RefreshModel,
    reactor: ReactorModel,
    after: RefreshModel,
    node: u64,
    step: RefreshStep,
)
    requires
        refresh.wf(),
        refresh.sound(reactor),
        reactor.up_to_date(),
        refresh.stage == Stage::Visit(crate::id::NodeId(node)),
        refresh.visits(reactor, node, after, step),
    ensures
        step_is_sound(refresh, reactor, after, reactor, step),
{
    if !refresh.concerns(reactor, node) {
    } else {
        match reactor.observers[node].state {
            State::Clean => {},
            State::Dirty => {
                if crate::observers::listens(reactor.observers, node) {
                    stale_nodes_have_stale_dependents(reactor, node);
                }
            },
            State::Check => {
                if !refresh.verifies(node) {
                    let list = choose|list: Seq<RecordedDependency>|
                        crate::graph::lists_inputs(list, reactor.graph.inputs(node)) && after
                            == #[trigger] refresh.pushed(node, list);
                    let depth = refresh.frames.len();
                    assert(after.frames[depth as int].observer == node);
                    assert(after.frames[depth as int].sound(reactor));
                    assert forall|at: int| #![trigger after.frames[at]]
                        0 <= at < after.frames.len() implies after.frames[at].sound(reactor) by {
                        if at < depth {
                            assert(after.frames[at] == refresh.frames[at]);
                        }
                    }
                    assert forall|at: int| #![trigger after.frames[at]]
                        0 < at < after.frames.len() implies after.frames[at].observer
                        == after.frames[at - 1].recorded[after.frames[at - 1].next as int].node.0 by {
                        assert(after.frames[at - 1] == refresh.frames[at - 1]);
                        if at < depth {
                            assert(after.frames[at] == refresh.frames[at]);
                        }
                    }
                    assert forall|at: int| #![trigger after.frames[at]]
                        0 <= at < after.frames.len() && !after.is_effect_at(at) implies
                            reactor.is_computed(after.frames[at].observer) && !(reactor.observers[
                        after.frames[at].observer].state is Clean) by {
                        if at < depth {
                            assert(after.frames[at] == refresh.frames[at]);
                            assert(!refresh.is_effect_at(at));
                        }
                    }
                    assert forall|at: int, later: int|
                        #![trigger after.frames[at], after.frames[later]]
                        0 <= at < later < after.frames.len() implies after.frames[at].observer
                        != after.frames[later].observer by {
                        assert(after.frames[at] == refresh.frames[at]);
                        if later < depth {
                            assert(after.frames[later] == refresh.frames[later]);
                        } else {
                            assert(refresh.frames[at].observer != node);
                        }
                    }
                }
            },
        }
    }
}

/// Letting the innermost observer go leaves the others as they were, where they do not depend on
/// what changed meanwhile.
proof fn popping_is_sound(refresh: RefreshModel, reactor: ReactorModel, reactor_after: ReactorModel)
    requires
        refresh.wf(),
        refresh.frames.len() > 0,
        !refresh.at_effect(),
        refresh.frames_sound(reactor),
        reactor_after.graph == reactor.graph,
        reactor.observers.contains_key(refresh.top().observer),
        reactor_after.observers == reactor.observers || reactor_after.observers
            == reactor.with_state(refresh.top().observer, State::Clean).observers,
    ensures
        refresh.popped().frames_sound(reactor_after),
        refresh.popped().frames.len() > 0 ==> refresh.popped().entry().node.0
            == refresh.top().observer,
        !refresh.popped().verifies(refresh.top().observer),
{
    let popped = refresh.popped();
    let last = refresh.frames.len() - 1;
    let node = refresh.top().observer;
    assert(refresh.frames[last].observer == node);
    assert forall|at: int| #![trigger popped.frames[at]]
        0 <= at < popped.frames.len() implies popped.frames[at].sound(reactor_after) by {
        assert(popped.frames[at] == refresh.frames[at]);
        let frame = refresh.frames[at];
        assert(frame.sound(reactor));
        assert forall|k: int| #![trigger frame.recorded[k]]
            0 <= k < frame.next implies reactor_after.sees(
            frame.observer,
            frame.recorded[k].node.0,
        ) by {
            assert(reactor.sees(frame.observer, frame.recorded[k].node.0));
        }
    }
    assert forall|at: int| #![trigger popped.frames[at]]
        0 < at < popped.frames.len() implies popped.frames[at].observer == popped.frames[at
        - 1].recorded[popped.frames[at - 1].next as int].node.0 by {
        assert(popped.frames[at] == refresh.frames[at]);
        assert(popped.frames[at - 1] == refresh.frames[at - 1]);
    }
    assert forall|at: int| #![trigger popped.frames[at]]
        0 <= at < popped.frames.len() implies popped.frames[at].observer != node by {
        assert(popped.frames[at] == refresh.frames[at]);
    }
    assert forall|at: int| #![trigger popped.frames[at]]
        0 <= at < popped.frames.len() && !popped.is_effect_at(at) implies
            reactor_after.is_computed(popped.frames[at].observer) && !(reactor_after.observers[
    popped.frames[at].observer].state is Clean) by {
        assert(popped.frames[at] == refresh.frames[at]);
        assert(!refresh.is_effect_at(at));
    }
    assert forall|at: int, later: int| #![trigger popped.frames[at], popped.frames[later]]
        0 <= at < later < popped.frames.len() implies popped.frames[at].observer
        != popped.frames[later].observer by {
        assert(popped.frames[at] == refresh.frames[at]);
        assert(popped.frames[later] == refresh.frames[later]);
    }
    if popped.frames.len() > 0 {
        assert(popped.top() == refresh.frames[last - 1]);
    }
}

proof fn comparisons_are_sound(
    refresh: RefreshModel,
    reactor: ReactorModel,
    after: RefreshModel,
    reactor_after: ReactorModel,
    step: RefreshStep,
)
    requires
        refresh.wf(),
        refresh.sound(reactor),
        reactor.up_to_date(),
        refresh.stage is Settled,
        refresh.compares(reactor, after, reactor_after, step),
    ensures
        step_is_sound(refresh, reactor, after, reactor_after, step),
{
    if refresh.frames.len() > 0 {
        let last = refresh.frames.len() - 1;
        let top = refresh.top();
        let entry = refresh.entry();
        assert(refresh.frames[last] == top);
        assert(top.recorded[top.next as int] == entry);
        assert(reactor.graph.inputs(top.observer).contains_pair(entry.node.0, entry.version));
        assert(reactor.graph.observes(top.observer, entry.node.0));
        if reactor.graph.version(entry.node.0) == entry.version {
            assert(reactor.sees(top.observer, entry.node.0));
            assert(after.frames[last].sound(reactor));
            assert forall|at: int| #![trigger after.frames[at]]
                0 <= at < after.frames.len() implies after.frames[at].sound(reactor) by {
                if at < last {
                    assert(after.frames[at] == refresh.frames[at]);
                }
            }
            assert forall|at: int| #![trigger after.frames[at]]
                0 < at < after.frames.len() implies after.frames[at].observer == after.frames[at
                - 1].recorded[after.frames[at - 1].next as int].node.0 by {
                assert(after.frames[at].observer == refresh.frames[at].observer);
                assert(after.frames[at - 1] == refresh.frames[at - 1]);
            }
            assert forall|at: int| #![trigger after.frames[at]]
                0 <= at < after.frames.len() && !after.is_effect_at(at) implies
                    reactor.is_computed(after.frames[at].observer) && !(reactor.observers[
            after.frames[at].observer].state is Clean) by {
                assert(after.frames[at].observer == refresh.frames[at].observer);
                assert(!refresh.is_effect_at(at));
            }
            assert forall|at: int, later: int| #![trigger after.frames[at], after.frames[later]]
                0 <= at < later < after.frames.len() implies after.frames[at].observer
                != after.frames[later].observer by {
                assert(after.frames[at].observer == refresh.frames[at].observer);
                assert(after.frames[later].observer == refresh.frames[later].observer);
            }
        } else if !refresh.at_effect() {
            let node = top.observer;
            assert(!refresh.is_effect_at(last));
            assert(reactor_after.graph == reactor.graph);
            assert(reactor_after.observers == reactor.observers);
            popping_is_sound(refresh, reactor, reactor_after);
            crate::coherence::up_to_date_depends_on_staleness(reactor, reactor_after);
            if crate::observers::listens(reactor.observers, node) {
                stale_nodes_have_stale_dependents(reactor_after, node);
            }
        }
    }
}

/// An observer that passed everything it recorded saw it all as it is now.
proof fn passing_everything_is_seeing_the_present(frame: VerifyingModel, reactor: ReactorModel)
    requires
        frame.sound(reactor),
        frame.wf(),
        frame.left() == 0,
    ensures
        reactor.saw_the_present(frame.observer),
{
    assert forall|input: u64| #[trigger]
        reactor.graph.observes(frame.observer, input) implies reactor.sees(
        frame.observer,
        input,
    ) by {
        assert(reactor.graph.inputs(frame.observer).contains_key(input));
        let at = choose|at: int|
            0 <= at < frame.recorded.len() && #[trigger] frame.recorded[at].node.0 == input;
        assert(reactor.sees(frame.observer, frame.recorded[at].node.0));
    }
}

proof fn scans_are_sound(
    refresh: RefreshModel,
    reactor: ReactorModel,
    after: RefreshModel,
    reactor_after: ReactorModel,
    step: RefreshStep,
)
    requires
        refresh.wf(),
        refresh.sound(reactor),
        reactor.up_to_date(),
        refresh.stage is Scan,
        refresh.scans(reactor, after, reactor_after, step),
    ensures
        step_is_sound(refresh, reactor, after, reactor_after, step),
{
    let last = refresh.frames.len() - 1;
    let top = refresh.top();
    assert(refresh.frames[last] == top);
    if top.left() == 0 {
        passing_everything_is_seeing_the_present(top, reactor);
        if !refresh.at_effect() {
            assert(!refresh.is_effect_at(last));
            assert(reactor_after.graph == reactor.graph);
            assert(reactor_after.observers == reactor.with_state(
                top.observer,
                State::Clean,
            ).observers);
            crate::coherence::settling_keeps_up_to_date(reactor, top.observer);
            popping_is_sound(refresh, reactor, reactor_after);
            assert(reactor_after.current(top.observer));
        }
    }
}

/// A refresh that just started is in order, whatever it is for.
pub proof fn started_refreshes_are_sound(
    reactor: ReactorModel,
    node: crate::id::NodeId,
    list: Seq<RecordedDependency>,
)
    requires
        crate::graph::lists_inputs(list, reactor.graph.inputs(node.0)),
    ensures
        (RefreshModel {
            frames: Seq::empty(),
            stage: Stage::Visit(node),
            for_effect: false,
        }).sound(reactor),
        (RefreshModel {
            frames: Seq::empty(),
            stage: Stage::Scan,
            for_effect: true,
        }).pushed(node.0, list).sound(reactor),
{
}

/// The refresh is in order again when the node it waits for was recomputed: the computation left
/// the other nodes alone, and the node holds its current value now.
pub proof fn recomputation_keeps_refreshes_sound(
    refresh: RefreshModel,
    before: ReactorModel,
    after: ReactorModel,
    node: u64,
)
    requires
        refresh.wf(),
        refresh.awaits(before, node),
        !refresh.verifies(node),
        before.is_computed(node),
        !(before.observers[node].state is Clean),
        refresh.frames.len() > 0 ==> crate::observers::listens(before.observers, node),
        before.leaves_others_alone(after, node),
        after.current(node),
    ensures
        refresh.sound(after),
{
    assert forall|at: int| #![trigger refresh.frames[at]]
        0 <= at < refresh.frames.len() implies refresh.frames[at].observer != node by {}
    assert forall|at: int| #![trigger refresh.frames[at]]
        0 <= at < refresh.frames.len() implies refresh.frames[at].sound(after) by {
        let frame = refresh.frames[at];
        assert(frame.sound(before));
        inputs_are_left_alone(before, after, node, frame.observer);
        assert forall|k: int| #![trigger frame.recorded[k]]
            0 <= k < frame.next implies after.sees(frame.observer, frame.recorded[k].node.0) by {
            let input = frame.recorded[k].node.0;
            assert(before.sees(frame.observer, input));
            assert(before.graph.inputs(frame.observer).contains_pair(
                input,
                frame.recorded[k].version,
            ));
            assert(after.graph.observes(frame.observer, input));
            if input == node {
                assert(!before.current(node));
            }
            assert(after.graph.version(input) == before.graph.version(input));
            assert(after.current(input));
        }
    }
    assert forall|at: int| #![trigger refresh.frames[at]]
        0 <= at < refresh.frames.len() && !refresh.is_effect_at(at) implies after.is_computed(
        refresh.frames[at].observer,
    ) && !(after.observers[refresh.frames[at].observer].state is Clean) by {
        assert(after.observers.contains_key(refresh.frames[at].observer));
    }
}

proof fn inputs_are_left_alone(
    before: ReactorModel,
    after: ReactorModel,
    node: u64,
    observer: u64,
)
    requires
        before.leaves_others_alone(after, node),
        observer != node,
    ensures
        after.graph.inputs(observer) == before.graph.inputs(observer),
{
    assert forall|input: u64|
        after.graph.inputs(observer).contains_key(input) == before.graph.inputs(
            observer,
        ).contains_key(input) by {
        assert(after.graph.observes(observer, input) == before.graph.observes(observer, input));
    }
    assert forall|input: u64| #[trigger]
        after.graph.inputs(observer).contains_key(input) implies after.graph.inputs(observer)[input]
        == before.graph.inputs(observer)[input] by {
        assert(after.graph.observes(observer, input));
    }
    assert(after.graph.inputs(observer) =~= before.graph.inputs(observer));
}

/// What a computation does by itself leaves the other nodes alone: it starts, it reads, it ends, and
/// its result is published. Doing one after the other does so too.
pub proof fn computations_leave_others_alone(
    model: ReactorModel,
    node: u64,
    lost: Seq<u64>,
    tracking: Tracking,
    input: u64,
    changed: bool,
    middle: ReactorModel,
    last: ReactorModel,
)
    ensures
        model.is_computed(node) ==> model.leaves_others_alone(
            model.recompute_started(node, lost),
            node,
        ) && model.recompute_started(node, lost).current(node),
        model.graph.stack.len() > 0 && model.graph.stack.last() == node
            ==> model.leaves_others_alone(model.read(tracking, input), node),
        model.leaves_others_alone(model.ended(), node),
        model.leaves_others_alone(model.published(node, changed), node),
        model.leaves_others_alone(middle, node) && middle.leaves_others_alone(last, node)
            ==> model.leaves_others_alone(last, node),
        model.current(node) ==> model.read(tracking, input).current(node) && model.ended().current(
            node,
        ) && model.published(node, changed).current(node),
{
    crate::coherence::recompute_start_parts(model, node, lost);
    if model.leaves_others_alone(middle, node) && middle.leaves_others_alone(last, node) {
        assert forall|other: u64, input: u64| #![trigger last.graph.observes(other, input)]
            other != node implies last.graph.observes(other, input) == model.graph.observes(
            other,
            input,
        ) && (last.graph.observes(other, input) ==> last.graph.edges[(other, input)]
            == model.graph.edges[(other, input)]) by {
            assert(middle.graph.observes(other, input) == model.graph.observes(other, input));
        }
        assert forall|other: u64| #![trigger last.graph.version(other)]
            other != node implies last.graph.version(other) == model.graph.version(other) by {
            assert(middle.graph.version(other) == model.graph.version(other));
        }
        assert forall|other: u64| #![trigger last.observers[other]]
            #![trigger last.observers.contains_key(other)]
            other != node implies last.observers.contains_key(other) == model.observers.contains_key(
            other,
        ) && (last.observers.contains_key(other) ==> last.observers[other].state
            == model.observers[other].state && last.observers[other].registered
            == model.observers[other].registered && last.observers[other].effect is None
            == model.observers[other].effect is None) by {
            assert(middle.observers.contains_key(other) == model.observers.contains_key(other));
        }
    }
}

/// Nobody who depends on a node comes to count as up to date while the node is computed.
pub proof fn stale_dependents_stay_stale(before: ReactorModel, after: ReactorModel, node: u64)
    requires
        before.dependents_stale(node),
        before.leaves_others_alone(after, node),
        !after.graph.observes(node, node),
    ensures
        after.dependents_stale(node),
{
    assert forall|observer: u64| #![trigger after.graph.observes(observer, node)]
        after.graph.observes(observer, node) implies !after.counts_as_fresh(observer) by {
        assert(before.graph.observes(observer, node));
        assert(after.observers.contains_key(observer) == before.observers.contains_key(observer));
    }
}

/// A recomputation that a refresh asked for keeps the reactor up to date, from its start to its end,
/// whether it succeeds or fails: it left the other nodes alone and read what was up to date, and its
/// node did not read itself.
pub proof fn recomputations_keep_up_to_date(
    asked: ReactorModel,
    computed: ReactorModel,
    node: u64,
    lost: Seq<u64>,
    changed: bool,
)
    requires
        asked.up_to_date(),
        asked.is_computed(node),
        asked.dependents_stale(node),
        asked.recompute_started(node, lost).leaves_others_alone(computed, node),
        computed.up_to_date(),
        computed.is_computed(node),
        !computed.graph.observes(node, node),
    ensures
        asked.recompute_started(node, lost).up_to_date(),
        computed.ended().published(node, changed).up_to_date(),
        computed.recompute_failed(node).up_to_date(),
{
    let started = asked.recompute_started(node, lost);
    crate::coherence::recompute_keeps_up_to_date(asked, node, lost);
    crate::coherence::recompute_start_parts(asked, node, lost);
    assert(started.dependents_stale(node)) by {
        assert forall|observer: u64| #![trigger started.graph.observes(observer, node)]
            started.graph.observes(observer, node) implies !started.counts_as_fresh(observer) by {
            assert(asked.graph.observes(observer, node));
        }
    }
    stale_dependents_stay_stale(started, computed, node);
    let ended = computed.ended();
    crate::coherence::ending_keeps_up_to_date(computed);
    assert(ended.dependents_stale(node)) by {
        assert forall|observer: u64| #![trigger ended.graph.observes(observer, node)]
            ended.graph.observes(observer, node) implies !ended.counts_as_fresh(observer) by {
            assert(computed.graph.observes(observer, node));
        }
    }
    crate::coherence::publishing_keeps_up_to_date(ended, node, changed);
    crate::coherence::failing_keeps_up_to_date(computed, node);
}

/// A refresh inside a computation keeps the refresh that waits for the computation: its steps that
/// ask for nothing leave the waiting refresh in order, unless they bring an observer up to date that
/// the waiting one is verifying itself.
pub proof fn nested_refreshes_keep_the_waiting_one(
    waiting: RefreshModel,
    node: u64,
    nested: RefreshModel,
    reactor: ReactorModel,
    after: RefreshModel,
    reactor_after: ReactorModel,
)
    requires
        waiting.awaits(reactor, node),
        nested.wf(),
        nested.sound(reactor),
        nested.advances(reactor, after, reactor_after, RefreshStep::Continue),
        nested.stage is Scan ==> !waiting.verifies(nested.top().observer),
    ensures
        waiting.awaits(reactor_after, node),
{
    if nested.stage is Scan && nested.top().left() == 0 {
        let done = nested.top().observer;
        assert(nested.frames[nested.frames.len() - 1].observer == done);
        assert(reactor_after.graph == reactor.graph);
        assert forall|at: int| #![trigger waiting.frames[at]]
            0 <= at < waiting.frames.len() implies waiting.frames[at].sound(reactor_after) by {
            let frame = waiting.frames[at];
            assert(frame.sound(reactor));
            assert forall|k: int| #![trigger frame.recorded[k]]
                0 <= k < frame.next implies reactor_after.sees(
                frame.observer,
                frame.recorded[k].node.0,
            ) by {
                assert(reactor.sees(frame.observer, frame.recorded[k].node.0));
            }
        }
        assert forall|at: int| #![trigger waiting.frames[at]]
            0 <= at < waiting.frames.len() && !waiting.is_effect_at(at) implies
                reactor_after.is_computed(waiting.frames[at].observer) && !(
        reactor_after.observers[waiting.frames[at].observer].state is Clean) by {
            assert(waiting.frames[at].observer != done);
        }
    }
}

/// A refresh is done only when its node is up to date: the step that ends it, if it did not ask for
/// the node to be recomputed, leaves a node that saw everything it recorded as it is now.
pub proof fn refreshes_end_with_an_up_to_date_node(
    refresh: RefreshModel,
    reactor: ReactorModel,
    after: RefreshModel,
    reactor_after: ReactorModel,
    step: RefreshStep,
    node: u64,
)
    requires
        refresh.wf(),
        refresh.sound(reactor),
        reactor.up_to_date(),
        !refresh.for_effect,
        refresh.frames.len() == 0 ==> refresh.stage == Stage::Visit(crate::id::NodeId(node)),
        refresh.frames.len() > 0 ==> refresh.frames[0].observer == node,
        refresh.advances(reactor, after, reactor_after, step),
        after.frames.len() == 0,
        after.stage is Settled,
    ensures
        step == RefreshStep::Recompute(crate::id::NodeId(node)) || step is Continue,
        step is Continue && reactor_after.is_computed(node)
            ==> reactor_after.observers[node].state is Clean,
        step is Continue && reactor_after.is_computed(node) && crate::observers::listens(
            reactor_after.observers,
            node,
        ) ==> reactor_after.saw_the_present(node),
{
    refresh_keeps_up_to_date(refresh, reactor, after, reactor_after, step);
    if step is Continue && reactor_after.is_computed(node) && crate::observers::listens(
        reactor_after.observers,
        node,
    ) {
        assert(reactor_after.counts_as_fresh(node));
    }
}

/// An effect is skipped only where nothing it recorded changed: after its dependencies were found
/// unchanged, and its turn ended on that account, it saw everything as it is now.
pub proof fn skipped_effects_saw_the_present(
    refresh: RefreshModel,
    reactor: ReactorModel,
    after: RefreshModel,
    reactor_after: ReactorModel,
    effect: u64,
)
    requires
        refresh.wf(),
        refresh.sound(reactor),
        reactor.up_to_date(),
        refresh.for_effect,
        refresh.frames[0].observer == effect,
        refresh.advances(reactor, after, reactor_after, RefreshStep::Verified(false)),
    ensures
        reactor_after.turn_resumed(effect, false).0.saw_the_present(effect),
        reactor_after.turn_resumed(effect, false).0.graph == reactor.graph,
{
    refresh_keeps_up_to_date(
        refresh,
        reactor,
        after,
        reactor_after,
        RefreshStep::Verified(false),
    );
    assert(refresh.top() == refresh.frames[0]);
    let skipped = reactor_after.turn_resumed(effect, false).0;
    assert forall|input: u64| #[trigger]
        skipped.graph.observes(effect, input) implies skipped.sees(effect, input) by {
        assert(reactor.graph.observes(effect, input));
    }
}

} // verus!
