//! What a write leaves behind, of everything that can be written.
//!
//! A write gives its node a new version, and everyone who read the node learns of it: whoever
//! listens is dirty afterwards, and an effect among them has a run pending. A write that is
//! suppressed reaches nobody.
use vstd::prelude::*;

use crate::cell::Cell;
use crate::event::Event;
use crate::id::Location;
use crate::model::{Job, ReactorModel};
use crate::observable::Observable;
use crate::observers::{Delivery, State};
use crate::reactor::Reactor;
use crate::resource::Resource;
use crate::signal::Signal;
use crate::source::Source;
use crate::thunk::{Memo, Thunk};
use crate::tracking::{Tracking, UntrackGuard};
use crate::writable::{WritableObservable, Write};

verus! {

/// The version that follows `version`; the largest is followed by zero.
pub open spec fn follows(version: u64, next: u64) -> bool {
    if version == u64::MAX {
        next == 0
    } else {
        next == version + 1
    }
}

/// `node` has the version in `after` that follows the one it had, if it is live. Everything else of
/// it, the other nodes, the dependencies and the computations that run are as they were.
pub open spec fn is_new_version(before: ReactorModel, node: u64, after: ReactorModel) -> bool {
    &&& after.graph.nodes.dom() == before.graph.nodes.dom()
    &&& forall|other: u64| #[trigger]
        before.graph.nodes.contains_key(other) && other != node ==> after.graph.nodes[other]
            == before.graph.nodes[other]
    &&& before.graph.nodes.contains_key(node) ==> {
        &&& follows(before.graph.nodes[node].version, after.graph.nodes[node].version)
        &&& after.graph.nodes[node].kind == before.graph.nodes[node].kind
        &&& after.graph.nodes[node].origin == before.graph.nodes[node].origin
    }
    &&& after.graph.edges == before.graph.edges
    &&& after.graph.stack == before.graph.stack
    &&& after.graph.next_node == before.graph.next_node
}

/// `reader` depends on `node` and listens.
pub open spec fn reads_it(model: ReactorModel, reader: u64, node: u64) -> bool {
    &&& model.graph.edges.contains_key((reader, node))
    &&& model.observers.contains_key(reader)
    &&& model.observers[reader].registered
}

/// Everyone who read `node` and listens is dirty in `after`. An effect among them that is not
/// disposed has a run pending.
pub open spec fn readers_know(before: ReactorModel, node: u64, after: ReactorModel) -> bool {
    forall|reader: u64| #[trigger]
        reads_it(before, reader, node) ==> {
            &&& after.observers.contains_key(reader)
            &&& after.observers[reader].state is Dirty
            &&& before.observers[reader].effect matches Some(effect) ==> !effect.disposed ==> {
                &&& after.observers[reader].effect is Some
                &&& after.observers[reader].effect->0.scheduled
                &&& !after.observers[reader].effect->0.disposed
                &&& !effect.scheduled && !effect.external ==> after.jobs.contains(
                    Job::Effect(crate::id::NodeId(reader)),
                )
                &&& !effect.scheduled && effect.external ==> after.ready.contains(
                    crate::id::NodeId(reader),
                )
            }
        }
}

/// An effect that became stale, and is not disposed, has a run pending.
pub open spec fn the_stale_are_awake(before: ReactorModel, after: ReactorModel) -> bool {
    forall|other: u64| #[trigger]
        before.observers.contains_key(other) && before.observers[other].state is Clean && !(
        after.observers[other].state is Clean) ==> (before.observers[other].effect matches Some(
            effect,
        ) ==> !effect.disposed ==> after.observers[other].effect->0.scheduled)
}

/// However long the chain of computed nodes between `node` and someone who depends on it, that one
/// is stale in `after`, given that the stale had only stale dependents before.
pub open spec fn chains_know(before: ReactorModel, node: u64, after: ReactorModel) -> bool {
    crate::observers::staleness_closed(before.graph, before.observers) ==> forall|path: Seq<u64>|
        #[trigger] crate::observers::depends_along(before.graph, before.observers, path) && path[0]
            == node ==> !(after.observers[path[path.len() - 1]].state is Clean)
}

/// Whoever neither read `node` nor read anything that is computed is as it was: no mark is for it,
/// and it is not asked to run.
pub open spec fn strangers_sleep(before: ReactorModel, node: u64, after: ReactorModel) -> bool {
    forall|other: u64| #[trigger]
        before.observers.contains_key(other) && !before.graph.edges.contains_key((other, node)) && (
        forall|input: u64| #[trigger]
            before.graph.edges.contains_key((other, input)) ==> !before.observers.contains_key(
                input,
            )) ==> after.observers[other] == before.observers[other]
}

/// Nobody runs yet, and nothing else of the reactor changed: who is known, who runs, the hooks, the
/// flushes and who listens to diagnostics. What was queued is still queued, first.
pub open spec fn only_asks(before: ReactorModel, after: ReactorModel) -> bool {
    &&& after.id == before.id
    &&& after.observers.dom() == before.observers.dom()
    &&& forall|other: u64| #[trigger]
        before.observers.contains_key(other) ==> {
            &&& after.observers[other].registered == before.observers[other].registered
            &&& after.observers[other].effect is Some == before.observers[other].effect is Some
            &&& before.observers[other].effect matches Some(effect) ==> {
                &&& after.observers[other].effect->0.running == effect.running
                &&& after.observers[other].effect->0.disposed == effect.disposed
                &&& after.observers[other].effect->0.external == effect.external
                &&& after.observers[other].effect->0.owner == effect.owner
                &&& after.observers[other].effect->0.runs_this_drain == effect.runs_this_drain
                &&& after.observers[other].effect->0.last_drain_epoch == effect.last_drain_epoch
                &&& after.observers[other].effect->0.rerun_after_current
                    == effect.rerun_after_current
                &&& effect.scheduled ==> after.observers[other].effect->0.scheduled
            }
            &&& before.observers[other].state is Dirty ==> after.observers[other].state is Dirty
            &&& before.observers[other].state is Check ==> !(after.observers[other].state is Clean)
        }
    &&& after.hooks == before.hooks
    &&& after.flush_epoch == before.flush_epoch
    &&& after.open_flush_epoch == before.open_flush_epoch
    &&& after.drain_epoch == before.drain_epoch
    &&& after.flush_depth == before.flush_depth
    &&& after.subscribers == before.subscribers
    &&& after.next_diagnostic == before.next_diagnostic
    &&& before.jobs.is_prefix_of(after.jobs)
    &&& before.ready.is_prefix_of(after.ready)
}

/// `after` is what a write to `node` makes of `before`.
pub open spec fn reaches_readers(before: ReactorModel, node: u64, after: ReactorModel) -> bool {
    &&& is_new_version(before, node, after)
    &&& readers_know(before, node, after)
    &&& the_stale_are_awake(before, after)
    &&& chains_know(before, node, after)
    &&& strangers_sleep(before, node, after)
    &&& only_asks(before, after)
}

/// `after` is what a write that is suppressed makes of `before`: nobody learns of it, and at most it
/// is reported.
pub open spec fn reaches_nobody(before: ReactorModel, after: ReactorModel) -> bool {
    &&& after.graph == before.graph
    &&& after.observers == before.observers
    &&& after.hooks == before.hooks
    &&& after.jobs == before.jobs
    &&& after.ready == before.ready
    &&& after.flush_scheduled == before.flush_scheduled
    &&& after.wake == before.wake
    &&& after.counts == before.counts
    &&& after.drain_epoch == before.drain_epoch
    &&& after.flush_depth == before.flush_depth
    &&& after.flush_epoch == before.flush_epoch
    &&& before.subscribers.len() == 0 ==> after == before
}

/// `after` differs from `model` in that `node` was asked to run, if it is an effect that can be.
spec fn asked_one(model: ReactorModel, node: u64, after: ReactorModel) -> bool {
    &&& only_asks(model, after)
    &&& after.graph == model.graph
    &&& forall|other: u64| #[trigger]
        model.observers.contains_key(other) ==> {
            &&& after.observers[other].state == model.observers[other].state
            &&& other != node ==> after.observers[other] == model.observers[other]
        }
    &&& model.observers[node].effect matches Some(effect) ==> !effect.disposed ==> {
        &&& after.observers[node].effect->0.scheduled
        &&& !effect.scheduled && !effect.external ==> after.jobs.contains(
            Job::Effect(crate::id::NodeId(node)),
        )
        &&& !effect.scheduled && effect.external ==> after.ready.contains(crate::id::NodeId(node))
    }
}

proof fn requests_only_ask(model: ReactorModel, node: u64)
    requires
        model.is_effect(node),
    ensures
        asked_one(model, node, model.requested(node)),
{
    let after = model.requested(node);
    assert(after.observers.dom() =~= model.observers.dom());
    if !model.effect(node).disposed && !model.effect(node).scheduled {
        if model.effect(node).external {
            assert(after.ready == model.ready.push(crate::id::NodeId(node)));
            assert(after.ready[model.ready.len() as int] == crate::id::NodeId(node));
        } else {
            let job = Job::Effect(crate::id::NodeId(node));
            assert(after.jobs == model.jobs.push(job));
            assert(after.jobs[model.jobs.len() as int] == job);
        }
    }
}

/// Reports and totals apart, the two are the same.
spec fn same_but_reports(left: ReactorModel, right: ReactorModel) -> bool {
    left == (ReactorModel { events: left.events, ledger: left.ledger, ..right })
}

proof fn one_mark_only_asks(
    model: ReactorModel,
    delivery: Delivery,
    cause: Option<crate::diagnostics::InvalidationCause>,
)
    requires
        model.observers.contains_key(delivery.observer),
    ensures
        asked_one(model, delivery.observer, model.received(delivery, cause)),
{
    let after = model.received(delivery, cause);
    let node = delivery.observer;
    if model.is_effect(node) {
        let reported = match (cause, model.origin(node)) {
            (Some(cause), Some(origin)) => model.emitted(
                crate::diagnostics::DiagnosticEvent::EffectInvalidated {
                    reactor: model.id,
                    effect: crate::id::NodeId(node),
                    effect_origin: origin,
                    cause,
                    level: delivery.mark.reported(),
                },
            ),
            _ => model,
        };
        assert(same_but_reports(reported, model));
        requests_only_ask(reported, node);
        assert(same_but_reports(after, reported.requested(node)));
    } else {
        assert(same_but_reports(after, model));
    }
}

proof fn asking_goes_on(first: ReactorModel, second: ReactorModel, third: ReactorModel)
    requires
        only_asks(first, second),
        only_asks(second, third),
    ensures
        only_asks(first, third),
{
    assert forall|other: u64| #[trigger] first.observers.contains_key(other) implies {
        &&& second.observers.contains_key(other)
        &&& third.observers.contains_key(other)
    } by {}
    assert forall|at: int| 0 <= at < first.jobs.len() implies first.jobs[at] == third.jobs[at] by {
        assert(first.jobs[at] == second.jobs[at]);
    }
    assert forall|at: int| 0 <= at < first.ready.len() implies first.ready[at]
        == third.ready[at] by {
        assert(first.ready[at] == second.ready[at]);
    }
    assert(first.jobs.is_prefix_of(third.jobs));
    assert(first.ready.is_prefix_of(third.ready));
}

/// What the consequences of the marks in a log come to.
proof fn marks_only_ask(
    model: ReactorModel,
    log: Seq<Delivery>,
    cause: Option<crate::diagnostics::InvalidationCause>,
)
    requires
        forall|at: int| #![trigger log[at]]
            0 <= at < log.len() ==> model.observers.contains_key(log[at].observer),
    ensures
        ({
            let after = model.received_all(log, cause);
            &&& only_asks(model, after)
            &&& after.graph == model.graph
            &&& forall|other: u64| #[trigger]
                model.observers.contains_key(other) ==> after.observers[other].state
                    == model.observers[other].state
            &&& forall|other: u64| #[trigger]
                model.observers.contains_key(other) && !crate::wakeups::marks(log, other)
                    ==> after.observers[other] == model.observers[other]
            &&& forall|other: u64| #[trigger]
                model.observers.contains_key(other) && crate::wakeups::marks(log, other) ==> (
                model.observers[other].effect matches Some(effect) ==> !effect.disposed ==> {
                    &&& after.observers[other].effect->0.scheduled
                    &&& !effect.scheduled && !effect.external ==> after.jobs.contains(
                        Job::Effect(crate::id::NodeId(other)),
                    )
                    &&& !effect.scheduled && effect.external ==> after.ready.contains(
                        crate::id::NodeId(other),
                    )
                })
        }),
    decreases log.len(),
{
    if log.len() > 0 {
        let shorter = log.drop_last();
        let last = log.last();
        assert(log[log.len() - 1] == last);
        assert forall|at: int| #![trigger shorter[at]]
            0 <= at < shorter.len() implies model.observers.contains_key(shorter[at].observer) by {
            assert(shorter[at] == log[at]);
        }
        marks_only_ask(model, shorter, cause);
        let before = model.received_all(shorter, cause);
        let after = model.received_all(log, cause);
        assert(before.observers.contains_key(last.observer));
        one_mark_only_asks(before, last, cause);
        asking_goes_on(model, before, after);
        assert forall|other: u64| #[trigger]
            model.observers.contains_key(other) implies (!crate::wakeups::marks(log, other)
            ==> after.observers[other] == model.observers[other]) && (crate::wakeups::marks(
            log,
            other,
        ) ==> crate::wakeups::marks(shorter, other) || last.observer == other) by {
            assert(before.observers.contains_key(other));
            if !crate::wakeups::marks(log, other) {
                assert(log[log.len() - 1].observer != other);
                assert(!crate::wakeups::marks(shorter, other)) by {
                    if crate::wakeups::marks(shorter, other) {
                        let at = choose|at: int|
                            0 <= at < shorter.len() && #[trigger] shorter[at].observer == other;
                        assert(log[at].observer == other);
                    }
                }
            } else if last.observer != other {
                let at = choose|at: int|
                    0 <= at < log.len() && #[trigger] log[at].observer == other;
                assert(shorter[at].observer == other);
            }
        }
        assert forall|other: u64| #[trigger]
            model.observers.contains_key(other) && crate::wakeups::marks(log, other) implies (
        model.observers[other].effect matches Some(effect) ==> !effect.disposed ==> {
            &&& after.observers[other].effect->0.scheduled
            &&& !effect.scheduled && !effect.external ==> after.jobs.contains(
                Job::Effect(crate::id::NodeId(other)),
            )
            &&& !effect.scheduled && effect.external ==> after.ready.contains(
                crate::id::NodeId(other),
            )
        }) by {
            assert(before.observers.contains_key(other));
            let job = Job::Effect(crate::id::NodeId(other));
            let ready = crate::id::NodeId(other);
            if before.jobs.contains(job) {
                let at = choose|at: int| 0 <= at < before.jobs.len() && before.jobs[at] == job;
                assert(after.jobs[at] == job);
            }
            if before.ready.contains(ready) {
                let at = choose|at: int| 0 <= at < before.ready.len() && before.ready[at] == ready;
                assert(after.ready[at] == ready);
            }
            if !crate::wakeups::marks(shorter, other) {
                assert(last.observer == other);
                assert(before.observers[other] == model.observers[other]);
            }
        }
    }
}

/// What writing through the model comes to.
proof fn writing_reaches_readers(
    before: ReactorModel,
    node: u64,
    write_origin: Location,
    after: ReactorModel,
)
    requires
        before.is_write(node, write_origin, after),
    ensures
        reaches_readers(before, node, after),
{
    let log = choose|log: Seq<Delivery>|
        crate::observers::propagation(before.graph, before.observers, node, log) && after
            == #[trigger] before.triggered(node, write_origin, log);
    reveal(crate::observers::propagates);
    let written = before.written(node, write_origin);
    let marked = ReactorModel {
        observers: crate::observers::delivered(before.observers, log),
        ..written
    };
    let cause = ReactorModel { graph: before.graph.bumped(node), ..before }.write_cause(
        node,
        write_origin,
    );
    crate::observers::marks_only_raise_states(before.observers, log, node);
    assert forall|other: u64| #[trigger] before.observers.contains_key(other) implies {
        &&& marked.observers.contains_key(other)
        &&& marked.observers[other].registered == before.observers[other].registered
        &&& marked.observers[other].effect == before.observers[other].effect
        &&& marked.observers[other].state.rank() >= before.observers[other].state.rank()
    } by {
        crate::observers::marks_only_raise_states(before.observers, log, other);
    }
    assert(only_asks(before, marked));
    marks_only_ask(marked, log, cause);
    asking_goes_on(before, marked, after);
    assert(after.graph == before.graph.bumped(node));
    assert(after.graph.nodes.dom() =~= before.graph.nodes.dom());
    assert forall|reader: u64| #[trigger] reads_it(before, reader, node) implies {
        &&& after.observers[reader].state is Dirty
        &&& crate::wakeups::marks(log, reader)
    } by {
        assert(before.graph.observes(reader, node));
        crate::observers::write_dirties_direct_observers(
            before.graph,
            before.observers,
            node,
            log,
            reader,
        );
        assert(before.graph.observers(node).contains(reader));
    }
    assert(the_stale_are_awake(before, after)) by {
        assert forall|other: u64| #[trigger]
            before.observers.contains_key(other) && before.observers[other].state is Clean && !(
            after.observers[other].state is Clean) implies (before.observers[other].effect matches Some(
            effect,
        ) ==> !effect.disposed ==> after.observers[other].effect->0.scheduled) by {
            assert(marked.observers.contains_key(other));
            if !crate::wakeups::marks(log, other) {
                crate::wakeups::unmarked_observers_keep_their_record(before.observers, log, other);
            }
        }
    }
    assert(chains_know(before, node, after)) by {
        if crate::observers::staleness_closed(before.graph, before.observers) {
            assert forall|path: Seq<u64>| #[trigger]
                crate::observers::depends_along(before.graph, before.observers, path) && path[0]
                    == node implies !(after.observers[path[path.len() - 1]].state is Clean) by {
                crate::observers::write_reaches_transitive_dependents(
                    before.graph,
                    before.observers,
                    node,
                    log,
                    path,
                );
                assert(crate::observers::listens(before.observers, path[path.len() - 1]));
                assert(marked.observers.contains_key(path[path.len() - 1]));
            }
        }
    }
    assert(strangers_sleep(before, node, after)) by {
        assert forall|other: u64| #[trigger]
            before.observers.contains_key(other) && !before.graph.edges.contains_key((other, node))
                && (forall|input: u64| #[trigger]
                before.graph.edges.contains_key((other, input)) ==> !before.observers.contains_key(
                    input,
                )) implies after.observers[other] == before.observers[other] by {
            assert(!crate::wakeups::marks(log, other)) by {
                if crate::wakeups::marks(log, other) {
                    let at = choose|at: int|
                        0 <= at < log.len() && #[trigger] log[at].observer == other;
                    assert(before.graph.observes(log[at].observer, log[at].source));
                    assert(crate::observers::is_caused(
                        before.observers,
                        node,
                        crate::observers::Mark::Dirty,
                        0,
                        log,
                        at,
                    ));
                    assert(log[at].source != node);
                    let from = choose|from: int|
                        crate::observers::is_passed_on(before.observers, log, at, from);
                    assert(before.observers.contains_key(log[from].observer));
                    assert(before.graph.edges.contains_key((other, log[at].source)));
                }
            }
            crate::observers::write_marks_only_what_it_reaches(
                before.graph,
                before.observers,
                node,
                log,
                other,
            );
            assert(marked.observers[other] == before.observers[other]) by {
                if marked.observers[other] != before.observers[other] {
                    let input = choose|input: u64|
                        before.graph.observes(other, input)
                            && #[trigger] crate::observers::forwarding(before.observers, input)
                            && !(crate::observers::delivered(
                            before.observers,
                            log,
                        )[input].state is Clean);
                    assert(before.graph.edges.contains_key((other, input)));
                }
            }
        }
    }
}

/// A write that was suppressed, through the model.
proof fn suppressing_reaches_nobody(before: ReactorModel, node: u64, write_origin: Location)
    ensures
        reaches_nobody(before, before.write_suppressed(node, write_origin)),
{
}

/// A trigger reaches the readers of its node, whether it goes to the reactor, to a source or to an
/// event.
pub proof fn triggers_reach_readers(
    reactor: &mut Reactor,
    node: crate::id::NodeId,
    source: Source,
    event: Event,
    write_origin: Location,
)
    ensures
        call_ensures(Reactor::trigger, (reactor, node, write_origin), ()) ==> reaches_readers(
            old(reactor)@,
            node.0,
            final(reactor)@,
        ),
        call_ensures(Source::trigger, (&source, reactor, write_origin), ()) ==> reaches_readers(
            old(reactor)@,
            source.node().0,
            final(reactor)@,
        ),
        call_ensures(Event::emit, (&event, reactor, write_origin), ()) ==> reaches_readers(
            old(reactor)@,
            event@.node,
            final(reactor)@,
        ),
{
    let (before, after) = (old(reactor)@, final(reactor)@);
    if call_ensures(Reactor::trigger, (reactor, node, write_origin), ()) {
        assert(before.is_write(node.0, write_origin, after));
        writing_reaches_readers(before, node.0, write_origin, after);
    }
    if before.is_write(source.node().0, write_origin, after) {
        writing_reaches_readers(before, source.node().0, write_origin, after);
    }
    if before.is_write(event@.node, write_origin, after) {
        writing_reaches_readers(before, event@.node, write_origin, after);
    }
}

/// Storing a value in a signal, or changing it in place, reaches its readers. What is stored is
/// what the signal holds from then on, and what it held is handed back.
pub proof fn signal_writes_reach_readers<T, R, F: FnOnce(&mut T) -> R>(
    signal: &mut Signal<T>,
    reactor: &mut Reactor,
    value: T,
    f: F,
    write_origin: Location,
    previous: T,
    output: R,
)
    ensures
        call_ensures(Signal::<T>::replace, (signal, reactor, value, write_origin), previous) ==> {
            &&& reaches_readers(old(reactor)@, old(signal).node().0, final(reactor)@)
            &&& final(signal).held() == value
            &&& previous == old(signal).held()
            &&& final(signal).node() == old(signal).node()
        },
        call_ensures(
            Signal::<T>::update::<R, F>,
            (signal, reactor, f, write_origin),
            output,
        ) ==> reaches_readers(old(reactor)@, old(signal).node().0, final(reactor)@) && final(signal).node() == old(signal).node(),
        call_ensures(Signal::<T>::notify, (&*old(signal), reactor, write_origin), ())
            ==> reaches_readers(old(reactor)@, old(signal).node().0, final(reactor)@),
{
    let (before, after) = (old(reactor)@, final(reactor)@);
    let node = old(signal).node().0;
    if before.is_write(node, write_origin, after) {
        writing_reaches_readers(before, node, write_origin, after);
    }
}

/// Setting a signal, whoever judges the equality: an equal value reaches nobody and is not stored;
/// any other is stored and reaches the readers.
pub proof fn setting_signals_reaches_readers<T: PartialEq>(
    signal: &mut Signal<T>,
    reactor: &mut Reactor,
    value: T,
    equal: bool,
    write_origin: Location,
    previous: Option<T>,
)
    requires
        call_ensures(
            Signal::<T>::set_judged,
            (signal, reactor, value, equal, write_origin),
            previous,
        ) || call_ensures(Signal::<T>::set, (signal, reactor, value, write_origin), previous),
    ensures
        final(signal).node() == old(signal).node(),
        match previous {
            Some(previous) => {
                &&& reaches_readers(old(reactor)@, old(signal).node().0, final(reactor)@)
                &&& final(signal).held() == value
                &&& previous == old(signal).held()
            },
            None => {
                &&& reaches_nobody(old(reactor)@, final(reactor)@)
                &&& final(signal).held() == old(signal).held()
            },
        },
        call_ensures(
            Signal::<T>::set_judged,
            (signal, reactor, value, equal, write_origin),
            previous,
        ) ==> previous is None == equal,
        call_ensures(Signal::<T>::set, (signal, reactor, value, write_origin), previous)
            ==> call_ensures(T::eq, (&old(signal).held(), &value), previous is None),
{
    let (before, after) = (old(reactor)@, final(reactor)@);
    let node = old(signal).node().0;
    if previous is Some {
        writing_reaches_readers(before, node, write_origin, after);
    } else {
        suppressing_reaches_nobody(before, node, write_origin);
    }
}

/// Writing a cell reaches its readers, except that an equal value is not stored and leaves no trace
/// at all.
pub proof fn cell_writes_reach_readers<T: PartialEq, R, F: FnOnce(&mut T) -> R>(
    cell: &mut Cell<T>,
    reactor: &mut Reactor,
    value: T,
    f: F,
    write_origin: Location,
    replaced: T,
    previous: Option<T>,
    output: R,
)
    ensures
        call_ensures(Cell::<T>::replace, (cell, reactor, value, write_origin), replaced) ==> {
            &&& reaches_readers(old(reactor)@, old(cell).node().0, final(reactor)@)
            &&& final(cell).held() == value
            &&& replaced == old(cell).held()
            &&& final(cell).node() == old(cell).node()
        },
        call_ensures(Cell::<T>::update::<R, F>, (cell, reactor, f, write_origin), output)
            ==> reaches_readers(old(reactor)@, old(cell).node().0, final(reactor)@) && final(cell).node() == old(cell).node(),
        call_ensures(Cell::<T>::set, (cell, reactor, value, write_origin), previous) ==> {
            &&& final(cell).node() == old(cell).node()
            &&& call_ensures(T::eq, (&old(cell).held(), &value), previous is None)
            &&& match previous {
                Some(previous) => {
                    &&& reaches_readers(old(reactor)@, old(cell).node().0, final(reactor)@)
                    &&& final(cell).held() == value
                    &&& previous == old(cell).held()
                },
                None => final(reactor)@ == old(reactor)@ && final(cell).held() == old(cell).held(),
            }
        },
{
    let (before, after) = (old(reactor)@, final(reactor)@);
    let node = old(cell).node().0;
    if before.is_write(node, write_origin, after) {
        writing_reaches_readers(before, node, write_origin, after);
    }
}

/// Writing through the common interface. A value that was stored is what is read from then on, what
/// was there before is handed back, and the readers learn of it. One that was suppressed reaches
/// nobody. One that goes to a setter changes nothing by itself, and the setter runs untracked.
pub proof fn writing_through_the_interface<W: WritableObservable>(
    writable: &mut W,
    reactor: &mut Reactor,
    tracking: &mut Tracking,
    value: W::Item,
    write_origin: Location,
    write: Write<W::Item>,
)
    requires
        call_ensures(W::set, (writable, reactor, tracking, value, write_origin), write),
        old(tracking).untracked_depth < u32::MAX,
    ensures
        final(writable).through() == old(writable).through(),
        old(writable).settles(value, write),
        match write {
            Write::Stored(previous) => {
                &&& old(writable).through() matches Some(node) && reaches_readers(
                    old(reactor)@,
                    node,
                    final(reactor)@,
                )
                &&& final(writable).current() == Some(value)
                &&& old(writable).current() == Some(previous)
                &&& *final(tracking) == *old(tracking)
            },
            Write::Suppressed => {
                &&& reaches_nobody(old(reactor)@, final(reactor)@)
                &&& final(writable).current() == old(writable).current()
                &&& *final(tracking) == *old(tracking)
            },
            Write::Forwarded(forwarded, _) => {
                &&& forwarded == value
                &&& final(reactor)@ == old(reactor)@
                &&& final(writable).current() == old(writable).current()
                &&& final(tracking).untracked_depth == old(tracking).untracked_depth + 1
                &&& final(tracking).running == old(tracking).running
            },
        },
{
    let (before, after) = (old(reactor)@, final(reactor)@);
    if let Some(node) = old(writable).through() {
        if before.is_write(node, write_origin, after) {
            writing_reaches_readers(before, node, write_origin, after);
        }
        suppressing_reaches_nobody(before, node, write_origin);
    }
}

/// A signal stores every value that its type does not call equal to the one it holds, and no other.
/// What is written to a writable memo goes to its setter.
pub proof fn writables_settle<T: PartialEq>(
    signal: Signal<T>,
    writable: crate::writable::Writable<T>,
    value: T,
    write: Write<T>,
)
    ensures
        signal.settles(value, write) ==> {
            &&& write is Stored || write is Suppressed
            &&& call_ensures(T::eq, (&signal.held(), &value), write is Suppressed)
        },
        writable.settles(value, write) ==> write is Forwarded,
{
}

/// A fetch is asked for again by a write that reaches the resource's effect: whoever read the
/// counter of refetches learns of it. Value and flag are as they were.
pub proof fn refetching_reaches_the_effect<T>(
    resource: &mut Resource<T>,
    reactor: &mut Reactor,
    write_origin: Location,
)
    requires
        call_ensures(Resource::<T>::refetch, (resource, reactor, write_origin), ()),
    ensures
        reaches_readers(old(reactor)@, old(resource).tick_signal().node().0, final(reactor)@),
        final(resource).tick_signal().node() == old(resource).tick_signal().node(),
        final(resource).tick_signal().held() != old(resource).tick_signal().held(),
        final(resource).value_signal() == old(resource).value_signal(),
        final(resource).loading_signal() == old(resource).loading_signal(),
        final(resource).fetches() == old(resource).fetches(),
{
    let (before, after) = (old(reactor)@, final(reactor)@);
    writing_reaches_readers(before, old(resource).tick_signal().node().0, write_origin, after);
}

/// What a change of the loading flag comes to: if the flag has another value than before, everyone
/// who read it learns of it; if not, nobody is told anything.
pub open spec fn flag_reaches_readers(
    was: bool,
    is: bool,
    before: ReactorModel,
    flag: u64,
    after: ReactorModel,
) -> bool {
    if was == is {
        reaches_nobody(before, after)
    } else {
        reaches_readers(before, flag, after)
    }
}

proof fn setting_the_flag_reaches_readers(
    before: ReactorModel,
    flag: u64,
    was: bool,
    is: bool,
    write_origin: Location,
    after: ReactorModel,
)
    requires
        before.is_flag_set(flag, was, is, write_origin, after),
    ensures
        flag_reaches_readers(was, is, before, flag, after),
{
    if was == is {
        suppressing_reaches_nobody(before, flag, write_origin);
    } else {
        writing_reaches_readers(before, flag, write_origin, after);
    }
}

/// A fetch that is aborted clears the flag, and whoever read the flag learns of it.
pub proof fn cancelling_clears_the_flag<T>(
    resource: &mut Resource<T>,
    reactor: &mut Reactor,
    write_origin: Location,
)
    requires
        call_ensures(Resource::<T>::cancel, (resource, reactor, write_origin), ()),
    ensures
        !final(resource).loading_signal().held(),
        final(resource).loading_signal().node() == old(resource).loading_signal().node(),
        flag_reaches_readers(
            old(resource).loading_signal().held(),
            false,
            old(reactor)@,
            old(resource).loading_signal().node().0,
            final(reactor)@,
        ),
        final(resource).value_signal() == old(resource).value_signal(),
        final(resource).fetches() == old(resource).fetches(),
{
    let (before, after) = (old(reactor)@, final(reactor)@);
    setting_the_flag_reaches_readers(
        before,
        old(resource).loading_signal().node().0,
        old(resource).loading_signal().held(),
        false,
        write_origin,
        after,
    );
}

/// The result of the latest fetch is stored and the flag is cleared: whoever read the value learns
/// of it, and then whoever read the flag, if it was up. The result of any other fetch is discarded
/// without a trace.
pub proof fn completing_reaches_readers<T>(
    resource: &mut Resource<T>,
    reactor: &mut Reactor,
    generation: u64,
    result: T,
    write_origin: Location,
    stored: bool,
)
    requires
        call_ensures(
            Resource::<T>::complete,
            (resource, reactor, generation, result, write_origin),
            stored,
        ),
    ensures
        stored == (generation == old(resource).fetches()),
        !stored ==> *final(resource) == *old(resource) && final(reactor)@ == old(reactor)@,
        stored ==> {
            &&& final(resource).value_signal().held() == Some(result)
            &&& final(resource).value_signal().node() == old(resource).value_signal().node()
            &&& !final(resource).loading_signal().held()
            &&& final(resource).loading_signal().node() == old(resource).loading_signal().node()
            &&& final(resource).fetches() == old(resource).fetches()
            &&& exists|between: ReactorModel|
                #![trigger reaches_readers(
                    old(reactor)@,
                    old(resource).value_signal().node().0,
                    between,
                )]
                reaches_readers(old(reactor)@, old(resource).value_signal().node().0, between)
                    && flag_reaches_readers(
                    old(resource).loading_signal().held(),
                    false,
                    between,
                    old(resource).loading_signal().node().0,
                    final(reactor)@,
                )
        },
{
    let (before, after) = (old(reactor)@, final(reactor)@);
    let value = old(resource).value_signal().node().0;
    let flag = old(resource).loading_signal();
    if stored {
        let between = choose|between: ReactorModel|
            before.is_write(value, write_origin, between) && #[trigger] between.is_flag_set(
                flag.node().0,
                flag.held(),
                false,
                write_origin,
                after,
            );
        writing_reaches_readers(before, value, write_origin, between);
        setting_the_flag_reaches_readers(
            between,
            flag.node().0,
            flag.held(),
            false,
            write_origin,
            after,
        );
    }
}

/// A fetch starts with the reads that let the resource's effect run again: of the input, then of the
/// counter of refetches. Then the flag is up, and whoever read it learns of that, and a generation
/// is open that differs from the one before. The fetch itself is started untracked.
pub proof fn starting_a_fetch_raises_the_flag<S: Clone, T>(
    resource: &mut Resource<T>,
    input: Memo<S>,
    reactor: &mut Reactor,
    tracking: &mut Tracking,
    write_origin: Location,
    fetch: (S, u64, UntrackGuard),
)
    requires
        call_ensures(
            Resource::<T>::start_fetch::<S>,
            (resource, &input, reactor, tracking, write_origin),
            fetch,
        ),
        input.held() is Some,
        old(tracking).untracked_depth < u32::MAX,
    ensures
        cloned(input.held()->0, fetch.0),
        final(resource).loading_signal().held(),
        final(resource).loading_signal().node() == old(resource).loading_signal().node(),
        final(resource).value_signal() == old(resource).value_signal(),
        fetch.1 == final(resource).fetches(),
        fetch.1 != old(resource).fetches(),
        final(tracking).untracked_depth == old(tracking).untracked_depth + 1,
        final(tracking).running == old(tracking).running,
        exists|once: ReactorModel, twice: ReactorModel|
            #![trigger crate::reads::is_read(
                old(reactor)@,
                *old(tracking),
                input.node().0,
                once,
            ), crate::reads::is_read(
                once,
                *old(tracking),
                old(resource).tick_signal().node().0,
                twice,
            )]
            crate::reads::is_read(old(reactor)@, *old(tracking), input.node().0, once)
                && crate::reads::is_read(
                once,
                *old(tracking),
                old(resource).tick_signal().node().0,
                twice,
            ) && flag_reaches_readers(
                old(resource).loading_signal().held(),
                true,
                twice,
                old(resource).loading_signal().node().0,
                final(reactor)@,
            ),
{
    let (before, after) = (old(reactor)@, final(reactor)@);
    let tick = old(resource).tick_signal().node().0;
    let flag = old(resource).loading_signal();
    let once = before.read(*old(tracking), input.node().0);
    let twice = once.read(*old(tracking), tick);
    crate::reads::reading_is_reading(before, *old(tracking), input.node().0);
    crate::reads::reading_is_reading(once, *old(tracking), tick);
    setting_the_flag_reaches_readers(
        twice,
        flag.node().0,
        flag.held(),
        true,
        write_origin,
        after,
    );
}

/// Publishing the result of a computation: it is cached, and it is a new version of its node unless
/// it counts as no change. Nobody is marked and nobody is asked to run: whoever depends on the node
/// was marked by the write that made it stale, and compares versions.
pub proof fn results_are_published<T: PartialEq, F: FnOnce(&T, &T) -> bool>(
    thunk: &mut Thunk<T>,
    memo: &mut Memo<T>,
    reactor: &mut Reactor,
    next: T,
    equal: bool,
    equals: F,
    changed: bool,
)
    ensures
        call_ensures(Thunk::<T>::finish, (thunk, reactor, next), ()) ==> {
            &&& final(thunk).held() == Some(next)
            &&& final(thunk).node() == old(thunk).node()
            &&& is_new_version(old(reactor)@, old(thunk).node().0, final(reactor)@)
            &&& marks_nobody(old(reactor)@, final(reactor)@)
        },
        call_ensures(Memo::<T>::finish_judged, (memo, reactor, next, equal), changed) ==> changed
            == (old(memo).held() is None || !equal),
        call_ensures(Memo::<T>::finish_by::<F>, (memo, reactor, next, equals), changed) ==> (
        match old(memo).held() {
            Some(current) => equals.ensures((&current, &next), !changed),
            None => changed,
        }),
        call_ensures(Memo::<T>::finish, (memo, reactor, next), changed) ==> (match old(memo).held() {
            Some(current) => call_ensures(T::eq, (&current, &next), !changed),
            None => changed,
        }),
        call_ensures(Memo::<T>::finish_judged, (memo, reactor, next, equal), changed)
            || call_ensures(Memo::<T>::finish_by::<F>, (memo, reactor, next, equals), changed)
            || call_ensures(Memo::<T>::finish, (memo, reactor, next), changed) ==> {
            &&& final(memo).held() == Some(next)
            &&& final(memo).node() == old(memo).node()
            &&& changed ==> is_new_version(old(reactor)@, old(memo).node().0, final(reactor)@)
            &&& !changed ==> final(reactor)@.graph == old(reactor)@.graph
            &&& marks_nobody(old(reactor)@, final(reactor)@)
        },
{
    let before = old(reactor)@;
    assert(before.graph.bumped(old(thunk).node().0).nodes.dom() =~= before.graph.nodes.dom());
    assert(before.graph.bumped(old(memo).node().0).nodes.dom() =~= before.graph.nodes.dom());
}

/// Nobody is marked, asked to run or told anything.
pub open spec fn marks_nobody(before: ReactorModel, after: ReactorModel) -> bool {
    &&& after.observers == before.observers
    &&& after.hooks == before.hooks
    &&& after.jobs == before.jobs
    &&& after.ready == before.ready
    &&& after.wake == before.wake
    &&& after.flush_scheduled == before.flush_scheduled
    &&& after.counts == before.counts
    &&& after.flush_depth == before.flush_depth
    &&& after.drain_epoch == before.drain_epoch
}

/// What was written is what is read: a peek gives the value that was stored last, and a read does
/// too.
pub proof fn reads_give_what_was_written<T, R, F: FnOnce(&T) -> R>(
    signal: &mut Signal<T>,
    cell: &mut Cell<T>,
    reactor: &mut Reactor,
    reader: &mut Reactor,
    tracking: Tracking,
    value: T,
    previous: T,
    write_origin: Location,
    f: F,
    output: R,
)
    ensures
        call_ensures(Signal::<T>::replace, (signal, reactor, value, write_origin), previous)
            && call_ensures(Signal::<T>::with_peek::<R, F>, (&*final(signal), f), output)
            ==> f.ensures((&value,), output),
        call_ensures(Signal::<T>::replace, (signal, reactor, value, write_origin), previous)
            && call_ensures(
            Signal::<T>::with::<R, F>,
            (&*final(signal), reader, &tracking, f),
            output,
        ) ==> f.ensures((&value,), output),
        call_ensures(Cell::<T>::replace, (cell, reactor, value, write_origin), previous)
            && call_ensures(
            Cell::<T>::with::<R, F>,
            (&*final(cell), reader, &tracking, f),
            output,
        ) ==> f.ensures((&value,), output),
{
}

} // verus!
