//! What a write reports.
//!
//! A write to a live node is reported once, with what caused it, and everything that it invalidates
//! is reported with the same cause. What the totals count of it is what the events tell.
use vstd::prelude::*;

use crate::cell::Cell;
use crate::diagnostics::{DiagnosticEvent, InvalidationCause, InvalidationLevel, NodeKind};
use crate::event::Event;
use crate::id::{Location, NodeId};
use crate::model::ReactorModel;
use crate::observers::{Delivery, Mark, State};
use crate::reactor::Reactor;
use crate::resource::Resource;
use crate::signal::Signal;
use crate::source::Source;
use crate::stats::{FlushItem, FlushStats};

verus! {

/// How many of `events` are of the kind that `kind` tells.
pub open spec fn how_many(events: Seq<DiagnosticEvent>, kind: spec_fn(DiagnosticEvent) -> bool) -> nat
    decreases events.len(),
{
    if events.len() == 0 {
        0
    } else {
        how_many(events.drop_last(), kind) + if kind(events.last()) {
            1nat
        } else {
            0nat
        }
    }
}

/// Tells the events by which an observer is invalidated at `level`.
pub open spec fn invalidates(level: InvalidationLevel) -> spec_fn(DiagnosticEvent) -> bool {
    |event: DiagnosticEvent|
        match event {
            DiagnosticEvent::EffectInvalidated { level: told, .. } => told == level,
            DiagnosticEvent::ComputedInvalidated { level: told, .. } => told == level,
            _ => false,
        }
}

/// Tells the events by which an effect is asked to run, with or without a run becoming pending.
pub open spec fn asks_effects(queued: bool) -> spec_fn(DiagnosticEvent) -> bool {
    |event: DiagnosticEvent|
        match event {
            DiagnosticEvent::EffectScheduled { queued: told, .. } => told == queued,
            _ => false,
        }
}

/// `event` says that `observer` was invalidated by `cause`, at `level`.
pub open spec fn is_invalidation(
    model: ReactorModel,
    event: DiagnosticEvent,
    observer: u64,
    cause: InvalidationCause,
    level: InvalidationLevel,
) -> bool {
    let meta = model.graph.nodes[observer];
    &&& model.graph.nodes.contains_key(observer)
    &&& if model.observers[observer].effect is Some {
        event == (DiagnosticEvent::EffectInvalidated {
            reactor: model.id,
            effect: NodeId(observer),
            effect_origin: meta.origin,
            cause,
            level,
        })
    } else {
        exists|state_changed: bool|
            event == #[trigger] computed_invalidated(model, observer, cause, level, state_changed)
    }
}

/// What a computed node's invalidation is reported as.
pub open spec fn computed_invalidated(
    model: ReactorModel,
    observer: u64,
    cause: InvalidationCause,
    level: InvalidationLevel,
    state_changed: bool,
) -> DiagnosticEvent {
    DiagnosticEvent::ComputedInvalidated {
        reactor: model.id,
        node: NodeId(observer),
        kind: model.graph.nodes[observer].kind,
        node_origin: model.graph.nodes[observer].origin,
        cause,
        level,
        flush_epoch: model.flush_epoch,
        state_changed,
    }
}

/// `event` says that the effect `observer` was asked to run.
pub open spec fn is_request(model: ReactorModel, event: DiagnosticEvent, observer: u64) -> bool {
    &&& model.graph.nodes.contains_key(observer)
    &&& model.observers[observer].effect is Some
    &&& exists|queued: bool|
        event == #[trigger] effect_asked(model, observer, queued)
}

/// What a request to an effect is reported as.
pub open spec fn effect_asked(
    model: ReactorModel,
    observer: u64,
    queued: bool,
) -> DiagnosticEvent {
    DiagnosticEvent::EffectScheduled {
        reactor: model.id,
        effect: NodeId(observer),
        effect_origin: model.graph.nodes[observer].origin,
        queued,
        flush_epoch: model.flush_epoch,
    }
}

/// The level at which a mark is told.
pub open spec fn told_at(mark: Mark) -> InvalidationLevel {
    match mark {
        Mark::Check => InvalidationLevel::Check,
        Mark::Dirty => InvalidationLevel::Dirty,
    }
}

/// A mark makes an observer staler that was as stale as `before`.
pub open spec fn makes_staler(before: State, mark: Mark) -> bool {
    match mark {
        Mark::Check => before is Clean,
        Mark::Dirty => !(before is Dirty),
    }
}

/// `event`, if it is of a computed node, says that the node became staler exactly if it did.
pub open spec fn tells_the_change(event: DiagnosticEvent, staler: bool) -> bool {
    event matches DiagnosticEvent::ComputedInvalidated { state_changed, .. } ==> state_changed
        == staler
}

/// Nothing that events speak of changed, nor who is an effect.
spec fn same_subjects(before: ReactorModel, after: ReactorModel) -> bool {
    &&& after.id == before.id
    &&& after.graph == before.graph
    &&& after.flush_epoch == before.flush_epoch
    &&& after.subscribers == before.subscribers
    &&& after.observers.dom() == before.observers.dom()
    &&& forall|node: u64| #[trigger]
        before.observers.contains_key(node) ==> (after.observers[node].effect is Some
            == before.observers[node].effect is Some)
}

/// What one mark reports and counts.
spec fn is_echo_of_one(
    before: ReactorModel,
    after: ReactorModel,
    delivery: Delivery,
    cause: InvalidationCause,
    news: Seq<DiagnosticEvent>,
) -> bool {
    let node = delivery.observer;
    let live = before.graph.nodes.contains_key(node);
    let asked = before.observers[node].effect is Some;
    let b = crate::reports::tally(before.ledger);
    let a = crate::reports::tally(after.ledger);
    &&& after.events == before.events + news
    &&& crate::reports::counts_as(before.ledger, after.ledger, a)
    &&& if !live {
        news.len() == 0
    } else if asked {
        &&& news.len() == 2
        &&& is_invalidation(before, news[0], node, cause, told_at(delivery.mark))
        &&& tells_the_change(news[0], makes_staler(delivery.before, delivery.mark))
        &&& is_request(before, news[1], node)
    } else {
        &&& news.len() == 1
        &&& is_invalidation(before, news[0], node, cause, told_at(delivery.mark))
        &&& tells_the_change(news[0], makes_staler(delivery.before, delivery.mark))
    }
    &&& a.max_propagation_depth >= b.max_propagation_depth
    &&& a.max_propagation_depth >= delivery.depth
    &&& a.max_propagation_depth == b.max_propagation_depth || a.max_propagation_depth
        == delivery.depth
    &&& a == (FlushStats {
        nodes_marked_check: a.nodes_marked_check,
        nodes_marked_dirty: a.nodes_marked_dirty,
        max_propagation_depth: a.max_propagation_depth,
        effects_queued: a.effects_queued,
        effects_coalesced: a.effects_coalesced,
        ..b
    })
    &&& live ==> {
        &&& a.nodes_marked_dirty == crate::reports::more_by(
            b.nodes_marked_dirty,
            how_many(news, invalidates(InvalidationLevel::Dirty)) as int,
        )
        &&& a.nodes_marked_check == crate::reports::more_by(
            b.nodes_marked_check,
            how_many(news, invalidates(InvalidationLevel::Check)) as int,
        )
        &&& a.effects_queued == crate::reports::more_by(
            b.effects_queued,
            how_many(news, asks_effects(true)) as int,
        )
        &&& a.effects_coalesced == crate::reports::more_by(
            b.effects_coalesced,
            how_many(news, asks_effects(false)) as int,
        )
    }
}

/// One mark is reported and counted once.
#[verifier::rlimit(40)]
proof fn one_mark_echoes(
    model: ReactorModel,
    delivery: Delivery,
    cause: InvalidationCause,
) -> (news: Seq<DiagnosticEvent>)
    requires
        model.subscribers.len() > 0,
        model.observers.contains_key(delivery.observer),
    ensures
        same_subjects(model, model.received(delivery, Some(cause))),
        is_echo_of_one(model, model.received(delivery, Some(cause)), delivery, cause, news),
{
    let node = delivery.observer;
    let after = model.received(delivery, Some(cause));
    let live = model.graph.nodes.contains_key(node);
    assert(after.observers.dom() =~= model.observers.dom());
    let level = told_at(delivery.mark);
    reveal_with_fuel(how_many, 3);
    if !live {
        assert(after.events =~= model.events + Seq::<DiagnosticEvent>::empty());
        Seq::empty()
    } else if model.observers[node].effect is Some {
        let effect = model.observers[node].effect->0;
        let queued = !(effect.disposed || effect.scheduled);
        let told = DiagnosticEvent::EffectInvalidated {
            reactor: model.id,
            effect: NodeId(node),
            effect_origin: model.graph.nodes[node].origin,
            cause,
            level,
        };
        let news = seq![told, effect_asked(model, node, queued)];
        assert(news.drop_last() =~= seq![told]);
        assert(seq![told].drop_last() =~= Seq::<DiagnosticEvent>::empty());
        assert(after.events =~= model.events + news);
        news
    } else {
        let changed = delivery.before.rank() < State::asked(delivery.mark).rank();
        let told = computed_invalidated(model, node, cause, level, changed);
        let news = seq![told];
        assert(seq![told].drop_last() =~= Seq::<DiagnosticEvent>::empty());
        assert(after.events =~= model.events + news);
        news
    }
}

/// Counting what two lists hold is counting both.
proof fn how_many_in_both(
    first: Seq<DiagnosticEvent>,
    second: Seq<DiagnosticEvent>,
    kind: spec_fn(DiagnosticEvent) -> bool,
)
    ensures
        how_many(first + second, kind) == how_many(first, kind) + how_many(second, kind),
    decreases second.len(),
{
    if second.len() == 0 {
        assert(first + second =~= first);
    } else {
        assert((first + second).drop_last() =~= first + second.drop_last());
        how_many_in_both(first, second.drop_last(), kind);
    }
}

/// `event` tells of `delivery`: that its observer was invalidated, or asked to run.
pub open spec fn tells_of(
    model: ReactorModel,
    event: DiagnosticEvent,
    delivery: Delivery,
    cause: InvalidationCause,
) -> bool {
    ||| is_invalidation(model, event, delivery.observer, cause, told_at(delivery.mark))
        && tells_the_change(event, makes_staler(delivery.before, delivery.mark))
    ||| is_request(model, event, delivery.observer)
}

/// Every event tells of one of the marks.
#[verifier::opaque]
spec fn only_of_these(
    model: ReactorModel,
    news: Seq<DiagnosticEvent>,
    log: Seq<Delivery>,
    cause: InvalidationCause,
) -> bool {
    forall|i: int| #![trigger news[i]]
        0 <= i < news.len() ==> exists|at: int|
            0 <= at < log.len() && tells_of(model, news[i], #[trigger] log[at], cause)
}

/// Every mark of a live observer is told of, and so is every request to an effect.
#[verifier::opaque]
spec fn of_each_of_these(
    model: ReactorModel,
    news: Seq<DiagnosticEvent>,
    log: Seq<Delivery>,
    cause: InvalidationCause,
) -> bool {
    forall|at: int| #![trigger log[at]]
        0 <= at < log.len() && model.graph.nodes.contains_key(log[at].observer) ==> {
            &&& exists|i: int|
                0 <= i < news.len() && is_invalidation(
                    model,
                    #[trigger] news[i],
                    log[at].observer,
                    cause,
                    told_at(log[at].mark),
                ) && tells_the_change(news[i], makes_staler(log[at].before, log[at].mark))
            &&& model.observers[log[at].observer].effect is Some ==> exists|i: int|
                0 <= i < news.len() && is_request(model, #[trigger] news[i], log[at].observer)
        }
}

/// The totals count what the events tell.
pub open spec fn counts_the_events(
    before: FlushStats,
    after: FlushStats,
    news: Seq<DiagnosticEvent>,
) -> bool {
    &&& after.nodes_marked_dirty == crate::reports::more_by(
        before.nodes_marked_dirty,
        how_many(news, invalidates(InvalidationLevel::Dirty)) as int,
    )
    &&& after.nodes_marked_check == crate::reports::more_by(
        before.nodes_marked_check,
        how_many(news, invalidates(InvalidationLevel::Check)) as int,
    )
    &&& after.effects_queued == crate::reports::more_by(
        before.effects_queued,
        how_many(news, asks_effects(true)) as int,
    )
    &&& after.effects_coalesced == crate::reports::more_by(
        before.effects_coalesced,
        how_many(news, asks_effects(false)) as int,
    )
}

/// Nothing is counted but marks and requests.
pub open spec fn counts_only_marks(before: FlushStats, after: FlushStats) -> bool {
    after == (FlushStats {
        nodes_marked_check: after.nodes_marked_check,
        nodes_marked_dirty: after.nodes_marked_dirty,
        max_propagation_depth: after.max_propagation_depth,
        effects_queued: after.effects_queued,
        effects_coalesced: after.effects_coalesced,
        ..before
    })
}

/// Every mark in `log` was reported and counted, and nothing else was.
spec fn is_echo(
    model: ReactorModel,
    after: ReactorModel,
    log: Seq<Delivery>,
    cause: InvalidationCause,
    news: Seq<DiagnosticEvent>,
) -> bool {
    let a = crate::reports::tally(after.ledger);
    let b = crate::reports::tally(model.ledger);
    &&& same_subjects(model, after)
    &&& after.events == model.events + news
    &&& crate::reports::counts_as(model.ledger, after.ledger, a)
    &&& only_of_these(model, news, log, cause)
    &&& of_each_of_these(model, news, log, cause)
    &&& counts_only_marks(b, a)
    &&& goes_as_deep(b.max_propagation_depth, log, a.max_propagation_depth)
    &&& all_live(model, log) ==> counts_the_events(b, a, news)
}

/// The depth is the deepest of what it was and the depths of the marks.
spec fn goes_as_deep(before: u32, log: Seq<Delivery>, after: u32) -> bool {
    &&& after >= before
    &&& forall|at: int| #![trigger log[at]] 0 <= at < log.len() ==> after >= log[at].depth
    &&& after == before || exists|at: int|
        0 <= at < log.len() && #[trigger] log[at].depth == after
}

/// Every observer that got a mark is live.
spec fn all_live(model: ReactorModel, log: Seq<Delivery>) -> bool {
    forall|at: int| #![trigger log[at]]
        0 <= at < log.len() ==> model.graph.nodes.contains_key(log[at].observer)
}

/// Every mark is reported and counted, and nothing else is.
proof fn marks_echo(model: ReactorModel, log: Seq<Delivery>, cause: InvalidationCause) -> (news: Seq<
    DiagnosticEvent,
>)
    requires
        model.subscribers.len() > 0,
        forall|at: int| #![trigger log[at]]
            0 <= at < log.len() ==> model.observers.contains_key(log[at].observer),
    ensures
        is_echo(model, model.received_all(log, Some(cause)), log, cause, news),
    decreases log.len(),
{
    if log.len() == 0 {
        reveal(only_of_these);
        reveal(of_each_of_these);
        assert(model.events + Seq::<DiagnosticEvent>::empty() =~= model.events);
        Seq::empty()
    } else {
        let prefix = log.drop_last();
        let delivery = log.last();
        assert forall|at: int| #![trigger prefix[at]]
            0 <= at < prefix.len() implies model.observers.contains_key(prefix[at].observer) by {
            assert(log[at] == prefix[at]);
        }
        assert(log[log.len() - 1] == delivery);
        let middle = model.received_all(prefix, Some(cause));
        let told = marks_echo(model, prefix, cause);
        let last = one_mark_echoes(middle, delivery, cause);
        let after = middle.received(delivery, Some(cause));
        echoes_add_up(model, middle, after, prefix, told, delivery, last, cause);
        assert(prefix.push(delivery) =~= log);
        told + last
    }
}

/// One more mark is one more echo.
proof fn echoes_add_up(
    model: ReactorModel,
    middle: ReactorModel,
    after: ReactorModel,
    log: Seq<Delivery>,
    told: Seq<DiagnosticEvent>,
    delivery: Delivery,
    last: Seq<DiagnosticEvent>,
    cause: InvalidationCause,
)
    requires
        is_echo(model, middle, log, cause, told),
        model.observers.contains_key(delivery.observer),
        same_subjects(middle, after),
        is_echo_of_one(middle, after, delivery, cause, last),
    ensures
        is_echo(model, after, log.push(delivery), cause, told + last),
{
    let news = told + last;
    let all = log.push(delivery);
    assert(after.events =~= model.events + news);
    joins_up(model, middle, after, log, told, delivery, last, cause);
    deepens(
        crate::reports::tally(model.ledger).max_propagation_depth,
        crate::reports::tally(middle.ledger).max_propagation_depth,
        crate::reports::tally(after.ledger).max_propagation_depth,
        log,
        delivery,
    );
    if all_live(model, all) {
        assert(forall|at: int| #![trigger log[at]] 0 <= at < log.len() ==> log[at] == all[at]);
        assert(all[log.len() as int] == delivery);
        counts_add_up(
            crate::reports::tally(model.ledger),
            crate::reports::tally(middle.ledger),
            crate::reports::tally(after.ledger),
            told,
            last,
        );
    }
}

/// One more mark goes as deep as those before it, or deeper.
proof fn deepens(before: u32, middle: u32, after: u32, log: Seq<Delivery>, delivery: Delivery)
    requires
        goes_as_deep(before, log, middle),
        after >= middle,
        after >= delivery.depth,
        after == middle || after == delivery.depth,
    ensures
        goes_as_deep(before, log.push(delivery), after),
{
    let all = log.push(delivery);
    assert(all[log.len() as int] == delivery);
    if after == middle && after != before {
        let at = choose|at: int| 0 <= at < log.len() && #[trigger] log[at].depth == middle;
        assert(all[at] == log[at]);
    }
    assert forall|at: int| #![trigger all[at]] 0 <= at < all.len() implies after
        >= all[at].depth by {
        if at < log.len() {
            assert(all[at] == log[at]);
        }
    }
}

/// Counting events in two batches is counting them all.
proof fn counts_add_up(
    before: FlushStats,
    middle: FlushStats,
    after: FlushStats,
    told: Seq<DiagnosticEvent>,
    last: Seq<DiagnosticEvent>,
)
    requires
        counts_the_events(before, middle, told),
        counts_the_events(middle, after, last),
    ensures
        counts_the_events(before, after, told + last),
{
    how_many_in_both(told, last, invalidates(InvalidationLevel::Dirty));
    how_many_in_both(told, last, invalidates(InvalidationLevel::Check));
    how_many_in_both(told, last, asks_effects(true));
    how_many_in_both(told, last, asks_effects(false));
}

/// What the last mark tells joins up with what those before it told.
proof fn joins_up(
    model: ReactorModel,
    middle: ReactorModel,
    after: ReactorModel,
    log: Seq<Delivery>,
    told: Seq<DiagnosticEvent>,
    delivery: Delivery,
    last: Seq<DiagnosticEvent>,
    cause: InvalidationCause,
)
    requires
        same_subjects(model, middle),
        model.observers.contains_key(delivery.observer),
        only_of_these(model, told, log, cause),
        of_each_of_these(model, told, log, cause),
        is_echo_of_one(middle, after, delivery, cause, last),
    ensures
        only_of_these(model, told + last, log.push(delivery), cause),
        of_each_of_these(model, told + last, log.push(delivery), cause),
{
    reveal(only_of_these);
    reveal(of_each_of_these);
    let news = told + last;
    let all = log.push(delivery);
    let node = delivery.observer;
    assert forall|event: DiagnosticEvent, level: InvalidationLevel| #[trigger]
        is_invalidation(middle, event, node, cause, level) implies is_invalidation(
        model,
        event,
        node,
        cause,
        level,
    ) by {
        if model.observers[node].effect is None {
            let changed = choose|changed: bool|
                event == #[trigger] computed_invalidated(middle, node, cause, level, changed);
            assert(event == computed_invalidated(model, node, cause, level, changed));
        }
    }
    assert forall|event: DiagnosticEvent| #[trigger] is_request(
        middle,
        event,
        node,
    ) implies is_request(model, event, node) by {
        let queued = choose|queued: bool| event == #[trigger] effect_asked(middle, node, queued);
        assert(event == effect_asked(model, node, queued));
    }
    assert forall|i: int| #![trigger news[i]] 0 <= i < news.len() implies exists|at: int|
        0 <= at < all.len() && tells_of(model, news[i], #[trigger] all[at], cause) by {
        if i < told.len() {
            assert(news[i] == told[i]);
            let at = choose|at: int|
                0 <= at < log.len() && tells_of(model, told[i], #[trigger] log[at], cause);
            assert(all[at] == log[at]);
        } else {
            assert(news[i] == last[i - told.len()]);
            assert(all[log.len() as int] == delivery);
            assert(tells_of(model, news[i], all[log.len() as int], cause));
        }
    }
    assert forall|at: int| #![trigger all[at]]
        0 <= at < all.len() && model.graph.nodes.contains_key(all[at].observer) implies {
        &&& exists|i: int|
            0 <= i < news.len() && is_invalidation(
                model,
                #[trigger] news[i],
                all[at].observer,
                cause,
                told_at(all[at].mark),
            ) && tells_the_change(news[i], makes_staler(all[at].before, all[at].mark))
        &&& model.observers[all[at].observer].effect is Some ==> exists|i: int|
            0 <= i < news.len() && is_request(model, #[trigger] news[i], all[at].observer)
    } by {
        if at < log.len() {
            assert(all[at] == log[at]);
            let i = choose|i: int|
                0 <= i < told.len() && is_invalidation(
                    model,
                    #[trigger] told[i],
                    log[at].observer,
                    cause,
                    told_at(log[at].mark),
                ) && tells_the_change(told[i], makes_staler(log[at].before, log[at].mark));
            assert(news[i] == told[i]);
            if model.observers[all[at].observer].effect is Some {
                let i = choose|i: int|
                    0 <= i < told.len() && is_request(model, #[trigger] told[i], log[at].observer);
                assert(news[i] == told[i]);
            }
        } else {
            assert(news[told.len() as int] == last[0]);
            if model.observers[node].effect is Some {
                assert(news[told.len() as int + 1] == last[1]);
            }
        }
    }
}

/// `event` belongs to a write to `node`: it tells of an observer that marks reach, and an observer
/// that is told to be dirty read the node itself.
pub open spec fn is_of_the_write(
    before: ReactorModel,
    node: u64,
    event: DiagnosticEvent,
    cause: InvalidationCause,
) -> bool {
    exists|observer: u64| #[trigger]
        crate::observers::listens(before.observers, observer) && {
            ||| is_invalidation(before, event, observer, cause, InvalidationLevel::Check) && (
            event matches DiagnosticEvent::ComputedInvalidated { state_changed, .. }
                ==> state_changed ==> before.observers[observer].state is Clean)
            ||| is_invalidation(before, event, observer, cause, InvalidationLevel::Dirty)
                && before.graph.edges.contains_key((observer, node)) && tells_the_change(
                event,
                !(before.observers[observer].state is Dirty),
            )
            ||| is_request(before, event, observer)
        }
}

/// What caused the observers of `node` to be invalidated by a write.
pub open spec fn cause_of(
    before: ReactorModel,
    node: u64,
    write_origin: Location,
    after: ReactorModel,
) -> InvalidationCause {
    InvalidationCause {
        node: NodeId(node),
        version: after.graph.nodes[node].version,
        node_origin: before.graph.nodes[node].origin,
        write_origin,
    }
}

/// What follows the report of the write itself.
pub open spec fn aftermath(before: ReactorModel, after: ReactorModel) -> Seq<DiagnosticEvent> {
    after.events.skip(before.events.len() as int + 1)
}

/// A write to a live node is reported, then every observer that it invalidates with what caused it:
/// each that read the node itself as dirty. It is counted as one write, and what else is counted is
/// what the events tell. Without a subscriber nothing is reported or counted.
pub open spec fn is_reported_write(
    before: ReactorModel,
    node: u64,
    write_origin: Location,
    after: ReactorModel,
) -> bool {
    let cause = cause_of(before, node, write_origin, after);
    let b = crate::reports::tally(before.ledger);
    let a = crate::reports::tally(after.ledger);
    let news = aftermath(before, after);
    let one_write = FlushStats { root_writes: crate::reports::one_more(b.root_writes), ..b };
    &&& before.subscribers.len() == 0 ==> after.events == before.events && after.ledger
        == before.ledger
    &&& before.subscribers.len() > 0 && before.graph.nodes.contains_key(node) ==> {
        &&& after.events == before.events.push(
            DiagnosticEvent::ReactiveWrite {
                reactor: before.id,
                kind: before.graph.nodes[node].kind,
                cause,
            },
        ) + news
        &&& forall|i: int| #![trigger news[i]]
            0 <= i < news.len() ==> is_of_the_write(before, node, news[i], cause)
        &&& forall|reader: u64| #[trigger]
            before.graph.edges.contains_key((reader, node)) && crate::observers::listens(
                before.observers,
                reader,
            ) && before.graph.nodes.contains_key(reader) ==> is_told(before, news, reader, cause)
        &&& is_depth_of_write(before, node, b.max_propagation_depth, a.max_propagation_depth)
        &&& crate::reports::counts_as(before.ledger, after.ledger, a)
        &&& counts_only_marks(one_write, a)
        &&& listeners_are_live(before) ==> counts_the_events(b, a, news)
    }
}

/// How deep a write goes: not at all where nobody listens, one step to a reader, and another from a
/// computed node that was up to date to a reader of that. The depth that was reached before stays
/// where this one is less.
pub open spec fn is_depth_of_write(
    before: ReactorModel,
    node: u64,
    was: u32,
    deepest: u32,
) -> bool {
    &&& deepest >= was
    &&& forall|reader: u64| #[trigger]
        before.graph.edges.contains_key((reader, node)) && crate::observers::listens(
            before.observers,
            reader,
        ) ==> deepest >= 1
    &&& forall|computed: u64, reader: u64|
        #![trigger before.graph.edges.contains_key((computed, node)),
            before.graph.edges.contains_key((reader, computed))]
        before.graph.edges.contains_key((computed, node)) && crate::observers::forwarding(
            before.observers,
            computed,
        ) && before.graph.edges.contains_key((reader, computed)) && crate::observers::listens(
            before.observers,
            reader,
        ) ==> deepest >= 2
    &&& (forall|reader: u64| #[trigger]
        before.graph.edges.contains_key((reader, node)) ==> !crate::observers::listens(
            before.observers,
            reader,
        )) ==> deepest == was
}

/// Every observer that marks reach is live.
pub open spec fn listeners_are_live(model: ReactorModel) -> bool {
    forall|observer: u64| #[trigger]
        crate::observers::listens(model.observers, observer) ==> model.graph.nodes.contains_key(
            observer,
        )
}

/// `news` says that `reader` is dirty, and, of an effect, that it was asked to run.
pub open spec fn is_told(
    model: ReactorModel,
    news: Seq<DiagnosticEvent>,
    reader: u64,
    cause: InvalidationCause,
) -> bool {
    &&& exists|i: int|
        0 <= i < news.len() && is_invalidation(
            model,
            #[trigger] news[i],
            reader,
            cause,
            InvalidationLevel::Dirty,
        ) && tells_the_change(news[i], !(model.observers[reader].state is Dirty))
    &&& model.observers[reader].effect is Some ==> exists|i: int|
        0 <= i < news.len() && is_request(model, #[trigger] news[i], reader)
}

/// Without a subscriber marks are neither reported nor counted.
proof fn unheard_marks_do_not_echo(
    model: ReactorModel,
    log: Seq<Delivery>,
    cause: Option<InvalidationCause>,
)
    requires
        model.subscribers.len() == 0,
    ensures
        model.received_all(log, cause).events == model.events,
        model.received_all(log, cause).ledger == model.ledger,
        model.received_all(log, cause).subscribers == model.subscribers,
    decreases log.len(),
{
    if log.len() > 0 {
        unheard_marks_do_not_echo(model, log.drop_last(), cause);
    }
}

/// Events speak of the same things before a write and once its marks are set.
proof fn marked_subjects(
    before: ReactorModel,
    base: ReactorModel,
    node: u64,
    log: Seq<Delivery>,
    observer: u64,
    event: DiagnosticEvent,
    cause: InvalidationCause,
    level: InvalidationLevel,
)
    requires
        base.id == before.id,
        base.flush_epoch == before.flush_epoch,
        base.graph == before.graph.bumped(node),
        base.observers == crate::observers::delivered(before.observers, log),
        crate::observers::follows_edges(before.graph, before.observers, log),
    ensures
        base.observers.contains_key(observer) == before.observers.contains_key(observer),
        base.graph.nodes.contains_key(observer) == before.graph.nodes.contains_key(observer),
        before.observers.contains_key(observer) ==> base.observers[observer].effect
            == before.observers[observer].effect,
        before.observers.contains_key(observer) && is_invalidation(
            base,
            event,
            observer,
            cause,
            level,
        ) ==> is_invalidation(before, event, observer, cause, level),
        before.observers.contains_key(observer) && is_request(base, event, observer) ==> is_request(
            before,
            event,
            observer,
        ),
{
    crate::observers::marks_only_raise_states(before.observers, log, observer);
    if before.observers.contains_key(observer) {
        if is_invalidation(base, event, observer, cause, level) && before.observers[observer].effect
            is None {
            let changed = choose|changed: bool|
                event == #[trigger] computed_invalidated(base, observer, cause, level, changed);
            assert(event == computed_invalidated(before, observer, cause, level, changed));
        }
        if is_request(base, event, observer) {
            let queued = choose|queued: bool|
                event == #[trigger] effect_asked(base, observer, queued);
            assert(event == effect_asked(before, observer, queued));
        }
    }
}

/// A write is reported and counted in this way.
pub proof fn writing_is_reported(
    before: ReactorModel,
    node: u64,
    write_origin: Location,
    after: ReactorModel,
)
    requires
        before.is_write(node, write_origin, after),
    ensures
        is_reported_write(before, node, write_origin, after),
{
    let log = choose|log: Seq<Delivery>|
        crate::observers::propagation(before.graph, before.observers, node, log) && after
            == #[trigger] before.triggered(node, write_origin, log);
    let written = before.written(node, write_origin);
    let bumped = ReactorModel { graph: before.graph.bumped(node), ..before };
    let cause = bumped.write_cause(node, write_origin);
    let base = ReactorModel {
        observers: crate::observers::delivered(before.observers, log),
        ..written
    };
    assert(after == base.received_all(log, cause));
    reveal(crate::observers::propagates);
    if before.subscribers.len() == 0 {
        unheard_marks_do_not_echo(base, log, cause);
    } else if before.graph.nodes.contains_key(node) {
        assert forall|at: int| #![trigger log[at]] 0 <= at < log.len() implies {
            &&& before.observers.contains_key(log[at].observer)
            &&& base.observers.contains_key(log[at].observer)
        } by {
            assert(crate::observers::listens(before.observers, log[at].observer));
            crate::observers::marks_only_raise_states(before.observers, log, log[at].observer);
        }
        let news = marks_echo(base, log, cause->0);
        assert(after.graph == base.graph);
        assert(cause == Some(cause_of(before, node, write_origin, after)));
        assert(after.events =~= base.events + news);
        assert(base.events.len() == before.events.len() + 1);
        assert(aftermath(before, after) =~= news);
        assert(after.events =~= before.events.push(base.events.last()) + news);
        the_write_is_told(before, base, node, log, news, cause->0);
        readers_are_told(before, base, node, log, news, cause->0);
        marks_go_deep(
            before,
            node,
            log,
            crate::reports::tally(before.ledger).max_propagation_depth,
            crate::reports::tally(after.ledger).max_propagation_depth,
        );
        if listeners_are_live(before) {
            assert(all_live(base, log)) by {
                assert forall|at: int| #![trigger log[at]]
                    0 <= at < log.len() implies base.graph.nodes.contains_key(log[at].observer) by {
                    assert(crate::observers::listens(before.observers, log[at].observer));
                }
            }
        }
    }
}

/// A dirty mark comes straight from the write and finds its observer as it was, but for check marks;
/// a check mark that finds its observer up to date finds it as it was.
proof fn marks_find_what_there_was(
    before: ReactorModel,
    node: u64,
    log: Seq<Delivery>,
    at: int,
)
    requires
        crate::observers::propagation(before.graph, before.observers, node, log),
        0 <= at < log.len(),
    ensures
        log[at].mark is Dirty ==> {
            &&& before.graph.edges.contains_key((log[at].observer, node))
            &&& log[at].before is Dirty <==> before.observers[log[at].observer].state is Dirty
        },
        log[at].before is Clean ==> before.observers[log[at].observer].state is Clean,
        crate::observers::listens(before.observers, log[at].observer),
{
    reveal(crate::observers::propagates);
    let observer = log[at].observer;
    let head = log.take(at);
    assert(crate::observers::listens(before.observers, observer));
    assert(crate::observers::is_caused(before.observers, node, Mark::Dirty, 0, log, at));
    assert forall|k: int| #![trigger head[k]] 0 <= k < head.len() implies {
        &&& before.observers.contains_key(head[k].observer)
        &&& log[at].mark is Dirty && head[k].observer == observer ==> head[k].mark is Check
    } by {
        assert(head[k] == log[k]);
        assert(crate::observers::listens(before.observers, log[k].observer));
        assert(crate::observers::is_caused(before.observers, node, Mark::Dirty, 0, log, k));
    }
    crate::observers::marks_only_raise_states(before.observers, head, observer);
    if log[at].mark is Dirty {
        crate::observers::check_marks_raise_to_check(before.observers, head, observer);
    }
}

/// The marks of a write tell of the write alone.
proof fn the_write_is_told(
    before: ReactorModel,
    base: ReactorModel,
    node: u64,
    log: Seq<Delivery>,
    news: Seq<DiagnosticEvent>,
    cause: InvalidationCause,
)
    requires
        base.id == before.id,
        base.flush_epoch == before.flush_epoch,
        base.graph == before.graph.bumped(node),
        base.observers == crate::observers::delivered(before.observers, log),
        crate::observers::propagation(before.graph, before.observers, node, log),
        only_of_these(base, news, log, cause),
    ensures
        forall|i: int| #![trigger news[i]]
            0 <= i < news.len() ==> is_of_the_write(before, node, news[i], cause),
{
    reveal(only_of_these);
    assert forall|i: int| #![trigger news[i]] 0 <= i < news.len() implies is_of_the_write(
        before,
        node,
        news[i],
        cause,
    ) by {
        let at = choose|at: int|
            0 <= at < log.len() && tells_of(base, news[i], #[trigger] log[at], cause);
        marks_find_what_there_was(before, node, log, at);
        assert(crate::observers::follows_edges(before.graph, before.observers, log)) by {
            reveal(crate::observers::propagates);
        }
        marked_subjects(
            before,
            base,
            node,
            log,
            log[at].observer,
            news[i],
            cause,
            told_at(log[at].mark),
        );
        assert(crate::observers::listens(before.observers, log[at].observer));
    }
}

/// The marks of a write tell of every reader.
proof fn readers_are_told(
    before: ReactorModel,
    base: ReactorModel,
    node: u64,
    log: Seq<Delivery>,
    news: Seq<DiagnosticEvent>,
    cause: InvalidationCause,
)
    requires
        base.id == before.id,
        base.flush_epoch == before.flush_epoch,
        base.graph == before.graph.bumped(node),
        base.observers == crate::observers::delivered(before.observers, log),
        crate::observers::propagation(before.graph, before.observers, node, log),
        of_each_of_these(base, news, log, cause),
    ensures
        forall|reader: u64| #[trigger]
            before.graph.edges.contains_key((reader, node)) && crate::observers::listens(
                before.observers,
                reader,
            ) && before.graph.nodes.contains_key(reader) ==> is_told(before, news, reader, cause),
{
    assert forall|reader: u64| #[trigger]
        before.graph.edges.contains_key((reader, node)) && crate::observers::listens(
            before.observers,
            reader,
        ) && before.graph.nodes.contains_key(reader) implies is_told(
        before,
        news,
        reader,
        cause,
    ) by {
        one_reader_is_told(before, base, node, log, news, cause, reader);
    }
}

/// The marks of a write tell of a reader.
proof fn one_reader_is_told(
    before: ReactorModel,
    base: ReactorModel,
    node: u64,
    log: Seq<Delivery>,
    news: Seq<DiagnosticEvent>,
    cause: InvalidationCause,
    reader: u64,
)
    requires
        base.id == before.id,
        base.flush_epoch == before.flush_epoch,
        base.graph == before.graph.bumped(node),
        base.observers == crate::observers::delivered(before.observers, log),
        crate::observers::propagation(before.graph, before.observers, node, log),
        of_each_of_these(base, news, log, cause),
        before.graph.edges.contains_key((reader, node)),
        crate::observers::listens(before.observers, reader),
        before.graph.nodes.contains_key(reader),
    ensures
        is_told(before, news, reader, cause),
{
    assert(crate::observers::follows_edges(before.graph, before.observers, log)) by {
        reveal(crate::observers::propagates);
    }
    let at = mark_of_reader(before, node, log, reader);
    let level = InvalidationLevel::Dirty;
    marks_find_what_there_was(before, node, log, at);
    marked_subjects(before, base, node, log, reader, news[0], cause, level);
    reveal(of_each_of_these);
    let i = choose|i: int|
        0 <= i < news.len() && is_invalidation(
            base,
            #[trigger] news[i],
            log[at].observer,
            cause,
            told_at(log[at].mark),
        ) && tells_the_change(news[i], makes_staler(log[at].before, log[at].mark));
    marked_subjects(before, base, node, log, reader, news[i], cause, level);
    if before.observers[reader].effect is Some {
        let k = choose|k: int|
            0 <= k < news.len() && is_request(base, #[trigger] news[k], log[at].observer);
        marked_subjects(before, base, node, log, reader, news[k], cause, level);
    }
}

/// The mark by which a reader is told of a write, one step from it.
proof fn mark_of_reader(before: ReactorModel, node: u64, log: Seq<Delivery>, reader: u64) -> (at: int)
    requires
        crate::observers::propagation(before.graph, before.observers, node, log),
        before.graph.edges.contains_key((reader, node)),
        crate::observers::listens(before.observers, reader),
    ensures
        0 <= at < log.len(),
        log[at].observer == reader,
        log[at].mark is Dirty,
        log[at].depth == 1,
{
    reveal(crate::observers::propagates);
    assert(before.graph.observers(node).contains(reader));
    choose|at: int|
        0 <= at < log.len() && #[trigger] log[at].observer == reader && crate::observers::is_direct(
            log,
            at,
            node,
            Mark::Dirty,
            0,
        )
}

/// The marks of a write go as deep as they have to.
proof fn marks_go_deep(
    before: ReactorModel,
    node: u64,
    log: Seq<Delivery>,
    was: u32,
    deepest: u32,
)
    requires
        crate::observers::propagation(before.graph, before.observers, node, log),
        goes_as_deep(was, log, deepest),
    ensures
        is_depth_of_write(before, node, was, deepest),
{
    assert forall|reader: u64| #[trigger]
        before.graph.edges.contains_key((reader, node)) && crate::observers::listens(
            before.observers,
            reader,
        ) implies deepest >= 1 by {
        let at = mark_of_reader(before, node, log, reader);
        assert(log[at].depth == 1);
    }
    assert forall|computed: u64, reader: u64|
        #![trigger before.graph.edges.contains_key((computed, node)),
            before.graph.edges.contains_key((reader, computed))]
        before.graph.edges.contains_key((computed, node)) && crate::observers::forwarding(
            before.observers,
            computed,
        ) && before.graph.edges.contains_key((reader, computed)) && crate::observers::listens(
            before.observers,
            reader,
        ) implies deepest >= 2 by {
        let at = second_mark(before, node, log, computed, reader);
        assert(log[at].depth >= 2);
    }
    if log.len() > 0 {
        reveal(crate::observers::propagates);
        assert(crate::observers::is_caused(before.observers, node, Mark::Dirty, 0, log, 0));
        assert(before.graph.edges.contains_key((log[0].observer, node)));
    }
}

/// The mark that a computed node passes on to a reader, at least two steps from the write.
proof fn second_mark(
    before: ReactorModel,
    node: u64,
    log: Seq<Delivery>,
    computed: u64,
    reader: u64,
) -> (at: int)
    requires
        crate::observers::propagation(before.graph, before.observers, node, log),
        before.graph.edges.contains_key((computed, node)),
        crate::observers::forwarding(before.observers, computed),
        before.graph.edges.contains_key((reader, computed)),
        crate::observers::listens(before.observers, reader),
    ensures
        0 <= at < log.len(),
        log[at].depth >= 2,
{
    assert(before.graph.observes(computed, node));
    crate::observers::write_dirties_direct_observers(
        before.graph,
        before.observers,
        node,
        log,
        computed,
    );
    reveal(crate::observers::propagates);
    let from = crate::observers::first_mark_finds_clean(before.observers, log, computed);
    assert(crate::observers::is_caused(before.observers, node, Mark::Dirty, 0, log, from));
    assert(log[from].depth >= 1);
    assert(crate::observers::travels_on(before.observers, log, from));
    assert(crate::observers::serves_all(before.graph, before.observers, log, from));
    assert(before.graph.observes(reader, log[from].observer));
    choose|at: int|
        from < at < log.len() && #[trigger] log[at].observer == reader
            && crate::observers::is_passed_on(before.observers, log, at, from)
}

/// Every write is reported and counted, whatever makes it: a trigger, an event, or a value that is
/// stored.
pub proof fn writes_are_reported<T: PartialEq, R, F: FnOnce(&mut T) -> R>(
    reactor: &mut Reactor,
    node: NodeId,
    source: Source,
    event: Event,
    signal: &mut Signal<T>,
    value: T,
    equal: bool,
    f: F,
    write_origin: Location,
    replaced: T,
    previous: Option<T>,
    output: R,
)
    ensures
        call_ensures(Reactor::trigger, (reactor, node, write_origin), ()) ==> is_reported_write(
            old(reactor)@,
            node.0,
            write_origin,
            final(reactor)@,
        ),
        call_ensures(Source::trigger, (&source, reactor, write_origin), ()) ==> is_reported_write(
            old(reactor)@,
            source.node().0,
            write_origin,
            final(reactor)@,
        ),
        call_ensures(Event::emit, (&event, reactor, write_origin), ()) ==> is_reported_write(
            old(reactor)@,
            event@.node,
            write_origin,
            final(reactor)@,
        ),
        call_ensures(Signal::<T>::replace, (signal, reactor, value, write_origin), replaced)
            || call_ensures(Signal::<T>::update::<R, F>, (signal, reactor, f, write_origin), output)
            || ((call_ensures(
            Signal::<T>::set_judged,
            (signal, reactor, value, equal, write_origin),
            previous,
        ) || call_ensures(Signal::<T>::set, (signal, reactor, value, write_origin), previous))
            && previous is Some) || call_ensures(
            Signal::<T>::notify,
            (&*old(signal), reactor, write_origin),
            (),
        ) ==> is_reported_write(
            old(reactor)@,
            old(signal).node().0,
            write_origin,
            final(reactor)@,
        ),
{
    let (before, after) = (old(reactor)@, final(reactor)@);
    if before.is_write(node.0, write_origin, after) {
        writing_is_reported(before, node.0, write_origin, after);
    }
    if before.is_write(source.node().0, write_origin, after) {
        writing_is_reported(before, source.node().0, write_origin, after);
    }
    if before.is_write(event@.node, write_origin, after) {
        writing_is_reported(before, event@.node, write_origin, after);
    }
    if before.is_write(old(signal).node().0, write_origin, after) {
        writing_is_reported(before, old(signal).node().0, write_origin, after);
    }
}

/// Writes to cells, and the writes that a resource makes, are reported in the same way. A flag that is
/// set to what it was is a write that its comparison discards.
pub proof fn writes_of_cells_and_resources_are_reported<
    T: PartialEq,
    R,
    F: FnOnce(&mut T) -> R,
>(
    reactor: &mut Reactor,
    cell: &mut Cell<T>,
    resource: &mut Resource<T>,
    value: T,
    f: F,
    write_origin: Location,
    replaced: T,
    previous: Option<T>,
    output: R,
)
    ensures
        call_ensures(Cell::<T>::replace, (cell, reactor, value, write_origin), replaced)
            || call_ensures(Cell::<T>::update::<R, F>, (cell, reactor, f, write_origin), output)
            || (call_ensures(Cell::<T>::set, (cell, reactor, value, write_origin), previous)
            && previous is Some) ==> is_reported_write(
            old(reactor)@,
            old(cell).node().0,
            write_origin,
            final(reactor)@,
        ),
        call_ensures(Resource::<T>::refetch, (resource, reactor, write_origin), ())
            ==> is_reported_write(
            old(reactor)@,
            old(resource).tick_signal().node().0,
            write_origin,
            final(reactor)@,
        ),
        call_ensures(Resource::<T>::cancel, (resource, reactor, write_origin), ()) ==> {
            let flag = old(resource).loading_signal();
            if flag.held() {
                is_reported_write(old(reactor)@, flag.node().0, write_origin, final(reactor)@)
            } else {
                crate::reports::is_reported_suppression(
                    old(reactor)@,
                    final(reactor)@,
                    flag.node().0,
                    write_origin,
                )
            }
        },
{
    let (before, after) = (old(reactor)@, final(reactor)@);
    if before.is_write(old(cell).node().0, write_origin, after) {
        writing_is_reported(before, old(cell).node().0, write_origin, after);
    }
    if before.is_write(old(resource).tick_signal().node().0, write_origin, after) {
        writing_is_reported(before, old(resource).tick_signal().node().0, write_origin, after);
    }
    if before.is_write(old(resource).loading_signal().node().0, write_origin, after) {
        writing_is_reported(before, old(resource).loading_signal().node().0, write_origin, after);
    }
}

} // verus!
