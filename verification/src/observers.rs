//! The observers of a graph, and how marks travel through them.
use vstd::prelude::*;

use crate::collections::ObserverTable;
use crate::diagnostics::InvalidationLevel;
use crate::graph::{Graph, GraphModel};
use crate::id::NodeId;

verus! {

/// How stale an observer has become after an upstream write.
#[derive(Clone, Copy, Debug, Eq, PartialEq, Structural)]
pub enum Mark {
    /// A transitive dependency may have changed; the observer must verify its direct
    /// dependencies before recomputing.
    Check,
    /// A direct dependency definitely changed; the observer must recompute.
    Dirty,
}

/// Staleness of a computed node or effect, ordered from freshest to stalest.
#[derive(Clone, Copy, Debug, Eq, PartialEq, Structural)]
pub enum State {
    Clean,
    Check,
    Dirty,
}

impl State {
    /// The place of a state in the order from freshest to stalest.
    pub open spec fn rank(self) -> int {
        match self {
            State::Clean => 0,
            State::Check => 1,
            State::Dirty => 2,
        }
    }

    /// The state that a mark asks for.
    pub open spec fn asked(mark: Mark) -> State {
        match mark {
            Mark::Check => State::Check,
            Mark::Dirty => State::Dirty,
        }
    }

    /// The staler of this state and the one that `mark` asks for.
    pub open spec fn raised(self, mark: Mark) -> State {
        if self.rank() < State::asked(mark).rank() {
            State::asked(mark)
        } else {
            self
        }
    }

    /// Returns the staler of this state and the one that `mark` asks for.
    pub fn raise(self, mark: Mark) -> (state: State)
        ensures
            state == self.raised(mark),
    {
        match mark {
            Mark::Dirty => State::Dirty,
            Mark::Check => match self {
                State::Clean => State::Check,
                State::Check => State::Check,
                State::Dirty => State::Dirty,
            },
        }
    }
}

impl Mark {
    /// The level at which a mark is reported.
    pub open spec fn reported(self) -> InvalidationLevel {
        match self {
            Mark::Check => InvalidationLevel::Check,
            Mark::Dirty => InvalidationLevel::Dirty,
        }
    }

    /// Returns the level at which a mark is reported.
    pub fn level(self) -> (level: InvalidationLevel)
        ensures
            level == self.reported(),
    {
        match self {
            Mark::Check => InvalidationLevel::Check,
            Mark::Dirty => InvalidationLevel::Dirty,
        }
    }
}

/// What only an effect keeps.
#[derive(Clone, Copy, Debug)]
pub struct EffectRecord {
    /// A run is pending: queued and neither executed nor discarded.
    pub scheduled: bool,
    /// A run was requested while one was in progress.
    pub rerun_after_current: bool,
    /// A run is in progress, teardown included.
    pub running: bool,
    /// The effect will never run again.
    pub disposed: bool,
    /// The effect's runs are handed to a consumer's own lane instead of the reactor's queue.
    pub external: bool,
    /// The logical drain that the effect last ran in.
    pub last_drain_epoch: u64,
    /// How often the effect ran in that drain.
    pub runs_this_drain: u32,
    /// The owner frame that the effect's cleanups and children are registered with.
    pub owner: u64,
}

/// One observer: a computed node, or an effect.
#[derive(Clone, Copy, Debug)]
pub struct Observer {
    /// How stale the observer is.
    pub state: State,
    /// Marks reach the observer.
    pub registered: bool,
    /// Present for an effect, absent for a computed node.
    pub effect: Option<EffectRecord>,
}

/// The state of one node's observation hooks.
#[derive(Clone, Copy, Debug)]
pub struct HookState {
    /// Latest observed state, updated synchronously at the edge transition.
    pub observed: bool,
    /// State most recently delivered to the consumer.
    pub delivered: bool,
    /// A delivery is queued.
    pub queued: bool,
}

/// One mark handed to one observer.
#[derive(Clone, Copy, Debug)]
pub struct Delivery {
    /// The node whose change the mark reports.
    pub source: u64,
    /// The observer that received the mark.
    pub observer: u64,
    /// The mark.
    pub mark: Mark,
    /// How stale the observer was before.
    pub before: State,
    /// How many steps the mark is from the node that was written.
    pub depth: u32,
}

/// `observer` is known and registered, so marks reach it.
pub open spec fn listens(observers: Map<u64, Observer>, observer: u64) -> bool {
    observers.contains_key(observer) && observers[observer].registered
}

/// `observer` is an up-to-date computed node: a mark on it travels on to its own observers.
pub open spec fn forwarding(observers: Map<u64, Observer>, observer: u64) -> bool {
    &&& listens(observers, observer)
    &&& observers[observer].effect is None
    &&& observers[observer].state is Clean
}

/// After `observer` received `mark`.
pub open spec fn marked(observers: Map<u64, Observer>, observer: u64, mark: Mark) -> Map<
    u64,
    Observer,
> {
    observers.insert(
        observer,
        Observer { state: observers[observer].state.raised(mark), ..observers[observer] },
    )
}

/// After every mark in `log` was received, in order.
pub open spec fn delivered(observers: Map<u64, Observer>, log: Seq<Delivery>) -> Map<u64, Observer>
    decreases log.len(),
{
    if log.len() == 0 {
        observers
    } else {
        marked(delivered(observers, log.drop_last()), log.last().observer, log.last().mark)
    }
}

/// `depth + 1`, stopped at the largest value.
pub open spec fn deeper(depth: u32) -> u32 {
    if depth == u32::MAX {
        u32::MAX
    } else {
        (depth + 1) as u32
    }
}

/// The mark at position `at` reached an up-to-date computed node and travelled on.
pub open spec fn travels_on(observers: Map<u64, Observer>, log: Seq<Delivery>, at: int) -> bool {
    observers[log[at].observer].effect is None && log[at].before is Clean
}

/// The mark at position `at` came straight from the node that started the propagation.
pub open spec fn is_direct(
    log: Seq<Delivery>,
    at: int,
    source: u64,
    mark: Mark,
    depth: u32,
) -> bool {
    log[at].source == source && log[at].mark == mark && log[at].depth == deeper(depth)
}

/// The mark at position `at` was passed on by the computed node that the mark at `from` reached.
pub open spec fn is_passed_on(
    observers: Map<u64, Observer>,
    log: Seq<Delivery>,
    at: int,
    from: int,
) -> bool {
    &&& 0 <= from < at
    &&& travels_on(observers, log, from)
    &&& log[at].source == log[from].observer
    &&& log[at].mark is Check
    &&& log[at].depth == deeper(log[from].depth)
}

/// Every mark went along an edge to an observer that listens.
pub open spec fn follows_edges(
    graph: GraphModel,
    observers: Map<u64, Observer>,
    log: Seq<Delivery>,
) -> bool {
    forall|at: int| #![trigger log[at]]
        0 <= at < log.len() ==> graph.observes(log[at].observer, log[at].source) && listens(
            observers,
            log[at].observer,
        )
}

/// Every mark says how stale its observer was when it arrived.
pub open spec fn notes_states(observers: Map<u64, Observer>, log: Seq<Delivery>) -> bool {
    forall|at: int| #![trigger log[at]]
        0 <= at < log.len() ==> log[at].before == delivered(
            observers,
            log.take(at),
        )[log[at].observer].state
}

/// The mark at position `at` is direct, or was passed on by a computed node that an earlier mark
/// reached.
pub open spec fn is_caused(
    observers: Map<u64, Observer>,
    source: u64,
    mark: Mark,
    depth: u32,
    log: Seq<Delivery>,
    at: int,
) -> bool {
    is_direct(log, at, source, mark, depth) || exists|from: int|
        is_passed_on(observers, log, at, from)
}

/// Every mark has a cause.
pub open spec fn has_causes(
    observers: Map<u64, Observer>,
    source: u64,
    mark: Mark,
    depth: u32,
    log: Seq<Delivery>,
) -> bool {
    forall|at: int|
        0 <= at < log.len() ==> #[trigger] is_caused(observers, source, mark, depth, log, at)
}

/// Each of `heads` that listens received the mark directly.
pub open spec fn reaches(
    observers: Map<u64, Observer>,
    source: u64,
    mark: Mark,
    depth: u32,
    heads: Set<u64>,
    log: Seq<Delivery>,
) -> bool {
    forall|observer: u64| #![trigger heads.contains(observer)]
        heads.contains(observer) && listens(observers, observer) ==> exists|at: int|
            0 <= at < log.len() && #[trigger] log[at].observer == observer && is_direct(
                log,
                at,
                source,
                mark,
                depth,
            )
}

/// The mark at position `from` was passed on to every observer that listens.
pub open spec fn serves_all(
    graph: GraphModel,
    observers: Map<u64, Observer>,
    log: Seq<Delivery>,
    from: int,
) -> bool {
    forall|observer: u64| #![trigger graph.observes(observer, log[from].observer)]
        graph.observes(observer, log[from].observer) && listens(observers, observer) ==> exists|
            at: int,
        |
            from < at < log.len() && #[trigger] log[at].observer == observer && is_passed_on(
                observers,
                log,
                at,
                from,
            )
}

/// Each computed node that a mark travels on from reached all its own observers that listen.
pub open spec fn passes_on(
    graph: GraphModel,
    observers: Map<u64, Observer>,
    log: Seq<Delivery>,
) -> bool {
    forall|from: int|
        0 <= from < log.len() && travels_on(observers, log, from) ==> #[trigger] serves_all(
            graph,
            observers,
            log,
            from,
        )
}

/// No mark is delivered twice along one edge.
pub open spec fn never_repeats(log: Seq<Delivery>) -> bool {
    forall|at: int, later: int| #![trigger log[at], log[later]]
        0 <= at < later < log.len() ==> !(log[at].source == log[later].source && log[at].observer
            == log[later].observer && log[at].mark == log[later].mark)
}

/// `log` is a propagation of `mark` from `source` that has served `heads` among the observers of
/// `source` so far.
#[verifier::opaque]
pub open spec fn propagates(
    graph: GraphModel,
    observers: Map<u64, Observer>,
    source: u64,
    mark: Mark,
    depth: u32,
    heads: Set<u64>,
    log: Seq<Delivery>,
) -> bool {
    &&& follows_edges(graph, observers, log)
    &&& notes_states(observers, log)
    &&& has_causes(observers, source, mark, depth, log)
    &&& reaches(observers, source, mark, depth, heads, log)
    &&& passes_on(graph, observers, log)
    &&& never_repeats(log)
}

/// `log` is a complete propagation of a write to `source`: its observers are marked dirty, and
/// from each up-to-date computed node that is reached the check mark travels on, once along every
/// edge. The order of the marks is left open as far as the observers of one node go.
pub open spec fn propagation(
    graph: GraphModel,
    observers: Map<u64, Observer>,
    source: u64,
    log: Seq<Delivery>,
) -> bool {
    propagates(graph, observers, source, Mark::Dirty, 0, graph.observers(source), log)
}

/// Marks in two batches are marks in one.
proof fn delivered_in_batches(
    observers: Map<u64, Observer>,
    first: Seq<Delivery>,
    second: Seq<Delivery>,
)
    ensures
        delivered(delivered(observers, first), second) == delivered(observers, first + second),
    decreases second.len(),
{
    if second.len() == 0 {
        assert(first + second =~= first);
    } else {
        let whole = first + second;
        assert(whole.drop_last() =~= first + second.drop_last());
        delivered_in_batches(observers, first, second.drop_last());
    }
}

/// Marks only change how stale observers are, and only make them staler.
pub proof fn marks_only_raise_states(
    observers: Map<u64, Observer>,
    log: Seq<Delivery>,
    observer: u64,
)
    requires
        forall|at: int| #![trigger log[at]]
            0 <= at < log.len() ==> observers.contains_key(log[at].observer),
    ensures
        delivered(observers, log).dom() == observers.dom(),
        delivered(observers, log)[observer].registered == observers[observer].registered,
        delivered(observers, log)[observer].effect == observers[observer].effect,
        delivered(observers, log)[observer].state.rank() >= observers[observer].state.rank(),
    decreases log.len(),
{
    if log.len() > 0 {
        let shorter = log.drop_last();
        assert forall|at: int| #![trigger shorter[at]]
            0 <= at < shorter.len() implies observers.contains_key(shorter[at].observer) by {
            assert(shorter[at] == log[at]);
        }
        marks_only_raise_states(observers, shorter, observer);
        assert(observers.contains_key(log[log.len() - 1].observer));
        assert(delivered(observers, log).dom() =~= observers.dom());
    }
}

/// Staleness does not shrink from one prefix of a log to a longer one.
proof fn prefixes_only_raise_states(
    observers: Map<u64, Observer>,
    log: Seq<Delivery>,
    short: int,
    long: int,
    observer: u64,
)
    requires
        0 <= short <= long <= log.len(),
        forall|at: int| #![trigger log[at]]
            0 <= at < log.len() ==> observers.contains_key(log[at].observer),
    ensures
        delivered(observers, log.take(short))[observer].state.rank() <= delivered(
            observers,
            log.take(long),
        )[observer].state.rank(),
        delivered(observers, log.take(short)).dom() == observers.dom(),
        delivered(observers, log.take(short))[observer].effect == observers[observer].effect,
{
    let head = log.take(short);
    let tail = log.subrange(short, long);
    assert(head + tail =~= log.take(long));
    delivered_in_batches(observers, head, tail);
    assert forall|at: int| #![trigger head[at]]
        0 <= at < head.len() implies observers.contains_key(head[at].observer) by {
        assert(head[at] == log[at]);
    }
    marks_only_raise_states(observers, head, observer);
    assert forall|at: int| #![trigger tail[at]]
        0 <= at < tail.len() implies delivered(observers, head).contains_key(tail[at].observer) by {
        assert(tail[at] == log[at + short]);
    }
    marks_only_raise_states(delivered(observers, head), tail, observer);
}

/// The direct marks went to `heads` only.
#[verifier::opaque]
spec fn direct_within(
    source: u64,
    mark: Mark,
    depth: u32,
    heads: Set<u64>,
    log: Seq<Delivery>,
) -> bool {
    forall|at: int| #![trigger log[at]]
        0 <= at < log.len() && is_direct(log, at, source, mark, depth) ==> heads.contains(
            log[at].observer,
        )
}

/// In a propagation, the source of a passed-on mark is stale from the moment it was reached, and
/// was up to date in the beginning.
proof fn passed_on_from_stale(
    graph: GraphModel,
    observers: Map<u64, Observer>,
    log: Seq<Delivery>,
    at: int,
    from: int,
)
    requires
        follows_edges(graph, observers, log),
        notes_states(observers, log),
        at <= log.len(),
        0 <= from < at,
        travels_on(observers, log, from),
    ensures
        forwarding(observers, log[from].observer),
        !(delivered(observers, log.take(at))[log[from].observer].state is Clean),
{
    let node = log[from].observer;
    assert forall|k: int| #![trigger log[k]] 0 <= k < log.len() implies observers.contains_key(
        log[k].observer,
    ) by {}
    prefixes_only_raise_states(observers, log, 0, from, node);
    assert(log.take(0) =~= Seq::empty());
    assert(log[from].before == delivered(observers, log.take(from))[node].state);
    prefixes_only_raise_states(observers, log, from + 1, at, node);
    assert(log.take(from + 1).drop_last() =~= log.take(from));
    assert(log.take(from + 1).last() == log[from]);
}

/// What one more mark sets off comes from computed nodes that were up to date until then.
proof fn set_off_by_fresh_nodes(
    graph: GraphModel,
    observers: Map<u64, Observer>,
    depth: u32,
    log: Seq<Delivery>,
    one: Delivery,
    rest: Seq<Delivery>,
    at: int,
)
    requires
        follows_edges(graph, observers, log),
        listens(observers, one.observer),
        one.before == delivered(observers, log)[one.observer].state,
        observers[one.observer].effect is None,
        one.before is Clean,
        propagates(
            graph,
            delivered(observers, log.push(one)),
            one.observer,
            Mark::Check,
            deeper(depth),
            graph.observers(one.observer),
            rest,
        ),
        0 <= at < rest.len(),
    ensures
        rest[at].mark is Check,
        forwarding(delivered(observers, log), rest[at].source),
        forwarding(observers, rest[at].source),
{
    reveal(propagates);
    let longer = log.push(one);
    let middle = delivered(observers, longer);
    assert forall|k: int| #![trigger longer[k]] 0 <= k < longer.len() implies observers.contains_key(
        longer[k].observer,
    ) by {
        if k < log.len() {
            assert(longer[k] == log[k]);
        }
    }
    let node = rest[at].source;
    if !is_direct(rest, at, one.observer, Mark::Check, deeper(depth)) {
        assert(is_caused(middle, one.observer, Mark::Check, deeper(depth), rest, at));
        let from = choose|from: int| is_passed_on(middle, rest, at, from);
        passed_on_from_stale(graph, middle, rest, at, from);
        marks_only_raise_states(observers, longer, node);
    }
    assert(longer.take(log.len() as int) =~= log);
    assert(longer.take(longer.len() as int) =~= longer);
    prefixes_only_raise_states(observers, longer, log.len() as int, longer.len() as int, node);
    assert forall|k: int| #![trigger log[k]] 0 <= k < log.len() implies observers.contains_key(
        log[k].observer,
    ) by {}
    marks_only_raise_states(observers, log, node);
    assert(longer.drop_last() =~= log);
}

/// A propagation that serves one more observer repeats no mark.
proof fn extension_never_repeats(
    graph: GraphModel,
    observers: Map<u64, Observer>,
    source: u64,
    mark: Mark,
    depth: u32,
    heads: Set<u64>,
    log: Seq<Delivery>,
    one: Delivery,
    rest: Seq<Delivery>,
)
    requires
        propagates(graph, observers, source, mark, depth, heads, log),
        direct_within(source, mark, depth, heads, log),
        mark is Dirty || !forwarding(observers, source),
        !heads.contains(one.observer),
        listens(observers, one.observer),
        one.source == source,
        one.mark == mark,
        one.before == delivered(observers, log)[one.observer].state,
        rest.len() > 0 ==> observers[one.observer].effect is None && one.before is Clean
            && propagates(
            graph,
            delivered(observers, log.push(one)),
            one.observer,
            Mark::Check,
            deeper(depth),
            graph.observers(one.observer),
            rest,
        ),
    ensures
        never_repeats(log.push(one) + rest),
{
    reveal(propagates);
    reveal(direct_within);
    let full = log.push(one) + rest;
    let n = log.len() as int;
    assert(log.take(n) =~= log);
    assert forall|at: int, later: int| #![trigger full[at], full[later]]
        0 <= at < later < full.len() implies !(full[at].source == full[later].source
        && full[at].observer == full[later].observer && full[at].mark == full[later].mark) by {
        if at < n {
            assert(full[at] == log[at]);
        }
        if later < n {
            assert(full[later] == log[later]);
        } else if later == n {
            assert(full[later] == one);
            if full[at].source == source && full[at].mark == mark && full[at].observer
                == one.observer {
                assert(is_caused(observers, source, mark, depth, log, at));
                if !is_direct(log, at, source, mark, depth) {
                    let from = choose|from: int| is_passed_on(observers, log, at, from);
                    passed_on_from_stale(graph, observers, log, at, from);
                }
            }
        } else {
            let k = later - n - 1;
            assert(full[later] == rest[k]);
            if at > n {
                assert(full[at] == rest[at - n - 1]);
            } else {
                set_off_by_fresh_nodes(graph, observers, depth, log, one, rest, k);
                if at < n && full[at].source == full[later].source && full[at].mark
                    == full[later].mark {
                    assert(is_caused(observers, source, mark, depth, log, at));
                    if !is_direct(log, at, source, mark, depth) {
                        let from = choose|from: int| is_passed_on(observers, log, at, from);
                        passed_on_from_stale(graph, observers, log, n, from);
                    }
                }
            }
        }
    }
}

/// `log` serves `heads`, `one` is the mark for one more observer of the source, and `rest` is what
/// that mark sets off.
spec fn extends(
    graph: GraphModel,
    observers: Map<u64, Observer>,
    source: u64,
    mark: Mark,
    depth: u32,
    heads: Set<u64>,
    log: Seq<Delivery>,
    one: Delivery,
    rest: Seq<Delivery>,
) -> bool {
    &&& propagates(graph, observers, source, mark, depth, heads, log)
    &&& direct_within(source, mark, depth, heads, log)
    &&& mark is Dirty || !forwarding(observers, source)
    &&& !heads.contains(one.observer)
    &&& graph.observes(one.observer, source)
    &&& listens(observers, one.observer)
    &&& one.source == source
    &&& one.mark == mark
    &&& one.depth == deeper(depth)
    &&& one.before == delivered(observers, log)[one.observer].state
    &&& if observers[one.observer].effect is None && one.before is Clean {
        propagates(
            graph,
            delivered(observers, log.push(one)),
            one.observer,
            Mark::Check,
            deeper(depth),
            graph.observers(one.observer),
            rest,
        )
    } else {
        rest.len() == 0
    }
}

/// One more mark changes neither who listens nor who is an effect.
proof fn extension_keeps_roles(
    graph: GraphModel,
    observers: Map<u64, Observer>,
    source: u64,
    mark: Mark,
    depth: u32,
    heads: Set<u64>,
    log: Seq<Delivery>,
    one: Delivery,
    rest: Seq<Delivery>,
    other: u64,
)
    requires
        extends(graph, observers, source, mark, depth, heads, log, one, rest),
    ensures
        listens(delivered(observers, log.push(one)), other) == listens(observers, other),
        delivered(observers, log.push(one))[other].effect == observers[other].effect,
{
    reveal(propagates);
    let longer = log.push(one);
    assert forall|at: int| #![trigger longer[at]]
        0 <= at < longer.len() implies observers.contains_key(longer[at].observer) by {
        if at < log.len() {
            assert(longer[at] == log[at]);
        }
    }
    marks_only_raise_states(observers, longer, other);
}

proof fn extension_follows_edges(
    graph: GraphModel,
    observers: Map<u64, Observer>,
    source: u64,
    mark: Mark,
    depth: u32,
    heads: Set<u64>,
    log: Seq<Delivery>,
    one: Delivery,
    rest: Seq<Delivery>,
)
    requires
        extends(graph, observers, source, mark, depth, heads, log, one, rest),
    ensures
        follows_edges(graph, observers, log.push(one) + rest),
        notes_states(observers, log.push(one) + rest),
{
    reveal(propagates);
    let full = log.push(one) + rest;
    let n = log.len() as int;
    assert forall|at: int| #![trigger full[at]] 0 <= at < full.len() implies graph.observes(
        full[at].observer,
        full[at].source,
    ) && listens(observers, full[at].observer) by {
        if at < n {
            assert(full[at] == log[at]);
        } else if at > n {
            assert(full[at] == rest[at - n - 1]);
            extension_keeps_roles(graph, observers, source, mark, depth, heads, log, one, rest, rest[at - n - 1].observer);
        }
    }
    assert forall|at: int| #![trigger full[at]] 0 <= at < full.len() implies full[at].before
        == delivered(observers, full.take(at))[full[at].observer].state by {
        if at < n {
            assert(full.take(at) =~= log.take(at));
            assert(full[at] == log[at]);
        } else if at == n {
            assert(full.take(at) =~= log);
        } else {
            let k = at - n - 1;
            assert(full.take(at) =~= log.push(one) + rest.take(k));
            delivered_in_batches(observers, log.push(one), rest.take(k));
            assert(full[at] == rest[k]);
        }
    }
}

/// A mark that was passed on among those that `one` set off was passed on in the whole.
proof fn extension_shifts_causes(
    graph: GraphModel,
    observers: Map<u64, Observer>,
    source: u64,
    mark: Mark,
    depth: u32,
    heads: Set<u64>,
    log: Seq<Delivery>,
    one: Delivery,
    rest: Seq<Delivery>,
    at: int,
    from: int,
)
    requires
        extends(graph, observers, source, mark, depth, heads, log, one, rest),
        0 <= at < rest.len(),
    ensures
        is_passed_on(delivered(observers, log.push(one)), rest, at, from) ==> is_passed_on(
            observers,
            log.push(one) + rest,
            at + log.len() + 1,
            from + log.len() + 1,
        ),
        is_direct(rest, at, one.observer, Mark::Check, deeper(depth)) ==> is_passed_on(
            observers,
            log.push(one) + rest,
            at + log.len() + 1,
            log.len() as int,
        ),
{
    reveal(propagates);
    let full = log.push(one) + rest;
    let n = log.len() as int;
    assert(full[at + n + 1] == rest[at]);
    assert(full[n] == one);
    if is_passed_on(delivered(observers, log.push(one)), rest, at, from) {
        assert(full[from + n + 1] == rest[from]);
        extension_keeps_roles(graph, observers, source, mark, depth, heads, log, one, rest, rest[from].observer);
    }
}

proof fn extension_has_causes(
    observers: Map<u64, Observer>,
    middle: Map<u64, Observer>,
    source: u64,
    mark: Mark,
    depth: u32,
    log: Seq<Delivery>,
    one: Delivery,
    rest: Seq<Delivery>,
)
    requires
        has_causes(observers, source, mark, depth, log),
        one.source == source,
        one.mark == mark,
        one.depth == deeper(depth),
        rest.len() > 0 ==> has_causes(middle, one.observer, Mark::Check, deeper(depth), rest),
        rest.len() > 0 ==> observers[one.observer].effect is None && one.before is Clean,
        forall|other: u64| #[trigger] middle[other].effect == observers[other].effect,
    ensures
        has_causes(observers, source, mark, depth, log.push(one) + rest),
{
    let full = log.push(one) + rest;
    let n = log.len() as int;
    assert forall|at: int| 0 <= at < full.len() implies #[trigger] is_caused(
        observers,
        source,
        mark,
        depth,
        full,
        at,
    ) by {
        if at < n {
            assert(is_caused(observers, source, mark, depth, log, at));
            assert(full[at] == log[at]);
            if !is_direct(log, at, source, mark, depth) {
                let from = choose|from: int| is_passed_on(observers, log, at, from);
                assert(full[from] == log[from]);
                assert(is_passed_on(observers, full, at, from));
            }
        } else if at == n {
            assert(full[at] == one);
        } else {
            let k = at - n - 1;
            assert(full[at] == rest[k]);
            assert(full[n] == one);
            assert(is_caused(middle, one.observer, Mark::Check, deeper(depth), rest, k));
            if is_direct(rest, k, one.observer, Mark::Check, deeper(depth)) {
                assert(is_passed_on(observers, full, at, n));
            } else {
                let from = choose|from: int| is_passed_on(middle, rest, k, from);
                assert(full[from + n + 1] == rest[from]);
                assert(middle[rest[from].observer].effect == observers[rest[from].observer].effect);
                assert(is_passed_on(observers, full, at, from + n + 1));
            }
        }
    }
}

proof fn extension_reaches(
    graph: GraphModel,
    observers: Map<u64, Observer>,
    source: u64,
    mark: Mark,
    depth: u32,
    heads: Set<u64>,
    log: Seq<Delivery>,
    one: Delivery,
    rest: Seq<Delivery>,
)
    requires
        extends(graph, observers, source, mark, depth, heads, log, one, rest),
    ensures
        reaches(
            observers,
            source,
            mark,
            depth,
            heads.insert(one.observer),
            log.push(one) + rest,
        ),
{
    reveal(propagates);
    let full = log.push(one) + rest;
    let wider = heads.insert(one.observer);
    assert forall|observer: u64| #![trigger wider.contains(observer)]
        wider.contains(observer) && listens(observers, observer) implies exists|at: int|
        0 <= at < full.len() && #[trigger] full[at].observer == observer && is_direct(
            full,
            at,
            source,
            mark,
            depth,
        ) by {
        if observer == one.observer {
            assert(full[log.len() as int] == one);
            assert(full[log.len() as int].observer == observer);
        } else {
            assert(heads.contains(observer));
            let at = choose|at: int|
                0 <= at < log.len() && #[trigger] log[at].observer == observer && is_direct(
                    log,
                    at,
                    source,
                    mark,
                    depth,
                );
            assert(full[at] == log[at]);
            assert(full[at].observer == observer);
        }
    }
}

proof fn extension_serves(
    graph: GraphModel,
    observers: Map<u64, Observer>,
    source: u64,
    mark: Mark,
    depth: u32,
    heads: Set<u64>,
    log: Seq<Delivery>,
    one: Delivery,
    rest: Seq<Delivery>,
    from: int,
    observer: u64,
)
    requires
        extends(graph, observers, source, mark, depth, heads, log, one, rest),
        0 <= from < log.push(one).len() + rest.len(),
        travels_on(observers, log.push(one) + rest, from),
        graph.observes(observer, (log.push(one) + rest)[from].observer),
        listens(observers, observer),
    ensures
        exists|at: int|
            from < at < (log.push(one) + rest).len() && #[trigger] (log.push(one)
                + rest)[at].observer == observer && is_passed_on(
                observers,
                log.push(one) + rest,
                at,
                from,
            ),
{
    reveal(propagates);
    let full = log.push(one) + rest;
    let n = log.len() as int;
    let middle = delivered(observers, log.push(one));
    extension_keeps_roles(graph, observers, source, mark, depth, heads, log, one, rest, observer);
    if from < n {
        assert(full[from] == log[from]);
        assert(travels_on(observers, log, from));
        assert(serves_all(graph, observers, log, from));
        assert(graph.observes(observer, log[from].observer));
        let at = choose|at: int|
            from < at < log.len() && #[trigger] log[at].observer == observer && is_passed_on(
                observers,
                log,
                at,
                from,
            );
        assert(full[at] == log[at]);
        assert(full[at].observer == observer);
        assert(is_passed_on(observers, full, at, from));
    } else if from == n {
        assert(full[n] == one);
        assert(graph.observers(one.observer).contains(observer));
        let at = choose|at: int|
            0 <= at < rest.len() && #[trigger] rest[at].observer == observer && is_direct(
                rest,
                at,
                one.observer,
                Mark::Check,
                deeper(depth),
            );
        extension_shifts_causes(graph, observers, source, mark, depth, heads, log, one, rest, at, 0);
        assert(full[at + n + 1] == rest[at]);
        assert(full[at + n + 1].observer == observer);
    } else {
        let k = from - n - 1;
        assert(full[from] == rest[k]);
        extension_keeps_roles(graph, observers, source, mark, depth, heads, log, one, rest, rest[k].observer);
        assert(travels_on(middle, rest, k));
        assert(serves_all(graph, middle, rest, k));
        assert(graph.observes(observer, rest[k].observer));
        let at = choose|at: int|
            k < at < rest.len() && #[trigger] rest[at].observer == observer && is_passed_on(
                middle,
                rest,
                at,
                k,
            );
        extension_shifts_causes(graph, observers, source, mark, depth, heads, log, one, rest, at, k);
        assert(full[at + n + 1] == rest[at]);
        assert(full[at + n + 1].observer == observer);
    }
}

proof fn extension_passes_on(
    graph: GraphModel,
    observers: Map<u64, Observer>,
    source: u64,
    mark: Mark,
    depth: u32,
    heads: Set<u64>,
    log: Seq<Delivery>,
    one: Delivery,
    rest: Seq<Delivery>,
)
    requires
        extends(graph, observers, source, mark, depth, heads, log, one, rest),
    ensures
        passes_on(graph, observers, log.push(one) + rest),
{
    let full = log.push(one) + rest;
    assert forall|from: int| 0 <= from < full.len() && travels_on(observers, full, from) implies #[trigger]
        serves_all(graph, observers, full, from) by {
        assert forall|observer: u64| #![trigger graph.observes(observer, full[from].observer)]
            graph.observes(observer, full[from].observer) && listens(observers, observer) implies exists|
                at: int,
            |
            from < at < full.len() && #[trigger] full[at].observer == observer && is_passed_on(
                observers,
                full,
                at,
                from,
            ) by {
            extension_serves(graph, observers, source, mark, depth, heads, log, one, rest, from, observer);
        }
    }
}

/// Serving one more observer of the source, with all that its mark sets off, extends a
/// propagation.
proof fn propagation_extends(
    graph: GraphModel,
    observers: Map<u64, Observer>,
    source: u64,
    mark: Mark,
    depth: u32,
    heads: Set<u64>,
    log: Seq<Delivery>,
    one: Delivery,
    rest: Seq<Delivery>,
)
    requires
        extends(graph, observers, source, mark, depth, heads, log, one, rest),
    ensures
        propagates(
            graph,
            observers,
            source,
            mark,
            depth,
            heads.insert(one.observer),
            log.push(one) + rest,
        ),
        direct_within(source, mark, depth, heads.insert(one.observer), log.push(one) + rest),
{
    reveal(propagates);
    reveal(direct_within);
    let full = log.push(one) + rest;
    let n = log.len() as int;
    extension_follows_edges(graph, observers, source, mark, depth, heads, log, one, rest);
    let middle = delivered(observers, log.push(one));
    assert forall|other: u64| #[trigger] middle[other].effect == observers[other].effect by {
        extension_keeps_roles(graph, observers, source, mark, depth, heads, log, one, rest, other);
    }
    extension_has_causes(observers, middle, source, mark, depth, log, one, rest);
    extension_reaches(graph, observers, source, mark, depth, heads, log, one, rest);
    extension_passes_on(graph, observers, source, mark, depth, heads, log, one, rest);
    extension_never_repeats(graph, observers, source, mark, depth, heads, log, one, rest);
    assert forall|at: int| #![trigger full[at]]
        0 <= at < full.len() && is_direct(full, at, source, mark, depth) implies heads.insert(
        one.observer,
    ).contains(full[at].observer) by {
        if at < n {
            assert(full[at] == log[at]);
        } else if at > n {
            assert(full[at] == rest[at - n - 1]);
            set_off_by_fresh_nodes(graph, observers, depth, log, one, rest, at - n - 1);
        }
    }
}

/// Before any observer is served, nothing has been delivered.
proof fn propagation_starts(
    graph: GraphModel,
    observers: Map<u64, Observer>,
    source: u64,
    mark: Mark,
    depth: u32,
)
    ensures
        propagates(graph, observers, source, mark, depth, Set::empty(), Seq::empty()),
        direct_within(source, mark, depth, Set::empty(), Seq::empty()),
{
    reveal(propagates);
    reveal(direct_within);
}

/// An observer that does not listen is passed over.
proof fn propagation_skips(
    graph: GraphModel,
    observers: Map<u64, Observer>,
    source: u64,
    mark: Mark,
    depth: u32,
    heads: Set<u64>,
    log: Seq<Delivery>,
    observer: u64,
)
    requires
        propagates(graph, observers, source, mark, depth, heads, log),
        direct_within(source, mark, depth, heads, log),
        !listens(observers, observer),
    ensures
        propagates(graph, observers, source, mark, depth, heads.insert(observer), log),
        direct_within(source, mark, depth, heads.insert(observer), log),
{
    reveal(propagates);
    reveal(direct_within);
    let wider = heads.insert(observer);
    assert forall|other: u64| #![trigger wider.contains(other)]
        wider.contains(other) && listens(observers, other) implies exists|at: int|
        0 <= at < log.len() && #[trigger] log[at].observer == other && is_direct(
            log,
            at,
            source,
            mark,
            depth,
        ) by {
        assert(heads.contains(other));
    }
}

/// Every mark of a propagation went to a known observer.
proof fn propagation_stays_within(
    graph: GraphModel,
    observers: Map<u64, Observer>,
    source: u64,
    mark: Mark,
    depth: u32,
    heads: Set<u64>,
    log: Seq<Delivery>,
)
    requires
        propagates(graph, observers, source, mark, depth, heads, log),
    ensures
        forall|at: int| #![trigger log[at]]
            0 <= at < log.len() ==> observers.contains_key(log[at].observer),
{
    reveal(propagates);
}

/// The up-to-date computed nodes that listen.
pub open spec fn fresh_nodes(observers: Map<u64, Observer>) -> Set<u64> {
    observers.dom().filter(|node: u64| forwarding(observers, node))
}

/// The table of observers.
pub struct Observers {
    table: ObserverTable,
}

impl View for Observers {
    type V = Map<u64, Observer>;

    closed spec fn view(&self) -> Map<u64, Observer> {
        self.table@
    }
}

impl Observers {
    /// There are finitely many observers, no more than a count can hold.
    pub open spec fn wf(&self) -> bool {
        self@.dom().finite() && self@.dom().len() <= usize::MAX
    }

    /// Creates an empty table.
    pub fn new() -> (observers: Self)
        ensures
            observers.wf(),
            observers@ == Map::<u64, Observer>::empty(),
    {
        Observers { table: ObserverTable::new() }
    }

    /// Returns the record of an observer.
    pub fn get(&self, observer: NodeId) -> (record: Option<Observer>)
        ensures
            record == self@.get(observer.0),
    {
        self.table.get(observer.0)
    }

    /// Stores the record of an observer.
    pub fn put(&mut self, observer: NodeId, record: Observer)
        requires
            old(self).wf(),
        ensures
            final(self).wf(),
            final(self)@ == old(self)@.insert(observer.0, record),
    {
        let _ = self.table.insert(observer.0, record);
        let total: usize = self.table.len();
        assert(total == self@.dom().len());
    }

    /// Takes out the record of an observer.
    pub fn take(&mut self, observer: NodeId) -> (record: Option<Observer>)
        requires
            old(self).wf(),
        ensures
            final(self).wf(),
            final(self)@ == old(self)@.remove(observer.0),
            record == old(self)@.get(observer.0),
    {
        let record = self.table.remove(observer.0);
        assert(self@.dom() =~= old(self)@.dom().remove(observer.0));
        record
    }

    /// Marks the observers of `source`, and passes a check mark on from every up-to-date computed
    /// node among those reached. The marks are appended to `log` as they are delivered.
    fn mark_dependents(
        &mut self,
        graph: &Graph,
        source: u64,
        mark: Mark,
        depth: u32,
        log: &mut Vec<Delivery>,
    )
        requires
            graph.wf(),
            old(self).wf(),
            mark is Dirty || !forwarding(old(self)@, source),
        ensures
            final(self).wf(),
            final(log)@.len() >= old(log)@.len(),
            final(log)@.take(old(log)@.len() as int) == old(log)@,
            final(self)@ == delivered(old(self)@, final(log)@.skip(old(log)@.len() as int)),
            propagates(
                graph@,
                old(self)@,
                source,
                mark,
                depth,
                graph@.observers(source),
                final(log)@.skip(old(log)@.len() as int),
            ),
        decreases fresh_nodes(old(self)@).len(),
    {
        let ghost base = log@;
        let ghost start = base.len() as int;
        let ghost before = self@;
        let listed = graph.observers_of(NodeId::new(source));
        let deeper_by_one: u32 = depth.saturating_add(1);
        let mut index: usize = 0;
        assert(log@.skip(start) =~= Seq::empty());
        assert(listed@.take(0).to_set() =~= Set::empty());
        proof {
            propagation_starts(graph@, before, source, mark, depth);
        }
        while index < listed.len()
            invariant
                index <= listed.len(),
                listed@.no_duplicates(),
                listed@.to_set() == graph@.observers(source),
                graph.wf(),
                self.wf(),
                before.dom().finite(),
                mark is Dirty || !forwarding(before, source),
                deeper_by_one == deeper(depth),
                start == base.len(),
                log@.len() >= start,
                log@.take(start) == base,
                self@ == delivered(before, log@.skip(start)),
                fresh_nodes(before) == fresh_nodes(old(self)@),
                propagates(
                    graph@,
                    before,
                    source,
                    mark,
                    depth,
                    listed@.take(index as int).to_set(),
                    log@.skip(start),
                ),
                direct_within(
                    source,
                    mark,
                    depth,
                    listed@.take(index as int).to_set(),
                    log@.skip(start),
                ),
            decreases listed.len() - index,
        {
            let node: u64 = listed[index];
            let ghost served = listed@.take(index as int).to_set();
            let ghost so_far = log@.skip(start);
            let ghost so_far_dom = self@.dom();
            proof {
                crate::seqs::take_one_more(listed@, index as int);
                assert(!served.contains(node));
                assert(listed@.take(index + 1).to_set() =~= served.insert(node));
                assert(listed@.to_set().contains(node));
                assert(graph@.observes(node, source));
                propagation_stays_within(graph@, before, source, mark, depth, served, so_far);
                marks_only_raise_states(before, so_far, node);
            }
            let found = self.table.get(node);
            let mut reached = false;
            if let Some(record) = found {
                if record.registered {
                    reached = true;
                    let one = Delivery {
                        source,
                        observer: node,
                        mark,
                        before: record.state,
                        depth: deeper_by_one,
                    };
                    log.push(one);
                    let _ = self.table.insert(
                        node,
                        Observer { state: record.state.raise(mark), ..record },
                    );
                    let ghost middle = self@;
                    proof {
                        assert(middle.dom() =~= so_far_dom);
                        assert(log@.skip(start) =~= so_far.push(one));
                        assert(so_far.push(one).drop_last() =~= so_far);
                        assert(middle =~= delivered(before, so_far.push(one)));
                        assert(log@.take(start) =~= base);
                    }
                    if record.effect.is_none() && record.state == State::Clean {
                        proof {
                            fresh_nodes_shrink(before, so_far.push(one), node);
                        }
                        let ghost kept = log@;
                        self.mark_dependents(graph, node, Mark::Check, deeper_by_one, log);
                        let ghost rest = log@.skip(kept.len() as int);
                        proof {
                            assert(log@ =~= kept + rest);
                            assert(log@.skip(start) =~= so_far.push(one) + rest);
                            assert(log@.take(start) =~= base) by {
                                assert(log@.take(kept.len() as int).take(start) =~= kept.take(start));
                            }
                            propagation_extends(
                                graph@,
                                before,
                                source,
                                mark,
                                depth,
                                served,
                                so_far,
                                one,
                                rest,
                            );
                            delivered_in_batches(before, so_far.push(one), rest);
                        }
                    } else {
                        proof {
                            let rest = Seq::<Delivery>::empty();
                            assert(so_far.push(one) + rest =~= so_far.push(one));
                            propagation_extends(
                                graph@,
                                before,
                                source,
                                mark,
                                depth,
                                served,
                                so_far,
                                one,
                                rest,
                            );
                        }
                    }
                }
            }
            if !reached {
                proof {
                    propagation_skips(
                        graph@,
                        before,
                        source,
                        mark,
                        depth,
                        served,
                        so_far,
                        node,
                    );
                }
            }
            index = index + 1;
        }
        assert(listed@.take(index as int) =~= listed@);
    }

    /// Propagates a write to `source` through every observer it reaches, and returns the marks in
    /// the order in which they were delivered.
    pub fn propagate(&mut self, graph: &Graph, source: NodeId) -> (log: Vec<Delivery>)
        requires
            graph.wf(),
            old(self).wf(),
        ensures
            final(self).wf(),
            final(self)@ == delivered(old(self)@, log@),
            propagation(graph@, old(self)@, source.0, log@),
    {
        let mut log: Vec<Delivery> = Vec::new();
        self.mark_dependents(graph, source.0, Mark::Dirty, 0, &mut log);
        assert(log@.skip(0) =~= log@);
        log
    }
}

/// Marking an up-to-date computed node leaves fewer of them.
proof fn fresh_nodes_shrink(observers: Map<u64, Observer>, log: Seq<Delivery>, node: u64)
    requires
        observers.dom().finite(),
        forall|at: int| #![trigger log[at]]
            0 <= at < log.len() ==> observers.contains_key(log[at].observer),
        log.len() > 0,
        log.last().observer == node,
        forwarding(delivered(observers, log.drop_last()), node),
    ensures
        fresh_nodes(delivered(observers, log)).len() < fresh_nodes(observers).len(),
{
    let after = delivered(observers, log);
    assert forall|other: u64| fresh_nodes(after).contains(other) implies fresh_nodes(
        observers,
    ).contains(other) by {
        marks_only_raise_states(observers, log, other);
    }
    let shorter = log.drop_last();
    assert forall|at: int| #![trigger shorter[at]]
        0 <= at < shorter.len() implies observers.contains_key(shorter[at].observer) by {
        assert(shorter[at] == log[at]);
    }
    marks_only_raise_states(observers, shorter, node);
    assert(fresh_nodes(observers).contains(node));
    assert(!fresh_nodes(after).contains(node));
    vstd::set_lib::lemma_set_subset_finite(observers.dom(), fresh_nodes(observers));
    vstd::set_lib::lemma_len_subset(fresh_nodes(after), fresh_nodes(observers).remove(node));
}

/// Whoever depends on a stale computed node is stale itself.
pub open spec fn staleness_closed(graph: GraphModel, observers: Map<u64, Observer>) -> bool {
    forall|observer: u64, node: u64| #![trigger graph.observes(observer, node)]
        graph.observes(observer, node) && listens(observers, observer) && listens(observers, node)
            && observers[node].effect is None && !(observers[node].state is Clean)
            ==> !(observers[observer].state is Clean)
}

/// A chain of dependencies: each member observes the one before it, and all but the ends are
/// computed nodes that listen.
pub open spec fn depends_along(
    graph: GraphModel,
    observers: Map<u64, Observer>,
    path: Seq<u64>,
) -> bool {
    &&& path.len() >= 2
    &&& forall|at: int| #![trigger path[at]]
        0 < at < path.len() ==> graph.observes(path[at], path[at - 1]) && listens(
            observers,
            path[at],
        )
    &&& forall|at: int| #![trigger path[at]]
        0 < at < path.len() - 1 ==> observers[path[at]].effect is None
}

/// Someone whom a mark reached is at least as stale afterwards as the mark asks.
proof fn marks_take_effect(
    graph: GraphModel,
    observers: Map<u64, Observer>,
    log: Seq<Delivery>,
    at: int,
)
    requires
        follows_edges(graph, observers, log),
        0 <= at < log.len(),
    ensures
        delivered(observers, log)[log[at].observer].state.rank() >= State::asked(
            log[at].mark,
        ).rank(),
{
    assert forall|k: int| #![trigger log[k]] 0 <= k < log.len() implies observers.contains_key(
        log[k].observer,
    ) by {}
    prefixes_only_raise_states(observers, log, at + 1, log.len() as int, log[at].observer);
    assert(log.take(at + 1).drop_last() =~= log.take(at));
    assert(log.take(at + 1).last() == log[at]);
    assert(log.take(log.len() as int) =~= log);
}

/// Someone whom no mark reached is as before.
proof fn marks_leave_others_alone(
    observers: Map<u64, Observer>,
    log: Seq<Delivery>,
    observer: u64,
)
    requires
        forall|at: int| #![trigger log[at]]
            0 <= at < log.len() ==> log[at].observer != observer,
    ensures
        delivered(observers, log)[observer] == observers[observer],
    decreases log.len(),
{
    if log.len() > 0 {
        let shorter = log.drop_last();
        assert forall|at: int| #![trigger shorter[at]]
            0 <= at < shorter.len() implies shorter[at].observer != observer by {
            assert(shorter[at] == log[at]);
        }
        assert(log[log.len() - 1].observer != observer);
        marks_leave_others_alone(observers, shorter, observer);
    }
}

/// Someone who became stale in a propagation was up to date when the first mark arrived.
pub proof fn first_mark_finds_clean(
    observers: Map<u64, Observer>,
    log: Seq<Delivery>,
    observer: u64,
) -> (at: int)
    requires
        notes_states(observers, log),
        observers[observer].state is Clean,
        !(delivered(observers, log)[observer].state is Clean),
    ensures
        0 <= at < log.len(),
        log[at].observer == observer,
        log[at].before is Clean,
    decreases log.len(),
{
    let shorter = log.drop_last();
    let last = log.len() - 1;
    if log.len() == 0 {
        0
    } else if delivered(observers, shorter)[observer].state is Clean {
        assert(log[last].observer == observer);
        assert(log.take(last) =~= shorter);
        last
    } else {
        assert forall|at: int| #![trigger shorter[at]]
            0 <= at < shorter.len() implies shorter[at].before == delivered(
            observers,
            shorter.take(at),
        )[shorter[at].observer].state by {
            assert(shorter[at] == log[at]);
            assert(shorter.take(at) =~= log.take(at));
        }
        first_mark_finds_clean(observers, shorter, observer)
    }
}

/// A write makes every observer of the written node dirty: its next refresh recomputes.
pub proof fn write_dirties_direct_observers(
    graph: GraphModel,
    observers: Map<u64, Observer>,
    source: u64,
    log: Seq<Delivery>,
    observer: u64,
)
    requires
        propagation(graph, observers, source, log),
        graph.observes(observer, source),
        listens(observers, observer),
    ensures
        delivered(observers, log)[observer].state is Dirty,
{
    reveal(propagates);
    assert(graph.observers(source).contains(observer));
    let at = choose|at: int|
        0 <= at < log.len() && #[trigger] log[at].observer == observer && is_direct(
            log,
            at,
            source,
            Mark::Dirty,
            0,
        );
    marks_take_effect(graph, observers, log, at);
}

/// A write changes nothing of an observer that neither depends on the written node nor on a
/// computed node that the write reached; and it leaves every observer that is not direct at most
/// check-marked where it was up to date.
pub proof fn write_marks_only_what_it_reaches(
    graph: GraphModel,
    observers: Map<u64, Observer>,
    source: u64,
    log: Seq<Delivery>,
    observer: u64,
)
    requires
        propagation(graph, observers, source, log),
        !graph.observes(observer, source),
    ensures
        delivered(observers, log)[observer] != observers[observer] ==> {
            &&& listens(observers, observer)
            &&& observers[observer].state is Clean
            &&& delivered(observers, log)[observer].state is Check
            &&& exists|node: u64|
                graph.observes(observer, node) && #[trigger] forwarding(observers, node)
                    && !(delivered(observers, log)[node].state is Clean)
        },
{
    reveal(propagates);
    if delivered(observers, log)[observer] != observers[observer] {
        if forall|at: int| #![trigger log[at]]
            0 <= at < log.len() ==> log[at].observer != observer {
            marks_leave_others_alone(observers, log, observer);
        }
        let at = choose|at: int|
            #![trigger log[at]]
            0 <= at < log.len() && log[at].observer == observer;
        assert(is_caused(observers, source, Mark::Dirty, 0, log, at));
        let from = choose|from: int| is_passed_on(observers, log, at, from);
        passed_on_from_stale(graph, observers, log, log.len() as int, from);
        assert(log.take(log.len() as int) =~= log);
        only_check_marks(graph, observers, source, log, observer);
    }
}

/// An observer without an edge on the source of a write receives check marks only.
proof fn only_check_marks(
    graph: GraphModel,
    observers: Map<u64, Observer>,
    source: u64,
    log: Seq<Delivery>,
    observer: u64,
)
    requires
        propagation(graph, observers, source, log),
        !graph.observes(observer, source),
    ensures
        delivered(observers, log)[observer] == observers[observer] || (
        observers[observer].state is Clean && delivered(observers, log)[observer].state is Check),
{
    reveal(propagates);
    assert forall|at: int| #![trigger log[at]]
        0 <= at < log.len() && log[at].observer == observer implies log[at].mark is Check by {
        assert(is_caused(observers, source, Mark::Dirty, 0, log, at));
    }
    check_marks_raise_to_check(observers, log, observer);
}

/// Check marks leave an observer as it was, or check-marked if it was up to date.
pub proof fn check_marks_raise_to_check(
    observers: Map<u64, Observer>,
    log: Seq<Delivery>,
    observer: u64,
)
    requires
        forall|at: int| #![trigger log[at]]
            0 <= at < log.len() && log[at].observer == observer ==> log[at].mark is Check,
    ensures
        delivered(observers, log)[observer] == observers[observer] || (
        observers[observer].state is Clean && delivered(observers, log)[observer] == (Observer {
            state: State::Check,
            ..observers[observer]
        })),
    decreases log.len(),
{
    if log.len() > 0 {
        let shorter = log.drop_last();
        assert forall|at: int| #![trigger shorter[at]]
            0 <= at < shorter.len() && shorter[at].observer == observer implies shorter[at].mark is Check by {
            assert(shorter[at] == log[at]);
        }
        assert(log[log.len() - 1] == log.last());
        check_marks_raise_to_check(observers, shorter, observer);
    }
}

/// If an observer of a computed node was stale whenever the node was, that still holds after a
/// write.
pub proof fn write_keeps_observer_stale(
    graph: GraphModel,
    observers: Map<u64, Observer>,
    source: u64,
    log: Seq<Delivery>,
    observer: u64,
    node: u64,
)
    requires
        propagation(graph, observers, source, log),
        graph.observes(observer, node),
        listens(observers, observer),
        listens(observers, node),
        observers[node].effect is None,
        !(observers[node].state is Clean) ==> !(observers[observer].state is Clean),
    ensures
        !(delivered(observers, log)[node].state is Clean) ==> !(delivered(
            observers,
            log,
        )[observer].state is Clean),
{
    reveal(propagates);
    let after = delivered(observers, log);
    assert forall|k: int| #![trigger log[k]] 0 <= k < log.len() implies observers.contains_key(
        log[k].observer,
    ) by {}
    marks_only_raise_states(observers, log, observer);
    marks_only_raise_states(observers, log, node);
    if !(after[node].state is Clean) && observers[node].state is Clean {
        let from = first_mark_finds_clean(observers, log, node);
        assert(travels_on(observers, log, from));
        assert(serves_all(graph, observers, log, from));
        assert(graph.observes(observer, log[from].observer));
        let at = choose|at: int|
            from < at < log.len() && #[trigger] log[at].observer == observer && is_passed_on(
                observers,
                log,
                at,
                from,
            );
        marks_take_effect(graph, observers, log, at);
    }
}

/// If whoever depends on a stale computed node was stale before a write, that still holds after
/// it: no observer downstream of a stale computed node is left looking up to date.
pub proof fn write_keeps_staleness_closed(
    graph: GraphModel,
    observers: Map<u64, Observer>,
    source: u64,
    log: Seq<Delivery>,
)
    requires
        propagation(graph, observers, source, log),
        staleness_closed(graph, observers),
    ensures
        staleness_closed(graph, delivered(observers, log)),
{
    let after = delivered(observers, log);
    assert forall|observer: u64, node: u64| #![trigger graph.observes(observer, node)]
        graph.observes(observer, node) && listens(after, observer) && listens(after, node)
            && after[node].effect is None && !(after[node].state is Clean) implies !(
    after[observer].state is Clean) by {
        reveal(propagates);
        marks_only_raise_states(observers, log, observer);
        marks_only_raise_states(observers, log, node);
        write_keeps_observer_stale(graph, observers, source, log, observer, node);
    }
}

/// After a write, every transitive dependent of the written node is stale, however long the chain
/// of computed nodes in between.
pub proof fn write_reaches_transitive_dependents(
    graph: GraphModel,
    observers: Map<u64, Observer>,
    source: u64,
    log: Seq<Delivery>,
    path: Seq<u64>,
)
    requires
        propagation(graph, observers, source, log),
        staleness_closed(graph, observers),
        depends_along(graph, observers, path),
        path[0] == source,
    ensures
        !(delivered(observers, log)[path.last()].state is Clean),
    decreases path.len(),
{
    let after = delivered(observers, log);
    let last = path.len() - 1;
    if last == 1 {
        assert(graph.observes(path[1], path[0]));
        write_dirties_direct_observers(graph, observers, source, log, path[1]);
    } else {
        let shorter = path.drop_last();
        assert forall|at: int| #![trigger shorter[at]]
            0 < at < shorter.len() implies graph.observes(shorter[at], shorter[at - 1]) && listens(
            observers,
            shorter[at],
        ) by {
            assert(shorter[at] == path[at]);
        }
        assert forall|at: int| #![trigger shorter[at]]
            0 < at < shorter.len() - 1 implies observers[shorter[at]].effect is None by {
            assert(shorter[at] == path[at]);
        }
        write_reaches_transitive_dependents(graph, observers, source, log, shorter);
        write_keeps_staleness_closed(graph, observers, source, log);
        reveal(propagates);
        assert forall|k: int| #![trigger log[k]] 0 <= k < log.len() implies observers.contains_key(
            log[k].observer,
        ) by {}
        marks_only_raise_states(observers, log, path[last]);
        marks_only_raise_states(observers, log, path[last - 1]);
        assert(shorter.last() == path[last - 1]);
        assert(graph.observes(path[last], path[last - 1]));
    }
}

} // verus!
