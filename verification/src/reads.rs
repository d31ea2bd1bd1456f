//! What a read leaves behind, of everything that can be read.
//!
//! A read inside a computation makes the node that was read a dependency of that computation, as
//! it is at that moment, and changes nothing else. A read anywhere else changes nothing at all.
use vstd::prelude::*;

use crate::cell::Cell;
use crate::event::{Event, EventQueue};
use crate::model::ReactorModel;
use crate::observable::{DynObservable, Erased, Observable};
use crate::reactor::{ReactCycleError, Reactor};
use crate::resource::Resource;
use crate::signal::Signal;
use crate::source::Source;
use crate::thunk::{Memo, Thunk};
use crate::tracking::{Tracking, UntrackGuard};
use crate::watch::Watch;
use crate::writable::Writable;

verus! {

/// The innermost computation that runs in `before` depends on `node` in `after`, at the version
/// that the node has. Every other dependency is as it was, and so are the nodes, the computations
/// that run, and how stale anyone is.
pub open spec fn depends_now(before: ReactorModel, node: u64, after: ReactorModel) -> bool {
    let running = before.graph.stack;
    let edge = (running[running.len() - 1], node);
    &&& after.graph.edges.contains_key(edge)
    &&& before.graph.nodes.contains_key(node) ==> after.graph.edges[edge]
        == before.graph.nodes[node].version
    &&& forall|other: (u64, u64)|
        other != edge ==> (#[trigger] after.graph.edges.contains_key(other)
            <==> before.graph.edges.contains_key(other))
    &&& forall|other: (u64, u64)|
        other != edge && #[trigger] after.graph.edges.contains_key(other)
            ==> after.graph.edges[other] == before.graph.edges[other]
    &&& after.graph.nodes == before.graph.nodes
    &&& after.graph.next_node == before.graph.next_node
    &&& after.graph.stack == before.graph.stack
    &&& after.observers == before.observers
}

/// `after` is what a read of `node` makes of `before`: a dependency of the innermost computation
/// where one runs, tracks its reads, and is not itself computing the node; nothing anywhere else.
pub open spec fn is_read(
    before: ReactorModel,
    tracking: Tracking,
    node: u64,
    after: ReactorModel,
) -> bool {
    if before.graph.stack.len() > 0 && tracking.untracked_depth == 0
        && !before.graph.stack.contains(node) {
        depends_now(before, node, after)
    } else {
        after == before
    }
}

/// What reading through the model comes to.
pub proof fn reading_is_reading(before: ReactorModel, tracking: Tracking, node: u64)
    ensures
        is_read(before, tracking, node, before.read(tracking, node)),
{
    let after = before.read(tracking, node);
    let running = before.graph.stack;
    if running.len() > 0 && tracking.untracked_depth == 0 && !running.contains(node) {
        let edge = (running[running.len() - 1], node);
        assert(after.graph.edges == before.graph.edges.insert(edge, before.graph.version(node)));
    }
}

/// Observing a node is reading it. A node that is being computed is refused, tracked or not.
pub proof fn observing_is_a_read(
    reactor: &mut Reactor,
    tracking: Tracking,
    node: crate::id::NodeId,
    outcome: Result<(), ReactCycleError>,
)
    requires
        call_ensures(Reactor::try_observe, (reactor, &tracking, node), outcome)
            || call_ensures(Reactor::observe, (reactor, &tracking, node), ()),
    ensures
        is_read(old(reactor)@, tracking, node.0, final(reactor)@),
        call_ensures(Reactor::try_observe, (reactor, &tracking, node), outcome) ==> outcome is Err
            == old(reactor)@.graph.stack.contains(node.0),
{
    reading_is_reading(old(reactor)@, tracking, node.0);
}

/// Reading a signal, or a cell, is reading its node.
pub proof fn signals_are_read<T: Clone, R, F: FnOnce(&T) -> R>(
    signal: Signal<T>,
    cell: Cell<T>,
    reactor: &mut Reactor,
    tracking: Tracking,
    f: F,
    output: R,
    value: T,
)
    ensures
        call_ensures(Signal::<T>::with::<R, F>, (&signal, reactor, &tracking, f), output)
            ==> is_read(old(reactor)@, tracking, signal.node().0, final(reactor)@) && f.ensures(
            (&signal.held(),),
            output,
        ),
        call_ensures(Signal::<T>::get, (&signal, reactor, &tracking), value) ==> is_read(
            old(reactor)@,
            tracking,
            signal.node().0,
            final(reactor)@,
        ) && cloned(signal.held(), value),
        call_ensures(Cell::<T>::with::<R, F>, (&cell, reactor, &tracking, f), output) ==> is_read(
            old(reactor)@,
            tracking,
            cell.node().0,
            final(reactor)@,
        ) && f.ensures((&cell.held(),), output),
        call_ensures(Cell::<T>::get, (&cell, reactor, &tracking), value) ==> is_read(
            old(reactor)@,
            tracking,
            cell.node().0,
            final(reactor)@,
        ) && cloned(cell.held(), value),
{
    reading_is_reading(old(reactor)@, tracking, signal.node().0);
    reading_is_reading(old(reactor)@, tracking, cell.node().0);
}

/// Observing a source, or an event, is reading its node; so is draining the queue of an event, which
/// hands out everything that was taken in.
pub proof fn sources_and_events_are_read<T>(
    source: Source,
    event: Event,
    queue: &mut EventQueue<T>,
    values: Vec<T>,
    reactor: &mut Reactor,
    tracking: Tracking,
)
    ensures
        call_ensures(Source::observe, (&source, reactor, &tracking), ()) ==> is_read(
            old(reactor)@,
            tracking,
            source.node().0,
            final(reactor)@,
        ),
        call_ensures(Event::observe, (&event, reactor, &tracking), ()) ==> is_read(
            old(reactor)@,
            tracking,
            event@.node,
            final(reactor)@,
        ),
        call_ensures(EventQueue::<T>::drain, (queue, &event, reactor, &tracking), values)
            ==> is_read(old(reactor)@, tracking, event@.node, final(reactor)@) && values@ == old(queue)@ && final(queue)@.len() == 0,
{
    reading_is_reading(old(reactor)@, tracking, source.node().0);
    reading_is_reading(old(reactor)@, tracking, event@.node);
}

/// Reading a thunk, or a memo, is reading its node.
pub proof fn computed_nodes_are_read<T: Clone, R, F: FnOnce(&T) -> R>(
    thunk: Thunk<T>,
    memo: Memo<T>,
    reactor: &mut Reactor,
    tracking: Tracking,
    f: F,
    output: R,
    value: T,
)
    requires
        thunk.held() is Some,
        memo.held() is Some,
    ensures
        call_ensures(Thunk::<T>::with::<R, F>, (&thunk, reactor, &tracking, f), output) ==> is_read(
            old(reactor)@,
            tracking,
            thunk.node().0,
            final(reactor)@,
        ) && f.ensures((&thunk.held()->0,), output),
        call_ensures(Thunk::<T>::get, (&thunk, reactor, &tracking), value) ==> is_read(
            old(reactor)@,
            tracking,
            thunk.node().0,
            final(reactor)@,
        ) && cloned(thunk.held()->0, value),
        call_ensures(Memo::<T>::with::<R, F>, (&memo, reactor, &tracking, f), output) ==> is_read(
            old(reactor)@,
            tracking,
            memo.node().0,
            final(reactor)@,
        ) && f.ensures((&memo.held()->0,), output),
        call_ensures(Memo::<T>::get, (&memo, reactor, &tracking), value) ==> is_read(
            old(reactor)@,
            tracking,
            memo.node().0,
            final(reactor)@,
        ) && cloned(memo.held()->0, value),
{
    reading_is_reading(old(reactor)@, tracking, thunk.node().0);
    reading_is_reading(old(reactor)@, tracking, memo.node().0);
}

/// Reading a resource is reading the node of its value. Asking whether it is loading is reading the
/// node of the flag.
pub proof fn resources_are_read<T: Clone, R, F: FnOnce(&Option<T>) -> R>(
    resource: Resource<T>,
    reactor: &mut Reactor,
    tracking: Tracking,
    f: F,
    output: R,
    value: Option<T>,
    loading: bool,
)
    ensures
        call_ensures(Resource::<T>::with::<R, F>, (&resource, reactor, &tracking, f), output)
            ==> is_read(
            old(reactor)@,
            tracking,
            resource.value_signal().node().0,
            final(reactor)@,
        ) && f.ensures((&resource.value_signal().held(),), output),
        call_ensures(Resource::<T>::get, (&resource, reactor, &tracking), value) ==> is_read(
            old(reactor)@,
            tracking,
            resource.value_signal().node().0,
            final(reactor)@,
        ) && cloned(resource.value_signal().held(), value),
        call_ensures(Resource::<T>::loading, (&resource, reactor, &tracking), loading) ==> is_read(
            old(reactor)@,
            tracking,
            resource.loading_signal().node().0,
            final(reactor)@,
        ) && loading == resource.loading_signal().held(),
{
    reading_is_reading(old(reactor)@, tracking, resource.value_signal().node().0);
    reading_is_reading(old(reactor)@, tracking, resource.loading_signal().node().0);
}

/// A watch reads what it watches before tracking is suspended for its handler, and hands the handler
/// that value. Afterwards reads are tracked as they were before.
pub proof fn watches_read_what_they_watch<S: Clone>(
    watch: &mut Watch<S>,
    reactor: &mut Reactor,
    tracking: &mut Tracking,
    begun: (S, UntrackGuard),
    guard: UntrackGuard,
    new: S,
)
    ensures
        old(watch).gate().held() is Some && old(tracking).untracked_depth < u32::MAX
            && call_ensures(Watch::<S>::begin, (&*old(watch), reactor, tracking), begun)
            ==> is_read(
            old(reactor)@,
            *old(tracking),
            old(watch).gate().node().0,
            final(reactor)@,
        ) && cloned(old(watch).gate().held()->0, begun.0) && final(tracking).untracked_depth == old(tracking).untracked_depth + 1 && final(tracking).running == old(tracking).running,
        call_ensures(Watch::<S>::handled, (watch, tracking, guard, new), ()) && old(tracking).untracked_depth > 0 ==> final(tracking).untracked_depth == old(tracking).untracked_depth
            - 1 && final(tracking).running == old(tracking).running && final(watch).handled_last() == Some(new),
{
    reading_is_reading(old(reactor)@, *old(tracking), old(watch).gate().node().0);
}

/// The node that a read of an erased observable depends on: that of the signal, thunk or memo that
/// was erased, or of a resource's value. A constant has none.
pub open spec fn erased_node<T>(erased: Erased<T>) -> Option<u64> {
    match erased {
        Erased::Constant(_) => None,
        Erased::Signal(signal) => Some(signal.node().0),
        Erased::Thunk(thunk) => Some(thunk.node().0),
        Erased::Memo(memo) => Some(memo.node().0),
        Erased::Fetched(value) => Some(value.node().0),
    }
}

/// Reading anything through the common interface is reading the node of its value: for a resource
/// that is the node that a completed fetch writes.
pub proof fn observables_are_read<T, R, F: FnOnce(&T) -> R, G: FnOnce(&Option<T>) -> R>(
    signal: Signal<T>,
    thunk: Thunk<T>,
    memo: Memo<T>,
    writable: Writable<T>,
    resource: Resource<T>,
    reactor: &mut Reactor,
    tracking: Tracking,
    f: F,
    g: G,
    output: R,
)
    ensures
        call_ensures(
            <Signal<T> as Observable>::with::<R, F>,
            (&signal, reactor, &tracking, f),
            output,
        ) ==> is_read(old(reactor)@, tracking, signal.node().0, final(reactor)@),
        call_ensures(
            <Thunk<T> as Observable>::with::<R, F>,
            (&thunk, reactor, &tracking, f),
            output,
        ) ==> is_read(old(reactor)@, tracking, thunk.node().0, final(reactor)@),
        call_ensures(
            <Memo<T> as Observable>::with::<R, F>,
            (&memo, reactor, &tracking, f),
            output,
        ) ==> is_read(old(reactor)@, tracking, memo.node().0, final(reactor)@),
        call_ensures(
            <Writable<T> as Observable>::with::<R, F>,
            (&writable, reactor, &tracking, f),
            output,
        ) ==> is_read(old(reactor)@, tracking, writable.derived().node().0, final(reactor)@),
        call_ensures(
            <Resource<T> as Observable>::with::<R, G>,
            (&resource, reactor, &tracking, g),
            output,
        ) ==> is_read(
            old(reactor)@,
            tracking,
            resource.value_signal().node().0,
            final(reactor)@,
        ) && g.ensures((&resource.value_signal().held(),), output),
{
    reading_is_reading(old(reactor)@, tracking, signal.node().0);
    reading_is_reading(old(reactor)@, tracking, thunk.node().0);
    reading_is_reading(old(reactor)@, tracking, memo.node().0);
    reading_is_reading(old(reactor)@, tracking, writable.derived().node().0);
    reading_is_reading(old(reactor)@, tracking, resource.value_signal().node().0);
}

/// Reading an erased observable is reading the node of what was erased, and a constant leaves no
/// trace.
pub proof fn erased_observables_are_read<T, R, F: FnOnce(&T) -> R>(
    observable: DynObservable<T>,
    reactor: &mut Reactor,
    tracking: Tracking,
    f: F,
    output: R,
)
    requires
        call_ensures(
            <DynObservable<T> as Observable>::with::<R, F>,
            (&observable, reactor, &tracking, f),
            output,
        ),
    ensures
        match erased_node(observable.erased) {
            Some(node) => is_read(old(reactor)@, tracking, node, final(reactor)@),
            None => final(reactor)@ == old(reactor)@,
        },
        observable.erased matches Erased::Constant(value) ==> f.ensures((&value,), output),
        observable.erased matches Erased::Signal(signal) ==> f.ensures((&signal.held(),), output),
        observable.erased matches Erased::Fetched(value) ==> f.ensures((&value.held(),), output),
{
    if let Some(node) = erased_node(observable.erased) {
        reading_is_reading(old(reactor)@, tracking, node);
    }
}

/// A clone of the value is got by the same read, whatever is read through the common interface.
pub proof fn getting_is_reading<O: Observable>(
    observable: O,
    reactor: &mut Reactor,
    tracking: Tracking,
    value: O::Item,
) where O::Item: Clone
    requires
        call_ensures(O::get, (&observable, reactor, &tracking), value),
    ensures
        match observable.through() {
            Some(node) => is_read(old(reactor)@, tracking, node, final(reactor)@),
            None => final(reactor)@ == old(reactor)@,
        },
        cloned(observable.current()->0, value),
{
    if let Some(node) = observable.through() {
        reading_is_reading(old(reactor)@, tracking, node);
    }
}

/// Everything but a constant is read through a node: that of its value. Erasing keeps the node, the
/// value and the reactor.
pub proof fn erasing_keeps_the_node<T>(
    signal: Signal<T>,
    thunk: Thunk<T>,
    memo: Memo<T>,
    writable: Writable<T>,
    resource: Resource<T>,
    erased: DynObservable<T>,
    fetched: DynObservable<Option<T>>,
)
    ensures
        signal.through() == Some(signal.node().0),
        thunk.through() == Some(thunk.node().0),
        memo.through() == Some(memo.node().0),
        writable.through() == Some(writable.derived().node().0),
        resource.through() == Some(resource.value_signal().node().0),
        erased.through() == erased_node(erased.erased),
        call_ensures(<Signal<T> as Observable>::into_dyn, (signal,), erased) ==> erased_node(
            erased.erased,
        ) == Some(signal.node().0) && erased.current() == Some(signal.held()) && erased.home()
            == Some(signal.graph()),
        call_ensures(<Thunk<T> as Observable>::into_dyn, (thunk,), erased) ==> erased_node(
            erased.erased,
        ) == Some(thunk.node().0) && erased.current() == thunk.held() && erased.home() == Some(
            thunk.graph(),
        ),
        call_ensures(<Memo<T> as Observable>::into_dyn, (memo,), erased) ==> erased_node(
            erased.erased,
        ) == Some(memo.node().0) && erased.current() == memo.held() && erased.home() == Some(
            memo.graph(),
        ),
        call_ensures(<Writable<T> as Observable>::into_dyn, (writable,), erased) ==> erased_node(
            erased.erased,
        ) == Some(writable.derived().node().0) && erased.current() == writable.derived().held(),
        call_ensures(<Resource<T> as Observable>::into_dyn, (resource,), fetched) ==> erased_node(
            fetched.erased,
        ) == Some(resource.value_signal().node().0) && fetched.current() == Some(
            resource.value_signal().held(),
        ),
        forall|value: T| #[trigger]
            call_ensures(DynObservable::<T>::constant, (value,), erased) ==> erased_node(
                erased.erased,
            ) is None && erased.current() == Some(value) && erased.home() is None,
{
}

} // verus!
