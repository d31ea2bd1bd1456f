//! Signals: mutable values that the graph knows.
use vstd::prelude::*;

use crate::diagnostics::{DiagnosticEvent, NodeKind, ReactorId};
use crate::id::{Location, NodeId};
use crate::model::ReactorModel;
use crate::observers::Delivery;
use crate::reactor::Reactor;
use crate::stats::FlushItem;
use crate::tracking::Tracking;

verus! {

/// A mutable value. Reading it inside a computation records a dependency; writing it marks
/// dependents stale.
#[derive(Debug)]
pub struct Signal<T> {
    id: NodeId,
    reactor: ReactorId,
    value: T,
}

impl ReactorModel {
    /// After a write to `node` was discarded because the value had not changed: it is counted and
    /// reported, and the graph does not change.
    pub open spec fn write_suppressed(self, node: u64, write_origin: Location) -> ReactorModel {
        let counted = self.recorded(FlushItem::WriteSuppressed);
        match self.origin(node) {
            Some(node_origin) => counted.emitted(
                DiagnosticEvent::WriteSuppressed {
                    reactor: self.id,
                    node: NodeId(node),
                    kind: NodeKind::Signal,
                    node_origin,
                    write_origin,
                },
            ),
            None => counted,
        }
    }

    /// `after` is the outcome of a write to `node`: some propagation of it took place.
    pub open spec fn is_write(
        self,
        node: u64,
        write_origin: Location,
        after: ReactorModel,
    ) -> bool {
        exists|log: Seq<Delivery>|
            crate::observers::propagation(self.graph, self.observers, node, log) && after
                == #[trigger] self.triggered(node, write_origin, log)
    }

    /// A read of a node closes no cycle, and can be recorded if it has to be.
    pub open spec fn readable(self, tracking: Tracking, node: u64) -> bool {
        &&& self.has_room(tracking, node)
        &&& !self.graph.active(node)
    }
}

fn report_suppressed_write(reactor: &mut Reactor, node: NodeId, write_origin: Location)
    requires
        old(reactor).wf(),
    ensures
        final(reactor).wf(),
        final(reactor)@ == old(reactor)@.write_suppressed(node.0, write_origin),
{
    reactor.record_flush(FlushItem::WriteSuppressed);
    if let Some(node_origin) = reactor.node_origin(node) {
        let id = reactor.id();
        reactor.emit(
            DiagnosticEvent::WriteSuppressed {
                reactor: id,
                node,
                kind: NodeKind::Signal,
                node_origin,
                write_origin,
            },
        );
    }
}

impl<T> Signal<T> {
    /// The signal's node.
    pub closed spec fn node(self) -> NodeId {
        self.id
    }

    /// The signal's reactor.
    pub closed spec fn graph(self) -> ReactorId {
        self.reactor
    }

    /// The signal's value.
    pub closed spec fn held(self) -> T {
        self.value
    }

    /// Reads the value, recording a dependency for the currently running observer.
    pub fn with<R, F: FnOnce(&T) -> R>(
        &self,
        reactor: &mut Reactor,
        tracking: &Tracking,
        f: F,
    ) -> (output: R)
        requires
            old(reactor).wf(),
            old(reactor)@.readable(*tracking, self.node().0),
            f.requires((&self.held(),)),
        ensures
            final(reactor).wf(),
            final(reactor)@ == old(reactor)@.read(*tracking, self.node().0),
            f.ensures((&self.held(),), output),
    {
        reactor.observe(tracking, self.id);
        f(&self.value)
    }

    /// Reads the value without recording a dependency.
    pub fn with_peek<R, F: FnOnce(&T) -> R>(&self, f: F) -> (output: R)
        requires
            f.requires((&self.held(),)),
        ensures
            f.ensures((&self.held(),), output),
    {
        f(&self.value)
    }

    /// Changes the value in place without telling anyone: follow it with [`notify`](Self::notify).
    pub fn edit<R, F: FnOnce(&mut T) -> R>(&mut self, f: F) -> (output: R)
        requires
            forall|value: &mut T| *value == old(self).held() ==> f.requires((value,)),
        ensures
            final(self).node() == old(self).node(),
            final(self).graph() == old(self).graph(),
            exists|value: &mut T|
                *value == old(self).held() && *final(value) == final(self).held()
                    && #[trigger] f.ensures((value,), output),
    {
        f(&mut self.value)
    }

    /// Marks dependents stale.
    pub fn notify(&self, reactor: &mut Reactor, write_origin: Location)
        requires
            old(reactor).wf(),
        ensures
            final(reactor).wf(),
            old(reactor)@.is_write(self.node().0, write_origin, final(reactor)@),
    {
        assert(self.node() == self.id);
        reactor.trigger(self.id, write_origin);
    }

    /// Changes the value in place. Dependents are marked stale whether or not it changed.
    pub fn update<R, F: FnOnce(&mut T) -> R>(
        &mut self,
        reactor: &mut Reactor,
        f: F,
        write_origin: Location,
    ) -> (output: R)
        requires
            old(reactor).wf(),
            forall|value: &mut T| *value == old(self).held() ==> f.requires((value,)),
        ensures
            final(reactor).wf(),
            final(self).node() == old(self).node(),
            final(self).graph() == old(self).graph(),
            exists|value: &mut T|
                *value == old(self).held() && *final(value) == final(self).held()
                    && #[trigger] f.ensures((value,), output),
            old(reactor)@.is_write(old(self).node().0, write_origin, final(reactor)@),
    {
        let output = self.edit(f);
        self.notify(reactor, write_origin);
        output
    }
}

/// The values are equal in the sense of the type, where the type says what that means.
pub open spec fn judged_equal<T: PartialEq>(left: T, right: T) -> bool {
    vstd::std_specs::cmp::PartialEqSpec::eq_spec(&left, &right)
}

/// The type says what its equality means.
pub open spec fn equality_is_known<T: vstd::std_specs::cmp::PartialEqSpec>() -> bool {
    T::obeys_eq_spec()
}

/// `equal` is what `==` of the type answers of the values. Where the type says what its equality
/// means that is the one answer, else it is an answer that the type's own code can give.
pub open spec fn answers_equal<T: PartialEq>(left: T, right: T, equal: bool) -> bool {
    &&& call_ensures(T::eq, (&left, &right), equal)
    &&& equality_is_known::<T>() ==> equal == judged_equal(left, right)
}

impl Reactor {
    /// Creates a signal.
    pub fn signal<T>(&mut self, initial: T, origin: Location) -> (signal: Signal<T>)
        requires
            old(self).wf(),
            old(self)@.graph.next_node < u64::MAX,
        ensures
            final(self).wf(),
            final(self)@ == old(self)@.created(NodeKind::Signal, origin),
            signal.node() == NodeId(old(self)@.graph.next_node),
            signal.graph() == old(self)@.id,
            signal.held() == initial,
    {
        let id = self.allocate_node(NodeKind::Signal, origin);
        Signal { id, reactor: self.id(), value: initial }
    }
}

/// Creates a signal on `reactor`.
pub fn signal_in<T>(reactor: &mut Reactor, initial: T, origin: Location) -> (signal: Signal<T>)
    requires
        old(reactor).wf(),
        old(reactor)@.graph.next_node < u64::MAX,
    ensures
        final(reactor).wf(),
        final(reactor)@ == old(reactor)@.created(NodeKind::Signal, origin),
        signal.node() == NodeId(old(reactor)@.graph.next_node),
        signal.graph() == old(reactor)@.id,
        signal.held() == initial,
{
    reactor.signal(initial, origin)
}

impl<T> Signal<T> {
    /// Returns the signal's node.
    pub fn id(&self) -> (id: NodeId)
        ensures
            id == self.node(),
    {
        self.id
    }

    /// Returns the identifier of the signal's reactor.
    pub fn reactor(&self) -> (id: ReactorId)
        ensures
            id == self.graph(),
    {
        self.reactor
    }

    /// Stores a value and returns the one it replaced. Dependents are marked stale whether or not
    /// the value changed.
    pub fn replace(&mut self, reactor: &mut Reactor, value: T, write_origin: Location) -> (previous:
        T)
        requires
            old(reactor).wf(),
        ensures
            final(reactor).wf(),
            final(self).node() == old(self).node(),
            final(self).graph() == old(self).graph(),
            final(self).held() == value,
            previous == old(self).held(),
            old(reactor)@.is_write(old(self).node().0, write_origin, final(reactor)@),
    {
        let mut previous = value;
        std::mem::swap(&mut previous, &mut self.value);
        reactor.trigger(self.id, write_origin);
        previous
    }
}

impl<T> Signal<T> {
    /// Takes the signal out of the graph.
    pub fn release(self, reactor: &mut Reactor)
        requires
            old(reactor).wf(),
        ensures
            final(reactor).wf(),
            exists|lost: Seq<u64>|
                crate::model::lists(
                    lost,
                    crate::model::abandoned(old(reactor)@.graph, self.node().0),
                ) && final(reactor)@ == #[trigger] old(reactor)@.disposed(self.node().0, lost),
    {
        assert(self.node() == self.id);
        reactor.dispose(self.id);
    }
}

impl<T: Clone> Signal<T> {
    /// Returns a clone of the value, recording a dependency for the currently running observer.
    pub fn get(&self, reactor: &mut Reactor, tracking: &Tracking) -> (value: T)
        requires
            old(reactor).wf(),
            old(reactor)@.readable(*tracking, self.node().0),
        ensures
            final(reactor).wf(),
            final(reactor)@ == old(reactor)@.read(*tracking, self.node().0),
            cloned(self.held(), value),
    {
        reactor.observe(tracking, self.id);
        self.value.clone()
    }

    /// Returns a clone of the value without recording a dependency.
    pub fn peek(&self) -> (value: T)
        ensures
            cloned(self.held(), value),
    {
        self.value.clone()
    }
}

impl<T> Signal<T> {
    /// Stores a value unless `equal` says that it equals the current one, and returns the one it
    /// replaced. An equal write is suppressed: nothing propagates.
    pub fn set_judged(
        &mut self,
        reactor: &mut Reactor,
        value: T,
        equal: bool,
        write_origin: Location,
    ) -> (previous: Option<T>)
        requires
            old(reactor).wf(),
        ensures
            final(reactor).wf(),
            final(self).node() == old(self).node(),
            final(self).graph() == old(self).graph(),
            previous is None <==> equal,
            match previous {
                None => {
                    &&& final(self).held() == old(self).held()
                    &&& final(reactor)@ == old(reactor)@.write_suppressed(
                        old(self).node().0,
                        write_origin,
                    )
                },
                Some(previous) => {
                    &&& previous == old(self).held()
                    &&& final(self).held() == value
                    &&& old(reactor)@.is_write(old(self).node().0, write_origin, final(reactor)@)
                },
            },
    {
        if equal {
            report_suppressed_write(reactor, self.id, write_origin);
            return None;
        }
        Some(self.replace(reactor, value, write_origin))
    }
}

impl<T: PartialEq> Signal<T> {
    /// Stores a value unless it equals the current one, and returns the one it replaced. An equal
    /// write is suppressed: nothing propagates.
    pub fn set(&mut self, reactor: &mut Reactor, value: T, write_origin: Location) -> (previous:
        Option<T>)
        requires
            old(reactor).wf(),
        ensures
            final(reactor).wf(),
            final(self).node() == old(self).node(),
            final(self).graph() == old(self).graph(),
            answers_equal(old(self).held(), value, previous is None),
            match previous {
                None => {
                    &&& final(self).held() == old(self).held()
                    &&& final(reactor)@ == old(reactor)@.write_suppressed(
                        old(self).node().0,
                        write_origin,
                    )
                },
                Some(previous) => {
                    &&& previous == old(self).held()
                    &&& final(self).held() == value
                    &&& old(reactor)@.is_write(old(self).node().0, write_origin, final(reactor)@)
                },
            },
    {
        let equal = self.value == value;
        self.set_judged(reactor, value, equal, write_origin)
    }
}

/// A suppressed write leaves the graph, the observers and the queue as they were: no version, no
/// mark and no job comes of it.
pub proof fn suppressed_writes_reach_nobody(
    model: ReactorModel,
    node: u64,
    write_origin: Location,
)
    ensures
        model.write_suppressed(node, write_origin).graph == model.graph,
        model.write_suppressed(node, write_origin).observers == model.observers,
        model.write_suppressed(node, write_origin).jobs == model.jobs,
        model.write_suppressed(node, write_origin).ready == model.ready,
        !model.listening() ==> model.write_suppressed(node, write_origin) == model,
{
}

} // verus!
