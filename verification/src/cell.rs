//! Cells: mutable values without diagnostics of their own.
use vstd::prelude::*;

use crate::diagnostics::{NodeKind, ReactorId};
use crate::id::{Location, NodeId};
use crate::reactor::Reactor;
use crate::tracking::Tracking;

verus! {

/// A mutable value. Like a [`Signal`](crate::signal::Signal), except that a suppressed write
/// leaves no trace.
#[derive(Debug)]
pub struct Cell<T> {
    id: NodeId,
    reactor: ReactorId,
    value: T,
}

impl Reactor {
    /// Creates a cell.
    pub fn cell<T>(&mut self, initial: T, origin: Location) -> (cell: Cell<T>)
        requires
            old(self).wf(),
            old(self)@.graph.next_node < u64::MAX,
        ensures
            final(self).wf(),
            final(self)@ == old(self)@.created(NodeKind::Signal, origin),
            cell.node() == NodeId(old(self)@.graph.next_node),
            cell.graph() == old(self)@.id,
            cell.held() == initial,
    {
        let id = self.allocate_node(NodeKind::Signal, origin);
        Cell { id, reactor: self.id(), value: initial }
    }
}

/// Creates a cell on `reactor`.
pub fn cell_in<T>(reactor: &mut Reactor, initial: T, origin: Location) -> (cell: Cell<T>)
    requires
        old(reactor).wf(),
        old(reactor)@.graph.next_node < u64::MAX,
    ensures
        final(reactor).wf(),
        final(reactor)@ == old(reactor)@.created(NodeKind::Signal, origin),
        cell.node() == NodeId(old(reactor)@.graph.next_node),
        cell.graph() == old(reactor)@.id,
        cell.held() == initial,
{
    reactor.cell(initial, origin)
}

impl<T> Cell<T> {
    /// The cell's node.
    pub closed spec fn node(self) -> NodeId {
        self.id
    }

    /// The cell's reactor.
    pub closed spec fn graph(self) -> ReactorId {
        self.reactor
    }

    /// The cell's value.
    pub closed spec fn held(self) -> T {
        self.value
    }

    /// Reads the value, recording a dependency for the currently running observer.
    pub fn with<R, F: FnOnce(&T) -> R>(
        &self,
        reactor: &mut Reactor,
        tracking: &Tracking,
        f: F,
    ) -> (output: R)
        requires
            old(reactor).wf(),
            old(reactor)@.readable(*tracking, self.node().0),
            f.requires((&self.held(),)),
        ensures
            final(reactor).wf(),
            final(reactor)@ == old(reactor)@.read(*tracking, self.node().0),
            f.ensures((&self.held(),), output),
    {
        reactor.observe(tracking, self.id);
        f(&self.value)
    }

    /// Stores a value and returns the one it replaced. Dependents are marked stale whether or not
    /// the value changed.
    pub fn replace(&mut self, reactor: &mut Reactor, value: T, write_origin: Location) -> (previous:
        T)
        requires
            old(reactor).wf(),
        ensures
            final(reactor).wf(),
            final(self).node() == old(self).node(),
            final(self).graph() == old(self).graph(),
            final(self).held() == value,
            previous == old(self).held(),
            old(reactor)@.is_write(old(self).node().0, write_origin, final(reactor)@),
    {
        let mut previous = value;
        std::mem::swap(&mut previous, &mut self.value);
        reactor.trigger(self.id, write_origin);
        previous
    }

    /// Changes the value in place. Dependents are marked stale whether or not it changed.
    pub fn update<R, F: FnOnce(&mut T) -> R>(
        &mut self,
        reactor: &mut Reactor,
        f: F,
        write_origin: Location,
    ) -> (output: R)
        requires
            old(reactor).wf(),
            forall|value: &mut T| *value == old(self).held() ==> f.requires((value,)),
        ensures
            final(reactor).wf(),
            final(self).node() == old(self).node(),
            final(self).graph() == old(self).graph(),
            exists|value: &mut T|
                *value == old(self).held() && *final(value) == final(self).held()
                    && #[trigger] f.ensures((value,), output),
            old(reactor)@.is_write(old(self).node().0, write_origin, final(reactor)@),
    {
        let output = f(&mut self.value);
        reactor.trigger(self.id, write_origin);
        output
    }

    /// Takes the cell out of the graph.
    pub fn release(self, reactor: &mut Reactor)
        requires
            old(reactor).wf(),
        ensures
            final(reactor).wf(),
            exists|lost: Seq<u64>|
                crate::model::lists(
                    lost,
                    crate::model::abandoned(old(reactor)@.graph, self.node().0),
                ) && final(reactor)@ == #[trigger] old(reactor)@.disposed(self.node().0, lost),
    {
        assert(self.node() == self.id);
        reactor.dispose(self.id);
    }
}

impl<T: Clone> Cell<T> {
    /// Returns a clone of the value, recording a dependency for the currently running observer.
    pub fn get(&self, reactor: &mut Reactor, tracking: &Tracking) -> (value: T)
        requires
            old(reactor).wf(),
            old(reactor)@.readable(*tracking, self.node().0),
        ensures
            final(reactor).wf(),
            final(reactor)@ == old(reactor)@.read(*tracking, self.node().0),
            cloned(self.held(), value),
    {
        reactor.observe(tracking, self.id);
        self.value.clone()
    }
}

impl<T: PartialEq> Cell<T> {
    /// Stores a value unless it equals the current one, and returns the one it replaced. An equal
    /// write changes nothing.
    pub fn set(&mut self, reactor: &mut Reactor, value: T, write_origin: Location) -> (previous:
        Option<T>)
        requires
            old(reactor).wf(),
        ensures
            final(reactor).wf(),
            final(self).node() == old(self).node(),
            final(self).graph() == old(self).graph(),
            crate::signal::answers_equal(old(self).held(), value, previous is None),
            match previous {
                None => {
                    &&& final(self).held() == old(self).held()
                    &&& final(reactor)@ == old(reactor)@
                },
                Some(previous) => {
                    &&& previous == old(self).held()
                    &&& final(self).held() == value
                    &&& old(reactor)@.is_write(old(self).node().0, write_origin, final(reactor)@)
                },
            },
    {
        if self.value == value {
            return None;
        }
        Some(self.replace(reactor, value, write_origin))
    }
}

} // verus!
