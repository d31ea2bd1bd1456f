//! Low-level sources: nodes without a value of their own.
use vstd::prelude::*;

use crate::diagnostics::{NodeKind, ReactorId};
use crate::id::{Location, NodeId};
use crate::model::ReactorModel;
use crate::observers::HookState;
use crate::reactor::Reactor;
use crate::tracking::Tracking;

verus! {

/// A node that lets external state take part in tracking: observe it where the state is read, and
/// trigger it where the state changes.
#[derive(Debug)]
pub struct Source {
    id: NodeId,
    reactor: ReactorId,
}

impl ReactorModel {
    /// After a source with hooks was created; nobody was told anything yet.
    pub open spec fn hooked_source_created(self, origin: Location) -> ReactorModel {
        let created = self.created(NodeKind::Source, origin);
        ReactorModel {
            hooks: created.hooks.insert(
                self.graph.next_node,
                HookState { observed: false, delivered: false, queued: false },
            ),
            ..created
        }
    }
}

impl Reactor {
    /// Creates a source.
    pub fn source(&mut self, origin: Location) -> (source: Source)
        requires
            old(self).wf(),
            old(self)@.graph.next_node < u64::MAX,
        ensures
            final(self).wf(),
            final(self)@ == old(self)@.created(NodeKind::Source, origin),
            source.node() == NodeId(old(self)@.graph.next_node),
            source.graph() == old(self)@.id,
    {
        let id = self.allocate_node(NodeKind::Source, origin);
        Source { id, reactor: self.id() }
    }

    /// Creates a source with observation hooks: a job is queued when the source gains its first
    /// observer or loses its last one, and [`deliver_hooks`](Self::deliver_hooks) tells for it
    /// whether there is anything new.
    pub fn source_with_hooks(&mut self, origin: Location) -> (source: Source)
        requires
            old(self).wf(),
            old(self)@.graph.next_node < u64::MAX,
        ensures
            final(self).wf(),
            final(self)@ == old(self)@.hooked_source_created(origin),
            source.node() == NodeId(old(self)@.graph.next_node),
            source.graph() == old(self)@.id,
    {
        let source = self.source(origin);
        self.register_observation_hooks(source.id);
        source
    }
}

/// Creates a source on `reactor`.
pub fn source_in(reactor: &mut Reactor, origin: Location) -> (source: Source)
    requires
        old(reactor).wf(),
        old(reactor)@.graph.next_node < u64::MAX,
    ensures
        final(reactor).wf(),
        final(reactor)@ == old(reactor)@.created(NodeKind::Source, origin),
        source.node() == NodeId(old(reactor)@.graph.next_node),
        source.graph() == old(reactor)@.id,
{
    reactor.source(origin)
}

/// Creates a source with observation hooks on `reactor`.
pub fn source_with_hooks_in(reactor: &mut Reactor, origin: Location) -> (source: Source)
    requires
        old(reactor).wf(),
        old(reactor)@.graph.next_node < u64::MAX,
    ensures
        final(reactor).wf(),
        final(reactor)@ == old(reactor)@.hooked_source_created(origin),
        source.node() == NodeId(old(reactor)@.graph.next_node),
        source.graph() == old(reactor)@.id,
{
    reactor.source_with_hooks(origin)
}

impl Source {
    /// The source's node.
    pub closed spec fn node(self) -> NodeId {
        self.id
    }

    /// The source's reactor.
    pub closed spec fn graph(self) -> ReactorId {
        self.reactor
    }

    /// Records a dependency on the source for the currently running observer.
    pub fn observe(&self, reactor: &mut Reactor, tracking: &Tracking)
        requires
            old(reactor).wf(),
            old(reactor)@.readable(*tracking, self.node().0),
        ensures
            final(reactor).wf(),
            final(reactor)@ == old(reactor)@.read(*tracking, self.node().0),
    {
        reactor.observe(tracking, self.id);
    }

    /// Marks dependents of the source stale.
    pub fn trigger(&self, reactor: &mut Reactor, write_origin: Location)
        requires
            old(reactor).wf(),
        ensures
            final(reactor).wf(),
            old(reactor)@.is_write(self.node().0, write_origin, final(reactor)@),
    {
        reactor.trigger(self.id, write_origin);
    }

    /// Returns the source's node.
    pub fn id(&self) -> (id: NodeId)
        ensures
            id == self.node(),
    {
        self.id
    }

    /// Returns whether any observer depends on the source.
    pub fn is_observed(&self, reactor: &Reactor) -> (observed: bool)
        requires
            reactor.wf(),
        ensures
            observed == (exists|observer: u64| reactor@.graph.observes(observer, self.node().0)),
            observed == (reactor@.graph.observers(self.node().0) != Set::<u64>::empty()),
    {
        assert(self.node() == self.id);
        reactor.is_observed(self.id)
    }

    /// Takes the source out of the graph.
    pub fn release(self, reactor: &mut Reactor)
        requires
            old(reactor).wf(),
        ensures
            final(reactor).wf(),
            exists|lost: Seq<u64>|
                crate::model::lists(
                    lost,
                    crate::model::abandoned(old(reactor)@.graph, self.node().0),
                ) && final(reactor)@ == #[trigger] old(reactor)@.disposed(self.node().0, lost),
    {
        assert(self.node() == self.id);
        reactor.dispose(self.id);
    }
}

} // verus!
