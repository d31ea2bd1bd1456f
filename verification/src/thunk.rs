//! Computed values: thunks, and memos, which compare.
//!
//! The library holds the cached value and decides what a recomputation publishes; running the
//! computation is the caller's part. To read a computed value, bring its node up to date with a
//! [`Refresh`](crate::refresh::Refresh). Whenever that asks for a recomputation, call
//! [`Reactor::start_recompute`], run the computation, call [`Reactor::leave_context`], and hand
//! the result to `finish`.
use vstd::prelude::*;

use crate::diagnostics::{NodeKind, ReactorId};
use crate::id::{Location, NodeId};
use crate::model::ReactorModel;
use crate::observers::Delivery;
use crate::reactor::Reactor;
use crate::tracking::Tracking;

verus! {

/// A lazily computed, cached value. It has no equality, so every recomputation counts as a change.
#[derive(Debug)]
pub struct Thunk<T> {
    id: NodeId,
    reactor: ReactorId,
    value: Option<T>,
}

/// A lazily computed, cached value that compares. A recomputation with an equal result counts as
/// no change, so that it stops the propagation.
#[derive(Debug)]
pub struct Memo<T> {
    id: NodeId,
    reactor: ReactorId,
    value: Option<T>,
}

impl ReactorModel {
    /// After the handle of a computed node is gone; `lost` lists the nodes that lost their last
    /// observer with it.
    pub open spec fn computed_released(self, node: u64, lost: Seq<u64>) -> ReactorModel {
        let disposed = self.unregistered(node).disposed(node, lost);
        ReactorModel { observers: disposed.observers.remove(node), ..disposed }
    }

    /// `value` may be the cache of `node`: only a node that is still to be computed, or is being
    /// computed right now, has none.
    pub open spec fn caches<T>(self, node: u64, value: Option<T>) -> bool {
        &&& self.is_computed(node)
        &&& value is None ==> self.graph.active(node) || self.observers[node].state
            == crate::observers::State::Dirty
    }
}

impl Reactor {
    /// Takes a computed node out of the graph. Its handle is gone.
    pub(crate) fn release_computed(&mut self, node: NodeId)
        requires
            old(self).wf(),
            !old(self)@.is_effect(node.0),
        ensures
            final(self).wf(),
            exists|lost: Seq<u64>|
                crate::model::lists(lost, crate::model::abandoned(old(self)@.graph, node.0))
                    && final(self)@ == #[trigger] old(self)@.computed_released(node.0, lost),
    {
        let ghost before = self@;
        self.unregister_observer(node);
        let ghost unregistered = self@;
        self.dispose(node);
        proof {
            let lost = choose|lost: Seq<u64>|
                crate::model::lists(lost, crate::model::abandoned(unregistered.graph, node.0))
                    && self@ == #[trigger] unregistered.disposed(node.0, lost);
            crate::reactor::disposal_keeps_observers(unregistered, node.0, lost);
        }
        let ghost disposed = self@;
        self.release_observer(node);
        proof {
            let lost = choose|lost: Seq<u64>|
                crate::model::lists(lost, crate::model::abandoned(unregistered.graph, node.0))
                    && disposed == #[trigger] unregistered.disposed(node.0, lost);
            assert(self@ == before.computed_released(node.0, lost));
        }
    }

    /// Creates a thunk.
    pub fn thunk<T>(&mut self, origin: Location) -> (thunk: Thunk<T>)
        requires
            old(self).wf(),
            old(self)@.graph.next_node < u64::MAX,
        ensures
            final(self).wf(),
            final(self)@ == old(self)@.computed_created(NodeKind::Thunk, origin),
            thunk.node() == NodeId(old(self)@.graph.next_node),
            thunk.graph() == old(self)@.id,
            thunk.held() is None,
            final(self)@.caches(thunk.node().0, thunk.held()),
    {
        let id = self.create_computed(NodeKind::Thunk, origin);
        Thunk { id, reactor: self.id(), value: None }
    }

    /// Creates a memo. What counts as equal is decided by each
    /// [`finish`](Memo::finish), [`finish_by`](Memo::finish_by) or
    /// [`finish_judged`](Memo::finish_judged).
    pub fn memo<T>(&mut self, origin: Location) -> (memo: Memo<T>)
        requires
            old(self).wf(),
            old(self)@.graph.next_node < u64::MAX,
        ensures
            final(self).wf(),
            final(self)@ == old(self)@.computed_created(NodeKind::Memo, origin),
            memo.node() == NodeId(old(self)@.graph.next_node),
            memo.graph() == old(self)@.id,
            memo.held() is None,
            final(self)@.caches(memo.node().0, memo.held()),
    {
        let id = self.create_computed(NodeKind::Memo, origin);
        Memo { id, reactor: self.id(), value: None }
    }
}

/// Creates a thunk on `reactor`.
pub fn thunk_in<T>(reactor: &mut Reactor, origin: Location) -> (thunk: Thunk<T>)
    requires
        old(reactor).wf(),
        old(reactor)@.graph.next_node < u64::MAX,
    ensures
        final(reactor).wf(),
        final(reactor)@ == old(reactor)@.computed_created(NodeKind::Thunk, origin),
        thunk.node() == NodeId(old(reactor)@.graph.next_node),
        thunk.graph() == old(reactor)@.id,
        thunk.held() is None,
{
    reactor.thunk(origin)
}

/// Creates a memo on `reactor`.
pub fn memo_in<T>(reactor: &mut Reactor, origin: Location) -> (memo: Memo<T>)
    requires
        old(reactor).wf(),
        old(reactor)@.graph.next_node < u64::MAX,
    ensures
        final(reactor).wf(),
        final(reactor)@ == old(reactor)@.computed_created(NodeKind::Memo, origin),
        memo.node() == NodeId(old(reactor)@.graph.next_node),
        memo.graph() == old(reactor)@.id,
        memo.held() is None,
{
    reactor.memo(origin)
}

impl<T> Thunk<T> {
    /// The thunk's node.
    pub closed spec fn node(self) -> NodeId {
        self.id
    }

    /// The thunk's reactor.
    pub closed spec fn graph(self) -> ReactorId {
        self.reactor
    }

    /// The cached value.
    pub closed spec fn held(self) -> Option<T> {
        self.value
    }

    /// Returns the thunk's node.
    pub fn id(&self) -> (id: NodeId)
        ensures
            id == self.node(),
    {
        self.id
    }

    /// Returns the identifier of the thunk's reactor.
    pub fn reactor(&self) -> (id: ReactorId)
        ensures
            id == self.graph(),
    {
        self.reactor
    }

    /// Returns the cached value, if there was a computation yet.
    pub fn cached(&self) -> (value: Option<&T>)
        ensures
            value == (match self.held() {
                Some(value) => Some(&value),
                None => None,
            }),
    {
        self.value.as_ref()
    }

    /// Caches the result of a computation that has ended, and publishes it: with no comparison,
    /// every recomputation is a new version.
    pub fn finish(&mut self, reactor: &mut Reactor, next: T)
        requires
            old(reactor).wf(),
        ensures
            final(reactor).wf(),
            final(reactor)@ == old(reactor)@.published(old(self).node().0, true),
            final(self).node() == old(self).node(),
            final(self).graph() == old(self).graph(),
            final(self).held() == Some(next),
    {
        self.value = Some(next);
        reactor.publish(self.id, true);
    }

    /// Reads the value of a node that is up to date, recording a dependency for the currently
    /// running observer.
    pub fn with<R, F: FnOnce(&T) -> R>(
        &self,
        reactor: &mut Reactor,
        tracking: &Tracking,
        f: F,
    ) -> (output: R)
        requires
            old(reactor).wf(),
            old(reactor)@.readable(*tracking, self.node().0),
            self.held() is Some,
            f.requires((&self.held()->0,)),
        ensures
            final(reactor).wf(),
            final(reactor)@ == old(reactor)@.read(*tracking, self.node().0),
            f.ensures((&self.held()->0,), output),
    {
        reactor.observe(tracking, self.id);
        f(self.value.as_ref().unwrap())
    }

    /// Reads the value of a node that is up to date without recording a dependency.
    pub fn with_peek<R, F: FnOnce(&T) -> R>(&self, f: F) -> (output: R)
        requires
            self.held() is Some,
            f.requires((&self.held()->0,)),
        ensures
            f.ensures((&self.held()->0,), output),
    {
        f(self.value.as_ref().unwrap())
    }

    /// Takes the thunk out of the graph.
    pub fn release(self, reactor: &mut Reactor)
        requires
            old(reactor).wf(),
            !old(reactor)@.is_effect(self.node().0),
        ensures
            final(reactor).wf(),
            exists|lost: Seq<u64>|
                crate::model::lists(
                    lost,
                    crate::model::abandoned(old(reactor)@.graph, self.node().0),
                ) && final(reactor)@ == #[trigger] old(reactor)@.computed_released(
                    self.node().0,
                    lost,
                ),
    {
        reactor.release_computed(self.id);
    }
}

impl<T: Clone> Thunk<T> {
    /// Returns a clone of the value of a node that is up to date, recording a dependency for the
    /// currently running observer.
    pub fn get(&self, reactor: &mut Reactor, tracking: &Tracking) -> (value: T)
        requires
            old(reactor).wf(),
            old(reactor)@.readable(*tracking, self.node().0),
            self.held() is Some,
        ensures
            final(reactor).wf(),
            final(reactor)@ == old(reactor)@.read(*tracking, self.node().0),
            cloned(self.held()->0, value),
    {
        reactor.observe(tracking, self.id);
        self.value.as_ref().unwrap().clone()
    }

    /// Returns a clone of the value of a node that is up to date without recording a dependency.
    pub fn peek(&self) -> (value: T)
        requires
            self.held() is Some,
        ensures
            cloned(self.held()->0, value),
    {
        self.value.as_ref().unwrap().clone()
    }
}

impl<T> Memo<T> {
    /// The memo's node.
    pub closed spec fn node(self) -> NodeId {
        self.id
    }

    /// The memo's reactor.
    pub closed spec fn graph(self) -> ReactorId {
        self.reactor
    }

    /// The cached value.
    pub closed spec fn held(self) -> Option<T> {
        self.value
    }

    /// Returns the memo's node.
    pub fn id(&self) -> (id: NodeId)
        ensures
            id == self.node(),
    {
        self.id
    }

    /// Returns the identifier of the memo's reactor.
    pub fn reactor(&self) -> (id: ReactorId)
        ensures
            id == self.graph(),
    {
        self.reactor
    }

    /// Returns the cached value: what the computation of a memo with a memory is handed, and what
    /// the next result is compared with. There is none before the first computation.
    pub fn cached(&self) -> (value: Option<&T>)
        ensures
            value == (match self.held() {
                Some(value) => Some(&value),
                None => None,
            }),
    {
        self.value.as_ref()
    }

    /// Caches the result of a computation that has ended, and publishes it: it is a new version
    /// unless there was a value before and `equal` says that the two are equal. The result is
    /// cached either way.
    pub fn finish_judged(&mut self, reactor: &mut Reactor, next: T, equal: bool) -> (changed: bool)
        requires
            old(reactor).wf(),
        ensures
            final(reactor).wf(),
            changed == (old(self).held() is None || !equal),
            final(reactor)@ == old(reactor)@.published(old(self).node().0, changed),
            final(self).node() == old(self).node(),
            final(self).graph() == old(self).graph(),
            final(self).held() == Some(next),
    {
        let changed = self.value.is_none() || !equal;
        self.value = Some(next);
        reactor.publish(self.id, changed);
        changed
    }

    /// Caches the result of a computation that has ended, and publishes it, with `equals` to
    /// compare it with the value before. The first value is not compared with anything.
    pub fn finish_by<F: FnOnce(&T, &T) -> bool>(
        &mut self,
        reactor: &mut Reactor,
        next: T,
        equals: F,
    ) -> (changed: bool)
        requires
            old(reactor).wf(),
            old(self).held() matches Some(current) ==> equals.requires((&current, &next)),
        ensures
            final(reactor).wf(),
            match old(self).held() {
                Some(current) => equals.ensures((&current, &next), !changed),
                None => changed,
            },
            final(reactor)@ == old(reactor)@.published(old(self).node().0, changed),
            final(self).node() == old(self).node(),
            final(self).graph() == old(self).graph(),
            final(self).held() == Some(next),
    {
        let equal = match self.value.as_ref() {
            Some(current) => equals(current, &next),
            None => false,
        };
        self.finish_judged(reactor, next, equal)
    }

    /// Reads the value of a node that is up to date, recording a dependency for the currently
    /// running observer.
    pub fn with<R, F: FnOnce(&T) -> R>(
        &self,
        reactor: &mut Reactor,
        tracking: &Tracking,
        f: F,
    ) -> (output: R)
        requires
            old(reactor).wf(),
            old(reactor)@.readable(*tracking, self.node().0),
            self.held() is Some,
            f.requires((&self.held()->0,)),
        ensures
            final(reactor).wf(),
            final(reactor)@ == old(reactor)@.read(*tracking, self.node().0),
            f.ensures((&self.held()->0,), output),
    {
        reactor.observe(tracking, self.id);
        f(self.value.as_ref().unwrap())
    }

    /// Reads the value of a node that is up to date without recording a dependency.
    pub fn with_peek<R, F: FnOnce(&T) -> R>(&self, f: F) -> (output: R)
        requires
            self.held() is Some,
            f.requires((&self.held()->0,)),
        ensures
            f.ensures((&self.held()->0,), output),
    {
        f(self.value.as_ref().unwrap())
    }

    /// Takes the memo out of the graph.
    pub fn release(self, reactor: &mut Reactor)
        requires
            old(reactor).wf(),
            !old(reactor)@.is_effect(self.node().0),
        ensures
            final(reactor).wf(),
            exists|lost: Seq<u64>|
                crate::model::lists(
                    lost,
                    crate::model::abandoned(old(reactor)@.graph, self.node().0),
                ) && final(reactor)@ == #[trigger] old(reactor)@.computed_released(
                    self.node().0,
                    lost,
                ),
    {
        reactor.release_computed(self.id);
    }
}

impl<T: Clone> Memo<T> {
    /// Returns a clone of the value of a node that is up to date, recording a dependency for the
    /// currently running observer.
    pub fn get(&self, reactor: &mut Reactor, tracking: &Tracking) -> (value: T)
        requires
            old(reactor).wf(),
            old(reactor)@.readable(*tracking, self.node().0),
            self.held() is Some,
        ensures
            final(reactor).wf(),
            final(reactor)@ == old(reactor)@.read(*tracking, self.node().0),
            cloned(self.held()->0, value),
    {
        reactor.observe(tracking, self.id);
        self.value.as_ref().unwrap().clone()
    }

    /// Returns a clone of the value of a node that is up to date without recording a dependency.
    pub fn peek(&self) -> (value: T)
        requires
            self.held() is Some,
        ensures
            cloned(self.held()->0, value),
    {
        self.value.as_ref().unwrap().clone()
    }
}

impl<T: PartialEq> Memo<T> {
    /// Caches the result of a computation that has ended, and publishes it, compared by `==`.
    pub fn finish(&mut self, reactor: &mut Reactor, next: T) -> (changed: bool)
        requires
            old(reactor).wf(),
        ensures
            final(reactor).wf(),
            old(self).held() is None ==> changed,
            old(self).held() matches Some(current) ==> crate::signal::answers_equal(
                current,
                next,
                !changed,
            ),
            final(reactor)@ == old(reactor)@.published(old(self).node().0, changed),
            final(self).node() == old(self).node(),
            final(self).graph() == old(self).graph(),
            final(self).held() == Some(next),
    {
        let equal = match self.value.as_ref() {
            Some(current) => *current == next,
            None => false,
        };
        self.finish_judged(reactor, next, equal)
    }
}

/// A result that counts as no change reaches nobody: the graph keeps every version, and no
/// observer is marked.
pub proof fn equal_results_reach_nobody(model: ReactorModel, node: u64)
    ensures
        model.published(node, false).graph == model.graph,
        model.published(node, false).observers == model.observers,
        model.published(node, false).jobs == model.jobs,
{
}

/// A result that counts as a change gives a live node another version than the one its dependents
/// recorded, and leaves every other node's version alone.
pub proof fn changed_results_are_a_new_version(model: ReactorModel, node: u64)
    requires
        model.graph.nodes.contains_key(node),
    ensures
        model.published(node, true).graph.version(node) != model.graph.version(node),
        forall|other: u64|
            other != node ==> #[trigger] model.published(node, true).graph.version(other)
                == model.graph.version(other),
{
}

/// A write takes no cached value for granted: a node that still has to be computed still has to be
/// afterwards.
pub proof fn write_keeps_caches<T>(
    model: ReactorModel,
    written: u64,
    write_origin: Location,
    log: Seq<Delivery>,
    node: u64,
    value: Option<T>,
)
    requires
        crate::observers::propagation(model.graph, model.observers, written, log),
        model.caches(node, value),
    ensures
        model.triggered(written, write_origin, log).caches(node, value),
{
    let marked = ReactorModel {
        observers: crate::observers::delivered(model.observers, log),
        ..model.written(written, write_origin)
    };
    let cause = ReactorModel { graph: model.graph.bumped(written), ..model }.write_cause(
        written,
        write_origin,
    );
    reveal(crate::observers::propagates);
    crate::observers::marks_only_raise_states(model.observers, log, node);
    crate::coherence::receiving_keeps_staleness(marked, log, cause);
}

} // verus!
