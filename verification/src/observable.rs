//! What everything readable has in common.
use vstd::prelude::*;

use crate::diagnostics::{NodeKind, ReactorId};
use crate::id::{Location, NodeId};
use crate::model::ReactorModel;
use crate::reactor::Reactor;
use crate::resource::Resource;
use crate::signal::Signal;
use crate::thunk::{Memo, Thunk};
use crate::tracking::Tracking;

verus! {

impl ReactorModel {
    /// After a read that goes through `node`, if through any.
    pub open spec fn read_through(self, tracking: Tracking, node: Option<u64>) -> ReactorModel {
        match node {
            Some(node) => self.read(tracking, node),
            None => self,
        }
    }

    /// A tracked read that goes through `node`, if through any, can be recorded here.
    pub open spec fn readable_through(self, tracking: Tracking, node: Option<u64>) -> bool {
        node matches Some(node) ==> self.readable(tracking, node)
    }
}

/// Something readable. A value that is computed has to be up to date before it is read.
pub trait Observable: Sized {
    /// What a read gives.
    type Item;

    /// The value, unless it was never computed.
    spec fn current(self) -> Option<Self::Item>;

    /// The node that a tracked read depends on, if on any.
    spec fn through(self) -> Option<u64>;

    /// The reactor that derived values belong to, if the observable names one.
    spec fn home(self) -> Option<ReactorId>;

    /// Reads the value, recording a dependency for the currently running observer.
    fn with<R, F: FnOnce(&Self::Item) -> R>(
        &self,
        reactor: &mut Reactor,
        tracking: &Tracking,
        f: F,
    ) -> (output: R)
        requires
            old(reactor).wf(),
            old(reactor)@.readable_through(*tracking, self.through()),
            self.current() is Some,
            f.requires((&self.current()->0,)),
        ensures
            final(reactor).wf(),
            final(reactor)@ == old(reactor)@.read_through(*tracking, self.through()),
            f.ensures((&self.current()->0,), output),
    ;

    /// Reads the value without recording a dependency.
    fn with_peek<R, F: FnOnce(&Self::Item) -> R>(&self, f: F) -> (output: R)
        requires
            self.current() is Some,
            f.requires((&self.current()->0,)),
        ensures
            f.ensures((&self.current()->0,), output),
    ;

    /// Returns a clone of the value, recording a dependency for the currently running observer.
    fn get(&self, reactor: &mut Reactor, tracking: &Tracking) -> (value: Self::Item) where
        Self::Item: Clone,

        requires
            old(reactor).wf(),
            old(reactor)@.readable_through(*tracking, self.through()),
            self.current() is Some,
        ensures
            final(reactor).wf(),
            final(reactor)@ == old(reactor)@.read_through(*tracking, self.through()),
            cloned(self.current()->0, value),
    {
        self.with(reactor, tracking, <Self::Item>::clone)
    }

    /// Returns a clone of the value without recording a dependency.
    fn peek(&self) -> (value: Self::Item) where Self::Item: Clone
        requires
            self.current() is Some,
        ensures
            cloned(self.current()->0, value),
    {
        self.with_peek(<Self::Item>::clone)
    }

    /// Returns the reactor that derived values belong to, if the observable names one.
    fn reactor(&self) -> (reactor: Option<ReactorId>)
        ensures
            reactor == self.home(),
    ;

    /// Creates a memo for a value derived from this one, on the reactor that the observable names.
    /// One that names none can be derived from on any.
    fn map<U>(&self, reactor: &mut Reactor, origin: Location) -> (memo: Memo<U>)
        requires
            old(reactor).wf(),
            old(reactor)@.graph.next_node < u64::MAX,
            self.home() matches Some(home) ==> home == old(reactor)@.id,
        ensures
            final(reactor).wf(),
            final(reactor)@ == old(reactor)@.computed_created(NodeKind::Memo, origin),
            memo.node() == NodeId(old(reactor)@.graph.next_node),
            memo.graph() == old(reactor)@.id,
            memo.held() is None,
    {
        reactor.memo(origin)
    }

    /// Erases which kind of observable this is.
    fn into_dyn(self) -> (erased: DynObservable<Self::Item>)
        ensures
            erased.held() == self.current(),
            erased.node() == self.through(),
            erased.graph() == self.home(),
    ;
}

impl<T> Observable for Signal<T> {
    type Item = T;

    open spec fn current(self) -> Option<T> {
        Some(self.held())
    }

    open spec fn through(self) -> Option<u64> {
        Some(self.node().0)
    }

    open spec fn home(self) -> Option<ReactorId> {
        Some(self.graph())
    }

    fn with<R, F: FnOnce(&T) -> R>(
        &self,
        reactor: &mut Reactor,
        tracking: &Tracking,
        f: F,
    ) -> (output: R) {
        Signal::with(self, reactor, tracking, f)
    }

    fn with_peek<R, F: FnOnce(&T) -> R>(&self, f: F) -> (output: R) {
        Signal::with_peek(self, f)
    }

    fn reactor(&self) -> (reactor: Option<ReactorId>) {
        Some(Signal::reactor(self))
    }

    fn into_dyn(self) -> (erased: DynObservable<T>) {
        DynObservable { erased: Erased::Signal(self) }
    }
}

impl<T> Observable for Thunk<T> {
    type Item = T;

    open spec fn current(self) -> Option<T> {
        self.held()
    }

    open spec fn through(self) -> Option<u64> {
        Some(self.node().0)
    }

    open spec fn home(self) -> Option<ReactorId> {
        Some(self.graph())
    }

    fn with<R, F: FnOnce(&T) -> R>(
        &self,
        reactor: &mut Reactor,
        tracking: &Tracking,
        f: F,
    ) -> (output: R) {
        Thunk::with(self, reactor, tracking, f)
    }

    fn with_peek<R, F: FnOnce(&T) -> R>(&self, f: F) -> (output: R) {
        Thunk::with_peek(self, f)
    }

    fn reactor(&self) -> (reactor: Option<ReactorId>) {
        Some(Thunk::reactor(self))
    }

    fn into_dyn(self) -> (erased: DynObservable<T>) {
        DynObservable { erased: Erased::Thunk(self) }
    }
}

impl<T> Observable for Memo<T> {
    type Item = T;

    open spec fn current(self) -> Option<T> {
        self.held()
    }

    open spec fn through(self) -> Option<u64> {
        Some(self.node().0)
    }

    open spec fn home(self) -> Option<ReactorId> {
        Some(self.graph())
    }

    fn with<R, F: FnOnce(&T) -> R>(
        &self,
        reactor: &mut Reactor,
        tracking: &Tracking,
        f: F,
    ) -> (output: R) {
        Memo::with(self, reactor, tracking, f)
    }

    fn with_peek<R, F: FnOnce(&T) -> R>(&self, f: F) -> (output: R) {
        Memo::with_peek(self, f)
    }

    fn reactor(&self) -> (reactor: Option<ReactorId>) {
        Some(Memo::reactor(self))
    }

    fn into_dyn(self) -> (erased: DynObservable<T>) {
        DynObservable { erased: Erased::Memo(self) }
    }
}

impl<T> Observable for Resource<T> {
    type Item = Option<T>;

    open spec fn current(self) -> Option<Option<T>> {
        Some(self.value_signal().held())
    }

    open spec fn through(self) -> Option<u64> {
        Some(self.value_signal().node().0)
    }

    open spec fn home(self) -> Option<ReactorId> {
        None
    }

    fn with<R, F: FnOnce(&Option<T>) -> R>(
        &self,
        reactor: &mut Reactor,
        tracking: &Tracking,
        f: F,
    ) -> (output: R) {
        Resource::with(self, reactor, tracking, f)
    }

    fn with_peek<R, F: FnOnce(&Option<T>) -> R>(&self, f: F) -> (output: R) {
        Resource::with_peek(self, f)
    }

    fn reactor(&self) -> (reactor: Option<ReactorId>) {
        None
    }

    fn into_dyn(self) -> (erased: DynObservable<Option<T>>) {
        DynObservable { erased: Erased::Fetched(self.into_value()) }
    }
}

/// What an erased observable is.
#[derive(Debug)]
pub enum Erased<T> {
    /// A value that never changes.
    Constant(T),
    /// A signal.
    Signal(Signal<T>),
    /// A thunk.
    Thunk(Thunk<T>),
    /// A memo.
    Memo(Memo<T>),
    /// The value of a resource.
    Fetched(Signal<T>),
}

/// An observable of any kind.
#[derive(Debug)]
pub struct DynObservable<T> {
    pub erased: Erased<T>,
}

impl<T> DynObservable<T> {
    /// The value, unless it was never computed.
    pub open spec fn held(self) -> Option<T> {
        match self.erased {
            Erased::Constant(value) => Some(value),
            Erased::Signal(signal) => Some(signal.held()),
            Erased::Thunk(thunk) => thunk.held(),
            Erased::Memo(memo) => memo.held(),
            Erased::Fetched(signal) => Some(signal.held()),
        }
    }

    /// The node that a tracked read depends on, if on any.
    pub open spec fn node(self) -> Option<u64> {
        match self.erased {
            Erased::Constant(_) => None,
            Erased::Signal(signal) => Some(signal.node().0),
            Erased::Thunk(thunk) => Some(thunk.node().0),
            Erased::Memo(memo) => Some(memo.node().0),
            Erased::Fetched(signal) => Some(signal.node().0),
        }
    }

    /// The reactor that derived values belong to, if the observable names one.
    pub open spec fn graph(self) -> Option<ReactorId> {
        match self.erased {
            Erased::Constant(_) => None,
            Erased::Signal(signal) => Some(signal.graph()),
            Erased::Thunk(thunk) => Some(thunk.graph()),
            Erased::Memo(memo) => Some(memo.graph()),
            Erased::Fetched(_) => None,
        }
    }

    /// Creates an observable whose value never changes: reading it records nothing.
    pub fn constant(value: T) -> (observable: Self)
        ensures
            observable.held() == Some(value),
            observable.node() is None,
            observable.graph() is None,
    {
        DynObservable { erased: Erased::Constant(value) }
    }
}

impl<T> Observable for DynObservable<T> {
    type Item = T;

    open spec fn current(self) -> Option<T> {
        self.held()
    }

    open spec fn through(self) -> Option<u64> {
        self.node()
    }

    open spec fn home(self) -> Option<ReactorId> {
        self.graph()
    }

    fn with<R, F: FnOnce(&T) -> R>(
        &self,
        reactor: &mut Reactor,
        tracking: &Tracking,
        f: F,
    ) -> (output: R) {
        match &self.erased {
            Erased::Constant(value) => f(value),
            Erased::Signal(signal) => signal.with(reactor, tracking, f),
            Erased::Thunk(thunk) => thunk.with(reactor, tracking, f),
            Erased::Memo(memo) => memo.with(reactor, tracking, f),
            Erased::Fetched(signal) => signal.with(reactor, tracking, f),
        }
    }

    fn with_peek<R, F: FnOnce(&T) -> R>(&self, f: F) -> (output: R) {
        match &self.erased {
            Erased::Constant(value) => f(value),
            Erased::Signal(signal) => signal.with_peek(f),
            Erased::Thunk(thunk) => thunk.with_peek(f),
            Erased::Memo(memo) => memo.with_peek(f),
            Erased::Fetched(signal) => signal.with_peek(f),
        }
    }

    fn reactor(&self) -> (reactor: Option<ReactorId>) {
        match &self.erased {
            Erased::Constant(_) => None,
            Erased::Signal(signal) => Some(signal.reactor()),
            Erased::Thunk(thunk) => Some(thunk.reactor()),
            Erased::Memo(memo) => Some(memo.reactor()),
            Erased::Fetched(_) => None,
        }
    }

    fn into_dyn(self) -> (erased: DynObservable<T>) {
        self
    }
}

/// An untracked read, a constant among them, leaves no trace: no dependency comes of it.
pub proof fn untracked_reads_record_nothing(
    model: ReactorModel,
    tracking: Tracking,
    node: Option<u64>,
)
    requires
        tracking.suspended() || node is None,
    ensures
        model.read_through(tracking, node) == model,
{
}

} // verus!
