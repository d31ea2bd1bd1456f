//! Observables that can be written to.
use vstd::prelude::*;

use crate::diagnostics::{NodeKind, ReactorId};
use crate::id::{Location, NodeId};
use crate::observable::{DynObservable, Erased, Observable};
use crate::reactor::Reactor;
use crate::signal::Signal;
use crate::thunk::Memo;
use crate::tracking::{Tracking, UntrackGuard};

verus! {

/// What became of a write.
#[must_use]
#[derive(Debug)]
pub enum Write<T> {
    /// The value was stored in place of this one, and dependents were marked stale.
    Stored(T),
    /// The value equalled the current one: nothing changed.
    Suppressed,
    /// The value is to be handed to the setter, after which tracking resumes.
    Forwarded(T, UntrackGuard),
}

/// Something readable that can be written to.
pub trait WritableObservable: Observable {
    /// `write` is a possible outcome of writing `value`.
    spec fn settles(self, value: Self::Item, write: Write<Self::Item>) -> bool;

    /// Writes a value. A setter runs untracked.
    fn set(
        &mut self,
        reactor: &mut Reactor,
        tracking: &mut Tracking,
        value: Self::Item,
        write_origin: Location,
    ) -> (write: Write<Self::Item>)
        requires
            old(reactor).wf(),
            old(tracking).untracked_depth < u32::MAX,
        ensures
            final(reactor).wf(),
            final(self).through() == old(self).through(),
            final(self).home() == old(self).home(),
            old(self).settles(value, write),
            match write {
                Write::Stored(previous) => {
                    &&& final(self).current() == Some(value)
                    &&& old(self).current() == Some(previous)
                    &&& old(self).through() is Some
                    &&& old(reactor)@.is_write(
                        old(self).through()->0,
                        write_origin,
                        final(reactor)@,
                    )
                    &&& *final(tracking) == *old(tracking)
                },
                Write::Suppressed => {
                    &&& final(self).current() == old(self).current()
                    &&& old(self).through() is Some
                    &&& final(reactor)@ == old(reactor)@.write_suppressed(
                        old(self).through()->0,
                        write_origin,
                    )
                    &&& *final(tracking) == *old(tracking)
                },
                Write::Forwarded(forwarded, _) => {
                    &&& forwarded == value
                    &&& final(self).current() == old(self).current()
                    &&& final(reactor)@ == old(reactor)@
                    &&& *final(tracking) == (Tracking {
                        untracked_depth: (old(tracking).untracked_depth + 1) as u32,
                        ..*old(tracking)
                    })
                },
            },
    ;
}

impl<T: PartialEq> WritableObservable for Signal<T> {
    open spec fn settles(self, value: T, write: Write<T>) -> bool {
        &&& !(write is Forwarded)
        &&& crate::signal::answers_equal(self.held(), value, write is Suppressed)
    }

    fn set(
        &mut self,
        reactor: &mut Reactor,
        tracking: &mut Tracking,
        value: T,
        write_origin: Location,
    ) -> (write: Write<T>) {
        match Signal::set(self, reactor, value, write_origin) {
            Some(previous) => Write::Stored(previous),
            None => Write::Suppressed,
        }
    }
}

/// A memo that can be written to: a value that is written goes to a setter, which updates what the
/// memo is computed from.
#[derive(Debug)]
pub struct Writable<T> {
    memo: Memo<T>,
}

/// Creates a writable memo on `reactor`.
pub fn writable_in<T>(reactor: &mut Reactor, origin: Location) -> (writable: Writable<T>)
    requires
        old(reactor).wf(),
        old(reactor)@.graph.next_node < u64::MAX,
    ensures
        final(reactor).wf(),
        final(reactor)@ == old(reactor)@.computed_created(NodeKind::Memo, origin),
        writable.derived().node() == NodeId(old(reactor)@.graph.next_node),
        writable.derived().graph() == old(reactor)@.id,
        writable.derived().held() is None,
{
    Writable { memo: reactor.memo(origin) }
}

impl<T> Writable<T> {
    /// The memo that is read.
    pub closed spec fn derived(self) -> Memo<T> {
        self.memo
    }

    /// Returns the memo that is read.
    pub fn as_memo(&self) -> (memo: &Memo<T>)
        ensures
            *memo == self.derived(),
    {
        &self.memo
    }

    /// Returns the memo that is read, to hand it the results of its computation.
    pub fn as_memo_mut(&mut self) -> (memo: &mut Memo<T>)
        ensures
            *memo == old(self).derived(),
            final(self).derived() == *final(memo),
    {
        &mut self.memo
    }

    /// Gives up the setter, and with it the possibility to write.
    pub fn into_memo(self) -> (memo: Memo<T>)
        ensures
            memo == self.derived(),
    {
        self.memo
    }
}

impl<T> Observable for Writable<T> {
    type Item = T;

    open spec fn current(self) -> Option<T> {
        self.derived().held()
    }

    open spec fn through(self) -> Option<u64> {
        Some(self.derived().node().0)
    }

    open spec fn home(self) -> Option<ReactorId> {
        Some(self.derived().graph())
    }

    fn with<R, F: FnOnce(&T) -> R>(
        &self,
        reactor: &mut Reactor,
        tracking: &Tracking,
        f: F,
    ) -> (output: R) {
        self.memo.with(reactor, tracking, f)
    }

    fn with_peek<R, F: FnOnce(&T) -> R>(&self, f: F) -> (output: R) {
        self.memo.with_peek(f)
    }

    fn reactor(&self) -> (reactor: Option<ReactorId>) {
        Some(self.memo.reactor())
    }

    fn into_dyn(self) -> (erased: DynObservable<T>) {
        DynObservable { erased: Erased::Memo(self.into_memo()) }
    }
}

impl<T> WritableObservable for Writable<T> {
    open spec fn settles(self, value: T, write: Write<T>) -> bool {
        write is Forwarded
    }

    fn set(
        &mut self,
        reactor: &mut Reactor,
        tracking: &mut Tracking,
        value: T,
        write_origin: Location,
    ) -> (write: Write<T>) {
        let guard = crate::tracking::untrack(tracking);
        Write::Forwarded(value, guard)
    }
}

} // verus!
