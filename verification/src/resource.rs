//! Resources: values that a fetch brings in.
//!
//! A [`Resource`] decides when a fetch counts; running it is the caller's part. Whenever the
//! resource's effect runs, call [`start_fetch`](Resource::start_fetch) and start the fetch it
//! stands for. Hand the result to [`complete`](Resource::complete). Where the effect is cleaned up
//! first, abort the fetch and call [`cancel`](Resource::cancel).
use vstd::prelude::*;

use crate::diagnostics::NodeKind;
use crate::effect::EffectHandle;
use crate::id::{Location, NodeId};
use crate::model::ReactorModel;
use crate::reactor::Reactor;
use crate::scope::{Owners, OwnersModel};
use crate::signal::Signal;
use crate::thunk::Memo;
use crate::tracking::{Tracking, UntrackGuard};

verus! {

/// A value that a fetch brings in, with a flag that tells whether a fetch is under way.
#[derive(Debug)]
pub struct Resource<T> {
    value: Signal<Option<T>>,
    loading: Signal<bool>,
    refetch_tick: Signal<u64>,
    generation: u64,
    effect: EffectHandle,
}

impl ReactorModel {
    /// `after` is the outcome of setting a flag: a write if it changed, a suppressed write if not.
    pub open spec fn is_flag_set(
        self,
        node: u64,
        current: bool,
        next: bool,
        write_origin: Location,
        after: ReactorModel,
    ) -> bool {
        if current == next {
            after == self.write_suppressed(node, write_origin)
        } else {
            self.is_write(node, write_origin, after)
        }
    }

    /// After the three signals and the memo of a resource were created.
    pub open spec fn resource_nodes_created(self, origin: Location) -> ReactorModel {
        self.created(NodeKind::Signal, origin).created(NodeKind::Signal, origin).created(
            NodeKind::Signal,
            origin,
        ).computed_created(NodeKind::Memo, origin)
    }

    /// After the tracked reads of a resource's effect: the input, then the refetch counter.
    pub open spec fn fetch_inputs_read(
        self,
        tracking: Tracking,
        input: u64,
        tick: u64,
    ) -> ReactorModel {
        self.read(tracking, input).read(tracking, tick)
    }
}

/// What creating a resource does: signals for the value, the flag and the refetch counter come
/// first, then a memo for the input, then the effect.
pub open spec fn created_resource<S, T>(
    origin: Location,
    reactor: ReactorModel,
    owners: OwnersModel,
    after: ReactorModel,
    owners_after: OwnersModel,
    resource: Resource<T>,
    input: Memo<S>,
) -> bool {
    let first = reactor.graph.next_node;
    &&& resource.value_signal().node() == NodeId(first)
    &&& resource.value_signal().held() is None
    &&& resource.loading_signal().node() == NodeId((first + 1) as u64)
    &&& resource.loading_signal().held() == false
    &&& resource.tick_signal().node() == NodeId((first + 2) as u64)
    &&& resource.tick_signal().held() == 0
    &&& resource.fetches() == 0
    &&& resource.value_signal().graph() == reactor.id
    &&& resource.loading_signal().graph() == reactor.id
    &&& resource.tick_signal().graph() == reactor.id
    &&& input.graph() == reactor.id
    &&& input.node() == NodeId((first + 3) as u64)
    &&& input.held() is None
    &&& crate::effect::created_effect(
        false,
        origin,
        reactor.resource_nodes_created(origin),
        owners,
        after,
        owners_after,
        resource.observer(),
    )
}

impl Reactor {
    /// Creates a resource, and the memo that computes the input of its fetches. The memo is the
    /// equality gate: a fetch starts only when the input changed, or when a refetch was asked for.
    pub fn resource<S, T>(&mut self, owners: &mut Owners, origin: Location) -> (created: (
        Resource<T>,
        Memo<S>,
    ))
        requires
            old(self).wf(),
            old(owners).wf(),
            old(self)@.graph.next_node < u64::MAX - 4,
            old(owners)@.next < u64::MAX,
            old(owners)@.stats.owned_children < usize::MAX,
        ensures
            final(self).wf(),
            final(owners).wf(),
            created_resource(
                origin,
                old(self)@,
                old(owners)@,
                final(self)@,
                final(owners)@,
                created.0,
                created.1,
            ),
    {
        let value = self.signal(None, origin);
        let loading = self.signal(false, origin);
        let refetch_tick = self.signal(0, origin);
        let input = self.memo(origin);
        let effect = self.effect(owners, origin);
        (Resource { value, loading, refetch_tick, generation: 0, effect }, input)
    }
}

/// Creates a resource on `reactor`. See [`Reactor::resource`].
pub fn resource_in<S, T>(
    reactor: &mut Reactor,
    owners: &mut Owners,
    origin: Location,
) -> (created: (Resource<T>, Memo<S>))
    requires
        old(reactor).wf(),
        old(owners).wf(),
        old(reactor)@.graph.next_node < u64::MAX - 4,
        old(owners)@.next < u64::MAX,
        old(owners)@.stats.owned_children < usize::MAX,
    ensures
        final(reactor).wf(),
        final(owners).wf(),
        created_resource(
            origin,
            old(reactor)@,
            old(owners)@,
            final(reactor)@,
            final(owners)@,
            created.0,
            created.1,
        ),
{
    reactor.resource(owners, origin)
}

impl<T> Resource<T> {
    /// The signal that holds the latest value.
    pub closed spec fn value_signal(self) -> Signal<Option<T>> {
        self.value
    }

    /// The signal that tells whether a fetch is under way.
    pub closed spec fn loading_signal(self) -> Signal<bool> {
        self.loading
    }

    /// The signal that counts the refetches.
    pub closed spec fn tick_signal(self) -> Signal<u64> {
        self.refetch_tick
    }

    /// The generation of the latest fetch.
    pub closed spec fn fetches(self) -> u64 {
        self.generation
    }

    /// The effect that starts the fetches.
    pub closed spec fn observer(self) -> EffectHandle {
        self.effect
    }

    /// The resource is the same as `other` except for what its signals hold and its generation.
    pub open spec fn continues(self, other: Self) -> bool {
        &&& self.value_signal().node() == other.value_signal().node()
        &&& self.value_signal().graph() == other.value_signal().graph()
        &&& self.loading_signal().node() == other.loading_signal().node()
        &&& self.loading_signal().graph() == other.loading_signal().graph()
        &&& self.tick_signal().node() == other.tick_signal().node()
        &&& self.tick_signal().graph() == other.tick_signal().graph()
        &&& self.observer() == other.observer()
    }

    /// Returns the effect.
    pub fn effect(&self) -> (effect: &EffectHandle)
        ensures
            *effect == self.observer(),
    {
        &self.effect
    }

    /// Returns the signal that holds the latest value.
    pub fn value(&self) -> (value: &Signal<Option<T>>)
        ensures
            *value == self.value_signal(),
    {
        &self.value
    }

    /// Returns the signal that tells whether a fetch is under way.
    pub fn flag(&self) -> (flag: &Signal<bool>)
        ensures
            *flag == self.loading_signal(),
    {
        &self.loading
    }

    /// Gives up the handle, except for the signal that holds the latest value.
    pub fn into_value(self) -> (value: Signal<Option<T>>)
        ensures
            value == self.value_signal(),
    {
        self.value
    }

    /// Reads the latest value, recording a dependency for the currently running observer. There is
    /// none before the first completion.
    pub fn with<R, F: FnOnce(&Option<T>) -> R>(
        &self,
        reactor: &mut Reactor,
        tracking: &Tracking,
        f: F,
    ) -> (output: R)
        requires
            old(reactor).wf(),
            old(reactor)@.readable(*tracking, self.value_signal().node().0),
            f.requires((&self.value_signal().held(),)),
        ensures
            final(reactor).wf(),
            final(reactor)@ == old(reactor)@.read(*tracking, self.value_signal().node().0),
            f.ensures((&self.value_signal().held(),), output),
    {
        self.value.with(reactor, tracking, f)
    }

    /// Reads the latest value without recording a dependency.
    pub fn with_peek<R, F: FnOnce(&Option<T>) -> R>(&self, f: F) -> (output: R)
        requires
            f.requires((&self.value_signal().held(),)),
        ensures
            f.ensures((&self.value_signal().held(),), output),
    {
        self.value.with_peek(f)
    }

    /// Returns whether a fetch is under way, recording a dependency on that alone.
    pub fn loading(&self, reactor: &mut Reactor, tracking: &Tracking) -> (loading: bool)
        requires
            old(reactor).wf(),
            old(reactor)@.readable(*tracking, self.loading_signal().node().0),
        ensures
            final(reactor).wf(),
            final(reactor)@ == old(reactor)@.read(*tracking, self.loading_signal().node().0),
            loading == self.loading_signal().held(),
    {
        self.loading.get(reactor, tracking)
    }

    /// Asks for another fetch with the same input.
    pub fn refetch(&mut self, reactor: &mut Reactor, write_origin: Location)
        requires
            old(reactor).wf(),
        ensures
            final(reactor).wf(),
            final(self).continues(*old(self)),
            final(self).value_signal() == old(self).value_signal(),
            final(self).loading_signal() == old(self).loading_signal(),
            final(self).fetches() == old(self).fetches(),
            final(self).tick_signal().held() == crate::model::wrapping_next(
                old(self).tick_signal().held(),
            ),
            old(reactor)@.is_write(
                old(self).tick_signal().node().0,
                write_origin,
                final(reactor)@,
            ),
    {
        let tick: u64 = self.refetch_tick.peek();
        let _ = self.refetch_tick.replace(reactor, tick.wrapping_add(1), write_origin);
    }

    /// The body of the resource's effect: reads the input, which is up to date, and the refetch
    /// counter, and opens the next generation. Start a fetch of the input it returns, then let
    /// tracking resume.
    pub fn start_fetch<S: Clone>(
        &mut self,
        input: &Memo<S>,
        reactor: &mut Reactor,
        tracking: &mut Tracking,
        write_origin: Location,
    ) -> (fetch: (S, u64, UntrackGuard))
        requires
            old(reactor).wf(),
            old(tracking).suspended() || old(reactor)@.graph.stack.len() == 0
                || old(reactor)@.graph.edges.dom().len() < usize::MAX - 1,
            !old(reactor)@.graph.active(input.node().0),
            !old(reactor)@.graph.active(old(self).tick_signal().node().0),
            input.held() is Some,
            old(tracking).untracked_depth < u32::MAX,
        ensures
            final(reactor).wf(),
            cloned(input.held()->0, fetch.0),
            fetch.1 == crate::model::wrapping_next(old(self).fetches()),
            final(self).fetches() == fetch.1,
            final(self).continues(*old(self)),
            final(self).value_signal() == old(self).value_signal(),
            final(self).tick_signal() == old(self).tick_signal(),
            final(self).loading_signal().held() == true,
            old(reactor)@.fetch_inputs_read(
                *old(tracking),
                input.node().0,
                old(self).tick_signal().node().0,
            ).is_flag_set(
                old(self).loading_signal().node().0,
                old(self).loading_signal().held(),
                true,
                write_origin,
                final(reactor)@,
            ),
            final(tracking).suspended(),
            *final(tracking) == (Tracking {
                untracked_depth: (old(tracking).untracked_depth + 1) as u32,
                ..*old(tracking)
            }),
    {
        proof {
            reactor.wf_content();
        }
        let value = input.get(reactor, tracking);
        proof {
            one_read_is_one_edge(old(reactor)@, *tracking, input.node().0);
        }
        let _ = self.refetch_tick.get(reactor, tracking);
        let guard = crate::tracking::untrack(tracking);
        self.generation = self.generation.wrapping_add(1);
        self.set_loading(reactor, true, write_origin);
        (value, self.generation, guard)
    }

    fn set_loading(&mut self, reactor: &mut Reactor, loading: bool, write_origin: Location)
        requires
            old(reactor).wf(),
        ensures
            final(reactor).wf(),
            final(self).continues(*old(self)),
            final(self).value_signal() == old(self).value_signal(),
            final(self).tick_signal() == old(self).tick_signal(),
            final(self).fetches() == old(self).fetches(),
            final(self).loading_signal().held() == loading,
            old(reactor)@.is_flag_set(
                old(self).loading_signal().node().0,
                old(self).loading_signal().held(),
                loading,
                write_origin,
                final(reactor)@,
            ),
    {
        let _ = self.loading.set(reactor, loading, write_origin);
    }

    /// Takes the result of the fetch of a generation. It is stored, and the flag is cleared, if no
    /// newer generation was opened since; otherwise it is discarded and nothing changes.
    pub fn complete(
        &mut self,
        reactor: &mut Reactor,
        generation: u64,
        result: T,
        write_origin: Location,
    ) -> (stored: bool)
        requires
            old(reactor).wf(),
        ensures
            final(reactor).wf(),
            stored == (generation == old(self).fetches()),
            !stored ==> *final(self) == *old(self) && final(reactor)@ == old(reactor)@,
            stored ==> {
                &&& final(self).continues(*old(self))
                &&& final(self).fetches() == old(self).fetches()
                &&& final(self).tick_signal() == old(self).tick_signal()
                &&& final(self).value_signal().held() == Some(result)
                &&& final(self).loading_signal().held() == false
                &&& exists|stored_value: ReactorModel|
                    old(reactor)@.is_write(
                        old(self).value_signal().node().0,
                        write_origin,
                        stored_value,
                    ) && #[trigger] stored_value.is_flag_set(
                        old(self).loading_signal().node().0,
                        old(self).loading_signal().held(),
                        false,
                        write_origin,
                        final(reactor)@,
                    )
            },
    {
        if generation != self.generation {
            return false;
        }
        let _ = self.value.replace(reactor, Some(result), write_origin);
        self.set_loading(reactor, false, write_origin);
        true
    }

    /// Clears the flag for a fetch that was aborted: it never reports completion.
    pub fn cancel(&mut self, reactor: &mut Reactor, write_origin: Location)
        requires
            old(reactor).wf(),
        ensures
            final(reactor).wf(),
            final(self).continues(*old(self)),
            final(self).value_signal() == old(self).value_signal(),
            final(self).tick_signal() == old(self).tick_signal(),
            final(self).fetches() == old(self).fetches(),
            final(self).loading_signal().held() == false,
            old(reactor)@.is_flag_set(
                old(self).loading_signal().node().0,
                old(self).loading_signal().held(),
                false,
                write_origin,
                final(reactor)@,
            ),
    {
        self.set_loading(reactor, false, write_origin);
    }

    /// Gives the resource up: its signals leave the graph. Its effect is left to
    /// [`EffectHandle::dispose`].
    pub fn release(self, reactor: &mut Reactor)
        requires
            old(reactor).wf(),
        ensures
            final(reactor).wf(),
            exists|first: ReactorModel, second: ReactorModel|
                old(reactor)@.is_disposal(self.value_signal().node().0, first)
                    && #[trigger] first.is_disposal(self.loading_signal().node().0, second)
                    && #[trigger] second.is_disposal(
                    self.tick_signal().node().0,
                    final(reactor)@,
                ),
    {
        let ghost (value, loading) = (self.value_signal().node().0, self.loading_signal().node().0);
        let ghost tick = self.tick_signal().node().0;
        self.value.release(reactor);
        let ghost first = reactor@;
        assert(old(reactor)@.is_disposal(value, first));
        self.loading.release(reactor);
        let ghost second = reactor@;
        assert(first.is_disposal(loading, second));
        self.refetch_tick.release(reactor);
        assert(second.is_disposal(tick, reactor@));
    }
}

impl<T: Clone> Resource<T> {
    /// Returns a clone of the latest value, recording a dependency for the currently running
    /// observer.
    pub fn get(&self, reactor: &mut Reactor, tracking: &Tracking) -> (value: Option<T>)
        requires
            old(reactor).wf(),
            old(reactor)@.readable(*tracking, self.value_signal().node().0),
        ensures
            final(reactor).wf(),
            final(reactor)@ == old(reactor)@.read(*tracking, self.value_signal().node().0),
            cloned(self.value_signal().held(), value),
    {
        self.value.get(reactor, tracking)
    }

    /// Returns a clone of the latest value without recording a dependency.
    pub fn peek(&self) -> (value: Option<T>)
        ensures
            cloned(self.value_signal().held(), value),
    {
        self.value.peek()
    }
}

/// A tracked read adds one edge at most, and starts no computation.
pub proof fn one_read_is_one_edge(model: ReactorModel, tracking: Tracking, node: u64)
    requires
        model.graph.edges.dom().finite(),
    ensures
        model.read(tracking, node).graph.edges.dom().len() <= model.graph.edges.dom().len() + 1,
        model.read(tracking, node).graph.stack == model.graph.stack,
        model.read(tracking, node).id == model.id,
{
    let edge = (model.graph.stack.last(), node);
    let edges = model.graph.edges;
    assert(edges.insert(edge, model.graph.version(node)).dom() =~= edges.dom().insert(edge));
}

/// The generation after `later` more fetches.
pub open spec fn generation_after(generation: u64, later: nat) -> u64
    decreases later,
{
    if later == 0 {
        generation
    } else {
        crate::model::wrapping_next(generation_after(generation, (later - 1) as nat))
    }
}

/// A stale completion never overwrites a newer value: once a newer fetch was started, the
/// generation of an older one no longer counts, however many fetches follow, short of as many as
/// there are generations.
pub proof fn superseded_fetches_are_discarded(generation: u64, later: nat)
    requires
        0 < later <= u64::MAX,
    ensures
        generation_after(generation, later) != generation,
{
    generations_advance(generation, later);
}

proof fn generations_advance(generation: u64, later: nat)
    requires
        later <= u64::MAX,
    ensures
        generation_after(generation, later) == (if generation + later <= u64::MAX {
            generation + later
        } else {
            generation + later - u64::MAX - 1
        }),
    decreases later,
{
    if later > 0 {
        generations_advance(generation, (later - 1) as nat);
    }
}

} // verus!
