//! Events: push-style sources of values.
//!
//! An [`Event`] knows who subscribed; handing values to the subscribers' handlers is the caller's
//! part. To emit a value, call the handlers of the [`recipients`](Event::recipients), then
//! [`emit`](Event::emit). A draining subscription keeps an [`EventQueue`] besides, which its
//! handler fills and an effect that observes the event empties.
use vstd::prelude::*;

use crate::collections::IdSet;
use crate::diagnostics::{NodeKind, ReactorId};
use crate::effect::EffectHandle;
use crate::id::{Location, NodeId};
use crate::reactor::Reactor;
use crate::scope::Owners;
use crate::tracking::Tracking;

verus! {

/// A source of events.
pub struct Event {
    id: NodeId,
    reactor: ReactorId,
    next_subscriber: u64,
    subscribers: IdSet,
}

/// What an [`Event`] holds.
#[verifier::ext_equal]
pub struct EventModel {
    /// The node of the event.
    pub node: u64,
    /// The reactor of the event.
    pub graph: ReactorId,
    /// The token of the next subscriber.
    pub next: u64,
    /// The tokens of the subscribers.
    pub subscribers: Set<u64>,
}

impl View for Event {
    type V = EventModel;

    closed spec fn view(&self) -> EventModel {
        EventModel {
            node: self.id.0,
            graph: self.reactor,
            next: self.next_subscriber,
            subscribers: self.subscribers@,
        }
    }
}

/// A handle of one subscription to one event.
#[must_use]
#[derive(Debug)]
pub struct Subscription {
    /// The token of the subscriber.
    pub token: u64,
    /// The subscription has not been cancelled.
    pub active: bool,
    /// The subscription ends with its handle: no owner keeps it alive, and it was not leaked.
    pub tied: bool,
}

impl EventModel {
    /// After one more subscriber arrived.
    pub open spec fn subscribed(self) -> EventModel {
        EventModel {
            next: crate::model::wrapping_next(self.next),
            subscribers: self.subscribers.insert(self.next),
            ..self
        }
    }

    /// After a subscriber left.
    pub open spec fn unsubscribed(self, token: u64) -> EventModel {
        EventModel { subscribers: self.subscribers.remove(token), ..self }
    }
}

impl Reactor {
    /// Creates an event.
    pub fn event(&mut self, origin: Location) -> (event: Event)
        requires
            old(self).wf(),
            old(self)@.graph.next_node < u64::MAX,
        ensures
            final(self).wf(),
            final(self)@ == old(self)@.created(NodeKind::Event, origin),
            event@ == (EventModel {
                node: old(self)@.graph.next_node,
                graph: old(self)@.id,
                next: 1,
                subscribers: Set::empty(),
            }),
    {
        let id = self.allocate_node(NodeKind::Event, origin);
        Event { id, reactor: self.id(), next_subscriber: 1, subscribers: IdSet::new() }
    }
}

/// Creates an event on `reactor`.
pub fn event_in(reactor: &mut Reactor, origin: Location) -> (event: Event)
    requires
        old(reactor).wf(),
        old(reactor)@.graph.next_node < u64::MAX,
    ensures
        final(reactor).wf(),
        final(reactor)@ == old(reactor)@.created(NodeKind::Event, origin),
        event@ == (EventModel {
            node: old(reactor)@.graph.next_node,
            graph: old(reactor)@.id,
            next: 1,
            subscribers: Set::empty(),
        }),
{
    reactor.event(origin)
}

impl Event {
    /// Returns the event's node.
    pub fn id(&self) -> (id: NodeId)
        ensures
            id == NodeId(self@.node),
    {
        self.id
    }

    /// Records a dependency on the event for the currently running observer.
    pub fn observe(&self, reactor: &mut Reactor, tracking: &Tracking)
        requires
            old(reactor).wf(),
            old(reactor)@.readable(*tracking, self@.node),
        ensures
            final(reactor).wf(),
            final(reactor)@ == old(reactor)@.read(*tracking, self@.node),
    {
        reactor.observe(tracking, self.id);
    }

    /// Returns the tokens of the subscribers that get a value emitted now, each once and in no
    /// particular order. Who unsubscribes while the value goes round still gets it.
    pub fn recipients(&self) -> (recipients: Vec<u64>)
        ensures
            crate::model::lists(recipients@, self@.subscribers),
    {
        self.subscribers.members()
    }

    /// Finishes the emission of a value that the recipients got: observers of the event are marked
    /// stale.
    pub fn emit(&self, reactor: &mut Reactor, write_origin: Location)
        requires
            old(reactor).wf(),
        ensures
            final(reactor).wf(),
            old(reactor)@.is_write(self@.node, write_origin, final(reactor)@),
    {
        assert(self@.node == self.id.0);
        reactor.trigger(self.id, write_origin);
    }

    /// Adds a subscriber. Inside an owner the subscription belongs to that owner: `cleanup`, which
    /// is to cancel it, is registered there. With an owner that is disposed already, the
    /// subscription is cancelled at once. Outside an owner it belongs to its handle.
    pub fn subscribe(&mut self, owners: &mut Owners, cleanup: u64) -> (subscription: Subscription)
        requires
            old(owners).wf(),
            old(owners)@.stats.cleanup_registrations < usize::MAX,
        ensures
            final(owners).wf(),
            subscription.token == old(self)@.next,
            match old(owners)@.current() {
                Some(owner) => {
                    &&& final(owners)@ == old(owners)@.cleanup_added(owner, cleanup)
                    &&& subscription.active == !old(owners)@.frames[owner].disposed
                    &&& !subscription.tied
                },
                None => {
                    &&& final(owners)@ == old(owners)@
                    &&& subscription.active
                    &&& subscription.tied
                },
            },
            final(self)@ == (if subscription.active {
                old(self)@.subscribed()
            } else {
                old(self)@.subscribed().unsubscribed(subscription.token)
            }),
    {
        let token: u64 = self.next_subscriber;
        self.next_subscriber = token.wrapping_add(1);
        let _ = self.subscribers.insert(token);
        let mut subscription = Subscription { token, active: true, tied: true };
        if owners.current_owner().is_some() {
            subscription.tied = false;
            if !crate::scope::on_cleanup(owners, cleanup) {
                self.unsubscribe(&mut subscription);
            }
        }
        subscription
    }

    /// Cancels a subscription. The second time does nothing.
    pub fn unsubscribe(&mut self, subscription: &mut Subscription)
        ensures
            *final(subscription) == (Subscription { active: false, ..*old(subscription) }),
            final(self)@ == (if old(subscription).active {
                old(self)@.unsubscribed(old(subscription).token)
            } else {
                old(self)@
            }),
    {
        if !subscription.active {
            return;
        }
        subscription.active = false;
        let _ = self.subscribers.remove(subscription.token);
        assert(self@ =~= old(self)@.unsubscribed(subscription.token));
    }

    /// Drops a handle: the subscription is cancelled if it belongs to its handle.
    pub fn drop_subscription(&mut self, subscription: Subscription)
        ensures
            final(self)@ == (if subscription.active && subscription.tied {
                old(self)@.unsubscribed(subscription.token)
            } else {
                old(self)@
            }),
    {
        if subscription.tied {
            let mut subscription = subscription;
            self.unsubscribe(&mut subscription);
        }
    }

    /// Takes the event out of the graph.
    pub fn release(self, reactor: &mut Reactor)
        requires
            old(reactor).wf(),
        ensures
            final(reactor).wf(),
            exists|lost: Seq<u64>|
                crate::model::lists(lost, crate::model::abandoned(old(reactor)@.graph, self@.node))
                    && final(reactor)@ == #[trigger] old(reactor)@.disposed(self@.node, lost),
    {
        assert(self@.node == self.id.0);
        reactor.dispose(self.id);
    }
}

impl Subscription {
    /// Returns whether the subscription has not been cancelled.
    pub fn is_active(&self) -> (active: bool)
        ensures
            active == self.active,
    {
        self.active
    }

    /// Unties the subscription from its handle, which then lasts until it is cancelled.
    pub fn leak(self) -> (leaked: Subscription)
        ensures
            leaked == (Subscription { tied: false, ..self }),
    {
        Subscription { tied: false, ..self }
    }
}

/// The values that a draining subscription was given and has not handled yet.
#[derive(Debug)]
pub struct EventQueue<T> {
    values: Vec<T>,
}

impl<T> View for EventQueue<T> {
    type V = Seq<T>;

    closed spec fn view(&self) -> Seq<T> {
        self.values@
    }
}

impl<T> EventQueue<T> {
    /// Creates an empty queue.
    pub fn new() -> (queue: Self)
        ensures
            queue@ == Seq::<T>::empty(),
    {
        EventQueue { values: Vec::new() }
    }

    /// Takes a value in.
    pub fn push(&mut self, value: T)
        ensures
            final(self)@ == old(self)@.push(value),
    {
        self.values.push(value);
    }

    /// The body of the draining effect: observes the event, and hands out everything that was taken
    /// in since the last time, in the order of emission.
    pub fn drain(&mut self, event: &Event, reactor: &mut Reactor, tracking: &Tracking) -> (values:
        Vec<T>)
        requires
            old(reactor).wf(),
            old(reactor)@.readable(*tracking, event@.node),
        ensures
            final(reactor).wf(),
            final(reactor)@ == old(reactor)@.read(*tracking, event@.node),
            values@ == old(self)@,
            final(self)@ == Seq::<T>::empty(),
    {
        event.observe(reactor, tracking);
        let mut values: Vec<T> = Vec::new();
        std::mem::swap(&mut values, &mut self.values);
        values
    }
}

impl Reactor {
    /// Subscribes with a queue: the handler that is registered for the subscription pushes into the
    /// queue, and the effect drains it.
    pub fn on<T>(
        &mut self,
        owners: &mut Owners,
        event: &mut Event,
        cleanup: u64,
        origin: Location,
    ) -> (draining: (Subscription, EventQueue<T>, EffectHandle))
        requires
            old(self).wf(),
            old(owners).wf(),
            old(self)@.graph.next_node < u64::MAX,
            old(owners)@.next < u64::MAX,
            old(owners)@.stats.owned_children < usize::MAX,
            old(owners)@.stats.cleanup_registrations < usize::MAX,
        ensures
            final(self).wf(),
            final(owners).wf(),
            draining.0.token == old(event)@.next,
            draining.0.tied == (old(owners)@.current() is None),
            draining.0.active == (old(owners)@.current() matches Some(owner)
                ==> !old(owners)@.frames[owner].disposed),
            final(event)@ == (if draining.0.active {
                old(event)@.subscribed()
            } else {
                old(event)@.subscribed().unsubscribed(draining.0.token)
            }),
            draining.1@ == Seq::<T>::empty(),
            crate::effect::created_effect(
                false,
                origin,
                old(self)@,
                match old(owners)@.current() {
                    Some(owner) => old(owners)@.cleanup_added(owner, cleanup),
                    None => old(owners)@,
                },
                final(self)@,
                final(owners)@,
                draining.2,
            ),
    {
        let direct = event.subscribe(owners, cleanup);
        let effect = self.effect(owners, origin);
        (direct, EventQueue::new(), effect)
    }
}

/// Subscribes with a queue on `reactor`. See [`Reactor::on`].
pub fn on_in<T>(
    reactor: &mut Reactor,
    owners: &mut Owners,
    event: &mut Event,
    cleanup: u64,
    origin: Location,
) -> (draining: (Subscription, EventQueue<T>, EffectHandle))
    requires
        old(reactor).wf(),
        old(owners).wf(),
        old(reactor)@.graph.next_node < u64::MAX,
        old(owners)@.next < u64::MAX,
        old(owners)@.stats.owned_children < usize::MAX,
        old(owners)@.stats.cleanup_registrations < usize::MAX,
    ensures
        final(reactor).wf(),
        final(owners).wf(),
        draining.0.token == old(event)@.next,
        draining.0.tied == (old(owners)@.current() is None),
        draining.0.active == (old(owners)@.current() matches Some(owner)
            ==> !old(owners)@.frames[owner].disposed),
        final(event)@ == (if draining.0.active {
            old(event)@.subscribed()
        } else {
            old(event)@.subscribed().unsubscribed(draining.0.token)
        }),
        draining.1@ == Seq::<T>::empty(),
        crate::effect::created_effect(
            false,
            origin,
            old(reactor)@,
            match old(owners)@.current() {
                Some(owner) => old(owners)@.cleanup_added(owner, cleanup),
                None => old(owners)@,
            },
            final(reactor)@,
            final(owners)@,
            draining.2,
        ),
{
    reactor.on(owners, event, cleanup, origin)
}

/// No value is lost, doubled or reordered: whatever was pushed between two drains comes out of the
/// second one in the order of emission.
pub proof fn queues_keep_the_order<T>(before: Seq<T>, emitted: Seq<T>)
    ensures
        emitted.fold_left(before, |queue: Seq<T>, value: T| queue.push(value)) == before + emitted,
    decreases emitted.len(),
{
    if emitted.len() == 0 {
        assert(before + emitted =~= before);
    } else {
        let rest = emitted.drop_last();
        queues_keep_the_order(before, rest);
        assert(before + rest.push(emitted.last()) =~= (before + rest).push(emitted.last()));
        assert(rest.push(emitted.last()) =~= emitted);
    }
}

/// A subscriber gets what is emitted from its subscription on until it cancels it, and nothing
/// else.
pub proof fn subscribers_come_and_go(event: EventModel)
    requires
        !event.subscribers.contains(event.next),
    ensures
        event.subscribed().subscribers.contains(event.next),
        event.subscribed().unsubscribed(event.next).subscribers == event.subscribers,
        forall|other: u64|
            other != event.next ==> (#[trigger] event.subscribed().subscribers.contains(other)
                <==> event.subscribers.contains(other)),
{
}

} // verus!
