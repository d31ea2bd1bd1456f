//! What passes between a reactor and those who use it: events and their subscribers, watches, the
//! reactor that a thread uses by default, regions without tracking, and what is said of all this.
use vstd::prelude::*;

use crate::defaults::{Ambient, Defaults, EnterGuard, ReactorIds};
use crate::diagnostics::{DiagnosticEvent, DiagnosticSubscription, NodeKind, ReactorId};
use crate::effect::EffectHandle;
use crate::event::{Event, EventQueue, Subscription};
use crate::id::{Location, NodeId};
use crate::reactor::Reactor;
use crate::resource::Resource;
use crate::scope::{ErrorInfo, Owners};
use crate::signal::Signal;
use crate::thunk::{Memo, Thunk};
use crate::tracking::{Tracking, UntrackGuard};
use crate::watch::Watch;
use crate::writable::Writable;

verus! {

/// A subscriber of an event is a recipient until it cancels. It belongs to the owner in effect, with
/// which it is cancelled; one whose owner is disposed already never becomes a recipient. Without an
/// owner it belongs to its handle.
pub proof fn subscribers_receive_until_they_cancel(
    event: &mut Event,
    owners: &mut Owners,
    cleanup: u64,
    subscription: Subscription,
)
    requires
        call_ensures(Event::subscribe, (event, owners, cleanup), subscription),
        old(owners).wf(),
    ensures
        ({
            let (before, after) = (old(event)@, final(event)@);
            &&& after.node == before.node
            &&& after.graph == before.graph
            &&& after.next != subscription.token
            &&& forall|other: u64|
                other != subscription.token ==> #[trigger] after.subscribers.contains(other)
                    == before.subscribers.contains(other)
            &&& after.subscribers.contains(subscription.token) == subscription.active
            &&& match crate::drains::owner_in_effect(old(owners)@) {
                Some(owner) => {
                    &&& !subscription.tied
                    &&& crate::households::is_given(
                        old(owners)@,
                        owner,
                        cleanup,
                        subscription.active,
                        final(owners)@,
                    )
                },
                None => {
                    &&& subscription.tied
                    &&& subscription.active
                    &&& final(owners)@ == old(owners)@
                },
            }
        }),
{
    let owners_before = old(owners)@;
    assert(owners_before.current() == crate::drains::owner_in_effect(owners_before));
    if owners_before.current() is Some {
        assert(owners_before.frames.contains_key(owners_before.current()->0));
    }
}

/// A subscription that is cancelled, or whose handle goes while it is tied to it, has no recipient;
/// any other recipient stays. A leaked one is not tied. The recipients are told each once.
pub proof fn subscriptions_end(
    event: &mut Event,
    subscription: &mut Subscription,
    leaked: Subscription,
    active: bool,
    recipients: Vec<u64>,
    id: NodeId,
)
    ensures
        call_ensures(Event::unsubscribe, (event, subscription), ()) ==> {
            &&& !final(subscription).active
            &&& final(subscription).token == old(subscription).token
            &&& final(subscription).tied == old(subscription).tied
            &&& final(event)@.node == old(event)@.node
            &&& final(event)@.next == old(event)@.next
            &&& forall|token: u64| #[trigger]
                final(event)@.subscribers.contains(token) <==> old(event)@.subscribers.contains(
                    token,
                ) && !(old(subscription).active && token == old(subscription).token)
        },
        call_ensures(Event::drop_subscription, (event, *old(subscription)), ()) ==> {
            &&& final(event)@.node == old(event)@.node
            &&& final(event)@.next == old(event)@.next
            &&& forall|token: u64| #[trigger]
                final(event)@.subscribers.contains(token) <==> old(event)@.subscribers.contains(
                    token,
                ) && !(old(subscription).active && old(subscription).tied && token == old(subscription).token)
        },
        call_ensures(Subscription::leak, (*old(subscription),), leaked) ==> {
            &&& !leaked.tied
            &&& leaked.token == old(subscription).token
            &&& leaked.active == old(subscription).active
        },
        call_ensures(Subscription::is_active, (&*old(subscription),), active) ==> active == old(subscription).active,
        call_ensures(Event::recipients, (&*old(event),), recipients) ==> {
            &&& recipients@.no_duplicates()
            &&& forall|token: u64| #[trigger]
                old(event)@.subscribers.contains(token) <==> recipients@.contains(token)
        },
        call_ensures(Event::id, (&*old(event),), id) ==> id.0 == old(event)@.node,
{
    let (listed, members) = (recipients@, old(event)@.subscribers);
    if listed.to_set() == members {
        assert forall|token: u64| #[trigger] members.contains(token) <==> listed.contains(
            token,
        ) by {
            assert(listed.to_set().contains(token) == listed.contains(token));
        }
    }
}

/// What went into the queue of an event comes out in order, once.
pub proof fn queues_keep_their_order<T>(
    queue: &mut EventQueue<T>,
    event: Event,
    reactor: &mut Reactor,
    tracking: Tracking,
    value: T,
    values: Vec<T>,
    fresh: EventQueue<T>,
)
    ensures
        call_ensures(EventQueue::<T>::new, (), fresh) ==> fresh@.len() == 0,
        call_ensures(EventQueue::<T>::push, (queue, value), ()) ==> {
            &&& final(queue)@.len() == old(queue)@.len() + 1
            &&& final(queue)@.last() == value
            &&& final(queue)@.drop_last() == old(queue)@
        },
        call_ensures(EventQueue::<T>::drain, (queue, &event, reactor, &tracking), values) ==> {
            &&& values@ == old(queue)@
            &&& final(queue)@.len() == 0
        },
{
    assert(old(queue)@.push(value).drop_last() =~= old(queue)@);
}

/// A watch reads what it watches and hands it on untracked; what it handled is what it had before
/// when it is asked next.
pub proof fn watches_hand_on_changes<S: Clone>(
    watch: &mut Watch<S>,
    reactor: &mut Reactor,
    tracking: &mut Tracking,
    guard: UntrackGuard,
    new: S,
    begun: (S, UntrackGuard),
    previous: Option<&S>,
    memo: &Memo<S>,
    effect: &EffectHandle,
)
    requires
        old(tracking).untracked_depth < u32::MAX,
    ensures
        call_ensures(Watch::<S>::begin, (&*old(watch), reactor, tracking), begun) ==> {
            &&& cloned(old(watch).gate().held()->0, begun.0)
            &&& final(tracking).untracked_depth == old(tracking).untracked_depth + 1
            &&& final(tracking).running == old(tracking).running
        },
        call_ensures(Watch::<S>::handled, (watch, tracking, guard, new), ()) ==> {
            &&& final(watch).handled_last() == Some(new)
            &&& final(watch).gate() == old(watch).gate()
            &&& final(watch).observer() == old(watch).observer()
            &&& old(tracking).untracked_depth > 0 ==> final(tracking).untracked_depth == old(tracking).untracked_depth - 1
            &&& final(tracking).running == old(tracking).running
        },
        call_ensures(Watch::<S>::previous, (&*old(watch),), previous) ==> {
            &&& previous is Some == old(watch).handled_last() is Some
            &&& previous matches Some(value) ==> Some(*value) == old(watch).handled_last()
        },
        call_ensures(Watch::<S>::gated, (&*old(watch),), memo) ==> *memo == old(watch).gate(),
        call_ensures(Watch::<S>::effect, (&*old(watch),), effect) ==> *effect == old(watch).observer(),
{
}

/// Regions without tracking nest: as many as were entered have to end before reads count again. What
/// runs is not changed by them.
pub proof fn untracked_regions_nest(
    tracking: &mut Tracking,
    guard: UntrackGuard,
    reactor: ReactorId,
    fresh: Tracking,
    answer: bool,
)
    ensures
        call_ensures(Tracking::new, (), fresh) ==> fresh.untracked_depth == 0 && fresh.running
            is None,
        old(tracking).untracked_depth < u32::MAX && call_ensures(
            crate::tracking::untrack,
            (tracking,),
            guard,
        ) ==> {
            &&& final(tracking).untracked_depth == old(tracking).untracked_depth + 1
            &&& final(tracking).running == old(tracking).running
        },
        call_ensures(UntrackGuard::resume, (guard, tracking), ()) ==> {
            &&& old(tracking).untracked_depth > 0 ==> final(tracking).untracked_depth == old(tracking).untracked_depth - 1
            &&& old(tracking).untracked_depth == 0 ==> final(tracking).untracked_depth == 0
            &&& final(tracking).running == old(tracking).running
        },
        call_ensures(Tracking::is_untracked, (&*old(tracking),), answer) ==> answer == (old(tracking).untracked_depth != 0),
        call_ensures(Tracking::accepts, (&*old(tracking), reactor), answer) ==> match old(tracking).running {
            Some(running) => answer == (running == reactor),
            None => answer,
        },
{
}

/// A reactor that is entered is the default, and is kept; leaving it brings back what was there. The
/// default that there is is used as long as its reactor exists; otherwise a fresh one is installed,
/// and it is told whether that replaces one that the thread had.
pub proof fn defaults_are_entered_and_left<F: FnOnce(ReactorId) -> bool>(
    defaults: &mut Defaults,
    reactor: ReactorId,
    guard: EnterGuard,
    exists_still: F,
    fresh: ReactorId,
    ambient: Ambient,
    current: Option<ReactorId>,
    empty: Defaults,
)
    ensures
        call_ensures(Defaults::new, (), empty) ==> {
            &&& empty.current is None
            &&& empty.anchor is None
            &&& !empty.had_default
        },
        call_ensures(Defaults::enter, (defaults, reactor), guard) ==> {
            &&& final(defaults).current == Some(reactor)
            &&& final(defaults).anchor == Some(reactor)
            &&& final(defaults).had_default
            &&& guard.previous_default == old(defaults).current
            &&& guard.previous_anchor == old(defaults).anchor
        },
        call_ensures(Defaults::leave, (defaults, guard), ()) ==> {
            &&& final(defaults).current == guard.previous_default
            &&& final(defaults).anchor == guard.previous_anchor
            &&& final(defaults).had_default == old(defaults).had_default
        },
        call_ensures(Defaults::try_current::<F>, (&*old(defaults), exists_still), current) ==> {
            &&& current is Some ==> current == old(defaults).current && exists_still.ensures(
                (current->0,),
                true,
            )
            &&& current is None && old(defaults).current is Some ==> exists_still.ensures(
                (old(defaults).current->0,),
                false,
            )
        },
        call_ensures(Defaults::current::<F>, (defaults, exists_still, fresh), ambient) ==> {
            &&& ambient matches Ambient::Reused(id) ==> {
                &&& old(defaults).current == Some(id)
                &&& exists_still.ensures((id,), true)
                &&& *final(defaults) == *old(defaults)
            }
            &&& ambient matches Ambient::Installed { reactor, replaces } ==> {
                &&& reactor == fresh
                &&& replaces == old(defaults).had_default
                &&& final(defaults).current == Some(fresh)
                &&& final(defaults).anchor == old(defaults).anchor
                &&& final(defaults).had_default
                &&& old(defaults).current is Some ==> exists_still.ensures(
                    (old(defaults).current->0,),
                    false,
                )
            }
        },
{
}

/// Reactors are numbered one after the other, so that two in a row differ.
pub proof fn reactors_are_numbered(ids: &mut ReactorIds, id: ReactorId, fresh: ReactorIds)
    ensures
        call_ensures(ReactorIds::new, (), fresh) ==> fresh.next == 1,
        call_ensures(ReactorIds::allocate, (ids,), id) ==> {
            &&& id.0 == old(ids).next
            &&& final(ids).next != id.0
            &&& old(ids).next < u64::MAX ==> final(ids).next == id.0 + 1
        },
{
}

/// Every subscription to diagnostics has a token that is not zero, and the next one has another. One
/// that ends takes its token out of the subscribers, in whose order nothing else changes.
pub proof fn diagnostic_tokens_differ(
    reactor: &mut Reactor,
    subscription: DiagnosticSubscription,
    token: u64,
)
    requires
        old(reactor)@.next_diagnostic > 0,
    ensures
        call_ensures(Reactor::subscribe_diagnostics, (reactor,), subscription) ==> {
            &&& subscription.key() == old(reactor)@.next_diagnostic
            &&& final(reactor)@.subscribers == old(reactor)@.subscribers.push(subscription.key())
            &&& final(reactor)@.next_diagnostic > 0
            &&& final(reactor)@.next_diagnostic != subscription.key()
        },
        call_ensures(Reactor::unsubscribe_diagnostics, (reactor, subscription), ()) ==> {
            &&& final(reactor)@.subscribers == old(reactor)@.subscribers.filter(
                |other: u64| other != subscription.key(),
            )
            &&& final(reactor)@.next_diagnostic == old(reactor)@.next_diagnostic
        },
        call_ensures(DiagnosticSubscription::token, (&subscription,), token) ==> token
            == subscription.key(),
        call_ensures(DiagnosticSubscription::new, (token,), subscription) ==> subscription.key()
            == token,
{
    assert(crate::model::other_than(subscription.key()) =~= |other: u64|
        other != subscription.key());
}

/// What can be asked of a handle is what it is.
pub proof fn handles_are_told_as_they_are<T, P>(
    signal: Signal<T>,
    thunk: Thunk<T>,
    memo: Memo<T>,
    resource: Resource<T>,
    writable: Writable<T>,
    source: crate::source::Source,
    info: ErrorInfo<P>,
    payload: P,
    raw: u64,
    id: NodeId,
    graph: ReactorId,
    origin: Option<Location>,
    cached: Option<&T>,
    derived: &Memo<T>,
    value: &Signal<Option<T>>,
    flag: &Signal<bool>,
    effect: &EffectHandle,
)
    ensures
        call_ensures(Signal::<T>::id, (&signal,), id) ==> id == signal.node(),
        call_ensures(Signal::<T>::reactor, (&signal,), graph) ==> graph == signal.graph(),
        call_ensures(Thunk::<T>::id, (&thunk,), id) ==> id == thunk.node(),
        call_ensures(Thunk::<T>::reactor, (&thunk,), graph) ==> graph == thunk.graph(),
        call_ensures(Memo::<T>::id, (&memo,), id) ==> id == memo.node(),
        call_ensures(Memo::<T>::reactor, (&memo,), graph) ==> graph == memo.graph(),
        call_ensures(crate::source::Source::id, (&source,), id) ==> id == source.node(),
        call_ensures(Thunk::<T>::cached, (&thunk,), cached) ==> {
            &&& cached is Some == thunk.held() is Some
            &&& cached matches Some(value) ==> Some(*value) == thunk.held()
        },
        call_ensures(Memo::<T>::cached, (&memo,), cached) ==> {
            &&& cached is Some == memo.held() is Some
            &&& cached matches Some(value) ==> Some(*value) == memo.held()
        },
        call_ensures(Writable::<T>::as_memo, (&writable,), derived) ==> *derived
            == writable.derived(),
        call_ensures(Writable::<T>::into_memo, (writable,), memo) ==> memo == writable.derived(),
        call_ensures(Resource::<T>::value, (&resource,), value) ==> *value
            == resource.value_signal(),
        call_ensures(Resource::<T>::into_value, (resource,), *value) ==> *value
            == resource.value_signal(),
        call_ensures(Resource::<T>::flag, (&resource,), flag) ==> *flag
            == resource.loading_signal(),
        call_ensures(Resource::<T>::effect, (&resource,), effect) ==> *effect
            == resource.observer(),
        call_ensures(NodeId::new, (raw,), id) ==> id.0 == raw,
        call_ensures(NodeId::get, (id,), raw) ==> raw == id.0,
        call_ensures(ReactorId::get, (graph,), raw) ==> raw == graph.0,
        call_ensures(ErrorInfo::<P>::new, (payload, id, origin), info) ==> {
            &&& info.carried() == payload
            &&& info.subject() == id
            &&& info.site() == origin
        },
        call_ensures(ErrorInfo::<P>::payload, (&info,), &payload) ==> payload == info.carried(),
        call_ensures(ErrorInfo::<P>::into_payload, (info,), payload) ==> payload == info.carried(),
        call_ensures(ErrorInfo::<P>::node, (&info,), id) ==> id == info.subject(),
        call_ensures(ErrorInfo::<P>::origin, (&info,), origin) ==> origin == info.site(),
{
}

/// Every kind stands at a place of its own, in the list of kinds and in the counts.
pub proof fn kinds_have_places(kind: NodeKind, kinds: Vec<NodeKind>, index: usize)
    ensures
        call_ensures(NodeKind::index, (kind,), index) ==> index == crate::births::place(kind),
        call_ensures(NodeKind::all, (), kinds) ==> {
            &&& kinds@.len() == 6
            &&& kinds@[crate::births::place(kind)] == kind
        },
{
    assert(kind.position() == crate::births::place(kind));
}

/// What an event is about: the node that it names, and where that node was created as far as the
/// event says so.
pub open spec fn is_about(
    event: DiagnosticEvent,
    node: Option<NodeId>,
    origin: Option<Location>,
) -> bool {
    match event {
        DiagnosticEvent::NodeCreated { node: named, origin: site, .. } => node == Some(named)
            && origin == Some(site),
        DiagnosticEvent::NodeDisposed { node: named, origin: site, .. } => node == Some(named)
            && origin == Some(site),
        DiagnosticEvent::WriteSuppressed { node: named, node_origin, .. } => node == Some(named)
            && origin == Some(node_origin),
        DiagnosticEvent::ReactiveWrite { cause, .. } => node == Some(cause.node) && origin == Some(
            cause.node_origin,
        ),
        DiagnosticEvent::ComputedInvalidated { node: named, node_origin, .. } => node == Some(named)
            && origin == Some(node_origin),
        DiagnosticEvent::ComputedVerified { node: named, node_origin, .. } => node == Some(named)
            && origin == Some(node_origin),
        DiagnosticEvent::ComputedRecomputeStarted { node: named, node_origin, .. } => node == Some(
            named,
        ) && origin == Some(node_origin),
        DiagnosticEvent::ComputedRecomputeFinished { node: named, node_origin, .. } => node == Some(
            named,
        ) && origin == Some(node_origin),
        DiagnosticEvent::EffectInvalidated { effect, effect_origin, .. } => node == Some(effect)
            && origin == Some(effect_origin),
        DiagnosticEvent::EffectScheduled { effect, effect_origin, .. } => node == Some(effect)
            && origin == Some(effect_origin),
        DiagnosticEvent::EffectRunStarted { effect, effect_origin, .. } => node == Some(effect)
            && origin == Some(effect_origin),
        DiagnosticEvent::EffectRunFinished { effect, .. } => node == Some(effect) && origin is None,
        DiagnosticEvent::EffectRunSkipped { effect, .. } => node == Some(effect) && origin is None,
        DiagnosticEvent::EffectDisposed { effect, .. } => node == Some(effect) && origin is None,
        DiagnosticEvent::FlushStarted { .. } => node is None && origin is None,
        DiagnosticEvent::FlushFinished { .. } => node is None && origin is None,
    }
}

/// An event tells what it is about, and, where it is part of a flush, which.
pub proof fn events_tell_what_they_are_about(
    event: DiagnosticEvent,
    node: Option<NodeId>,
    origin: Option<Location>,
    epoch: Option<u64>,
)
    ensures
        call_ensures(DiagnosticEvent::node, (&event,), node) && call_ensures(
            DiagnosticEvent::node_origin,
            (&event,),
            origin,
        ) ==> is_about(event, node, origin),
        call_ensures(DiagnosticEvent::flush_epoch, (&event,), epoch) ==> match event {
            DiagnosticEvent::FlushStarted { flush_epoch, .. } => epoch == Some(flush_epoch),
            DiagnosticEvent::FlushFinished { flush_epoch, .. } => epoch == Some(flush_epoch),
            DiagnosticEvent::EffectScheduled { flush_epoch, .. } => epoch == Some(flush_epoch),
            DiagnosticEvent::EffectRunStarted { flush_epoch, .. } => epoch == Some(flush_epoch),
            DiagnosticEvent::EffectRunFinished { flush_epoch, .. } => epoch == Some(flush_epoch),
            DiagnosticEvent::EffectRunSkipped { flush_epoch, .. } => epoch == Some(flush_epoch),
            DiagnosticEvent::ComputedVerified { flush_epoch, .. } => epoch == Some(flush_epoch),
            DiagnosticEvent::ComputedRecomputeStarted { flush_epoch, .. } => epoch == Some(
                flush_epoch,
            ),
            DiagnosticEvent::ComputedRecomputeFinished { flush_epoch, .. } => epoch == Some(
                flush_epoch,
            ),
            _ => epoch is None,
        },
{
}

/// An event tells which reactor it is of.
pub proof fn events_tell_their_reactor(event: DiagnosticEvent, graph: ReactorId)
    requires
        call_ensures(DiagnosticEvent::reactor, (&event,), graph),
    ensures
        match event {
            DiagnosticEvent::NodeCreated { reactor, .. } => graph == reactor,
            DiagnosticEvent::NodeDisposed { reactor, .. } => graph == reactor,
            DiagnosticEvent::WriteSuppressed { reactor, .. } => graph == reactor,
            DiagnosticEvent::ReactiveWrite { reactor, .. } => graph == reactor,
            DiagnosticEvent::ComputedInvalidated { reactor, .. } => graph == reactor,
            DiagnosticEvent::ComputedVerified { reactor, .. } => graph == reactor,
            DiagnosticEvent::ComputedRecomputeStarted { reactor, .. } => graph == reactor,
            DiagnosticEvent::ComputedRecomputeFinished { reactor, .. } => graph == reactor,
            DiagnosticEvent::EffectInvalidated { reactor, .. } => graph == reactor,
            DiagnosticEvent::EffectScheduled { reactor, .. } => graph == reactor,
            DiagnosticEvent::EffectRunStarted { reactor, .. } => graph == reactor,
            DiagnosticEvent::EffectRunFinished { reactor, .. } => graph == reactor,
            DiagnosticEvent::EffectRunSkipped { reactor, .. } => graph == reactor,
            DiagnosticEvent::EffectDisposed { reactor, .. } => graph == reactor,
            DiagnosticEvent::FlushStarted { reactor, .. } => graph == reactor,
            DiagnosticEvent::FlushFinished { reactor, .. } => graph == reactor,
        },
{
}

} // verus!
