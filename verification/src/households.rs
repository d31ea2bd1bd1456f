//! What owners hold, and what becomes of it.
//!
//! An owner takes in what is created under it and gives it up once, latest first, when it is reset
//! or disposed; one that was disposed takes nothing in. Every operation changes the owner that it
//! speaks of and no other, and is counted once.
use vstd::prelude::*;

use crate::effect::{Containment, EffectHandle};
use crate::id::{Location, NodeId};
use crate::observers::EffectRecord;
use crate::ownership::{OwnershipAudit, OwnershipDrift, OwnershipGauge, OwnershipStats};
use crate::reactor::Reactor;
use crate::scope::{
    Adoption,
    Frame,
    OpenScope,
    Owned,
    Owner,
    OwnerGuard,
    OwnerId,
    Owners,
    OwnersModel,
    Pending,
    ScopeHandle,
    Teardown,
    TeardownStep,
};

verus! {

/// One more, unless the count is full.
pub open spec fn next_size(count: usize) -> usize {
    if count == usize::MAX {
        count
    } else {
        (count + 1) as usize
    }
}

/// One more, unless the count is full.
pub open spec fn next_total(count: u64) -> u64 {
    if count == u64::MAX {
        count
    } else {
        (count + 1) as u64
    }
}

/// Only the frame of `owner` may differ, and the frames that there are are the same.
pub open spec fn only_frame(before: OwnersModel, owner: u64, after: OwnersModel) -> bool {
    &&& after.next == before.next
    &&& after.registry == before.registry
    &&& forall|other: u64| #[trigger]
        after.frames.contains_key(other) <==> before.frames.contains_key(other)
    &&& forall|other: u64| #[trigger]
        before.frames.contains_key(other) && other != owner ==> after.frames[other]
            == before.frames[other]
}

/// An owner came into being under the one that was in effect, holding nothing.
pub open spec fn is_new_owner(
    before: OwnersModel,
    owner: u64,
    handler: Option<u64>,
    after: OwnersModel,
) -> bool {
    &&& owner == before.next
    &&& after.next == owner + 1
    &&& after.frames.contains_key(owner)
    &&& after.frames[owner].parent == crate::drains::owner_in_effect(before)
    &&& after.frames[owner].children.len() == 0
    &&& after.frames[owner].cleanups.len() == 0
    &&& !after.frames[owner].disposed
    &&& after.frames[owner].handler == handler
    &&& forall|other: u64|
        other != owner ==> {
            &&& #[trigger] after.frames.contains_key(other) <==> before.frames.contains_key(other)
            &&& after.frames[other] == before.frames[other]
        }
    &&& after.stats == (OwnershipStats {
        live_owners: next_size(before.stats.live_owners),
        owners_created: next_total(before.stats.owners_created),
        ..before.stats
    })
}

/// A scope is a new owner that is in effect until its body ends, with the handler that it was given,
/// if any.
pub proof fn scopes_open(owners: &mut Owners, handler: u64, scope: OpenScope)
    requires
        old(owners)@.next < u64::MAX,
    ensures
        call_ensures(crate::scope::scope, (owners,), scope) ==> {
            &&& is_new_owner(old(owners)@, scope.owner.0, None, final(owners)@)
            &&& final(owners)@.stack == old(owners)@.stack.push(Some(scope.owner.0))
        },
        call_ensures(crate::scope::scope_catch, (owners, handler), scope) ==> {
            &&& is_new_owner(old(owners)@, scope.owner.0, Some(handler), final(owners)@)
            &&& final(owners)@.stack == old(owners)@.stack.push(Some(scope.owner.0))
        },
{
}

/// `child` was offered to the owner in effect: one that is alive holds it from then on, as its
/// latest child.
pub open spec fn is_offered(
    before: OwnersModel,
    child: Owned,
    adoption: Adoption,
    after: OwnersModel,
) -> bool {
    match crate::drains::owner_in_effect(before) {
        None => adoption is Unowned && after == before,
        Some(owner) => if before.frames[owner].disposed {
            adoption is Refused && after == before
        } else {
            &&& adoption is Adopted
            &&& only_frame(before, owner, after)
            &&& after.stack == before.stack
            &&& after.frames[owner] == (Frame {
                children: before.frames[owner].children.push(child),
                ..before.frames[owner]
            })
            &&& after.stats == (OwnershipStats {
                owned_children: next_size(before.stats.owned_children),
                ..before.stats
            })
        },
    }
}

/// The owner or barrier that was put in effect last is not any more.
pub open spec fn is_left(before: OwnersModel, after: OwnersModel) -> bool {
    &&& before.stack.len() > 0 ==> after.stack == before.stack.drop_last()
    &&& before.stack.len() == 0 ==> after.stack == before.stack
    &&& after == (OwnersModel { stack: after.stack, ..before })
}

/// A body that returned leaves its scope with the owner around it; whatever else looks for an owner
/// is offered to the one in effect.
pub proof fn scopes_close(
    scope: OpenScope,
    owners: &mut Owners,
    child: Owned,
    outcome: (ScopeHandle, Adoption),
    adoption: Adoption,
    left: OwnersModel,
)
    requires
        old(owners).wf(),
        is_left(old(owners)@, left),
    ensures
        call_ensures(OpenScope::finish, (scope, owners), outcome) ==> {
            &&& is_offered(left, Owned::Scope(scope.owner), outcome.1, final(owners)@)
            &&& outcome.0.id() == scope.owner
        },
        call_ensures(Owners::adopt_into_current, (owners, child), adoption) ==> is_offered(
            old(owners)@,
            child,
            adoption,
            final(owners)@,
        ),
{
    let before = old(owners)@;
    assert(left == before.left());
    assert(left.current() == crate::drains::owner_in_effect(left));
    assert(before.current() == crate::drains::owner_in_effect(before));
    if crate::drains::owner_in_effect(before) is Some {
        assert(before.frames.contains_key(crate::drains::owner_in_effect(before)->0));
    }
    if left.stack.len() > 0 {
        assert(left.stack[left.stack.len() - 1] == before.stack[left.stack.len() - 1]);
    }
}

/// What is put in effect is in effect until it is left: an owner, or a barrier behind which there is
/// none.
pub proof fn owners_take_effect(
    owners: &mut Owners,
    owner: OwnerId,
    reference: Owner,
    guard: OwnerGuard,
)
    ensures
        call_ensures(Owners::with_owner, (owners, owner), guard) ==> {
            &&& final(owners)@ == (OwnersModel {
                stack: final(owners)@.stack,
                ..old(owners)@
            })
            &&& final(owners)@.stack.drop_last() == old(owners)@.stack
            &&& crate::drains::owner_in_effect(final(owners)@) == Some(owner.0)
        },
        call_ensures(Owner::run_in, (&reference, owners), guard) ==> {
            &&& final(owners)@ == (OwnersModel {
                stack: final(owners)@.stack,
                ..old(owners)@
            })
            &&& final(owners)@.stack.drop_last() == old(owners)@.stack
            &&& crate::drains::owner_in_effect(final(owners)@) == Some(reference.key().0)
        },
        call_ensures(crate::scope::unowned, (owners,), guard) ==> {
            &&& final(owners)@ == (OwnersModel {
                stack: final(owners)@.stack,
                ..old(owners)@
            })
            &&& final(owners)@.stack.drop_last() == old(owners)@.stack
            &&& crate::drains::owner_in_effect(final(owners)@) is None
        },
        call_ensures(Owners::leave, (owners, guard), ()) ==> is_left(
            old(owners)@,
            final(owners)@,
        ),
{
    let stack = old(owners)@.stack;
    assert(stack.push(Some(owner.0)).drop_last() =~= stack);
    assert(stack.push(Some(reference.key().0)).drop_last() =~= stack);
    assert(stack.push(None).drop_last() =~= stack);
}

/// A cleanup was given to `owner`: one that is alive keeps it as its latest; with one that was
/// disposed it is run at once, and counts as registered and run.
pub open spec fn is_given(
    before: OwnersModel,
    owner: u64,
    cleanup: u64,
    registered: bool,
    after: OwnersModel,
) -> bool {
    &&& registered == !before.frames[owner].disposed
    &&& only_frame(before, owner, after)
    &&& after.stack == before.stack
    &&& if registered {
        &&& after.frames[owner] == (Frame {
            cleanups: before.frames[owner].cleanups.push(cleanup),
            ..before.frames[owner]
        })
        &&& after.stats == (OwnershipStats {
            cleanup_registrations: next_size(before.stats.cleanup_registrations),
            cleanups_registered: next_total(before.stats.cleanups_registered),
            ..before.stats
        })
    } else {
        &&& after.frames[owner] == before.frames[owner]
        &&& after.stats == (OwnershipStats {
            cleanups_registered: next_total(before.stats.cleanups_registered),
            cleanups_run: next_total(before.stats.cleanups_run),
            ..before.stats
        })
    }
}

/// Giving an owner a cleanup, by name or as the one in effect.
pub proof fn cleanups_are_kept(owners: &mut Owners, owner: OwnerId, cleanup: u64, registered: bool)
    ensures
        old(owners)@.frames.contains_key(owner.0) && call_ensures(
            Owners::add_cleanup,
            (owners, owner, cleanup),
            registered,
        ) ==> is_given(old(owners)@, owner.0, cleanup, registered, final(owners)@),
        crate::drains::owner_in_effect(old(owners)@) == Some(owner.0)
            && old(owners)@.frames.contains_key(owner.0) && call_ensures(
            crate::scope::on_cleanup,
            (owners, cleanup),
            registered,
        ) ==> is_given(old(owners)@, owner.0, cleanup, registered, final(owners)@),
{
    assert(old(owners)@.current() == crate::drains::owner_in_effect(old(owners)@));
}

/// The cleanups of `owner` were taken, which are to be run latest first, and then its children are
/// to be disposed.
pub open spec fn gives_up_cleanups(
    before: OwnersModel,
    owner: u64,
    pending: Seq<Pending>,
    disposed: bool,
    after: OwnersModel,
) -> bool {
    let cleanups = before.frames[owner].cleanups;
    &&& only_frame(before, owner, after)
    &&& after.frames[owner] == (Frame {
        cleanups: Seq::empty(),
        disposed: before.frames[owner].disposed || disposed,
        ..before.frames[owner]
    })
    &&& pending.len() == cleanups.len() + 1
    &&& pending[0] == Pending::Children(OwnerId(owner))
    &&& forall|at: int| #![trigger cleanups[at]]
        0 <= at < cleanups.len() ==> pending[at + 1] == Pending::Cleanup(cleanups[at])
    &&& after.stats == (OwnershipStats {
        cleanup_registrations: after.stats.cleanup_registrations,
        cleanups_run: after.stats.cleanups_run,
        owners_disposed: if disposed {
            next_total(before.stats.owners_disposed)
        } else {
            before.stats.owners_disposed
        },
        ..before.stats
    })
    &&& before.stats.cleanup_registrations >= cleanups.len() as usize
        ==> after.stats.cleanup_registrations == before.stats.cleanup_registrations
        - cleanups.len() as usize
    &&& before.stats.cleanups_run + cleanups.len() as usize <= u64::MAX ==> after.stats.cleanups_run
        == before.stats.cleanups_run + cleanups.len() as usize
}

/// An owner is disposed once, whoever asks for it: it takes nothing in from then on, and its cleanups
/// and children are to be given up. Asking again does nothing. A reset gives up the same without
/// disposing the owner.
pub proof fn owners_give_up(
    owners: &mut Owners,
    owner: OwnerId,
    handle: ScopeHandle,
    first: bool,
    teardown: Teardown,
)
    ensures
        call_ensures(Owners::reset, (owners, owner), teardown) && old(owners)@.frames.contains_key(owner.0) ==> {
            &&& gives_up_cleanups(old(owners)@, owner.0, teardown@, false, final(owners)@)
            &&& final(owners)@.stack == old(owners)@.stack
            &&& teardown.root() == owner
        },
        call_ensures(Owners::dispose, (owners, owner), teardown) ==> is_disposal_of(
            old(owners)@,
            owner.0,
            teardown@,
            final(owners)@,
        ) && teardown.root() == owner,
        call_ensures(ScopeHandle::dispose, (&handle, owners), teardown) ==> is_disposal_of(
            old(owners)@,
            handle.id().0,
            teardown@,
            final(owners)@,
        ),
        call_ensures(Owners::retire, (owners, owner), first) ==> {
            let (before, after) = (old(owners)@, final(owners)@);
            let alive = before.frames.contains_key(owner.0) && !before.frames[owner.0].disposed;
            &&& first == alive
            &&& !alive ==> after == before
            &&& alive ==> {
                &&& only_frame(before, owner.0, after)
                &&& after.stack == before.stack
                &&& after.frames[owner.0] == (Frame { disposed: true, ..before.frames[owner.0] })
                &&& after.stats == (OwnershipStats {
                    owners_disposed: next_total(before.stats.owners_disposed),
                    ..before.stats
                })
            }
        },
{
}

/// What asking for the disposal of `owner` comes to.
pub open spec fn is_disposal_of(
    before: OwnersModel,
    owner: u64,
    pending: Seq<Pending>,
    after: OwnersModel,
) -> bool {
    if before.frames.contains_key(owner) && !before.frames[owner].disposed {
        &&& gives_up_cleanups(before, owner, pending, true, after)
        &&& after.stack == before.stack
    } else {
        pending.len() == 0 && after == before
    }
}

/// A body that failed takes its scope with it: the scope is left, and disposed.
pub proof fn failed_bodies_dispose_their_scope(
    scope: OpenScope,
    owners: &mut Owners,
    left: OwnersModel,
    teardown: Teardown,
)
    requires
        is_left(old(owners)@, left),
        call_ensures(OpenScope::abort, (scope, owners), teardown),
    ensures
        is_disposal_of(left, scope.owner.0, teardown@, final(owners)@),
{
    assert(left == old(owners)@.left());
}

/// A teardown does what is next and asks for no more: it runs a cleanup, or disposes an effect, as
/// it stands; it takes the children of an owner, of which the latest is next then; and it disposes a
/// scope, whose latest cleanup is next then.
pub proof fn teardowns_do_what_is_next(
    teardown: &mut Teardown,
    owners: &mut Owners,
    step: Option<TeardownStep>,
    complete: bool,
)
    requires
        call_ensures(Teardown::step, (teardown, owners), step),
    ensures
        call_ensures(Teardown::is_complete, (&*old(teardown),), complete) ==> complete
            == step is None,
        step is None == (old(teardown)@.len() == 0),
        step is None ==> final(owners)@ == old(owners)@,
        step matches Some(step) ==> {
            let (before, after) = (old(owners)@, final(owners)@);
            let rest = old(teardown)@.drop_last();
            match old(teardown)@.last() {
                Pending::Cleanup(cleanup) => {
                    &&& step == TeardownStep::Cleanup(cleanup)
                    &&& final(teardown)@ == rest
                    &&& after == before
                },
                Pending::Child(Owned::Effect { reactor, effect }) => {
                    &&& step == (TeardownStep::Effect { reactor, effect })
                    &&& final(teardown)@ == rest
                    &&& after == before
                },
                Pending::Children(owner) => {
                    &&& step is Continue
                    &&& takes_children(before, owner.0, rest, final(teardown)@, after)
                },
                Pending::Child(Owned::Scope(owner)) => {
                    &&& step is Continue
                    &&& exists|nested: Seq<Pending>|
                        final(teardown)@ == #[trigger] (rest + nested) && is_disposal_of(
                            before,
                            owner.0,
                            nested,
                            after,
                        )
                },
            }
        },
{
    let before = old(owners)@;
    if old(teardown)@.len() > 0 {
        let rest = old(teardown)@.drop_last();
        if let Pending::Child(Owned::Scope(owner)) = old(teardown)@.last() {
            if before.frames.contains_key(owner.0) && !before.frames[owner.0].disposed {
                let nested = crate::scope::reset_plan(owner.0, before.frames[owner.0].cleanups);
                assert(final(teardown)@ == rest + nested);
                assert(is_disposal_of(before, owner.0, nested, final(owners)@));
            } else {
                let nested = Seq::<Pending>::empty();
                assert(final(teardown)@ =~= rest + nested);
                assert(is_disposal_of(before, owner.0, nested, final(owners)@));
            }
        }
        if let Pending::Children(owner) = old(teardown)@.last() {
            if before.frames.contains_key(owner.0) {
                let children = before.frames[owner.0].children;
                assert(final(teardown)@ == rest + crate::scope::disposal_plan(children));
            }
        }
    }
}

/// The children of `owner` were taken and are to be disposed, latest first, before `rest`.
pub open spec fn takes_children(
    before: OwnersModel,
    owner: u64,
    rest: Seq<Pending>,
    pending: Seq<Pending>,
    after: OwnersModel,
) -> bool {
    let children = before.frames[owner].children;
    if before.frames.contains_key(owner) {
        &&& only_frame(before, owner, after)
        &&& after.stack == before.stack
        &&& after.frames[owner] == (Frame { children: Seq::empty(), ..before.frames[owner] })
        &&& pending.len() == rest.len() + children.len()
        &&& pending.take(rest.len() as int) =~= rest
        &&& forall|at: int| #![trigger children[at]]
            0 <= at < children.len() ==> pending[rest.len() + at] == Pending::Child(children[at])
        &&& after.stats == (OwnershipStats {
            owned_children: after.stats.owned_children,
            ..before.stats
        })
        &&& before.stats.owned_children >= children.len() as usize ==> after.stats.owned_children
            == before.stats.owned_children - children.len() as usize
    } else {
        pending == rest && after == before
    }
}

/// A frame goes away once its owner was disposed, holds nothing and is not in effect; until then it
/// stays.
pub proof fn frames_go_when_empty(owners: &mut Owners, owner: OwnerId, released: bool)
    requires
        call_ensures(Owners::release, (owners, owner), released),
    ensures
        ({
            let (before, after) = (old(owners)@, final(owners)@);
            &&& released <==> {
                &&& before.frames.contains_key(owner.0)
                &&& before.frames[owner.0].disposed
                &&& before.frames[owner.0].cleanups.len() == 0
                &&& before.frames[owner.0].children.len() == 0
                &&& !before.stack.contains(Some(owner.0))
            }
            &&& !released ==> after == before
            &&& released ==> {
                &&& !after.frames.contains_key(owner.0)
                &&& forall|other: u64|
                    other != owner.0 ==> {
                        &&& #[trigger] after.frames.contains_key(other)
                            <==> before.frames.contains_key(other)
                        &&& after.frames[other] == before.frames[other]
                    }
                &&& after.stack == before.stack
                &&& after.next == before.next
                &&& after.stats == (OwnershipStats {
                    live_owners: after.stats.live_owners,
                    ..before.stats
                })
                &&& before.stats.live_owners > 0 ==> after.stats.live_owners
                    == before.stats.live_owners - 1
            }
        }),
{
}

/// What can be asked of owners is what they are. An owner that is gone counts as disposed.
pub proof fn owners_are_told_as_they_are(
    owners: Owners,
    owner: OwnerId,
    handle: ScopeHandle,
    reference: Owner,
    current: Option<OwnerId>,
    found: Option<Owner>,
    disposed: bool,
    stats: OwnershipStats,
    id: OwnerId,
)
    ensures
        call_ensures(Owners::current_owner, (&owners,), current) ==> match current {
            Some(current) => crate::drains::owner_in_effect(owners@) == Some(current.0),
            None => crate::drains::owner_in_effect(owners@) is None,
        },
        call_ensures(crate::scope::owner, (&owners,), found) ==> match found {
            Some(found) => crate::drains::owner_in_effect(owners@) == Some(found.key().0),
            None => crate::drains::owner_in_effect(owners@) is None,
        },
        call_ensures(Owners::is_disposed, (&owners, owner), disposed) ==> disposed
            == !is_alive(owners@, owner.0),
        call_ensures(ScopeHandle::is_disposed, (&handle, &owners), disposed) ==> disposed
            == !is_alive(owners@, handle.id().0),
        call_ensures(Owner::is_disposed, (&reference, &owners), disposed) ==> disposed
            == !is_alive(owners@, reference.key().0),
        call_ensures(ScopeHandle::leak, (handle,), id) ==> id == handle.id(),
        call_ensures(ScopeHandle::owner, (&handle,), reference) ==> reference.key() == handle.id(),
        call_ensures(Owners::stats, (&owners,), stats) || call_ensures(
            crate::scope::ownership_stats,
            (&owners,),
            stats,
        ) ==> stats == owners@.stats,
{
}

/// An owner is there and was not disposed.
pub open spec fn is_alive(owners: OwnersModel, owner: u64) -> bool {
    owners.frames.contains_key(owner) && !owners.frames[owner].disposed
}

/// `line` leads from `owner` outwards, each owner followed by its parent, all of them there.
pub open spec fn leads_outwards(owners: OwnersModel, owner: u64, line: Seq<u64>) -> bool {
    &&& line.len() > 0
    &&& line[0] == owner
    &&& forall|at: int| #![trigger line[at]]
        0 <= at < line.len() ==> owners.frames.contains_key(line[at])
    &&& forall|at: int| #![trigger line[at]]
        0 < at < line.len() ==> owners.frames[line[at - 1]].parent == Some(line[at])
}

/// The handler that serves an owner is that of the first owner outwards from it that has one: if
/// none of those on the way has a handler, the last one's is the answer.
pub proof fn nearest_handlers_serve(
    owners: Owners,
    owner: OwnerId,
    line: Seq<u64>,
    handler: Option<u64>,
)
    requires
        owners.wf(),
        call_ensures(Owners::error_handler, (&owners, owner), handler),
        leads_outwards(owners@, owner.0, line),
        forall|at: int| #![trigger line[at]]
            0 <= at < line.len() - 1 ==> owners@.frames[line[at]].handler is None,
    ensures
        owners@.frames[line.last()].handler is Some ==> handler == owners@.frames[
            line.last()
        ].handler,
        owners@.frames[line.last()].handler is None && owners@.frames[line.last()].parent is None
            ==> handler is None,
{
    served_along(owners@, line, 0);
}

/// Owners without a handler are served as those outwards from them.
proof fn served_along(owners: OwnersModel, line: Seq<u64>, from: int)
    requires
        owners.structured(),
        leads_outwards(owners, line[0], line),
        0 <= from < line.len(),
        forall|at: int| #![trigger line[at]]
            0 <= at < line.len() - 1 ==> owners.frames[line[at]].handler is None,
    ensures
        owners.boundary(line[from]) == owners.boundary(line.last()),
        owners.frames[line.last()].handler is Some ==> owners.boundary(line.last())
            == owners.frames[line.last()].handler,
        owners.frames[line.last()].handler is None && owners.frames[line.last()].parent is None
            ==> owners.boundary(line.last()) is None,
    decreases line.len() - from,
{
    assert(owners.frames.contains_key(line[from]));
    assert(owners.frames.contains_key(line[line.len() - 1]));
    if from < line.len() - 1 {
        served_along(owners, line, from + 1);
        assert(owners.frames[line[from + 1 - 1]].parent == Some(line[from + 1]));
        assert(line[from + 1] < line[from]);
    }
}

/// What an effect's disposal comes to: the first time the effect has no run pending and never runs
/// again, and its owner is disposed; after that, nothing.
pub open spec fn is_effect_disposal(
    handle: EffectHandle,
    effect: EffectRecord,
    reactor: crate::model::ReactorModel,
    owners: OwnersModel,
    teardown: Option<Teardown>,
    reactor_after: crate::model::ReactorModel,
    owners_after: OwnersModel,
) -> bool {
    if effect.disposed {
        teardown is None && reactor_after == reactor && owners_after == owners
    } else {
        &&& crate::drains::has_record(
            reactor_after,
            handle.node().0,
            EffectRecord { disposed: true, scheduled: false, ..effect },
        )
        &&& reactor_after.graph == reactor.graph
        &&& reactor_after.jobs == reactor.jobs
        &&& teardown matches Some(teardown)
        &&& is_disposal_of(owners, handle.frame().0, teardown@, owners_after)
    }
}

/// An effect is disposed once, by its handle or because an error boundary contains its failure. The
/// boundary is told where the effect was created. Without a boundary nothing happens.
pub proof fn effects_are_disposed_with_their_owner(
    handle: EffectHandle,
    effect: EffectRecord,
    reactor: &mut Reactor,
    owners: &mut Owners,
    handler: Option<u64>,
    teardown: Option<Teardown>,
    containment: Option<Containment>,
    disposed: bool,
    id: NodeId,
    frame: OwnerId,
    graph: crate::diagnostics::ReactorId,
)
    requires
        crate::drains::has_record(old(reactor)@, handle.node().0, effect),
    ensures
        call_ensures(EffectHandle::dispose, (&handle, reactor, owners), teardown)
            ==> is_effect_disposal(
            handle,
            effect,
            old(reactor)@,
            old(owners)@,
            teardown,
            final(reactor)@,
            final(owners)@,
        ),
        call_ensures(EffectHandle::contain, (&handle, reactor, owners, handler), containment) ==> {
            &&& containment is Some == handler is Some
            &&& containment is None ==> final(reactor)@ == old(reactor)@ && final(owners)@ == old(owners)@
            &&& containment matches Some(contained) ==> {
                let nodes = old(reactor)@.graph.nodes;
                &&& Some(contained.handler) == handler
                &&& contained.origin == if nodes.contains_key(handle.node().0) {
                    Some(nodes[handle.node().0].origin)
                } else {
                    None
                }
                &&& is_effect_disposal(
                    handle,
                    effect,
                    old(reactor)@,
                    old(owners)@,
                    contained.teardown,
                    final(reactor)@,
                    final(owners)@,
                )
            }
        },
        call_ensures(EffectHandle::is_disposed, (&handle, &*old(reactor)), disposed) ==> disposed
            == effect.disposed,
        call_ensures(EffectHandle::id, (&handle,), id) || call_ensures(
            EffectHandle::leak,
            (handle,),
            id,
        ) ==> id == handle.node(),
        call_ensures(EffectHandle::owner, (&handle,), frame) ==> frame == handle.frame(),
        call_ensures(EffectHandle::reactor_id, (&handle,), graph) ==> graph == handle.graph(),
{
    assert(old(reactor)@.is_effect(handle.node().0));
}

/// An effect that is not known counts as disposed.
pub proof fn unknown_effects_are_disposed(handle: EffectHandle, reactor: Reactor, disposed: bool)
    requires
        call_ensures(EffectHandle::is_disposed, (&handle, &reactor), disposed),
        !reactor@.observers.contains_key(handle.node().0),
    ensures
        disposed,
{
}

/// Each count follows what happened: what is held rises and falls, what happened in total rises.
pub proof fn holdings_are_counted(stats: &mut OwnershipStats, count: usize, empty: bool)
    ensures
        call_ensures(OwnershipStats::owner_created, (stats,), ()) ==> *final(stats) == (
        OwnershipStats {
            live_owners: next_size(old(stats).live_owners),
            owners_created: next_total(old(stats).owners_created),
            ..*old(stats)
        }),
        call_ensures(OwnershipStats::owner_released, (stats,), ()) ==> {
            &&& *final(stats) == (OwnershipStats {
                live_owners: final(stats).live_owners,
                ..*old(stats)
            })
            &&& old(stats).live_owners > 0 ==> final(stats).live_owners == old(stats).live_owners
                - 1
        },
        call_ensures(OwnershipStats::owner_disposed, (stats,), ()) ==> *final(stats) == (
        OwnershipStats {
            owners_disposed: next_total(old(stats).owners_disposed),
            ..*old(stats)
        }),
        call_ensures(OwnershipStats::cleanup_registered, (stats,), ()) ==> *final(stats) == (
        OwnershipStats {
            cleanup_registrations: next_size(old(stats).cleanup_registrations),
            cleanups_registered: next_total(old(stats).cleanups_registered),
            ..*old(stats)
        }),
        call_ensures(OwnershipStats::cleanups_taken, (stats, count), ()) ==> {
            &&& *final(stats) == (OwnershipStats {
                cleanup_registrations: final(stats).cleanup_registrations,
                cleanups_run: final(stats).cleanups_run,
                ..*old(stats)
            })
            &&& old(stats).cleanup_registrations >= count ==> final(stats).cleanup_registrations
                == old(stats).cleanup_registrations - count
            &&& old(stats).cleanups_run + count <= u64::MAX ==> final(stats).cleanups_run == old(stats).cleanups_run + count
        },
        call_ensures(OwnershipStats::cleanup_run_immediately, (stats,), ()) ==> *final(stats) == (
        OwnershipStats {
            cleanups_registered: next_total(old(stats).cleanups_registered),
            cleanups_run: next_total(old(stats).cleanups_run),
            ..*old(stats)
        }),
        call_ensures(OwnershipStats::child_adopted, (stats,), ()) ==> *final(stats) == (
        OwnershipStats { owned_children: next_size(old(stats).owned_children), ..*old(stats) }),
        call_ensures(OwnershipStats::children_taken, (stats, count), ()) ==> {
            &&& *final(stats) == (OwnershipStats {
                owned_children: final(stats).owned_children,
                ..*old(stats)
            })
            &&& old(stats).owned_children >= count ==> final(stats).owned_children == old(stats).owned_children - count
        },
        call_ensures(OwnershipStats::is_empty, (&*old(stats),), empty) ==> empty == {
            &&& old(stats).live_owners == 0
            &&& old(stats).cleanup_registrations == 0
            &&& old(stats).owned_children == 0
        },
{
}

/// `drift` tells of each gauge that disagrees with the walk, what it says and what was found, and of
/// no other.
pub open spec fn tells_the_drift(
    drift: Seq<OwnershipDrift>,
    stats: OwnershipStats,
    owners: usize,
    cleanups: usize,
    children: usize,
) -> bool {
    &&& forall|at: int| #![trigger drift[at]]
        0 <= at < drift.len() ==> {
            &&& drift[at].reported != drift[at].actual
            &&& match drift[at].gauge {
                OwnershipGauge::LiveOwners => drift[at].reported == stats.live_owners
                    && drift[at].actual == owners,
                OwnershipGauge::CleanupRegistrations => drift[at].reported
                    == stats.cleanup_registrations && drift[at].actual == cleanups,
                OwnershipGauge::OwnedChildren => drift[at].reported == stats.owned_children
                    && drift[at].actual == children,
            }
        }
    &&& drift.len() == (if stats.live_owners != owners {
        1int
    } else {
        0
    }) + (if stats.cleanup_registrations != cleanups {
        1int
    } else {
        0
    }) + (if stats.owned_children != children {
        1int
    } else {
        0
    })
    &&& forall|one: int, other: int| #![trigger drift[one], drift[other]]
        0 <= one < other < drift.len() ==> drift[one].gauge != drift[other].gauge
}

/// An audit finds the gauges consistent exactly where each agrees with what a walk counts.
pub proof fn audits_tell_what_disagrees(
    stats: OwnershipStats,
    owners: usize,
    cleanups: usize,
    children: usize,
    audit: OwnershipAudit,
)
    requires
        call_ensures(
            crate::ownership::audit_counts,
            (&stats, owners, cleanups, children),
            audit,
        ),
    ensures
        match audit {
            OwnershipAudit::Unavailable => false,
            OwnershipAudit::Consistent => {
                &&& stats.live_owners == owners
                &&& stats.cleanup_registrations == cleanups
                &&& stats.owned_children == children
            },
            OwnershipAudit::Drifted(drift) => {
                &&& drift@.len() > 0
                &&& tells_the_drift(drift@, stats, owners, cleanups, children)
            },
        },
{
}

/// An audit of a tree that keeps a registry counts its frames, and what they hold: without a
/// registry it tells so, and nothing changes either way but the registry.
pub proof fn audits_walk_the_tree(owners: &mut Owners, audit: OwnershipAudit, consistent: bool)
    requires
        old(owners)@.frames.dom().len() <= usize::MAX,
        held_cleanups(old(owners)@) <= usize::MAX,
        held_children(old(owners)@) <= usize::MAX,
    ensures
        call_ensures(crate::scope::audit_ownership, (owners,), audit) ==> {
            let before = old(owners)@;
            &&& audit is Unavailable == before.registry is None
            &&& final(owners)@ == (OwnersModel { registry: final(owners)@.registry, ..before })
            &&& audit is Consistent ==> counts_hold(before)
            &&& before.registry is Some && counts_hold(before) ==> audit is Consistent
        },
        call_ensures(
            crate::scope::debug_assert_ownership_consistent,
            (owners,),
            consistent,
        ) ==> {
            let before = old(owners)@;
            &&& consistent == (before.registry is None || counts_hold(before))
            &&& final(owners)@ == (OwnersModel { registry: final(owners)@.registry, ..before })
        },
{
    assert(crate::scope::cleanup_count() =~= |frame: Frame| frame.cleanups.len());
    assert(crate::scope::child_count() =~= |frame: Frame| frame.children.len());
}

/// How many cleanups the frames hold together.
pub open spec fn held_cleanups(owners: OwnersModel) -> nat {
    crate::scope::total(owners.frames, |frame: Frame| frame.cleanups.len())
}

/// How many children the frames hold together.
pub open spec fn held_children(owners: OwnersModel) -> nat {
    crate::scope::total(owners.frames, |frame: Frame| frame.children.len())
}

/// The gauges say how many frames there are, and how many cleanups and children they hold together.
pub open spec fn counts_hold(owners: OwnersModel) -> bool {
    &&& owners.stats.live_owners == owners.frames.dom().len()
    &&& owners.stats.cleanup_registrations == held_cleanups(owners)
    &&& owners.stats.owned_children == held_children(owners)
}

} // verus!
