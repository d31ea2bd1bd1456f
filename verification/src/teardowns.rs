//! What running a teardown to its end comes to: it ends, and nothing that was owned is left out.
use vstd::prelude::*;

use crate::scope::{Frame, Owned, OwnerId, OwnersModel, Pending, TeardownState};

verus! {

/// One for every owner that has not been disposed.
pub open spec fn standing_count() -> spec_fn(Frame) -> nat {
    |frame: Frame|
        if frame.disposed {
            0
        } else {
            1
        }
}

impl TeardownState {
    /// How many steps the teardown can take at most: what is left to do, and everything that the
    /// owners hold and could add to it.
    pub open spec fn work_left(self) -> nat {
        self.pending.len() + crate::scope::total(self.owners.frames, crate::scope::cleanup_count())
            + crate::scope::total(self.owners.frames, crate::scope::child_count())
            + crate::scope::total(self.owners.frames, standing_count())
    }

    /// After `steps` more steps, or after the last one if it comes earlier.
    pub open spec fn driven(self, steps: nat) -> TeardownState
        decreases steps,
    {
        if steps == 0 || self.pending.len() == 0 {
            self
        } else {
            self.stepped().driven((steps - 1) as nat)
        }
    }

    /// The step after `steps` more is the one that disposes `child`.
    pub open spec fn disposes_at(self, steps: nat, child: Owned) -> bool {
        let then = self.driven(steps);
        then.pending.len() > 0 && then.pending.last() == Pending::Child(child)
    }

    /// The teardown has `child` to dispose, itself or as a child of an owner whose children it is
    /// still to turn to.
    pub open spec fn reaches(self, child: Owned) -> bool {
        self.pending.contains(Pending::Child(child)) || exists|owner: u64| #[trigger]
            self.turns_to(owner) && self.owners.frames[owner].children.contains(child)
    }

    /// The teardown is still to take the children of `owner`.
    pub open spec fn turns_to(self, owner: u64) -> bool {
        self.pending.contains(Pending::Children(OwnerId(owner))) && self.owners.frames.contains_key(
            owner,
        )
    }
}

/// What follows an owner in a line of owners that ends with `child`: the next one, or the child.
pub open spec fn successor(line: Seq<u64>, at: int, child: Owned) -> Owned {
    if at < line.len() {
        Owned::Scope(OwnerId(line[at]))
    } else {
        child
    }
}

impl OwnersModel {
    /// From `from` on, each owner of the line is alive, was not disposed, and owns the next one;
    /// the last one owns `child`.
    pub open spec fn owns_through(self, line: Seq<u64>, from: int, child: Owned) -> bool {
        forall|at: int| #![trigger line[at]]
            from <= at < line.len() ==> {
                &&& self.frames.contains_key(line[at])
                &&& !self.frames[line[at]].disposed
                &&& self.frames[line[at]].children.contains(successor(line, at + 1, child))
            }
    }

    /// An owner holds nothing, except for children that `pending` is still to turn to.
    pub open spec fn emptied(self, owner: u64, pending: Seq<Pending>) -> bool {
        self.frames.contains_key(owner) ==> {
            &&& self.frames[owner].cleanups.len() == 0
            &&& self.frames[owner].children.len() == 0 || pending.contains(
                Pending::Children(OwnerId(owner)),
            )
        }
    }

    /// An owner was disposed and holds nothing, except for children that `pending` is still to
    /// turn to.
    pub open spec fn torn_down(self, owner: u64, pending: Seq<Pending>) -> bool {
        self.over(owner) && self.emptied(owner, pending)
    }
}

/// Changing a frame changes the number of owners that were not disposed by that frame's share.
proof fn changed_standing(model: OwnersModel, owner: u64, frame: Frame)
    requires
        model.frames.dom().finite(),
        model.frames.contains_key(owner),
    ensures
        crate::scope::total(model.frames.insert(owner, frame), standing_count())
            == crate::scope::total(model.frames, standing_count()) - standing_count()(
            model.frames[owner],
        ) + standing_count()(frame),
        standing_count()(model.frames[owner]) <= crate::scope::total(
            model.frames,
            standing_count(),
        ),
{
    crate::scope::total_without(model.frames, standing_count(), owner);
    crate::scope::total_with(model.frames, standing_count(), owner, frame);
}

/// Every step brings a teardown closer to its end: there is less to do after it than before, and
/// the owner tree stays well formed.
pub proof fn teardown_steps_make_progress(state: TeardownState)
    requires
        state.owners.structured(),
        state.pending.len() > 0,
    ensures
        state.stepped().work_left() == state.work_left() - 1,
        state.stepped().owners.structured(),
{
    let owners = state.owners;
    match state.pending.last() {
        Pending::Children(owner) => {
            if owners.frames.contains_key(owner.0) {
                let frame = Frame { children: Seq::empty(), ..owners.frames[owner.0] };
                crate::scope::changed_totals(owners, owner.0, frame);
                changed_standing(owners, owner.0, frame);
            }
        },
        Pending::Child(Owned::Scope(owner)) => {
            if !owners.over(owner.0) {
                let ended = Frame { disposed: true, ..owners.frames[owner.0] };
                let emptied = Frame { cleanups: Seq::empty(), ..ended };
                crate::scope::changed_totals(owners, owner.0, ended);
                changed_standing(owners, owner.0, ended);
                let retired = owners.retired(owner.0);
                assert(retired.frames == owners.with_frame(owner.0, ended).frames);
                assert(retired.structured());
                crate::scope::changed_totals(retired, owner.0, emptied);
                changed_standing(retired, owner.0, emptied);
            }
        },
        _ => {},
    }
}

/// A teardown that is stepped on ends.
pub proof fn teardowns_end(state: TeardownState)
    requires
        state.owners.structured(),
    ensures
        state.driven(state.work_left()).pending.len() == 0,
    decreases state.work_left(),
{
    if state.pending.len() > 0 {
        teardown_steps_make_progress(state);
        teardowns_end(state.stepped());
    }
}

/// What is not the next thing to do is still to be done after the next step.
proof fn the_rest_stays_pending(state: TeardownState, item: Pending)
    requires
        state.pending.contains(item),
        state.pending.last() != item,
    ensures
        state.stepped().pending.contains(item),
{
    let at = choose|at: int| 0 <= at < state.pending.len() && state.pending[at] == item;
    assert(at < state.pending.len() - 1);
    assert(state.stepped().pending[at] == item);
}

/// Taking an owner's children puts each of them on the list of what is to be disposed.
proof fn taken_children_are_pending(state: TeardownState, owner: u64, child: Owned)
    requires
        state.pending.len() > 0,
        state.pending.last() == Pending::Children(OwnerId(owner)),
        state.owners.frames.contains_key(owner),
        state.owners.frames[owner].children.contains(child),
    ensures
        state.stepped().pending.contains(Pending::Child(child)),
{
    let children = state.owners.frames[owner].children;
    let at = choose|at: int| 0 <= at < children.len() && children[at] == child;
    let rest = state.pending.drop_last();
    assert(state.stepped().pending[rest.len() + at] == Pending::Child(child));
}

/// Where the next step is about another owner, what the teardown reaches stays in reach.
proof fn reach_survives(state: TeardownState, child: Owned)
    requires
        state.pending.len() > 0,
        state.reaches(child),
        state.pending.last() != Pending::Child(child),
    ensures
        state.stepped().reaches(child),
{
    let next = state.stepped();
    if state.pending.contains(Pending::Child(child)) {
        the_rest_stays_pending(state, Pending::Child(child));
    } else {
        let owner = choose|owner: u64| #[trigger]
            state.turns_to(owner) && state.owners.frames[owner].children.contains(child);
        if state.pending.last() == Pending::Children(OwnerId(owner)) {
            taken_children_are_pending(state, owner, child);
        } else {
            the_rest_stays_pending(state, Pending::Children(OwnerId(owner)));
            assert(next.turns_to(owner));
            assert(next.owners.frames[owner].children == state.owners.frames[owner].children);
        }
    }
}

/// The last place at which `owner` stands in a line, from `from` on.
proof fn last_place(line: Seq<u64>, from: int, owner: u64) -> (place: int)
    requires
        0 <= from,
        exists|at: int| from <= at < line.len() && line[at] == owner,
    ensures
        from <= place < line.len(),
        line[place] == owner,
        forall|at: int| place < at < line.len() ==> line[at] != owner,
    decreases line.len() - from,
{
    if exists|at: int| from < at < line.len() && line[at] == owner {
        last_place(line, from + 1, owner)
    } else {
        from
    }
}

/// One step towards a child at the end of a line: it is disposed now, or the teardown reaches the
/// rest of the line after the step.
proof fn a_line_is_followed(state: TeardownState, line: Seq<u64>, from: int, child: Owned) -> (next:
    int)
    requires
        state.pending.len() > 0,
        0 <= from <= line.len(),
        state.reaches(successor(line, from, child)),
        state.owners.owns_through(line, from, child),
        state.pending.last() != Pending::Child(child),
    ensures
        from <= next <= line.len(),
        state.stepped().reaches(successor(line, next, child)),
        state.stepped().owners.owns_through(line, next, child),
{
    let after = state.stepped();
    match state.pending.last() {
        Pending::Children(OwnerId(owner)) => {
            if state.owners.frames.contains_key(owner) && exists|at: int|
                from <= at < line.len() && line[at] == owner {
                let place = last_place(line, from, owner);
                let heir = successor(line, place + 1, child);
                assert(state.owners.frames[line[place]].children.contains(heir));
                taken_children_are_pending(state, owner, heir);
                place + 1
            } else {
                reach_survives(state, successor(line, from, child));
                from
            }
        },
        Pending::Child(Owned::Scope(OwnerId(owner))) => {
            if !state.owners.over(owner) && exists|at: int|
                from <= at < line.len() && line[at] == owner {
                let place = last_place(line, from, owner);
                let heir = successor(line, place + 1, child);
                assert(state.owners.frames[line[place]].children.contains(heir));
                let plan = crate::scope::reset_plan(owner, state.owners.frames[owner].cleanups);
                assert(plan[0] == Pending::Children(OwnerId(owner)));
                assert(after.pending[state.pending.len() - 1] == plan[0]);
                assert(after.turns_to(owner));
                assert(after.owners.frames[owner].children
                    == state.owners.frames[owner].children);
                place + 1
            } else {
                if from < line.len() && line[from] == owner {
                    assert(!state.owners.over(owner));
                }
                reach_survives(state, successor(line, from, child));
                from
            }
        },
        _ => {
            reach_survives(state, successor(line, from, child));
            from
        },
    }
}

/// Disposing a whole tree at once leaves nothing out: whatever an owner in reach of the teardown
/// owns, through any line of owners that were not disposed before, has its turn to be disposed.
pub proof fn everything_owned_is_disposed(
    state: TeardownState,
    line: Seq<u64>,
    from: int,
    child: Owned,
)
    requires
        state.owners.structured(),
        0 <= from <= line.len(),
        state.reaches(successor(line, from, child)),
        state.owners.owns_through(line, from, child),
    ensures
        exists|steps: nat| steps < state.work_left() && #[trigger] state.disposes_at(steps, child),
    decreases state.work_left(),
{
    assert(state.pending.len() > 0) by {
        let first = successor(line, from, child);
        if !state.pending.contains(Pending::Child(first)) {
            let owner = choose|owner: u64| #[trigger]
                state.turns_to(owner) && state.owners.frames[owner].children.contains(first);
            assert(state.turns_to(owner));
        }
    }
    teardown_steps_make_progress(state);
    if state.pending.last() == Pending::Child(child) {
        assert(state.disposes_at(0, child));
    } else {
        let next = a_line_is_followed(state, line, from, child);
        everything_owned_is_disposed(state.stepped(), line, next, child);
        let steps = choose|steps: nat|
            steps < state.stepped().work_left() && #[trigger] state.stepped().disposes_at(
                steps,
                child,
            );
        assert(state.disposes_at(steps + 1, child));
    }
}

/// An owner that was disposed is empty when its teardown is over: it has no cleanup and no child
/// left, and it is still disposed.
pub proof fn disposed_owners_end_empty(state: TeardownState, owner: u64)
    requires
        state.owners.structured(),
        state.owners.torn_down(owner, state.pending),
    ensures
        ({
            let end = state.driven(state.work_left());
            end.pending.len() == 0 && end.owners.torn_down(owner, Seq::empty())
        }),
    decreases state.work_left(),
{
    if state.pending.len() > 0 {
        teardown_steps_make_progress(state);
        let next = state.stepped();
        if state.pending.contains(Pending::Children(OwnerId(owner))) && state.pending.last()
            != Pending::Children(OwnerId(owner)) {
            the_rest_stays_pending(state, Pending::Children(OwnerId(owner)));
        }
        assert(next.owners.torn_down(owner, next.pending));
        disposed_owners_end_empty(next, owner);
    } else {
        assert(state.pending =~= Seq::empty());
    }
}

/// An owner that is reset is empty when its teardown is over: it has no cleanup and no child left.
/// So a run of an effect starts without what the run before it registered; whatever a cleanup
/// registers with the owner meanwhile belongs to the run to come.
pub proof fn reset_owners_end_empty(state: TeardownState, owner: u64)
    requires
        state.owners.structured(),
        state.owners.emptied(owner, state.pending),
    ensures
        ({
            let end = state.driven(state.work_left());
            end.pending.len() == 0 && end.owners.emptied(owner, Seq::empty())
        }),
    decreases state.work_left(),
{
    if state.pending.len() > 0 {
        teardown_steps_make_progress(state);
        let next = state.stepped();
        if state.pending.contains(Pending::Children(OwnerId(owner))) && state.pending.last()
            != Pending::Children(OwnerId(owner)) {
            the_rest_stays_pending(state, Pending::Children(OwnerId(owner)));
        }
        assert(next.owners.emptied(owner, next.pending)) by {
            if state.pending.last() == Pending::Child(Owned::Scope(OwnerId(owner)))
                && !state.owners.over(owner) {
                let plan = crate::scope::reset_plan(owner, state.owners.frames[owner].cleanups);
                assert(plan[0] == Pending::Children(OwnerId(owner)));
                assert(next.pending[state.pending.len() - 1] == plan[0]);
            }
        }
        reset_owners_end_empty(next, owner);
    } else {
        assert(state.pending =~= Seq::empty());
    }
}

/// Resetting an owner starts a teardown that reaches each of its children, and at whose end the
/// owner holds nothing. The owner is not disposed by it.
pub proof fn reset_starts_a_full_teardown(owners: OwnersModel, owner: u64)
    requires
        owners.structured(),
        owners.frames.contains_key(owner),
    ensures
        ({
            let started = TeardownState {
                owners: owners.cleanups_taken(owner),
                pending: crate::scope::reset_plan(owner, owners.frames[owner].cleanups),
            };
            &&& started.owners.structured()
            &&& started.owners.frames[owner].disposed == owners.frames[owner].disposed
            &&& started.owners.emptied(owner, started.pending)
            &&& forall|child: Owned| #[trigger]
                owners.frames[owner].children.contains(child) ==> started.reaches(child)
        }),
{
    let started = TeardownState {
        owners: owners.cleanups_taken(owner),
        pending: crate::scope::reset_plan(owner, owners.frames[owner].cleanups),
    };
    let emptied = Frame { cleanups: Seq::empty(), ..owners.frames[owner] };
    crate::scope::changed_totals(owners, owner, emptied);
    assert(started.pending[0] == Pending::Children(OwnerId(owner)));
    assert(started.turns_to(owner));
}

/// Disposing an owner starts a teardown that reaches each of its children, and at whose end the
/// owner holds nothing.
pub proof fn disposal_starts_a_full_teardown(owners: OwnersModel, owner: u64)
    requires
        owners.structured(),
        !owners.over(owner),
    ensures
        ({
            let started = TeardownState {
                owners: owners.retired(owner).cleanups_taken(owner),
                pending: crate::scope::reset_plan(owner, owners.frames[owner].cleanups),
            };
            &&& started.owners.structured()
            &&& started.owners.torn_down(owner, started.pending)
            &&& forall|child: Owned| #[trigger]
                owners.frames[owner].children.contains(child) ==> started.reaches(child)
        }),
{
    let started = TeardownState {
        owners: owners.retired(owner).cleanups_taken(owner),
        pending: crate::scope::reset_plan(owner, owners.frames[owner].cleanups),
    };
    let whole = TeardownState {
        owners,
        pending: seq![Pending::Child(Owned::Scope(OwnerId(owner)))],
    };
    teardown_steps_make_progress(whole);
    assert(whole.stepped().owners == started.owners);
    assert(started.pending[0] == Pending::Children(OwnerId(owner)));
    assert(started.turns_to(owner));
}

/// An owner that was disposed takes nothing in again: a cleanup or a child that is given to it
/// leaves every frame as it is.
pub proof fn disposed_owners_take_nothing_in(
    owners: OwnersModel,
    owner: u64,
    cleanup: u64,
    child: Owned,
)
    requires
        owners.frames.contains_key(owner),
        owners.frames[owner].disposed,
    ensures
        owners.cleanup_added(owner, cleanup).frames == owners.frames,
        owners.adopted(owner, child).frames == owners.frames,
{
}

} // verus!
