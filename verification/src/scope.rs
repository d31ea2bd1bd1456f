//! Owners: who tears down what.
//!
//! An owner frame holds the cleanups and children that were registered while it was the innermost
//! owner. Resetting it runs the cleanups, latest first, and then disposes the children, latest
//! first. The frames of a thread, and the stack of owners in effect, live in [`Owners`].
use std::collections::HashMap;
use vstd::prelude::*;

use crate::diagnostics::ReactorId;
use crate::id::{Location, NodeId};
use crate::ownership::{audit_counts, OwnershipAudit, OwnershipStats};

verus! {

broadcast use vstd::std_specs::hash::group_hash_axioms;

/// Identifies one owner frame of a thread.
#[derive(Clone, Copy, Debug, Eq, Hash, PartialEq, Structural)]
pub struct OwnerId(pub u64);

/// Something that an owner disposes.
#[derive(Clone, Copy, Debug, Eq, PartialEq, Structural)]
pub enum Owned {
    /// An effect of a reactor.
    Effect { reactor: ReactorId, effect: NodeId },
    /// A nested scope.
    Scope(OwnerId),
}

/// One owner.
pub struct OwnerFrame {
    parent: Option<u64>,
    children: Vec<Owned>,
    cleanups: Vec<u64>,
    disposed: bool,
    handler: Option<u64>,
}

/// What an owner frame holds.
#[verifier::ext_equal]
pub struct Frame {
    /// The owner that was innermost when this one was created.
    pub parent: Option<u64>,
    /// What the owner disposes, in the order of adoption.
    pub children: Seq<Owned>,
    /// The cleanups, under the numbers that the caller keeps them, in the order of registration.
    pub cleanups: Seq<u64>,
    /// The owner was torn down for good.
    pub disposed: bool,
    /// The error handler installed here, under the number that the caller keeps it.
    pub handler: Option<u64>,
}

impl View for OwnerFrame {
    type V = Frame;

    closed spec fn view(&self) -> Frame {
        Frame {
            parent: self.parent,
            children: self.children@,
            cleanups: self.cleanups@,
            disposed: self.disposed,
            handler: self.handler,
        }
    }
}

/// The sum of a measure over all frames.
pub open spec fn total(frames: Map<u64, Frame>, measure: spec_fn(Frame) -> nat) -> nat
    decreases frames.dom().len(),
    when frames.dom().finite()
{
    if frames.dom().len() == 0 {
        0
    } else {
        let one = frames.dom().choose();
        measure(frames[one]) + total(frames.remove(one), measure)
    }
}

/// How many cleanups a frame holds.
pub open spec fn cleanup_count() -> spec_fn(Frame) -> nat {
    |frame: Frame| frame.cleanups.len()
}

/// How many children a frame holds.
pub open spec fn child_count() -> spec_fn(Frame) -> nat {
    |frame: Frame| frame.children.len()
}

/// The sum over all frames is one frame's share and the sum over the others.
pub(crate) proof fn total_without(frames: Map<u64, Frame>, measure: spec_fn(Frame) -> nat, one: u64)
    requires
        frames.dom().finite(),
        frames.contains_key(one),
    ensures
        total(frames, measure) == measure(frames[one]) + total(frames.remove(one), measure),
    decreases frames.dom().len(),
{
    let first = frames.dom().choose();
    if first != one {
        let rest = frames.remove(first);
        total_without(rest, measure, one);
        assert(rest.remove(one) =~= frames.remove(one).remove(first));
        total_without(frames.remove(one), measure, first);
    }
}

/// The sum after storing a frame is its share and the sum over the others.
pub(crate) proof fn total_with(frames: Map<u64, Frame>, measure: spec_fn(Frame) -> nat, one: u64, frame: Frame)
    requires
        frames.dom().finite(),
    ensures
        total(frames.insert(one, frame), measure) == measure(frame) + total(
            frames.remove(one),
            measure,
        ),
        !frames.contains_key(one) ==> total(frames.insert(one, frame), measure) == measure(frame)
            + total(frames, measure),
{
    total_without(frames.insert(one, frame), measure, one);
    assert(frames.insert(one, frame).remove(one) =~= frames.remove(one));
    if !frames.contains_key(one) {
        assert(frames.remove(one) =~= frames);
    }
}

/// The mathematical content of an owner tree.
#[verifier::ext_equal]
pub struct OwnersModel {
    /// The number the next frame receives.
    pub next: u64,
    /// The frames that are alive.
    pub frames: Map<u64, Frame>,
    /// The owners in effect, innermost last. `None` stands for a barrier.
    pub stack: Seq<Option<u64>>,
    pub stats: OwnershipStats,
    /// The frames that the audit walks, some of which may be gone; absent where no audit is kept.
    pub registry: Option<Seq<u64>>,
}

impl OwnersModel {
    /// An owner tree with nothing in it.
    pub open spec fn fresh(audited: bool) -> OwnersModel {
        OwnersModel {
            next: 1,
            frames: Map::empty(),
            stack: Seq::empty(),
            stats: OwnershipStats::zero(),
            registry: if audited {
                Some(Seq::empty())
            } else {
                None
            },
        }
    }

    /// The frames are finitely many, were all handed out already, and were created after their
    /// parents; owners in effect are alive; the registry lists every live frame, once.
    pub open spec fn structured(self) -> bool {
        &&& self.frames.dom().finite()
        &&& forall|owner: u64| #[trigger] self.frames.contains_key(owner) ==> owner < self.next
        &&& forall|owner: u64| #[trigger]
            self.frames.contains_key(owner) ==> (self.frames[owner].parent matches Some(parent)
                ==> parent < owner)
        &&& forall|at: int| #![trigger self.stack[at]]
            0 <= at < self.stack.len() ==> (self.stack[at] matches Some(owner)
                ==> self.frames.contains_key(owner))
        &&& self.registry matches Some(list) ==> {
            &&& list.no_duplicates()
            &&& forall|owner: u64| #[trigger] self.frames.contains_key(owner) ==> list.contains(owner)
            &&& forall|owner: u64| #[trigger] list.contains(owner) ==> owner < self.next
        }
    }

    /// Every gauge says what the tree holds.
    pub open spec fn counted(self) -> bool {
        &&& self.stats.live_owners == self.frames.dom().len()
        &&& self.stats.cleanup_registrations == total(self.frames, cleanup_count())
        &&& self.stats.owned_children == total(self.frames, child_count())
    }

    /// The innermost owner in effect, unless a barrier is innermost.
    pub open spec fn current(self) -> Option<u64> {
        if self.stack.len() > 0 {
            self.stack.last()
        } else {
            None
        }
    }

    /// After creating a frame under the innermost owner in effect; `registry` is what the audit
    /// walks afterwards.
    pub open spec fn created(
        self,
        handler: Option<u64>,
        registry: Option<Seq<u64>>,
    ) -> OwnersModel {
        OwnersModel {
            next: (self.next + 1) as u64,
            frames: self.frames.insert(
                self.next,
                Frame {
                    parent: self.current(),
                    children: Seq::empty(),
                    cleanups: Seq::empty(),
                    disposed: false,
                    handler,
                },
            ),
            stats: self.stats.after_owner_created(),
            registry,
            ..self
        }
    }

    /// After changing a frame.
    pub open spec fn with_frame(self, owner: u64, frame: Frame) -> OwnersModel {
        OwnersModel { frames: self.frames.insert(owner, frame), ..self }
    }

    /// After an owner was asked to adopt: a disposed owner refuses.
    pub open spec fn adopted(self, owner: u64, child: Owned) -> OwnersModel {
        let frame = self.frames[owner];
        if frame.disposed {
            self
        } else {
            OwnersModel {
                stats: self.stats.after_child_adopted(),
                ..self.with_frame(owner, Frame { children: frame.children.push(child), ..frame })
            }
        }
    }

    /// After an owner was given a cleanup: with a disposed owner it runs at once.
    pub open spec fn cleanup_added(self, owner: u64, cleanup: u64) -> OwnersModel {
        let frame = self.frames[owner];
        if frame.disposed {
            OwnersModel { stats: self.stats.after_cleanup_run_immediately(), ..self }
        } else {
            OwnersModel {
                stats: self.stats.after_cleanup_registered(),
                ..self.with_frame(owner, Frame { cleanups: frame.cleanups.push(cleanup), ..frame })
            }
        }
    }

    /// An owner has been disposed, or is gone.
    pub open spec fn over(self, owner: u64) -> bool {
        self.frames.contains_key(owner) ==> self.frames[owner].disposed
    }

    /// After an owner was disposed; the second time changes nothing.
    pub open spec fn retired(self, owner: u64) -> OwnersModel {
        let frame = self.frames[owner];
        if self.over(owner) {
            self
        } else {
            OwnersModel {
                stats: self.stats.after_owner_disposed(),
                ..self.with_frame(owner, Frame { disposed: true, ..frame })
            }
        }
    }

    /// After an owner's cleanups were taken to be run.
    pub open spec fn cleanups_taken(self, owner: u64) -> OwnersModel {
        let frame = self.frames[owner];
        OwnersModel {
            stats: self.stats.after_cleanups_taken(frame.cleanups.len() as usize),
            ..self.with_frame(owner, Frame { cleanups: Seq::empty(), ..frame })
        }
    }

    /// After an owner's children were taken to be disposed.
    pub open spec fn children_taken(self, owner: u64) -> OwnersModel {
        let frame = self.frames[owner];
        OwnersModel {
            stats: self.stats.after_children_taken(frame.children.len() as usize),
            ..self.with_frame(owner, Frame { children: Seq::empty(), ..frame })
        }
    }

    /// An owner was disposed, holds nothing and is not in effect, so that its frame can go away.
    pub open spec fn releasable(self, owner: u64) -> bool {
        &&& self.frames.contains_key(owner)
        &&& self.frames[owner].disposed
        &&& self.frames[owner].cleanups.len() == 0
        &&& self.frames[owner].children.len() == 0
        &&& !self.stack.contains(Some(owner))
    }

    /// After a frame went away.
    pub open spec fn released(self, owner: u64) -> OwnersModel {
        OwnersModel {
            frames: self.frames.remove(owner),
            stats: self.stats.after_owner_released(),
            ..self
        }
    }

    /// The error handler that is nearest to an owner, going outwards through its parents as far as
    /// they are alive.
    pub open spec fn boundary(self, owner: u64) -> Option<u64>
        decreases owner,
    {
        if !self.frames.contains_key(owner) {
            None
        } else if self.frames[owner].handler is Some {
            self.frames[owner].handler
        } else {
            match self.frames[owner].parent {
                Some(parent) => if parent < owner {
                    self.boundary(parent)
                } else {
                    None
                },
                None => None,
            }
        }
    }
}

/// The owner frames of one thread.
pub struct Owners {
    next: u64,
    frames: HashMap<u64, OwnerFrame>,
    stack: Vec<Option<u64>>,
    stats: OwnershipStats,
    registry: Option<Vec<u64>>,
}

impl View for Owners {
    type V = OwnersModel;

    closed spec fn view(&self) -> OwnersModel {
        OwnersModel {
            next: self.next,
            frames: self.frames@.map_values(|frame: OwnerFrame| frame@),
            stack: self.stack@,
            stats: self.stats,
            registry: match self.registry {
                Some(list) => Some(list@),
                None => None,
            },
        }
    }
}

impl Owners {
    /// The tree is well formed and every gauge says what it holds.
    pub open spec fn wf(&self) -> bool {
        self@.structured() && self@.counted()
    }

    /// Creates an empty owner tree. `audited` says whether it keeps the registry that an audit
    /// walks.
    pub fn new(audited: bool) -> (owners: Self)
        ensures
            owners.wf(),
            owners@ == OwnersModel::fresh(audited),
    {
        let owners = Owners {
            next: 1,
            frames: HashMap::new(),
            stack: Vec::new(),
            stats: OwnershipStats::default(),
            registry: if audited {
                Some(Vec::new())
            } else {
                None
            },
        };
        assert(owners@.frames =~= Map::empty());
        assert(owners@ =~= OwnersModel::fresh(audited));
        owners
    }

    /// Returns how many entries the registry holds that an audit walks; those of owners that are
    /// gone may be among them.
    pub fn registry_len(&self) -> (length: Option<usize>)
        ensures
            match self@.registry {
                Some(list) => length == Some(list.len() as usize),
                None => length is None,
            },
    {
        match &self.registry {
            Some(list) => Some(list.len()),
            None => None,
        }
    }

    /// Returns the innermost owner in effect.
    pub fn current_owner(&self) -> (owner: Option<OwnerId>)
        ensures
            owner is Some <==> self@.current() is Some,
            owner matches Some(owner) ==> Some(owner.0) == self@.current(),
    {
        let depth: usize = self.stack.len();
        if depth > 0 {
            match self.stack[depth - 1] {
                Some(owner) => Some(OwnerId(owner)),
                None => None,
            }
        } else {
            None
        }
    }

    /// Returns whether an owner that is alive has been disposed. One that is gone has been.
    pub fn is_disposed(&self, owner: OwnerId) -> (disposed: bool)
        ensures
            disposed == self@.over(owner.0),
    {
        match self.frames.get(&owner.0) {
            Some(frame) => frame.disposed,
            None => true,
        }
    }
}

/// The frames of a registry that are alive, in its order.
pub open spec fn alive_in(frames: Map<u64, Frame>, list: Seq<u64>) -> Seq<u64>
    decreases list.len(),
{
    if list.len() == 0 {
        Seq::empty()
    } else {
        let kept = alive_in(frames, list.drop_last());
        if frames.contains_key(list.last()) {
            kept.push(list.last())
        } else {
            kept
        }
    }
}

/// Pruning keeps exactly the members that are alive.
proof fn alive_members(frames: Map<u64, Frame>, list: Seq<u64>)
    ensures
        forall|owner: u64| #[trigger]
            alive_in(frames, list).contains(owner) <==> list.contains(owner) && frames.contains_key(
                owner,
            ),
        list.no_duplicates() ==> alive_in(frames, list).no_duplicates(),
        alive_in(frames, list).len() <= list.len(),
    decreases list.len(),
{
    if list.len() > 0 {
        let shorter = list.drop_last();
        let kept = alive_in(frames, shorter);
        alive_members(frames, shorter);
        assert(shorter.push(list.last()) =~= list);
        crate::seqs::push_members(shorter, list.last());
        crate::seqs::push_members(kept, list.last());
        if list.no_duplicates() {
            assert(!shorter.contains(list.last())) by {
                if shorter.contains(list.last()) {
                    let at = choose|at: int|
                        0 <= at < shorter.len() && shorter[at] == list.last();
                    assert(list[at] == list[list.len() - 1]);
                }
            }
        }
    }
}

/// A pruned registry that lists every live frame has as many entries as there are frames.
proof fn pruned_registry_is_exact(frames: Map<u64, Frame>, list: Seq<u64>)
    requires
        frames.dom().finite(),
        list.no_duplicates(),
        forall|owner: u64| #[trigger] frames.contains_key(owner) ==> list.contains(owner),
    ensures
        alive_in(frames, list).no_duplicates(),
        alive_in(frames, list).to_set() == frames.dom(),
        alive_in(frames, list).len() == frames.dom().len(),
{
    alive_members(frames, list);
    let kept = alive_in(frames, list);
    assert(kept.to_set() =~= frames.dom());
    kept.unique_seq_to_set();
}

/// What the registry becomes when a frame is created: entries of dead frames are dropped once the
/// registry has grown to twice the number of live owners.
pub open spec fn registry_with(
    frames: Map<u64, Frame>,
    list: Seq<u64>,
    live_owners: usize,
    owner: u64,
) -> Seq<u64> {
    let kept = if list.len() >= 8 && list.len() >= (if 2 * live_owners > usize::MAX {
        usize::MAX as int
    } else {
        2 * live_owners
    }) {
        alive_in(frames, list)
    } else {
        list
    };
    kept.push(owner)
}

impl Owners {
    /// Drops the registry entries whose frames are gone.
    fn pruned(&self, list: &Vec<u64>) -> (kept: Vec<u64>)
        ensures
            kept@ == alive_in(self@.frames, list@),
    {
        let mut kept: Vec<u64> = Vec::new();
        let mut index: usize = 0;
        assert(list@.take(0) =~= Seq::empty());
        while index < list.len()
            invariant
                index <= list.len(),
                kept@ == alive_in(self@.frames, list@.take(index as int)),
            decreases list.len() - index,
        {
            let owner: u64 = list[index];
            assert(list@.take(index + 1).drop_last() =~= list@.take(index as int));
            assert(list@.take(index + 1).last() == owner);
            if self.frames.contains_key(&owner) {
                kept.push(owner);
            }
            index = index + 1;
        }
        assert(list@.take(index as int) =~= list@);
        kept
    }

    /// Creates an owner under the innermost one in effect, with an error handler of its own or
    /// without.
    pub(crate) fn create(&mut self, handler: Option<u64>) -> (owner: OwnerId)
        requires
            old(self).wf(),
            old(self)@.next < u64::MAX,
        ensures
            final(self).wf(),
            owner.0 == old(self)@.next,
            final(self)@ == old(self)@.created(handler, old(self)@.next_registry()),
            final(self)@.registry matches Some(list) ==> list.len() <= 8 || list.len() <= 2
                * final(self)@.stats.live_owners,
    {
        let ghost before = self@;
        let owner: u64 = self.next;
        self.next = owner.wrapping_add(1);
        let parent = match self.current_owner() {
            Some(parent) => Some(parent.0),
            None => None,
        };
        self.stats.owner_created();
        let live_owners: usize = self.stats.live_owners;
        let mut registry: Option<Vec<u64>> = None;
        std::mem::swap(&mut registry, &mut self.registry);
        if let Some(list) = registry {
            let mut kept = list;
            if kept.len() >= 8 && kept.len() >= live_owners.saturating_add(live_owners) {
                kept = self.pruned(&kept);
            }
            kept.push(owner);
            self.registry = Some(kept);
        }
        let ghost listed = self@.registry;
        let frame = OwnerFrame {
            parent,
            children: Vec::new(),
            cleanups: Vec::new(),
            disposed: false,
            handler,
        };
        let _ = self.frames.insert(owner, frame);
        let count: usize = self.frames.len();
        proof {
            assert(!before.frames.contains_key(owner));
            assert(self@.frames =~= before.created(handler, listed).frames);
            assert(self@ =~= before.created(handler, listed));
            total_with(before.frames, cleanup_count(), owner, frame@);
            total_with(before.frames, child_count(), owner, frame@);
            assert(self@.frames.dom() =~= before.frames.dom().insert(owner));
            assert(self.frames@.dom() =~= self@.frames.dom());
            assert(count == self@.frames.dom().len());
            if let Some(list) = before.registry {
                alive_members(before.frames, list);
                pruned_registry_is_exact(before.frames, list);
                crate::seqs::push_members(list, owner);
                crate::seqs::push_members(alive_in(before.frames, list), owner);
                assert(!list.contains(owner));
            }
        }
        OwnerId(owner)
    }
}

/// Changing a frame changes each sum by that frame's share.
pub(crate) proof fn changed_totals(model: OwnersModel, owner: u64, frame: Frame)
    requires
        model.structured(),
        model.frames.contains_key(owner),
        frame.parent == model.frames[owner].parent,
    ensures
        model.with_frame(owner, frame).structured(),
        model.with_frame(owner, frame).frames.dom() == model.frames.dom(),
        total(model.with_frame(owner, frame).frames, cleanup_count()) == total(
            model.frames,
            cleanup_count(),
        ) - model.frames[owner].cleanups.len() + frame.cleanups.len(),
        total(model.with_frame(owner, frame).frames, child_count()) == total(
            model.frames,
            child_count(),
        ) - model.frames[owner].children.len() + frame.children.len(),
        model.frames[owner].cleanups.len() <= total(model.frames, cleanup_count()),
        model.frames[owner].children.len() <= total(model.frames, child_count()),
{
    total_without(model.frames, cleanup_count(), owner);
    total_without(model.frames, child_count(), owner);
    total_with(model.frames, cleanup_count(), owner, frame);
    total_with(model.frames, child_count(), owner, frame);
    assert(model.with_frame(owner, frame).frames.dom() =~= model.frames.dom());
}

/// What became of something that looked for an owner.
#[derive(Clone, Copy, Debug, Eq, PartialEq, Structural)]
pub enum Adoption {
    /// No owner is in effect.
    Unowned,
    /// The innermost owner holds it now.
    Adopted,
    /// The innermost owner is disposed already; the caller disposes it at once.
    Refused,
}

/// Stands for an owner, or a barrier, that is in effect.
#[must_use]
#[derive(Debug)]
pub struct OwnerGuard {}

impl Owners {
    /// Returns what the owner tree is holding.
    pub fn stats(&self) -> (stats: OwnershipStats)
        ensures
            stats == self@.stats,
    {
        self.stats
    }

    /// Hands a child to an owner. Returns `false` when the owner is disposed already; the caller
    /// then disposes the child at once.
    pub(crate) fn adopt(&mut self, owner: OwnerId, child: Owned) -> (adopted: bool)
        requires
            old(self).wf(),
            old(self)@.frames.contains_key(owner.0),
            old(self)@.stats.owned_children < usize::MAX,
        ensures
            final(self).wf(),
            final(self)@ == old(self)@.adopted(owner.0, child),
            adopted == !old(self)@.frames[owner.0].disposed,
    {
        let ghost before = self@;
        let mut adopted = false;
        if let Some(frame) = self.frames.remove(&owner.0) {
            let mut frame = frame;
            if !frame.disposed {
                adopted = true;
                frame.children.push(child);
                self.stats.child_adopted();
            }
            let _ = self.frames.insert(owner.0, frame);
            proof {
                changed_totals(before, owner.0, frame@);
                assert(self@.frames =~= before.frames.insert(owner.0, frame@));
                assert(frame@ =~= before.adopted(owner.0, child).frames[owner.0]);
                assert(before.frames =~= before.frames.insert(owner.0, before.frames[owner.0]));
            }
        }
        assert(self@ =~= before.adopted(owner.0, child));
        adopted
    }

    /// Hands a child to the innermost owner in effect.
    pub fn adopt_into_current(&mut self, child: Owned) -> (adoption: Adoption)
        requires
            old(self).wf(),
            old(self)@.stats.owned_children < usize::MAX,
        ensures
            final(self).wf(),
            match old(self)@.current() {
                Some(owner) => {
                    &&& final(self)@ == old(self)@.adopted(owner, child)
                    &&& adoption == (if old(self)@.frames[owner].disposed {
                        Adoption::Refused
                    } else {
                        Adoption::Adopted
                    })
                },
                None => final(self)@ == old(self)@ && adoption == Adoption::Unowned,
            },
    {
        match self.current_owner() {
            Some(owner) => {
                assert(self@.stack[self@.stack.len() - 1] == Some(owner.0));
                if self.adopt(owner, child) {
                    Adoption::Adopted
                } else {
                    Adoption::Refused
                }
            },
            None => Adoption::Unowned,
        }
    }

    /// Registers a cleanup with an owner. Returns `false` when the owner is disposed already; the
    /// caller then runs the cleanup at once.
    pub fn add_cleanup(&mut self, owner: OwnerId, cleanup: u64) -> (registered: bool)
        requires
            old(self).wf(),
            old(self)@.frames.contains_key(owner.0),
            old(self)@.stats.cleanup_registrations < usize::MAX,
        ensures
            final(self).wf(),
            final(self)@ == old(self)@.cleanup_added(owner.0, cleanup),
            registered == !old(self)@.frames[owner.0].disposed,
    {
        let ghost before = self@;
        let mut registered = false;
        if let Some(frame) = self.frames.remove(&owner.0) {
            let mut frame = frame;
            if frame.disposed {
                self.stats.cleanup_run_immediately();
            } else {
                registered = true;
                frame.cleanups.push(cleanup);
                self.stats.cleanup_registered();
            }
            let _ = self.frames.insert(owner.0, frame);
            proof {
                changed_totals(before, owner.0, frame@);
                assert(self@.frames =~= before.frames.insert(owner.0, frame@));
                assert(frame@ =~= before.cleanup_added(owner.0, cleanup).frames[owner.0]);
                assert(before.frames =~= before.frames.insert(owner.0, before.frames[owner.0]));
            }
        }
        assert(self@ =~= before.cleanup_added(owner.0, cleanup));
        registered
    }

    /// Marks an owner as disposed. Returns whether this call did so: an owner is disposed once.
    pub fn retire(&mut self, owner: OwnerId) -> (first: bool)
        requires
            old(self).wf(),
        ensures
            final(self).wf(),
            final(self)@ == old(self)@.retired(owner.0),
            first == !old(self)@.over(owner.0),
    {
        let ghost before = self@;
        let mut first = false;
        if let Some(frame) = self.frames.remove(&owner.0) {
            let mut frame = frame;
            if !frame.disposed {
                first = true;
                frame.disposed = true;
                self.stats.owner_disposed();
            }
            let _ = self.frames.insert(owner.0, frame);
            proof {
                changed_totals(before, owner.0, frame@);
                assert(self@.frames =~= before.frames.insert(owner.0, frame@));
                assert(frame@ =~= before.retired(owner.0).frames[owner.0]);
                assert(before.frames =~= before.frames.insert(owner.0, before.frames[owner.0]));
            }
        }
        assert(self@ =~= before.retired(owner.0));
        first
    }

    /// Takes an owner's cleanups to be run, in the order of registration.
    pub(crate) fn take_cleanups(&mut self, owner: OwnerId) -> (cleanups: Vec<u64>)
        requires
            old(self).wf(),
            old(self)@.frames.contains_key(owner.0),
        ensures
            final(self).wf(),
            final(self)@ == old(self)@.cleanups_taken(owner.0),
            cleanups@ == old(self)@.frames[owner.0].cleanups,
    {
        let ghost before = self@;
        let mut cleanups: Vec<u64> = Vec::new();
        if let Some(frame) = self.frames.remove(&owner.0) {
            let mut frame = frame;
            std::mem::swap(&mut cleanups, &mut frame.cleanups);
            self.stats.cleanups_taken(cleanups.len());
            let _ = self.frames.insert(owner.0, frame);
            proof {
                changed_totals(before, owner.0, frame@);
                assert(self@.frames =~= before.frames.insert(owner.0, frame@));
                assert(frame@ =~= before.cleanups_taken(owner.0).frames[owner.0]);
            }
        }
        assert(self@ =~= before.cleanups_taken(owner.0));
        cleanups
    }

    /// Takes an owner's children to be disposed, in the order of adoption.
    pub(crate) fn take_children(&mut self, owner: OwnerId) -> (children: Vec<Owned>)
        requires
            old(self).wf(),
            old(self)@.frames.contains_key(owner.0),
        ensures
            final(self).wf(),
            final(self)@ == old(self)@.children_taken(owner.0),
            children@ == old(self)@.frames[owner.0].children,
    {
        let ghost before = self@;
        let mut children: Vec<Owned> = Vec::new();
        if let Some(frame) = self.frames.remove(&owner.0) {
            let mut frame = frame;
            std::mem::swap(&mut children, &mut frame.children);
            self.stats.children_taken(children.len());
            let _ = self.frames.insert(owner.0, frame);
            proof {
                changed_totals(before, owner.0, frame@);
                assert(self@.frames =~= before.frames.insert(owner.0, frame@));
                assert(frame@ =~= before.children_taken(owner.0).frames[owner.0]);
            }
        }
        assert(self@ =~= before.children_taken(owner.0));
        children
    }

    fn in_effect(&self, owner: OwnerId) -> (found: bool)
        ensures
            found == self@.stack.contains(Some(owner.0)),
    {
        let mut at: usize = 0;
        while at < self.stack.len()
            invariant
                at <= self.stack.len(),
                forall|earlier: int| 0 <= earlier < at ==> self.stack@[earlier] != Some(owner.0),
            decreases self.stack.len() - at,
        {
            if let Some(entry) = self.stack[at] {
                if entry == owner.0 {
                    assert(self@.stack[at as int] == Some(owner.0));
                    return true;
                }
            }
            at = at + 1;
        }
        false
    }

    /// Lets go of an owner, if it holds nothing and is not in effect. Tells whether it did.
    pub fn release(&mut self, owner: OwnerId) -> (released: bool)
        requires
            old(self).wf(),
        ensures
            final(self).wf(),
            released == old(self)@.releasable(owner.0),
            released ==> final(self)@ == old(self)@.released(owner.0),
            !released ==> final(self)@ == old(self)@,
    {
        let ghost before = self@;
        match self.frames.get(&owner.0) {
            Some(frame) => {
                assert(frame@ == before.frames[owner.0]);
                if !frame.disposed || frame.cleanups.len() > 0 || frame.children.len() > 0 {
                    return false;
                }
            },
            None => {
                return false;
            },
        }
        if self.in_effect(owner) {
            return false;
        }
        let _ = self.frames.remove(&owner.0);
        self.stats.owner_released();
        proof {
            assert(self@.frames =~= before.frames.remove(owner.0));
            total_without(before.frames, cleanup_count(), owner.0);
            total_without(before.frames, child_count(), owner.0);
            assert(self@.frames.dom() =~= before.frames.dom().remove(owner.0));
            assert forall|at: int| #![trigger self@.stack[at]]
                0 <= at < self@.stack.len() implies (self@.stack[at] matches Some(other)
                ==> self@.frames.contains_key(other)) by {
                assert(before.stack[at] == self@.stack[at]);
            }
            assert(self@ =~= before.released(owner.0));
        }
        true
    }

    fn push_owner(&mut self, entry: Option<u64>)
        requires
            old(self).wf(),
            entry matches Some(owner) ==> old(self)@.frames.contains_key(owner),
        ensures
            final(self).wf(),
            final(self)@ == (OwnersModel { stack: old(self)@.stack.push(entry), ..old(self)@ }),
    {
        self.stack.push(entry);
        assert(self@ =~= OwnersModel { stack: old(self)@.stack.push(entry), ..old(self)@ });
        assert forall|at: int| #![trigger self@.stack[at]]
            0 <= at < self@.stack.len() implies (self@.stack[at] matches Some(owner)
            ==> self@.frames.contains_key(owner)) by {
            if at < old(self)@.stack.len() {
                assert(self@.stack[at] == old(self)@.stack[at]);
            }
        }
    }

    /// Puts an owner in effect until [`leave`](Self::leave).
    pub fn with_owner(&mut self, owner: OwnerId) -> (guard: OwnerGuard)
        requires
            old(self).wf(),
            old(self)@.frames.contains_key(owner.0),
        ensures
            final(self).wf(),
            final(self)@ == (OwnersModel {
                stack: old(self)@.stack.push(Some(owner.0)),
                ..old(self)@
            }),
            final(self)@.current() == Some(owner.0),
    {
        self.push_owner(Some(owner.0));
        OwnerGuard {  }
    }

    /// Ends the effect of the owner, or barrier, that was put in effect last.
    pub fn leave(&mut self, guard: OwnerGuard)
        requires
            old(self).wf(),
        ensures
            final(self).wf(),
            final(self)@ == (OwnersModel {
                stack: if old(self)@.stack.len() > 0 {
                    old(self)@.stack.drop_last()
                } else {
                    old(self)@.stack
                },
                ..old(self)@
            }),
    {
        let _ = self.stack.pop();
        proof {
            assert forall|at: int| #![trigger self@.stack[at]]
                0 <= at < self@.stack.len() implies (self@.stack[at] matches Some(owner)
                ==> self@.frames.contains_key(owner)) by {
                assert(self@.stack[at] == old(self)@.stack[at]);
            }
        }
    }

    /// Returns the error handler nearest to an owner, going outwards.
    pub fn error_handler(&self, owner: OwnerId) -> (handler: Option<u64>)
        requires
            self.wf(),
        ensures
            handler == self@.boundary(owner.0),
    {
        let mut at: u64 = owner.0;
        loop
            invariant
                self.wf(),
                self@.boundary(at) == self@.boundary(owner.0),
            decreases at,
        {
            match self.frames.get(&at) {
                Some(frame) => {
                    assert(self@.frames.contains_key(at));
                    if frame.handler.is_some() {
                        return frame.handler;
                    }
                    match frame.parent {
                        Some(parent) => {
                            at = parent;
                        },
                        None => return None,
                    }
                },
                None => return None,
            }
        }
    }
}

/// Puts a barrier in effect until [`Owners::leave`]: what is created in between has no owner.
pub fn unowned(owners: &mut Owners) -> (guard: OwnerGuard)
    requires
        old(owners).wf(),
    ensures
        final(owners).wf(),
        final(owners)@ == (OwnersModel { stack: old(owners)@.stack.push(None), ..old(owners)@ }),
        final(owners)@.current() is None,
{
    owners.push_owner(None);
    OwnerGuard {  }
}

/// Registers a cleanup with the innermost owner in effect, which runs it before its next run and
/// on disposal. There has to be one: outside an owner the cleanup would never run. Returns `false`
/// when that owner is disposed already; the caller then runs the cleanup at once.
pub fn on_cleanup(owners: &mut Owners, cleanup: u64) -> (registered: bool)
    requires
        old(owners).wf(),
        old(owners)@.current() is Some,
        old(owners)@.stats.cleanup_registrations < usize::MAX,
    ensures
        final(owners).wf(),
        final(owners)@ == old(owners)@.cleanup_added(old(owners)@.current()->0, cleanup),
        registered == !old(owners)@.frames[old(owners)@.current()->0].disposed,
{
    match owners.current_owner() {
        Some(owner) => {
            assert(owners@.stack[owners@.stack.len() - 1] == Some(owner.0));
            owners.add_cleanup(owner, cleanup)
        },
        None => false,
    }
}

/// The sum of a measure over the listed frames.
spec fn listed_total(
    frames: Map<u64, Frame>,
    list: Seq<u64>,
    measure: spec_fn(Frame) -> nat,
) -> nat
    decreases list.len(),
{
    if list.len() == 0 {
        0
    } else {
        listed_total(frames, list.drop_last(), measure) + measure(frames[list.last()])
    }
}

/// A list of all frames, each once, gives the sum over all frames.
proof fn listed_total_is_total(
    frames: Map<u64, Frame>,
    list: Seq<u64>,
    measure: spec_fn(Frame) -> nat,
)
    requires
        frames.dom().finite(),
        list.no_duplicates(),
        list.to_set() == frames.dom(),
    ensures
        listed_total(frames, list, measure) == total(frames, measure),
    decreases list.len(),
{
    if list.len() == 0 {
        list.unique_seq_to_set();
        assert(frames.dom().len() == 0);
    } else {
        let last = list.last();
        let shorter = list.drop_last();
        let rest = frames.remove(last);
        assert(list.contains(last));
        assert(frames.dom().contains(last));
        assert(shorter.push(last) =~= list);
        crate::seqs::push_members(shorter, last);
        assert(!shorter.contains(last)) by {
            if shorter.contains(last) {
                let at = choose|at: int| 0 <= at < shorter.len() && shorter[at] == last;
                assert(list[at] == list[list.len() - 1]);
            }
        }
        assert forall|owner: u64| shorter.to_set().contains(owner) <==> rest.dom().contains(owner) by {
            assert(list.contains(owner) <==> list.to_set().contains(owner));
        }
        assert(shorter.to_set() =~= rest.dom());
        listed_total_is_total(rest, shorter, measure);
        listed_total_ignores(frames, shorter, measure, last);
        total_without(frames, measure, last);
    }
}

/// A frame that is not listed does not matter.
proof fn listed_total_ignores(
    frames: Map<u64, Frame>,
    list: Seq<u64>,
    measure: spec_fn(Frame) -> nat,
    other: u64,
)
    requires
        !list.contains(other),
    ensures
        listed_total(frames.remove(other), list, measure) == listed_total(frames, list, measure),
    decreases list.len(),
{
    if list.len() > 0 {
        let shorter = list.drop_last();
        assert(shorter.push(list.last()) =~= list);
        crate::seqs::push_members(shorter, list.last());
        listed_total_ignores(frames, shorter, measure, other);
        assert(list.contains(list.last()));
    }
}

/// The number, or the largest count where it does not fit.
pub open spec fn as_count(number: nat) -> usize {
    if number > usize::MAX {
        usize::MAX
    } else {
        number as usize
    }
}

impl OwnersModel {
    /// What a walk of the tree finds wrong with the gauges.
    pub open spec fn drift(self) -> Seq<crate::ownership::OwnershipDrift> {
        crate::ownership::drifts(
            self.stats,
            as_count(self.frames.dom().len()),
            as_count(total(self.frames, cleanup_count())),
            as_count(total(self.frames, child_count())),
        )
    }
}

/// Returns what the owner tree is holding.
pub fn ownership_stats(owners: &Owners) -> (stats: OwnershipStats)
    ensures
        stats == owners@.stats,
{
    owners.stats()
}

/// Recomputes every live gauge by walking the owner tree and reports any disagreement. Prunes
/// dead registry entries as it goes.
pub fn audit_ownership(owners: &mut Owners) -> (audit: OwnershipAudit)
    requires
        old(owners)@.structured(),
    ensures
        final(owners)@.structured(),
        old(owners).wf() ==> final(owners).wf(),
        match old(owners)@.registry {
            None => audit is Unavailable && final(owners)@ == old(owners)@,
            Some(list) => {
                &&& audit !is Unavailable
                &&& audit is Consistent <==> old(owners)@.drift().len() == 0
                &&& audit matches OwnershipAudit::Drifted(drift) ==> drift@
                    == old(owners)@.drift()
                &&& final(owners)@ == (OwnersModel {
                    registry: Some(alive_in(old(owners)@.frames, list)),
                    ..old(owners)@
                })
            },
        },
{
    let ghost before = owners@;
    let mut registry: Option<Vec<u64>> = None;
    std::mem::swap(&mut registry, &mut owners.registry);
    let list = match registry {
        Some(list) => list,
        None => {
            assert(owners@ =~= before);
            return OwnershipAudit::Unavailable;
        },
    };
    let live = owners.pruned(&list);
    proof {
        pruned_registry_is_exact(before.frames, list@);
        alive_members(before.frames, list@);
    }
    let mut cleanups: usize = 0;
    let mut children: usize = 0;
    let mut index: usize = 0;
    assert(live@.take(0) =~= Seq::empty());
    while index < live.len()
        invariant
            index <= live.len(),
            owners@.frames == before.frames,
            live@.to_set() == before.frames.dom(),
            cleanups == as_count(
                listed_total(before.frames, live@.take(index as int), cleanup_count()),
            ),
            children == as_count(
                listed_total(before.frames, live@.take(index as int), child_count()),
            ),
        decreases live.len() - index,
    {
        let owner: u64 = live[index];
        proof {
            assert(live@.contains(owner));
            assert(live@.to_set().contains(owner));
            assert(live@.take(index + 1).drop_last() =~= live@.take(index as int));
            assert(live@.take(index + 1).last() == owner);
        }
        if let Some(frame) = owners.frames.get(&owner) {
            assert(before.frames[owner] == frame@);
            cleanups = cleanups.saturating_add(frame.cleanups.len());
            children = children.saturating_add(frame.children.len());
        }
        index = index + 1;
    }
    proof {
        assert(live@.take(index as int) =~= live@);
        listed_total_is_total(before.frames, live@, cleanup_count());
        listed_total_is_total(before.frames, live@, child_count());
    }
    let audit = audit_counts(&owners.stats, live.len(), cleanups, children);
    owners.registry = Some(live);
    assert(owners@ =~= OwnersModel {
        registry: Some(alive_in(before.frames, list@)),
        ..before
    });
    audit
}

/// Returns whether the audit finds no gauge that has drifted. Without a registry there is nothing
/// to find. Like the audit, it prunes dead registry entries and changes nothing else.
pub fn debug_assert_ownership_consistent(owners: &mut Owners) -> (consistent: bool)
    requires
        old(owners)@.structured(),
    ensures
        final(owners)@.structured(),
        old(owners).wf() ==> final(owners).wf(),
        consistent == (old(owners)@.registry is None || old(owners)@.drift().len() == 0),
        match old(owners)@.registry {
            None => final(owners)@ == old(owners)@,
            Some(list) => final(owners)@ == (OwnersModel {
                registry: Some(alive_in(old(owners)@.frames, list)),
                ..old(owners)@
            }),
        },
{
    match audit_ownership(owners) {
        OwnershipAudit::Drifted(_) => false,
        _ => true,
    }
}

/// An owner tree that only the operations of this library have touched passes every audit.
pub proof fn audit_finds_nothing(owners: OwnersModel)
    requires
        owners.structured(),
        owners.counted(),
    ensures
        owners.drift().len() == 0,
{
}

/// One thing that is left to do in a teardown.
#[derive(Clone, Copy, Debug, Eq, PartialEq, Structural)]
pub enum Pending {
    /// Run a cleanup.
    Cleanup(u64),
    /// Take an owner's children, once its cleanups have run.
    Children(OwnerId),
    /// Dispose a child.
    Child(Owned),
}

/// What a step of a teardown asks of the caller.
#[derive(Clone, Copy, Debug, Eq, PartialEq, Structural)]
pub enum TeardownStep {
    /// Run this cleanup, untracked.
    Cleanup(u64),
    /// Dispose this effect, untracked.
    Effect { reactor: ReactorId, effect: NodeId },
    /// Nothing: go on.
    Continue,
}

/// A teardown in progress: what is left to do, next one last.
///
/// Running it to the end runs the owner's cleanups, latest first, and then disposes its children,
/// latest first, each child scope completely before the next child.
#[derive(Debug)]
pub struct Teardown {
    root: OwnerId,
    pending: Vec<Pending>,
}

/// What resetting an owner leaves to do, next one last.
pub open spec fn reset_plan(owner: u64, cleanups: Seq<u64>) -> Seq<Pending> {
    seq![Pending::Children(OwnerId(owner))] + cleanups.map_values(
        |cleanup: u64| Pending::Cleanup(cleanup),
    )
}

/// What disposing children leaves to do, next one last.
pub open spec fn disposal_plan(children: Seq<Owned>) -> Seq<Pending> {
    children.map_values(|child: Owned| Pending::Child(child))
}

/// The state of a teardown together with the owner tree it works on.
#[verifier::ext_equal]
pub struct TeardownState {
    pub owners: OwnersModel,
    pub pending: Seq<Pending>,
}

impl TeardownState {
    /// After one more step.
    pub open spec fn stepped(self) -> TeardownState
        recommends
            self.pending.len() > 0,
    {
        let rest = self.pending.drop_last();
        match self.pending.last() {
            Pending::Cleanup(_) => TeardownState { pending: rest, ..self },
            Pending::Children(owner) => if self.owners.frames.contains_key(owner.0) {
                TeardownState {
                    owners: self.owners.children_taken(owner.0),
                    pending: rest + disposal_plan(self.owners.frames[owner.0].children),
                }
            } else {
                TeardownState { pending: rest, ..self }
            },
            Pending::Child(Owned::Effect { .. }) => TeardownState { pending: rest, ..self },
            Pending::Child(Owned::Scope(owner)) => if !self.owners.over(owner.0) {
                TeardownState {
                    owners: self.owners.retired(owner.0).cleanups_taken(owner.0),
                    pending: rest + reset_plan(owner.0, self.owners.frames[owner.0].cleanups),
                }
            } else {
                TeardownState { pending: rest, ..self }
            },
        }
    }

    /// What the next step asks of the caller.
    pub open spec fn asks(self) -> TeardownStep
        recommends
            self.pending.len() > 0,
    {
        match self.pending.last() {
            Pending::Cleanup(cleanup) => TeardownStep::Cleanup(cleanup),
            Pending::Child(Owned::Effect { reactor, effect }) => TeardownStep::Effect {
                reactor,
                effect,
            },
            _ => TeardownStep::Continue,
        }
    }
}

impl View for Teardown {
    type V = Seq<Pending>;

    closed spec fn view(&self) -> Seq<Pending> {
        self.pending@
    }
}

fn push_cleanups(pending: &mut Vec<Pending>, cleanups: &Vec<u64>)
    ensures
        final(pending)@ == old(pending)@ + cleanups@.map_values(
            |cleanup: u64| Pending::Cleanup(cleanup),
        ),
{
    let ghost base = pending@;
    let mut index: usize = 0;
    while index < cleanups.len()
        invariant
            index <= cleanups.len(),
            pending@ =~= base + cleanups@.take(index as int).map_values(
                |cleanup: u64| Pending::Cleanup(cleanup),
            ),
        decreases cleanups.len() - index,
    {
        pending.push(Pending::Cleanup(cleanups[index]));
        index = index + 1;
    }
    assert(cleanups@.take(index as int) =~= cleanups@);
}

fn push_children(pending: &mut Vec<Pending>, children: &Vec<Owned>)
    ensures
        final(pending)@ == old(pending)@ + disposal_plan(children@),
{
    let ghost base = pending@;
    let mut index: usize = 0;
    while index < children.len()
        invariant
            index <= children.len(),
            pending@ =~= base + disposal_plan(children@.take(index as int)),
        decreases children.len() - index,
    {
        pending.push(Pending::Child(children[index]));
        index = index + 1;
    }
    assert(children@.take(index as int) =~= children@);
}

impl Owners {
    /// Starts to tear down what an owner holds, without disposing the owner: an effect does this
    /// before each run. Call [`Teardown::step`] until it gives nothing.
    pub fn reset(&mut self, owner: OwnerId) -> (teardown: Teardown)
        requires
            old(self).wf(),
            old(self)@.frames.contains_key(owner.0),
        ensures
            final(self).wf(),
            final(self)@ == old(self)@.cleanups_taken(owner.0),
            teardown@ == reset_plan(owner.0, old(self)@.frames[owner.0].cleanups),
            teardown.root() == owner,
    {
        let cleanups = self.take_cleanups(owner);
        let mut pending: Vec<Pending> = Vec::new();
        pending.push(Pending::Children(owner));
        push_cleanups(&mut pending, &cleanups);
        assert(pending@ =~= reset_plan(owner.0, cleanups@));
        Teardown { root: owner, pending }
    }

    /// Disposes an owner and starts to tear down what it holds. An owner that is disposed already,
    /// or gone, leaves nothing to do.
    pub fn dispose(&mut self, owner: OwnerId) -> (teardown: Teardown)
        requires
            old(self).wf(),
        ensures
            final(self).wf(),
            old(self)@.over(owner.0) ==> {
                &&& final(self)@ == old(self)@
                &&& teardown@.len() == 0
            },
            !old(self)@.over(owner.0) ==> {
                &&& final(self)@ == old(self)@.retired(owner.0).cleanups_taken(owner.0)
                &&& teardown@ == reset_plan(owner.0, old(self)@.frames[owner.0].cleanups)
            },
            teardown.root() == owner,
    {
        if self.retire(owner) {
            self.reset(owner)
        } else {
            Teardown { root: owner, pending: Vec::new() }
        }
    }
}

impl Teardown {
    /// The owner whose teardown it is.
    pub closed spec fn root(self) -> OwnerId {
        self.root
    }

    /// Does the next step, or returns `None` when the teardown is complete.
    pub fn step(&mut self, owners: &mut Owners) -> (step: Option<TeardownStep>)
        requires
            old(owners).wf(),
        ensures
            final(owners).wf(),
            final(self).root() == old(self).root(),
            old(self)@.len() == 0 ==> {
                &&& step is None
                &&& final(self)@ == old(self)@
                &&& final(owners)@ == old(owners)@
            },
            old(self)@.len() > 0 ==> {
                let before = TeardownState { owners: old(owners)@, pending: old(self)@ };
                &&& step == Some(before.asks())
                &&& before.stepped() == (TeardownState {
                    owners: final(owners)@,
                    pending: final(self)@,
                })
            },
    {
        let ghost before = TeardownState { owners: owners@, pending: self@ };
        let next = match self.pending.pop() {
            Some(next) => next,
            None => return None,
        };
        let step = match next {
            Pending::Cleanup(cleanup) => TeardownStep::Cleanup(cleanup),
            Pending::Children(owner) => {
                if owners.frames.contains_key(&owner.0) {
                    let children = owners.take_children(owner);
                    push_children(&mut self.pending, &children);
                }
                TeardownStep::Continue
            },
            Pending::Child(child) => match child {
                Owned::Effect { reactor, effect } => TeardownStep::Effect { reactor, effect },
                Owned::Scope(owner) => {
                    let mut nested = owners.dispose(owner);
                    self.pending.append(&mut nested.pending);
                    TeardownStep::Continue
                },
            },
        };
        assert(before.stepped() =~= TeardownState { owners: owners@, pending: self@ });
        Some(step)
    }

    /// Returns whether anything is left to do.
    pub fn is_complete(&self) -> (complete: bool)
        ensures
            complete == (self@.len() == 0),
    {
        self.pending.len() == 0
    }
}

/// Resetting an owner runs its cleanups in reverse order of registration, and only then turns to
/// its children: the step after `done` cleanups runs the latest one that is left.
pub proof fn cleanups_run_latest_first(
    owners: OwnersModel,
    owner: u64,
    cleanups: Seq<u64>,
    done: nat,
)
    requires
        done <= cleanups.len(),
    ensures
        ({
            let left = TeardownState {
                owners,
                pending: reset_plan(owner, cleanups.take(cleanups.len() - done)),
            };
            &&& done < cleanups.len() ==> {
                &&& left.asks() == TeardownStep::Cleanup(cleanups[cleanups.len() - done - 1])
                &&& left.stepped() == (TeardownState {
                    owners,
                    pending: reset_plan(owner, cleanups.take(cleanups.len() - done - 1)),
                })
            }
            &&& done == cleanups.len() ==> left.pending == seq![
                Pending::Children(OwnerId(owner)),
            ]
        }),
{
    let left = reset_plan(owner, cleanups.take(cleanups.len() - done));
    if done < cleanups.len() {
        assert(left.drop_last() =~= reset_plan(owner, cleanups.take(cleanups.len() - done - 1)));
    } else {
        assert(left =~= seq![Pending::Children(OwnerId(owner))]);
    }
}

/// Children are disposed in reverse order of adoption: of those that are left, the latest is next.
pub proof fn children_are_disposed_latest_first(children: Seq<Owned>, done: nat)
    requires
        done < children.len(),
    ensures
        disposal_plan(children.take(children.len() - done)).last() == Pending::Child(
            children[children.len() - done - 1],
        ),
        disposal_plan(children.take(children.len() - done)).drop_last() == disposal_plan(
            children.take(children.len() - done - 1),
        ),
{
    let left = disposal_plan(children.take(children.len() - done));
    assert(left.drop_last() =~= disposal_plan(children.take(children.len() - done - 1)));
}

/// A scope whose body has not ended yet.
#[must_use]
#[derive(Debug)]
pub struct OpenScope {
    /// The owner that is in effect for the body.
    pub owner: OwnerId,
}

/// A scope: an owner that is disposed through this handle or with the owner that adopted it.
#[must_use]
#[derive(Debug)]
pub struct ScopeHandle {
    owner: OwnerId,
}

/// A reference to an owner, under which later work can be put.
#[derive(Clone, Copy, Debug)]
pub struct Owner {
    id: OwnerId,
}

impl OwnersModel {
    /// After creating an owner and putting it in effect; `registry` is what the audit walks
    /// afterwards.
    pub open spec fn opened(self, handler: Option<u64>, registry: Option<Seq<u64>>) -> OwnersModel {
        let created = self.created(handler, registry);
        OwnersModel { stack: created.stack.push(Some(self.next)), ..created }
    }

    /// After the owner, or barrier, that was put in effect last left.
    pub open spec fn left(self) -> OwnersModel {
        OwnersModel {
            stack: if self.stack.len() > 0 {
                self.stack.drop_last()
            } else {
                self.stack
            },
            ..self
        }
    }

    /// After something looked for an owner.
    pub open spec fn sheltered(self, child: Owned) -> OwnersModel {
        match self.current() {
            Some(owner) => self.adopted(owner, child),
            None => self,
        }
    }

    /// What becomes of something that looks for an owner.
    pub open spec fn shelter(self) -> Adoption {
        match self.current() {
            Some(owner) => if self.frames[owner].disposed {
                Adoption::Refused
            } else {
                Adoption::Adopted
            },
            None => Adoption::Unowned,
        }
    }

    /// What the registry becomes when the next owner is created.
    pub open spec fn next_registry(self) -> Option<Seq<u64>> {
        match self.registry {
            Some(list) => Some(
                registry_with(
                    self.frames,
                    list,
                    self.stats.after_owner_created().live_owners,
                    self.next,
                ),
            ),
            None => None,
        }
    }
}

fn open_scope(owners: &mut Owners, handler: Option<u64>) -> (scope: OpenScope)
    requires
        old(owners).wf(),
        old(owners)@.next < u64::MAX,
    ensures
        final(owners).wf(),
        final(owners)@ == old(owners)@.opened(handler, old(owners)@.next_registry()),
        scope.owner.0 == old(owners)@.next,
        final(owners)@.current() == Some(scope.owner.0),
{
    let owner = owners.create(handler);
    owners.push_owner(Some(owner.0));
    OpenScope { owner }
}

/// Opens a scope: until [`OpenScope::finish`], effects and cleanups register with it.
pub fn scope(owners: &mut Owners) -> (scope: OpenScope)
    requires
        old(owners).wf(),
        old(owners)@.next < u64::MAX,
    ensures
        final(owners).wf(),
        final(owners)@ == old(owners)@.opened(None, old(owners)@.next_registry()),
        scope.owner.0 == old(owners)@.next,
        final(owners)@.current() == Some(scope.owner.0),
{
    open_scope(owners, None)
}

/// Opens a scope that is an error boundary: `handler` stands for what is called when an effect
/// below it fails.
pub fn scope_catch(owners: &mut Owners, handler: u64) -> (scope: OpenScope)
    requires
        old(owners).wf(),
        old(owners)@.next < u64::MAX,
    ensures
        final(owners).wf(),
        final(owners)@ == old(owners)@.opened(Some(handler), old(owners)@.next_registry()),
        scope.owner.0 == old(owners)@.next,
        final(owners)@.current() == Some(scope.owner.0),
        final(owners)@.boundary(scope.owner.0) == Some(handler),
{
    open_scope(owners, Some(handler))
}

impl OpenScope {
    /// Ends the body of the scope. The owner that is innermost then adopts the scope; where it
    /// refuses, the caller disposes the scope at once.
    pub fn finish(self, owners: &mut Owners) -> (outcome: (ScopeHandle, Adoption))
        requires
            old(owners).wf(),
            old(owners)@.stats.owned_children < usize::MAX,
        ensures
            final(owners).wf(),
            final(owners)@ == old(owners)@.left().sheltered(Owned::Scope(self.owner)),
            outcome.0.id() == self.owner,
            outcome.1 == old(owners)@.left().shelter(),
    {
        owners.leave(OwnerGuard {  });
        let adoption = owners.adopt_into_current(Owned::Scope(self.owner));
        (ScopeHandle { owner: self.owner }, adoption)
    }

    /// Ends a scope whose body unwound: it is disposed, so that what was registered is torn down.
    pub fn abort(self, owners: &mut Owners) -> (teardown: Teardown)
        requires
            old(owners).wf(),
        ensures
            final(owners).wf(),
            old(owners)@.over(self.owner.0) ==> {
                &&& final(owners)@ == old(owners)@.left()
                &&& teardown@.len() == 0
            },
            !old(owners)@.over(self.owner.0) ==> {
                &&& final(owners)@ == old(owners)@.left().retired(self.owner.0).cleanups_taken(
                    self.owner.0,
                )
                &&& teardown@ == reset_plan(
                    self.owner.0,
                    old(owners)@.frames[self.owner.0].cleanups,
                )
            },
    {
        owners.leave(OwnerGuard {  });
        owners.dispose(self.owner)
    }
}

impl ScopeHandle {
    /// The owner of the scope.
    pub closed spec fn id(self) -> OwnerId {
        self.owner
    }

    /// Disposes the scope: run the teardown that is returned. Only the first time does something.
    pub fn dispose(&self, owners: &mut Owners) -> (teardown: Teardown)
        requires
            old(owners).wf(),
        ensures
            final(owners).wf(),
            old(owners)@.over(self.id().0) ==> {
                &&& final(owners)@ == old(owners)@
                &&& teardown@.len() == 0
            },
            !old(owners)@.over(self.id().0) ==> {
                &&& final(owners)@ == old(owners)@.retired(self.id().0).cleanups_taken(
                    self.id().0,
                )
                &&& teardown@ == reset_plan(
                    self.id().0,
                    old(owners)@.frames[self.id().0].cleanups,
                )
            },
    {
        owners.dispose(self.owner)
    }

    /// Returns whether the scope has been disposed.
    pub fn is_disposed(&self, owners: &Owners) -> (disposed: bool)
        ensures
            disposed == owners@.over(self.id().0),
    {
        owners.is_disposed(self.owner)
    }

    /// Gives the handle up without disposing the scope.
    pub fn leak(self) -> (owner: OwnerId)
        ensures
            owner == self.id(),
    {
        self.owner
    }

    /// Returns a reference to the scope's owner.
    pub fn owner(&self) -> (owner: Owner)
        ensures
            owner.key() == self.id(),
    {
        Owner { id: self.owner }
    }
}

impl Owner {
    /// The owner that is referred to.
    pub closed spec fn key(self) -> OwnerId {
        self.id
    }

    /// Puts the owner in effect until [`Owners::leave`], so that work done later still registers
    /// with it. A disposed owner disposes what is registered at once.
    pub fn run_in(&self, owners: &mut Owners) -> (guard: OwnerGuard)
        requires
            old(owners).wf(),
            old(owners)@.frames.contains_key(self.key().0),
        ensures
            final(owners).wf(),
            final(owners)@ == (OwnersModel {
                stack: old(owners)@.stack.push(Some(self.key().0)),
                ..old(owners)@
            }),
            final(owners)@.current() == Some(self.key().0),
    {
        owners.with_owner(self.id)
    }

    /// Returns whether the owner has been disposed.
    pub fn is_disposed(&self, owners: &Owners) -> (disposed: bool)
        ensures
            disposed == owners@.over(self.key().0),
    {
        owners.is_disposed(self.id)
    }
}

/// Returns a reference to the innermost owner in effect.
pub fn owner(owners: &Owners) -> (owner: Option<Owner>)
    ensures
        owner is Some <==> owners@.current() is Some,
        owner matches Some(owner) ==> Some(owner.key().0) == owners@.current(),
{
    match owners.current_owner() {
        Some(id) => Some(Owner { id }),
        None => None,
    }
}

/// What an error boundary is told of an effect that failed: what it failed with, and which effect
/// it was.
#[derive(Debug)]
pub struct ErrorInfo<P> {
    payload: P,
    node: NodeId,
    origin: Option<Location>,
}

impl<P> ErrorInfo<P> {
    /// What the effect failed with.
    pub closed spec fn carried(self) -> P {
        self.payload
    }

    /// The effect.
    pub closed spec fn subject(self) -> NodeId {
        self.node
    }

    /// Where the effect was created.
    pub closed spec fn site(self) -> Option<Location> {
        self.origin
    }

    /// Describes the failure of an effect.
    pub fn new(payload: P, node: NodeId, origin: Option<Location>) -> (info: Self)
        ensures
            info.carried() == payload,
            info.subject() == node,
            info.site() == origin,
    {
        ErrorInfo { payload, node, origin }
    }

    /// Returns what the effect failed with.
    pub fn payload(&self) -> (payload: &P)
        ensures
            *payload == self.carried(),
    {
        &self.payload
    }

    /// Returns what the effect failed with, consuming the description.
    pub fn into_payload(self) -> (payload: P)
        ensures
            payload == self.carried(),
    {
        self.payload
    }

    /// Returns the effect.
    pub fn node(&self) -> (node: NodeId)
        ensures
            node == self.subject(),
    {
        self.node
    }

    /// Returns where the effect was created, if it was still live.
    pub fn origin(&self) -> (origin: Option<Location>)
        ensures
            origin == self.site(),
    {
        self.origin
    }
}

/// The nearest boundary wins: an owner with a handler of its own is not served by one further out,
/// and one without is served as its parent is.
pub proof fn nearest_boundary_wins(owners: OwnersModel, owner: u64)
    requires
        owners.structured(),
        owners.frames.contains_key(owner),
    ensures
        owners.frames[owner].handler is Some ==> owners.boundary(owner)
            == owners.frames[owner].handler,
        owners.frames[owner].handler is None ==> (match owners.frames[owner].parent {
            Some(parent) => owners.boundary(owner) == owners.boundary(parent),
            None => owners.boundary(owner) is None,
        }),
{
}

/// What is created behind a barrier has no owner, so no boundary serves it and nobody adopts it.
pub proof fn barrier_hides_owners(owners: OwnersModel)
    requires
        owners.structured(),
        owners.stack.len() > 0,
        owners.stack.last() is None,
    ensures
        owners.shelter() == Adoption::Unowned,
        owners.created(None, owners.next_registry()).boundary(owners.next) is None,
{
}

} // verus!
