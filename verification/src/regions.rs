//! What untracked regions keep from an observer, however the code inside is built.
use vstd::prelude::*;

use crate::model::ReactorModel;
use crate::tracking::Tracking;

verus! {

/// One thing that code does while an observer runs.
pub enum Act {
    /// It reads a node.
    Read(u64),
    /// It does all this in an untracked region.
    Untracked(Seq<Act>),
    /// It computes another observer, which does all this. `lost` lists the nodes that lost their
    /// last observer as that observer started afresh.
    Compute { observer: u64, lost: Seq<u64>, body: Seq<Act> },
}

impl ReactorModel {
    /// After everything in `body` was done in turn. An observer that is active cannot be computed
    /// again, so nothing comes of trying.
    pub open spec fn done(self, tracking: Tracking, body: Seq<Act>) -> ReactorModel
        decreases body,
    {
        if body.len() == 0 {
            self
        } else {
            let before = self.done(tracking, body.drop_last());
            match body[body.len() - 1] {
                Act::Read(node) => before.read(tracking, node),
                Act::Untracked(inner) => before.done(tracking.untracked(), inner),
                Act::Compute { observer, lost, body: inner } => if before.graph.active(observer) {
                    before
                } else {
                    before.started(observer, lost).done(
                        Tracking { untracked_depth: 0, running: Some(before.id) },
                        inner,
                    ).ended()
                },
            }
        }
    }

    /// The observers that run are the same in `after`, and those that are not innermost have the
    /// same dependencies; so has the innermost one, if reads are `suspended`.
    pub open spec fn spares_waiting_observers(self, after: ReactorModel, suspended: bool) -> bool {
        &&& after.id == self.id
        &&& after.graph.stack == self.graph.stack
        &&& forall|observer: u64, node: u64|
            self.graph.active(observer) && (suspended || observer != self.graph.stack.last())
                ==> (#[trigger] after.graph.observes(observer, node) <==> self.graph.observes(
                observer,
                node,
            ))
    }
}

/// Nothing that is read in an untracked region becomes a dependency of the observer that opened it:
/// neither before nor after a region nested in it ended, nor after a computation nested in it, which
/// records its reads for itself. What is active stays so inside, and a read of it is still refused.
/// Once the outermost region ends, reads are recorded again.
pub proof fn untracked_regions_record_nothing(
    model: ReactorModel,
    tracking: Tracking,
    body: Seq<Act>,
)
    requires
        model.graph.stack.len() > 0,
        tracking.untracked_depth < u32::MAX,
    ensures
        ({
            let observer = model.graph.stack.last();
            let after = model.done(tracking.untracked(), body);
            &&& after.graph.stack == model.graph.stack
            &&& forall|node: u64| #[trigger]
                after.graph.observes(observer, node) <==> model.graph.observes(observer, node)
            &&& forall|node: u64| #[trigger] after.graph.active(node) <==> model.graph.active(node)
            &&& tracking.untracked().resumed() == tracking
            &&& !tracking.suspended() ==> forall|node: u64|
                !after.graph.active(node) ==> (#[trigger] after.read(
                    tracking.untracked().resumed(),
                    node,
                )).graph.observes(observer, node)
        }),
{
    let observer = model.graph.stack.last();
    doing_spares_waiting_observers(model, tracking.untracked(), body);
    assert(model.graph.stack[model.graph.stack.len() - 1] == observer);
    assert(model.graph.active(observer));
}

proof fn doing_spares_waiting_observers(model: ReactorModel, tracking: Tracking, body: Seq<Act>)
    ensures
        model.spares_waiting_observers(model.done(tracking, body), tracking.suspended()),
    decreases body,
{
    if body.len() > 0 {
        doing_spares_waiting_observers(model, tracking, body.drop_last());
        let before = model.done(tracking, body.drop_last());
        let after = model.done(tracking, body);
        match body[body.len() - 1] {
            Act::Read(node) => {
                reading_spares_waiting_observers(before, tracking, node);
            },
            Act::Untracked(inner) => {
                doing_spares_waiting_observers(before, tracking.untracked(), inner);
            },
            Act::Compute { observer, lost, body: inner } => {
                if !before.graph.active(observer) {
                    let inside = Tracking { untracked_depth: 0, running: Some(before.id) };
                    let started = before.started(observer, lost);
                    crate::lifecycle::runs_start_without_dependencies(before, observer, lost);
                    crate::reactor::forgetting_keeps_the_rest(before, observer, lost);
                    assert(started.graph.stack == before.graph.stack.push(observer));
                    assert(!before.graph.stack.contains(observer));
                    doing_spares_waiting_observers(started, inside, inner);
                    let ran = started.done(inside, inner);
                    assert(after == ran.ended());
                    assert(after.graph.stack =~= before.graph.stack);
                    assert forall|other: u64, node: u64| before.graph.active(other) implies (
                    #[trigger] after.graph.observes(other, node) <==> before.graph.observes(
                        other,
                        node,
                    )) by {
                        assert(before.graph.stack.contains(other));
                        crate::seqs::push_members(before.graph.stack, observer);
                        assert(started.graph.active(other));
                        assert(other != observer);
                        assert(ran.graph.observes(other, node) <==> started.graph.observes(
                            other,
                            node,
                        ));
                    }
                }
            },
        }
        assert(model.spares_waiting_observers(after, tracking.suspended()));
    }
}

proof fn reading_spares_waiting_observers(model: ReactorModel, tracking: Tracking, node: u64)
    ensures
        model.spares_waiting_observers(model.read(tracking, node), tracking.suspended()),
{
}

} // verus!
