//! Ownership accounting: what the owner tree is retaining.
//!
//! A reactive graph can be perfectly clean and still leak, because ownership retains things the
//! graph never sees: cleanups that were registered and never run, children that nobody disposed.
//! These counts follow them, and the audit holds the counts against the tree itself.
use vstd::prelude::*;

verus! {

/// What a thread's owner tree is holding.
#[derive(Clone, Copy, Debug, Eq, PartialEq, Structural)]
pub struct OwnershipStats {
    /// Owner frames currently alive: one per live effect, plus one per live scope.
    pub live_owners: usize,
    /// Cleanups registered and not yet run.
    pub cleanup_registrations: usize,
    /// Effects and scopes currently held by an owner, which will be disposed with it.
    pub owned_children: usize,
    /// Owner frames created.
    pub owners_created: u64,
    /// Owner frames terminally disposed.
    pub owners_disposed: u64,
    /// Cleanups registered.
    pub cleanups_registered: u64,
    /// Cleanups executed, by a reset, a disposal, or immediate execution against an
    /// already-disposed owner.
    pub cleanups_run: u64,
}

impl OwnershipStats {
    /// Nothing held and nothing counted.
    pub open spec fn zero() -> OwnershipStats {
        OwnershipStats {
            live_owners: 0,
            cleanup_registrations: 0,
            owned_children: 0,
            owners_created: 0,
            owners_disposed: 0,
            cleanups_registered: 0,
            cleanups_run: 0,
        }
    }

    /// After an owner frame was created.
    pub open spec fn after_owner_created(self) -> OwnershipStats {
        OwnershipStats {
            live_owners: crate::stats::sat_usize(self.live_owners, 1),
            owners_created: crate::stats::sat_u64(self.owners_created, 1),
            ..self
        }
    }

    /// After an owner frame went away.
    pub open spec fn after_owner_released(self) -> OwnershipStats {
        OwnershipStats { live_owners: crate::stats::floor_usize(self.live_owners, 1), ..self }
    }

    /// After an owner was terminally disposed.
    pub open spec fn after_owner_disposed(self) -> OwnershipStats {
        OwnershipStats { owners_disposed: crate::stats::sat_u64(self.owners_disposed, 1), ..self }
    }

    /// After a cleanup was registered.
    pub open spec fn after_cleanup_registered(self) -> OwnershipStats {
        OwnershipStats {
            cleanup_registrations: crate::stats::sat_usize(self.cleanup_registrations, 1),
            cleanups_registered: crate::stats::sat_u64(self.cleanups_registered, 1),
            ..self
        }
    }

    /// After `count` cleanups left the pending set to be executed.
    pub open spec fn after_cleanups_taken(self, count: usize) -> OwnershipStats {
        OwnershipStats {
            cleanup_registrations: crate::stats::floor_usize(self.cleanup_registrations, count),
            cleanups_run: crate::stats::sat_u64(self.cleanups_run, count as u64),
            ..self
        }
    }

    /// After a cleanup ran without ever being pending.
    pub open spec fn after_cleanup_run_immediately(self) -> OwnershipStats {
        OwnershipStats {
            cleanups_registered: crate::stats::sat_u64(self.cleanups_registered, 1),
            cleanups_run: crate::stats::sat_u64(self.cleanups_run, 1),
            ..self
        }
    }

    /// After a child was adopted.
    pub open spec fn after_child_adopted(self) -> OwnershipStats {
        OwnershipStats { owned_children: crate::stats::sat_usize(self.owned_children, 1), ..self }
    }

    /// After `count` children were taken to be disposed.
    pub open spec fn after_children_taken(self, count: usize) -> OwnershipStats {
        OwnershipStats {
            owned_children: crate::stats::floor_usize(self.owned_children, count),
            ..self
        }
    }

    /// Returns `true` when nothing is retained: no live owners, registrations or children.
    pub fn is_empty(&self) -> (empty: bool)
        ensures
            empty == (self.live_owners == 0 && self.cleanup_registrations == 0
                && self.owned_children == 0),
    {
        self.live_owners == 0 && self.cleanup_registrations == 0 && self.owned_children == 0
    }

    /// Records an owner frame being created.
    pub fn owner_created(&mut self)
        ensures
            *final(self) == old(self).after_owner_created(),
    {
        self.live_owners = self.live_owners.saturating_add(1);
        self.owners_created = self.owners_created.saturating_add(1);
    }

    /// Records an owner frame going away.
    pub fn owner_released(&mut self)
        ensures
            *final(self) == old(self).after_owner_released(),
    {
        self.live_owners = self.live_owners.saturating_sub(1);
    }

    /// Records an owner being terminally disposed.
    pub fn owner_disposed(&mut self)
        ensures
            *final(self) == old(self).after_owner_disposed(),
    {
        self.owners_disposed = self.owners_disposed.saturating_add(1);
    }

    /// Records a cleanup being registered.
    pub fn cleanup_registered(&mut self)
        ensures
            *final(self) == old(self).after_cleanup_registered(),
    {
        self.cleanup_registrations = self.cleanup_registrations.saturating_add(1);
        self.cleanups_registered = self.cleanups_registered.saturating_add(1);
    }

    /// Records `count` cleanups leaving the pending set to be executed.
    pub fn cleanups_taken(&mut self, count: usize)
        ensures
            *final(self) == old(self).after_cleanups_taken(count),
    {
        self.cleanup_registrations = self.cleanup_registrations.saturating_sub(count);
        self.cleanups_run = self.cleanups_run.saturating_add(count as u64);
    }

    /// Records a cleanup that ran without ever being pending: it was registered against an owner
    /// that was already disposed.
    pub fn cleanup_run_immediately(&mut self)
        ensures
            *final(self) == old(self).after_cleanup_run_immediately(),
    {
        self.cleanups_registered = self.cleanups_registered.saturating_add(1);
        self.cleanups_run = self.cleanups_run.saturating_add(1);
    }

    /// Records a child being adopted.
    pub fn child_adopted(&mut self)
        ensures
            *final(self) == old(self).after_child_adopted(),
    {
        self.owned_children = self.owned_children.saturating_add(1);
    }

    /// Records `count` children being taken to be disposed.
    pub fn children_taken(&mut self, count: usize)
        ensures
            *final(self) == old(self).after_children_taken(count),
    {
        self.owned_children = self.owned_children.saturating_sub(count);
    }
}

impl Default for OwnershipStats {
    fn default() -> (stats: Self)
        ensures
            stats == OwnershipStats::zero(),
    {
        OwnershipStats {
            live_owners: 0,
            cleanup_registrations: 0,
            owned_children: 0,
            owners_created: 0,
            owners_disposed: 0,
            cleanups_registered: 0,
            cleanups_run: 0,
        }
    }
}

/// A gauge in [`OwnershipStats`] that the audit can check against the live owner tree.
#[derive(Clone, Copy, Debug, Eq, Hash, Ord, PartialEq, PartialOrd, Structural)]
pub enum OwnershipGauge {
    /// [`OwnershipStats::live_owners`].
    LiveOwners,
    /// [`OwnershipStats::cleanup_registrations`].
    CleanupRegistrations,
    /// [`OwnershipStats::owned_children`].
    OwnedChildren,
}

/// A disagreement between a maintained gauge and the live owner tree.
#[derive(Clone, Copy, Debug, Eq, Hash, Ord, PartialEq, PartialOrd, Structural)]
pub struct OwnershipDrift {
    /// Which gauge disagreed.
    pub gauge: OwnershipGauge,
    /// What the maintained counter says.
    pub reported: usize,
    /// What walking the live owner frames says.
    pub actual: usize,
}

/// The outcome of an audit.
///
/// Three states, because the difference between "nothing is wrong" and "this owner tree cannot
/// tell you" must not be expressible as the same value.
#[derive(Debug, Eq, PartialEq)]
pub enum OwnershipAudit {
    /// No registry to walk, so the gauges cannot be checked.
    Unavailable,
    /// Every gauge agrees with the live owner tree.
    Consistent,
    /// At least one gauge disagrees. Never empty.
    Drifted(Vec<OwnershipDrift>),
}

/// The disagreement of one gauge, as a list with one entry or none.
pub open spec fn drift_of(gauge: OwnershipGauge, reported: usize, actual: usize) -> Seq<
    OwnershipDrift,
> {
    if reported != actual {
        seq![OwnershipDrift { gauge, reported, actual }]
    } else {
        Seq::empty()
    }
}

/// The disagreements between the gauges and what a walk of the tree counted, in the order of the
/// gauges.
pub open spec fn drifts(
    stats: OwnershipStats,
    owners: usize,
    cleanups: usize,
    children: usize,
) -> Seq<OwnershipDrift> {
    drift_of(OwnershipGauge::LiveOwners, stats.live_owners, owners) + drift_of(
        OwnershipGauge::CleanupRegistrations,
        stats.cleanup_registrations,
        cleanups,
    ) + drift_of(OwnershipGauge::OwnedChildren, stats.owned_children, children)
}

/// Compares one gauge with the walk, and notes a disagreement.
fn compare(drift: &mut Vec<OwnershipDrift>, gauge: OwnershipGauge, reported: usize, actual: usize)
    ensures
        final(drift)@ == old(drift)@ + drift_of(gauge, reported, actual),
{
    if reported != actual {
        drift.push(OwnershipDrift { gauge, reported, actual });
    }
    assert(drift@ =~= old(drift)@ + drift_of(gauge, reported, actual));
}

/// Holds the gauges against what a walk of the live owner tree counted.
pub fn audit_counts(
    stats: &OwnershipStats,
    owners: usize,
    cleanups: usize,
    children: usize,
) -> (audit: OwnershipAudit)
    ensures
        audit !is Unavailable,
        audit is Consistent <==> drifts(*stats, owners, cleanups, children).len() == 0,
        audit matches OwnershipAudit::Drifted(drift) ==> drift@ == drifts(
            *stats,
            owners,
            cleanups,
            children,
        ),
{
    let mut drift: Vec<OwnershipDrift> = Vec::new();
    compare(&mut drift, OwnershipGauge::LiveOwners, stats.live_owners, owners);
    compare(
        &mut drift,
        OwnershipGauge::CleanupRegistrations,
        stats.cleanup_registrations,
        cleanups,
    );
    compare(&mut drift, OwnershipGauge::OwnedChildren, stats.owned_children, children);
    assert(drift@ =~= drifts(*stats, owners, cleanups, children));
    if drift.len() == 0 {
        OwnershipAudit::Consistent
    } else {
        OwnershipAudit::Drifted(drift)
    }
}

} // verus!
