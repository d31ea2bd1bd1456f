//! What a reactor reports about itself: identities, node kinds and causality events.
use vstd::prelude::*;

use crate::id::{Location, NodeId};
use crate::stats::FlushStats;

verus! {

/// Stable identifier for one reactive graph during the process lifetime.
///
/// [`NodeId`] values are unique only within a reactor, so a consumer that aggregates several
/// graphs uses the pair of both.
#[derive(Clone, Copy, Debug, Eq, Hash, Ord, PartialEq, PartialOrd, Structural)]
pub struct ReactorId(pub u64);

impl ReactorId {
    /// Returns the process-local numeric identifier.
    pub fn get(self) -> (raw: u64)
        ensures
            raw == self.0,
    {
        self.0
    }
}

/// The primitive a reactive node was created as.
///
/// The kind is declared at construction, not inferred from behaviour.
#[derive(Clone, Copy, Debug, Eq, Hash, Ord, PartialEq, PartialOrd, Structural)]
pub enum NodeKind {
    /// A bare dependency node with no value of its own.
    Source,
    /// A mutable value.
    Signal,
    /// A multicast value stream.
    Event,
    /// A cached computation that invalidates on every recomputation.
    Thunk,
    /// A cached computation whose comparator can suppress propagation.
    Memo,
    /// A scheduled side effect.
    Effect,
}

impl NodeKind {
    /// Number of kinds currently defined.
    pub const COUNT: usize = 6;

    /// The position of a kind in the dense per-kind order.
    pub open spec fn position(self) -> int {
        match self {
            NodeKind::Source => 0,
            NodeKind::Signal => 1,
            NodeKind::Event => 2,
            NodeKind::Thunk => 3,
            NodeKind::Memo => 4,
            NodeKind::Effect => 5,
        }
    }

    /// Returns every kind, in the dense per-kind order: each kind stands at its own position, and
    /// nothing else is listed.
    pub fn all() -> (kinds: Vec<NodeKind>)
        ensures
            kinds@.len() == NodeKind::COUNT,
            forall|kind: NodeKind| #[trigger] kinds@[kind.position()] == kind,
            kinds@.no_duplicates(),
    {
        let kinds = vec![
            NodeKind::Source,
            NodeKind::Signal,
            NodeKind::Event,
            NodeKind::Thunk,
            NodeKind::Memo,
            NodeKind::Effect,
        ];
        kinds
    }

    /// Dense index into the per-kind counter arrays.
    pub fn index(self) -> (index: usize)
        ensures
            index == self.position(),
            index < NodeKind::COUNT,
    {
        match self {
            NodeKind::Source => 0,
            NodeKind::Signal => 1,
            NodeKind::Event => 2,
            NodeKind::Thunk => 3,
            NodeKind::Memo => 4,
            NodeKind::Effect => 5,
        }
    }
}

/// The dense per-kind order gives every kind a place of its own below the number of kinds.
pub proof fn kinds_have_distinct_positions(left: NodeKind, right: NodeKind)
    ensures
        0 <= left.position() < NodeKind::COUNT,
        left.position() == right.position() ==> left == right,
{
}

/// Root mutation that caused reactive invalidation.
#[derive(Clone, Copy, Debug, Eq, PartialEq)]
pub struct InvalidationCause {
    /// Source node whose version changed.
    pub node: NodeId,
    /// Source node version after the write.
    pub version: u64,
    /// Location at which the source node was created.
    pub node_origin: Location,
    /// Location of the write or explicit trigger.
    pub write_origin: Location,
}

/// How a computed node's recomputation ended.
#[derive(Clone, Copy, Debug, Eq, PartialEq, Structural)]
pub enum ComputeOutcome {
    /// The computation returned a value.
    Completed,
    /// The computation unwound. The node keeps its stale mark and the next read retries.
    Panicked,
}

/// Strength of an invalidation propagated to an observer.
#[derive(Clone, Copy, Debug, Eq, PartialEq, Structural)]
pub enum InvalidationLevel {
    /// A computed dependency may have changed and must be verified.
    Check,
    /// A direct dependency definitely changed.
    Dirty,
}

/// Opt-in event stream for explaining reactive scheduling.
#[derive(Clone, Copy, Debug, Eq, PartialEq)]
pub enum DiagnosticEvent {
    /// A reactive node was allocated.
    NodeCreated { reactor: ReactorId, node: NodeId, kind: NodeKind, origin: Location },
    /// A reactive node was removed from the graph and will never participate again.
    NodeDisposed {
        reactor: ReactorId,
        node: NodeId,
        kind: NodeKind,
        origin: Location,
        /// Edges this node recorded on its inputs at the moment of disposal.
        dependencies: usize,
        /// Observers still recording an edge on this node at the moment of disposal.
        observers: usize,
    },
    /// A write to a source node was suppressed because the value had not changed.
    WriteSuppressed {
        reactor: ReactorId,
        node: NodeId,
        kind: NodeKind,
        node_origin: Location,
        /// Location of the write that was discarded.
        write_origin: Location,
    },
    /// A source node changed.
    ReactiveWrite { reactor: ReactorId, kind: NodeKind, cause: InvalidationCause },
    /// A root mutation reached a computed node.
    ComputedInvalidated {
        reactor: ReactorId,
        node: NodeId,
        kind: NodeKind,
        node_origin: Location,
        cause: InvalidationCause,
        level: InvalidationLevel,
        /// Flush in progress when the mark was delivered, or the most recent one.
        flush_epoch: u64,
        /// Whether this mark actually made the node staler.
        state_changed: bool,
    },
    /// A check-marked computed node verified its inputs.
    ComputedVerified {
        reactor: ReactorId,
        node: NodeId,
        kind: NodeKind,
        node_origin: Location,
        flush_epoch: u64,
        /// Whether verification found a changed input and forced a recomputation.
        recomputed: bool,
    },
    /// A computed node's computation is about to run.
    ComputedRecomputeStarted {
        reactor: ReactorId,
        node: NodeId,
        kind: NodeKind,
        node_origin: Location,
        flush_epoch: u64,
        /// Dependencies recorded by the previous run.
        dependencies_before: usize,
    },
    /// A computed node's computation returned or unwound.
    ComputedRecomputeFinished {
        reactor: ReactorId,
        node: NodeId,
        kind: NodeKind,
        node_origin: Location,
        flush_epoch: u64,
        /// Dependencies recorded by this run.
        dependencies_after: usize,
        /// Whether the new value propagated.
        changed: bool,
        /// How the computation ended.
        outcome: ComputeOutcome,
    },
    /// A root mutation reached an effect, directly or through computed nodes.
    EffectInvalidated {
        reactor: ReactorId,
        effect: NodeId,
        effect_origin: Location,
        cause: InvalidationCause,
        level: InvalidationLevel,
    },
    /// An attempt to place an effect in the next reactive flush.
    EffectScheduled {
        reactor: ReactorId,
        effect: NodeId,
        effect_origin: Location,
        /// `true` when a new run was queued; `false` when an existing one absorbed this request.
        queued: bool,
        flush_epoch: u64,
    },
    /// An effect body is about to execute.
    EffectRunStarted {
        reactor: ReactorId,
        effect: NodeId,
        effect_origin: Location,
        flush_epoch: u64,
    },
    /// An effect body returned or unwound.
    EffectRunFinished { reactor: ReactorId, effect: NodeId, flush_epoch: u64 },
    /// Verification proved that a check-marked effect did not need to run.
    EffectRunSkipped { reactor: ReactorId, effect: NodeId, flush_epoch: u64 },
    /// An effect was disposed and will never run again.
    EffectDisposed { reactor: ReactorId, effect: NodeId },
    /// A reactor began draining its queued jobs.
    FlushStarted { reactor: ReactorId, flush_epoch: u64, pending_jobs: usize },
    /// A reactor stopped draining jobs, including unwind paths.
    FlushFinished {
        reactor: ReactorId,
        flush_epoch: u64,
        /// Jobs still pending when the flush ended.
        remaining_jobs: usize,
        /// What this flush did.
        stats: FlushStats,
    },
}

impl DiagnosticEvent {
    /// The graph an event describes: the field of that name, which every variant carries.
    pub open spec fn graph(self) -> ReactorId {
        match self {
            DiagnosticEvent::NodeCreated { reactor, .. } => reactor,
            DiagnosticEvent::NodeDisposed { reactor, .. } => reactor,
            DiagnosticEvent::WriteSuppressed { reactor, .. } => reactor,
            DiagnosticEvent::ReactiveWrite { reactor, .. } => reactor,
            DiagnosticEvent::ComputedInvalidated { reactor, .. } => reactor,
            DiagnosticEvent::ComputedVerified { reactor, .. } => reactor,
            DiagnosticEvent::ComputedRecomputeStarted { reactor, .. } => reactor,
            DiagnosticEvent::ComputedRecomputeFinished { reactor, .. } => reactor,
            DiagnosticEvent::EffectInvalidated { reactor, .. } => reactor,
            DiagnosticEvent::EffectScheduled { reactor, .. } => reactor,
            DiagnosticEvent::EffectRunStarted { reactor, .. } => reactor,
            DiagnosticEvent::EffectRunFinished { reactor, .. } => reactor,
            DiagnosticEvent::EffectRunSkipped { reactor, .. } => reactor,
            DiagnosticEvent::EffectDisposed { reactor, .. } => reactor,
            DiagnosticEvent::FlushStarted { reactor, .. } => reactor,
            DiagnosticEvent::FlushFinished { reactor, .. } => reactor,
        }
    }

    /// The node an event concerns. The flush boundaries concern the whole graph.
    pub open spec fn subject(self) -> Option<NodeId> {
        match self {
            DiagnosticEvent::NodeCreated { node, .. } => Some(node),
            DiagnosticEvent::NodeDisposed { node, .. } => Some(node),
            DiagnosticEvent::WriteSuppressed { node, .. } => Some(node),
            DiagnosticEvent::ReactiveWrite { cause, .. } => Some(cause.node),
            DiagnosticEvent::ComputedInvalidated { node, .. } => Some(node),
            DiagnosticEvent::ComputedVerified { node, .. } => Some(node),
            DiagnosticEvent::ComputedRecomputeStarted { node, .. } => Some(node),
            DiagnosticEvent::ComputedRecomputeFinished { node, .. } => Some(node),
            DiagnosticEvent::EffectInvalidated { effect, .. } => Some(effect),
            DiagnosticEvent::EffectScheduled { effect, .. } => Some(effect),
            DiagnosticEvent::EffectRunStarted { effect, .. } => Some(effect),
            DiagnosticEvent::EffectRunFinished { effect, .. } => Some(effect),
            DiagnosticEvent::EffectRunSkipped { effect, .. } => Some(effect),
            DiagnosticEvent::EffectDisposed { effect, .. } => Some(effect),
            DiagnosticEvent::FlushStarted { .. } => None,
            DiagnosticEvent::FlushFinished { .. } => None,
        }
    }

    /// The creation site of the node an event concerns, where the event carries it.
    pub open spec fn creation_site(self) -> Option<Location> {
        match self {
            DiagnosticEvent::NodeCreated { origin, .. } => Some(origin),
            DiagnosticEvent::NodeDisposed { origin, .. } => Some(origin),
            DiagnosticEvent::WriteSuppressed { node_origin, .. } => Some(node_origin),
            DiagnosticEvent::ReactiveWrite { cause, .. } => Some(cause.node_origin),
            DiagnosticEvent::ComputedInvalidated { node_origin, .. } => Some(node_origin),
            DiagnosticEvent::ComputedVerified { node_origin, .. } => Some(node_origin),
            DiagnosticEvent::ComputedRecomputeStarted { node_origin, .. } => Some(node_origin),
            DiagnosticEvent::ComputedRecomputeFinished { node_origin, .. } => Some(node_origin),
            DiagnosticEvent::EffectInvalidated { effect_origin, .. } => Some(effect_origin),
            DiagnosticEvent::EffectScheduled { effect_origin, .. } => Some(effect_origin),
            DiagnosticEvent::EffectRunStarted { effect_origin, .. } => Some(effect_origin),
            _ => None,
        }
    }

    /// The flush an event is part of. Creation, disposal, writes and the marks that a write
    /// delivers are no flush's work, even where the event says which flush was open.
    pub open spec fn flush(self) -> Option<u64> {
        match self {
            DiagnosticEvent::ComputedVerified { flush_epoch, .. } => Some(flush_epoch),
            DiagnosticEvent::ComputedRecomputeStarted { flush_epoch, .. } => Some(flush_epoch),
            DiagnosticEvent::ComputedRecomputeFinished { flush_epoch, .. } => Some(flush_epoch),
            DiagnosticEvent::EffectScheduled { flush_epoch, .. } => Some(flush_epoch),
            DiagnosticEvent::EffectRunStarted { flush_epoch, .. } => Some(flush_epoch),
            DiagnosticEvent::EffectRunFinished { flush_epoch, .. } => Some(flush_epoch),
            DiagnosticEvent::EffectRunSkipped { flush_epoch, .. } => Some(flush_epoch),
            DiagnosticEvent::FlushStarted { flush_epoch, .. } => Some(flush_epoch),
            DiagnosticEvent::FlushFinished { flush_epoch, .. } => Some(flush_epoch),
            _ => None,
        }
    }

    /// Returns the graph this event describes.
    pub fn reactor(&self) -> (reactor: ReactorId)
        ensures
            reactor == self.graph(),
    {
        match *self {
            DiagnosticEvent::NodeCreated { reactor, .. }
            | DiagnosticEvent::NodeDisposed { reactor, .. }
            | DiagnosticEvent::WriteSuppressed { reactor, .. }
            | DiagnosticEvent::ReactiveWrite { reactor, .. }
            | DiagnosticEvent::ComputedInvalidated { reactor, .. }
            | DiagnosticEvent::ComputedVerified { reactor, .. }
            | DiagnosticEvent::ComputedRecomputeStarted { reactor, .. }
            | DiagnosticEvent::ComputedRecomputeFinished { reactor, .. }
            | DiagnosticEvent::EffectInvalidated { reactor, .. }
            | DiagnosticEvent::EffectScheduled { reactor, .. }
            | DiagnosticEvent::EffectRunStarted { reactor, .. }
            | DiagnosticEvent::EffectRunFinished { reactor, .. }
            | DiagnosticEvent::EffectRunSkipped { reactor, .. }
            | DiagnosticEvent::EffectDisposed { reactor, .. }
            | DiagnosticEvent::FlushStarted { reactor, .. }
            | DiagnosticEvent::FlushFinished { reactor, .. } => reactor,
        }
    }

    /// Returns the node this event concerns, or `None` for the flush boundaries.
    pub fn node(&self) -> (node: Option<NodeId>)
        ensures
            node == self.subject(),
    {
        match *self {
            DiagnosticEvent::NodeCreated { node, .. }
            | DiagnosticEvent::NodeDisposed { node, .. }
            | DiagnosticEvent::WriteSuppressed { node, .. }
            | DiagnosticEvent::ComputedInvalidated { node, .. }
            | DiagnosticEvent::ComputedVerified { node, .. }
            | DiagnosticEvent::ComputedRecomputeStarted { node, .. }
            | DiagnosticEvent::ComputedRecomputeFinished { node, .. } => Some(node),
            DiagnosticEvent::ReactiveWrite { cause, .. } => Some(cause.node),
            DiagnosticEvent::EffectInvalidated { effect, .. }
            | DiagnosticEvent::EffectScheduled { effect, .. }
            | DiagnosticEvent::EffectRunStarted { effect, .. }
            | DiagnosticEvent::EffectRunFinished { effect, .. }
            | DiagnosticEvent::EffectRunSkipped { effect, .. }
            | DiagnosticEvent::EffectDisposed { effect, .. } => Some(effect),
            DiagnosticEvent::FlushStarted { .. } | DiagnosticEvent::FlushFinished { .. } => None,
        }
    }

    /// Returns where the node this event concerns was created, when the event carries it.
    pub fn node_origin(&self) -> (origin: Option<Location>)
        ensures
            origin == self.creation_site(),
    {
        match *self {
            DiagnosticEvent::NodeCreated { origin, .. }
            | DiagnosticEvent::NodeDisposed { origin, .. } => Some(origin),
            DiagnosticEvent::WriteSuppressed { node_origin, .. }
            | DiagnosticEvent::ComputedInvalidated { node_origin, .. }
            | DiagnosticEvent::ComputedVerified { node_origin, .. }
            | DiagnosticEvent::ComputedRecomputeStarted { node_origin, .. }
            | DiagnosticEvent::ComputedRecomputeFinished { node_origin, .. } => Some(node_origin),
            DiagnosticEvent::ReactiveWrite { cause, .. } => Some(cause.node_origin),
            DiagnosticEvent::EffectInvalidated { effect_origin, .. }
            | DiagnosticEvent::EffectScheduled { effect_origin, .. }
            | DiagnosticEvent::EffectRunStarted { effect_origin, .. } => Some(effect_origin),
            DiagnosticEvent::EffectRunFinished { .. }
            | DiagnosticEvent::EffectRunSkipped { .. }
            | DiagnosticEvent::EffectDisposed { .. }
            | DiagnosticEvent::FlushStarted { .. }
            | DiagnosticEvent::FlushFinished { .. } => None,
        }
    }

    /// Returns the flush this event belongs to, when it belongs to one.
    pub fn flush_epoch(&self) -> (epoch: Option<u64>)
        ensures
            epoch == self.flush(),
    {
        match *self {
            DiagnosticEvent::ComputedVerified { flush_epoch, .. }
            | DiagnosticEvent::ComputedRecomputeStarted { flush_epoch, .. }
            | DiagnosticEvent::ComputedRecomputeFinished { flush_epoch, .. }
            | DiagnosticEvent::EffectScheduled { flush_epoch, .. }
            | DiagnosticEvent::EffectRunStarted { flush_epoch, .. }
            | DiagnosticEvent::EffectRunFinished { flush_epoch, .. }
            | DiagnosticEvent::EffectRunSkipped { flush_epoch, .. }
            | DiagnosticEvent::FlushStarted { flush_epoch, .. }
            | DiagnosticEvent::FlushFinished { flush_epoch, .. } => Some(flush_epoch),
            DiagnosticEvent::NodeCreated { .. }
            | DiagnosticEvent::NodeDisposed { .. }
            | DiagnosticEvent::WriteSuppressed { .. }
            | DiagnosticEvent::ReactiveWrite { .. }
            | DiagnosticEvent::ComputedInvalidated { .. }
            | DiagnosticEvent::EffectInvalidated { .. }
            | DiagnosticEvent::EffectDisposed { .. } => None,
        }
    }
}

/// Keeps a diagnostic subscription to one reactor.
///
/// Handing it back to the reactor unsubscribes. Cloning is deliberately unsupported so that a
/// subscription has one unambiguous owner.
#[must_use]
#[derive(Debug)]
pub struct DiagnosticSubscription {
    token: u64,
}

impl DiagnosticSubscription {
    /// The token under which the reactor knows the subscription.
    pub closed spec fn key(self) -> u64 {
        self.token
    }

    /// Wraps the token under which a reactor knows the subscription.
    pub fn new(token: u64) -> (subscription: Self)
        ensures
            subscription.key() == token,
    {
        DiagnosticSubscription { token }
    }

    /// Returns the token under which the reactor knows the subscription.
    pub fn token(&self) -> (token: u64)
        ensures
            token == self.key(),
    {
        self.token
    }
}

} // verus!
