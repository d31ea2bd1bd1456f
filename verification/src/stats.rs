//! Graph accounting: what a reactor is holding, and how much of it it has held.
//!
//! The counts are maintained as the graph changes, so a snapshot is a handful of loads.
use vstd::prelude::*;

use crate::diagnostics::{NodeKind, ReactorId};
use crate::observers::Mark;

verus! {

/// How many node kinds the per-kind counters tell apart.
pub const KIND_SLOTS: usize = 6;

/// `a + n`, stopped at the largest value.
pub open spec fn sat_usize(a: usize, n: usize) -> usize {
    if a + n > usize::MAX {
        usize::MAX
    } else {
        (a + n) as usize
    }
}

/// `a + n`, stopped at the largest value.
pub open spec fn sat_u64(a: u64, n: u64) -> u64 {
    if a + n > u64::MAX {
        u64::MAX
    } else {
        (a + n) as u64
    }
}

/// `a + n`, stopped at the largest value.
pub open spec fn sat_u32(a: u32, n: u32) -> u32 {
    if a + n > u32::MAX {
        u32::MAX
    } else {
        (a + n) as u32
    }
}

/// `a - n`, stopped at zero.
pub open spec fn floor_usize(a: usize, n: usize) -> usize {
    if a < n {
        0
    } else {
        (a - n) as usize
    }
}

/// The larger of two counts.
pub open spec fn max_usize(a: usize, b: usize) -> usize {
    if a < b {
        b
    } else {
        a
    }
}

/// A point-in-time account of one reactor's graph.
#[derive(Clone, Copy, Debug, Eq, PartialEq)]
pub struct GraphStats {
    /// Graph these numbers describe.
    pub reactor: ReactorId,
    /// Nodes currently live.
    pub live_nodes: usize,
    /// Logical dependency edges currently recorded.
    pub live_edges: usize,
    /// Nodes with at least one observer.
    pub observed_nodes: usize,
    /// Effects with a run pending: scheduled and neither run nor discarded.
    pub queued_effects: usize,
    /// Jobs waiting in the reactor's own queue.
    pub pending_jobs: usize,
    /// Nesting depth of flushes currently open.
    pub flush_depth: u32,
    /// Most recently opened flush number. Zero means no flush has run yet.
    pub flush_epoch: u64,
    /// Highest number of live nodes reached.
    pub peak_nodes: usize,
    /// Highest number of live edges reached.
    pub peak_edges: usize,
    /// Highest number of pending jobs reached.
    pub peak_pending_jobs: usize,
    /// Nodes allocated over this reactor's life.
    pub nodes_created: u64,
    /// Nodes disposed over this reactor's life.
    pub nodes_disposed: u64,
    /// Dependency edges recorded over this reactor's life.
    pub edges_added: u64,
    /// Dependency edges retracted over this reactor's life.
    pub edges_removed: u64,
    /// Flushes opened over this reactor's life, including nested ones.
    pub flushes: u64,
    /// Live nodes of each kind, in the dense per-kind order; read one with
    /// [`live_nodes_of_kind`](Self::live_nodes_of_kind).
    pub live_nodes_by_kind: [usize; KIND_SLOTS],
}

/// How many nodes of all kinds together a dense per-kind list counts.
pub open spec fn over_all_kinds(by_kind: Seq<usize>) -> int {
    by_kind[NodeKind::Source.position()] + by_kind[NodeKind::Signal.position()]
        + by_kind[NodeKind::Event.position()] + by_kind[NodeKind::Thunk.position()]
        + by_kind[NodeKind::Memo.position()] + by_kind[NodeKind::Effect.position()]
}

impl GraphStats {
    /// The live nodes of each kind, in the dense per-kind order.
    pub open spec fn by_kind(self) -> Seq<usize> {
        self.live_nodes_by_kind@
    }

    /// Returns how many live nodes were created as `kind`.
    pub fn live_nodes_of_kind(&self, kind: NodeKind) -> (count: usize)
        ensures
            count == self.by_kind()[kind.position()],
    {
        self.live_nodes_by_kind[kind.index()]
    }
}

/// What one flush did.
///
/// Work is attributed to the next flush that closes, and counted exactly once.
#[derive(Clone, Copy, Debug, Eq, PartialEq)]
pub struct FlushStats {
    /// Writes and explicit triggers on source nodes that reached the graph.
    pub root_writes: u32,
    /// Writes discarded by a source's own equality check before reaching the graph.
    pub writes_suppressed: u32,
    /// Marks delivered to observers saying a computed input may have changed.
    pub nodes_marked_check: u32,
    /// Marks delivered to observers saying a direct dependency definitely changed.
    pub nodes_marked_dirty: u32,
    /// Deepest chain of marking walked in one propagation.
    pub max_propagation_depth: u32,
    /// Effects that acquired a pending run.
    pub effects_queued: u32,
    /// Invalidations absorbed by an effect that already had a run pending.
    pub effects_coalesced: u32,
    /// Effect bodies executed.
    pub effects_run: u32,
    /// Effects whose verification proved their inputs unchanged, so the body was skipped.
    pub effects_skipped: u32,
    /// Effects disposed.
    pub effects_disposed: u32,
    /// Effects still holding a pending run when the flush closed.
    pub effects_pending: u32,
    /// Check-marked computed nodes that verified their inputs.
    pub computed_verified: u32,
    /// Computations that ran.
    pub computed_recomputed: u32,
    /// Computations that published a new value.
    pub computed_changed: u32,
    /// Computations whose comparator judged the value unchanged.
    pub computed_suppressed: u32,
    /// Dependency edges recorded.
    pub edges_added: u32,
    /// Dependency edges retracted.
    pub edges_removed: u32,
    /// Jobs queued when the flush opened.
    pub jobs_at_start: u32,
    /// Jobs still queued when the flush closed.
    pub jobs_at_finish: u32,
}

/// One unit of work that a flush accounts for.
#[derive(Clone, Copy, Debug)]
pub enum FlushItem {
    /// A write or trigger reached the graph.
    RootWrite,
    /// A write was discarded by its source's equality check.
    WriteSuppressed,
    /// A mark was delivered to a live observer, `depth` steps from the root write.
    Marked { mark: Mark, depth: u32 },
    /// An effect acquired a pending run.
    EffectQueued,
    /// An effect absorbed an invalidation.
    EffectCoalesced,
    /// An effect body ran.
    EffectRun,
    /// An effect proved its inputs unchanged.
    EffectSkipped,
    /// An effect was disposed.
    EffectDisposed,
    /// A computed node verified its inputs.
    ComputedVerified,
    /// A computation ran.
    ComputedRecomputed,
    /// A computation published a new value.
    ComputedChanged,
    /// A computation's value was judged unchanged.
    ComputedSuppressed,
    /// A dependency edge was recorded.
    EdgeAdded,
    /// This many dependency edges were retracted at once.
    EdgesRemoved { count: usize },
}

impl FlushStats {
    /// The totals of a flush that did nothing.
    pub open spec fn zero() -> FlushStats {
        FlushStats {
            root_writes: 0,
            writes_suppressed: 0,
            nodes_marked_check: 0,
            nodes_marked_dirty: 0,
            max_propagation_depth: 0,
            effects_queued: 0,
            effects_coalesced: 0,
            effects_run: 0,
            effects_skipped: 0,
            effects_disposed: 0,
            effects_pending: 0,
            computed_verified: 0,
            computed_recomputed: 0,
            computed_changed: 0,
            computed_suppressed: 0,
            edges_added: 0,
            edges_removed: 0,
            jobs_at_start: 0,
            jobs_at_finish: 0,
        }
    }

    /// These totals with one more unit of work counted.
    pub open spec fn with(self, item: FlushItem) -> FlushStats {
        match item {
            FlushItem::RootWrite => FlushStats { root_writes: sat_u32(self.root_writes, 1), ..self },
            FlushItem::WriteSuppressed => FlushStats {
                writes_suppressed: sat_u32(self.writes_suppressed, 1),
                ..self
            },
            FlushItem::Marked { mark, depth } => {
                let deepest = if self.max_propagation_depth < depth {
                    depth
                } else {
                    self.max_propagation_depth
                };
                match mark {
                    Mark::Check => FlushStats {
                        nodes_marked_check: sat_u32(self.nodes_marked_check, 1),
                        max_propagation_depth: deepest,
                        ..self
                    },
                    Mark::Dirty => FlushStats {
                        nodes_marked_dirty: sat_u32(self.nodes_marked_dirty, 1),
                        max_propagation_depth: deepest,
                        ..self
                    },
                }
            },
            FlushItem::EffectQueued => FlushStats {
                effects_queued: sat_u32(self.effects_queued, 1),
                ..self
            },
            FlushItem::EffectCoalesced => FlushStats {
                effects_coalesced: sat_u32(self.effects_coalesced, 1),
                ..self
            },
            FlushItem::EffectRun => FlushStats { effects_run: sat_u32(self.effects_run, 1), ..self },
            FlushItem::EffectSkipped => FlushStats {
                effects_skipped: sat_u32(self.effects_skipped, 1),
                ..self
            },
            FlushItem::EffectDisposed => FlushStats {
                effects_disposed: sat_u32(self.effects_disposed, 1),
                ..self
            },
            FlushItem::ComputedVerified => FlushStats {
                computed_verified: sat_u32(self.computed_verified, 1),
                ..self
            },
            FlushItem::ComputedRecomputed => FlushStats {
                computed_recomputed: sat_u32(self.computed_recomputed, 1),
                ..self
            },
            FlushItem::ComputedChanged => FlushStats {
                computed_changed: sat_u32(self.computed_changed, 1),
                ..self
            },
            FlushItem::ComputedSuppressed => FlushStats {
                computed_suppressed: sat_u32(self.computed_suppressed, 1),
                ..self
            },
            FlushItem::EdgeAdded => FlushStats { edges_added: sat_u32(self.edges_added, 1), ..self },
            FlushItem::EdgesRemoved { count } => FlushStats {
                edges_removed: sat_u32(self.edges_removed, count as u32),
                ..self
            },
        }
    }

    /// Nothing that a flush does is counted in these totals.
    pub open spec fn idle(self) -> bool {
        &&& self.root_writes == 0
        &&& self.writes_suppressed == 0
        &&& self.nodes_marked_check == 0
        &&& self.nodes_marked_dirty == 0
        &&& self.effects_queued == 0
        &&& self.effects_coalesced == 0
        &&& self.effects_run == 0
        &&& self.effects_skipped == 0
        &&& self.effects_disposed == 0
        &&& self.computed_verified == 0
        &&& self.computed_recomputed == 0
        &&& self.edges_added == 0
        &&& self.edges_removed == 0
    }

    /// Returns `true` when the flush did no reactive work at all.
    ///
    /// Ignores `jobs_at_start`, `jobs_at_finish` and `effects_pending`, which describe outstanding
    /// state rather than work this flush did.
    pub fn is_empty(&self) -> (empty: bool)
        ensures
            empty == self.idle(),
    {
        self.root_writes == 0
            && self.writes_suppressed == 0
            && self.nodes_marked_check == 0
            && self.nodes_marked_dirty == 0
            && self.effects_queued == 0
            && self.effects_coalesced == 0
            && self.effects_run == 0
            && self.effects_skipped == 0
            && self.effects_disposed == 0
            && self.computed_verified == 0
            && self.computed_recomputed == 0
            && self.edges_added == 0
            && self.edges_removed == 0
    }

    fn tally(&mut self, item: FlushItem)
        ensures
            *final(self) == old(self).with(item),
    {
        match item {
            FlushItem::RootWrite => {
                self.root_writes = self.root_writes.saturating_add(1);
            },
            FlushItem::WriteSuppressed => {
                self.writes_suppressed = self.writes_suppressed.saturating_add(1);
            },
            FlushItem::Marked { mark, depth } => {
                match mark {
                    Mark::Check => {
                        self.nodes_marked_check = self.nodes_marked_check.saturating_add(1);
                    },
                    Mark::Dirty => {
                        self.nodes_marked_dirty = self.nodes_marked_dirty.saturating_add(1);
                    },
                }
                if self.max_propagation_depth < depth {
                    self.max_propagation_depth = depth;
                }
            },
            FlushItem::EffectQueued => {
                self.effects_queued = self.effects_queued.saturating_add(1);
            },
            FlushItem::EffectCoalesced => {
                self.effects_coalesced = self.effects_coalesced.saturating_add(1);
            },
            FlushItem::EffectRun => {
                self.effects_run = self.effects_run.saturating_add(1);
            },
            FlushItem::EffectSkipped => {
                self.effects_skipped = self.effects_skipped.saturating_add(1);
            },
            FlushItem::EffectDisposed => {
                self.effects_disposed = self.effects_disposed.saturating_add(1);
            },
            FlushItem::ComputedVerified => {
                self.computed_verified = self.computed_verified.saturating_add(1);
            },
            FlushItem::ComputedRecomputed => {
                self.computed_recomputed = self.computed_recomputed.saturating_add(1);
            },
            FlushItem::ComputedChanged => {
                self.computed_changed = self.computed_changed.saturating_add(1);
            },
            FlushItem::ComputedSuppressed => {
                self.computed_suppressed = self.computed_suppressed.saturating_add(1);
            },
            FlushItem::EdgeAdded => {
                self.edges_added = self.edges_added.saturating_add(1);
            },
            FlushItem::EdgesRemoved { count } => {
                self.edges_removed = self.edges_removed.saturating_add(
                    #[verifier::truncate]
                    (count as u32),
                );
            },
        }
    }
}

impl Default for FlushStats {
    fn default() -> (stats: Self)
        ensures
            stats == FlushStats::zero(),
    {
        FlushStats {
            root_writes: 0,
            writes_suppressed: 0,
            nodes_marked_check: 0,
            nodes_marked_dirty: 0,
            max_propagation_depth: 0,
            effects_queued: 0,
            effects_coalesced: 0,
            effects_run: 0,
            effects_skipped: 0,
            effects_disposed: 0,
            effects_pending: 0,
            computed_verified: 0,
            computed_recomputed: 0,
            computed_changed: 0,
            computed_suppressed: 0,
            edges_added: 0,
            edges_removed: 0,
            jobs_at_start: 0,
            jobs_at_finish: 0,
        }
    }
}

/// The value as a `u32`, or the largest one where it does not fit.
pub open spec fn clamp_u32(value: usize) -> u32 {
    if value > u32::MAX {
        u32::MAX
    } else {
        value as u32
    }
}

fn saturating_u32(value: usize) -> (clamped: u32)
    ensures
        clamped == clamp_u32(value),
{
    if value > 0xffff_ffff {
        u32::MAX
    } else {
        value as u32
    }
}

/// Accumulates [`FlushStats`] and decides which flush each unit of work belongs to.
///
/// `pending` holds work performed outside any flush; opening the outermost flush takes it. `open`
/// is the stack of flushes in progress, and work always lands on its top.
pub struct FlushAccounting {
    pending: FlushStats,
    open: Vec<FlushStats>,
}

/// What a [`FlushAccounting`] holds.
#[verifier::ext_equal]
pub struct FlushLedger {
    pub pending: FlushStats,
    pub open: Seq<FlushStats>,
}

impl FlushLedger {
    /// Nothing accumulated and no flush open.
    pub open spec fn empty() -> FlushLedger {
        FlushLedger { pending: FlushStats::zero(), open: Seq::empty() }
    }

    /// Counts one unit of work for the innermost open flush, or for the next one to open.
    pub open spec fn recorded(self, item: FlushItem) -> FlushLedger {
        if self.open.len() > 0 {
            FlushLedger {
                open: self.open.update(self.open.len() - 1, self.open.last().with(item)),
                ..self
            }
        } else {
            FlushLedger { pending: self.pending.with(item), ..self }
        }
    }

    /// Opens a flush, which takes the work done since the last one.
    pub open spec fn opened(self, jobs_at_start: usize) -> FlushLedger {
        FlushLedger {
            pending: FlushStats::zero(),
            open: self.open.push(
                FlushStats { jobs_at_start: clamp_u32(jobs_at_start), ..self.pending },
            ),
        }
    }

    /// The totals that closing the innermost flush reports.
    pub open spec fn totals(self, jobs_at_finish: usize, effects_pending: usize) -> FlushStats {
        FlushStats {
            jobs_at_finish: clamp_u32(jobs_at_finish),
            effects_pending: clamp_u32(effects_pending),
            ..self.open.last()
        }
    }

    /// Closes the innermost flush, if one is open.
    pub open spec fn closed(self) -> FlushLedger {
        if self.open.len() > 0 {
            FlushLedger { open: self.open.drop_last(), ..self }
        } else {
            self
        }
    }
}

impl View for FlushAccounting {
    type V = FlushLedger;

    closed spec fn view(&self) -> FlushLedger {
        FlushLedger { pending: self.pending, open: self.open@ }
    }
}

impl FlushAccounting {
    /// Creates an account with nothing in it.
    pub fn new() -> (account: Self)
        ensures
            account@ == FlushLedger::empty(),
    {
        FlushAccounting { pending: FlushStats::default(), open: Vec::new() }
    }

    /// Counts one unit of work.
    pub fn record(&mut self, item: FlushItem)
        ensures
            final(self)@ == old(self)@.recorded(item),
    {
        let depth: usize = self.open.len();
        if depth > 0 {
            let mut stats = self.open[depth - 1];
            stats.tally(item);
            self.open.set(depth - 1, stats);
        } else {
            self.pending.tally(item);
        }
    }

    /// Opens a flush, handing it the work that was done outside any flush.
    pub fn open_flush(&mut self, jobs_at_start: usize)
        ensures
            final(self)@ == old(self)@.opened(jobs_at_start),
    {
        let mut stats = self.pending;
        self.pending = FlushStats::default();
        stats.jobs_at_start = saturating_u32(jobs_at_start);
        self.open.push(stats);
    }

    /// Closes the innermost flush and returns its totals, or `None` when there is none to close.
    pub fn close_flush(&mut self, jobs_at_finish: usize, effects_pending: usize) -> (stats: Option<
        FlushStats,
    >)
        ensures
            final(self)@ == old(self)@.closed(),
            old(self)@.open.len() == 0 ==> stats is None,
            old(self)@.open.len() > 0 ==> stats == Some(
                old(self)@.totals(jobs_at_finish, effects_pending),
            ),
    {
        match self.open.pop() {
            None => None,
            Some(popped) => {
                let mut stats = popped;
                stats.jobs_at_finish = saturating_u32(jobs_at_finish);
                stats.effects_pending = saturating_u32(effects_pending);
                Some(stats)
            },
        }
    }

    /// Drops everything accumulated so far.
    pub fn reset(&mut self)
        ensures
            final(self)@ == FlushLedger::empty(),
    {
        self.pending = FlushStats::default();
        self.open.clear();
    }
}

/// The maintained half of [`GraphStats`].
pub struct GraphCounters {
    live_nodes_by_kind: [usize; KIND_SLOTS],
    live_edges: usize,
    queued_effects: usize,
    peak_nodes: usize,
    peak_edges: usize,
    peak_pending_jobs: usize,
    nodes_created: u64,
    nodes_disposed: u64,
    edges_added: u64,
    edges_removed: u64,
    flushes: u64,
}

/// What a [`GraphCounters`] holds.
#[verifier::ext_equal]
pub struct Counts {
    pub live_nodes_by_kind: Seq<usize>,
    pub live_edges: usize,
    pub queued_effects: usize,
    pub peak_nodes: usize,
    pub peak_edges: usize,
    pub peak_pending_jobs: usize,
    pub nodes_created: u64,
    pub nodes_disposed: u64,
    pub edges_added: u64,
    pub edges_removed: u64,
    pub flushes: u64,
}

impl Counts {
    /// Every count at zero.
    pub open spec fn zero() -> Counts {
        Counts {
            live_nodes_by_kind: Seq::new(KIND_SLOTS as nat, |i: int| 0usize),
            live_edges: 0,
            queued_effects: 0,
            peak_nodes: 0,
            peak_edges: 0,
            peak_pending_jobs: 0,
            nodes_created: 0,
            nodes_disposed: 0,
            edges_added: 0,
            edges_removed: 0,
            flushes: 0,
        }
    }

    /// After allocating a node of `kind`, which made `live_nodes` of them.
    pub open spec fn node_created(self, kind: NodeKind, live_nodes: usize) -> Counts {
        let slot = kind.position();
        Counts {
            live_nodes_by_kind: self.live_nodes_by_kind.update(
                slot,
                sat_usize(self.live_nodes_by_kind[slot], 1),
            ),
            nodes_created: sat_u64(self.nodes_created, 1),
            peak_nodes: max_usize(self.peak_nodes, live_nodes),
            ..self
        }
    }

    /// After disposing a live node of `kind`.
    pub open spec fn node_disposed(self, kind: NodeKind) -> Counts {
        let slot = kind.position();
        Counts {
            live_nodes_by_kind: self.live_nodes_by_kind.update(
                slot,
                floor_usize(self.live_nodes_by_kind[slot], 1),
            ),
            nodes_disposed: sat_u64(self.nodes_disposed, 1),
            ..self
        }
    }

    /// After recording one new dependency edge.
    pub open spec fn edge_added(self) -> Counts {
        let live = sat_usize(self.live_edges, 1);
        Counts {
            live_edges: live,
            edges_added: sat_u64(self.edges_added, 1),
            peak_edges: max_usize(self.peak_edges, live),
            ..self
        }
    }

    /// After retracting `count` edges at once.
    pub open spec fn edges_removed(self, count: usize) -> Counts {
        Counts {
            live_edges: floor_usize(self.live_edges, count),
            edges_removed: sat_u64(self.edges_removed, count as u64),
            ..self
        }
    }

    /// After an effect acquired a pending run.
    pub open spec fn effect_queued(self) -> Counts {
        Counts { queued_effects: sat_usize(self.queued_effects, 1), ..self }
    }

    /// After a pending run was executed or discarded.
    pub open spec fn effect_unqueued(self) -> Counts {
        Counts { queued_effects: floor_usize(self.queued_effects, 1), ..self }
    }

    /// After opening a flush.
    pub open spec fn flush_opened(self) -> Counts {
        Counts { flushes: sat_u64(self.flushes, 1), ..self }
    }

    /// After pushing a job, which made `pending_jobs` of them.
    pub open spec fn job_queued(self, pending_jobs: usize) -> Counts {
        Counts { peak_pending_jobs: max_usize(self.peak_pending_jobs, pending_jobs), ..self }
    }
}

impl View for GraphCounters {
    type V = Counts;

    closed spec fn view(&self) -> Counts {
        Counts {
            live_nodes_by_kind: self.live_nodes_by_kind@,
            live_edges: self.live_edges,
            queued_effects: self.queued_effects,
            peak_nodes: self.peak_nodes,
            peak_edges: self.peak_edges,
            peak_pending_jobs: self.peak_pending_jobs,
            nodes_created: self.nodes_created,
            nodes_disposed: self.nodes_disposed,
            edges_added: self.edges_added,
            edges_removed: self.edges_removed,
            flushes: self.flushes,
        }
    }
}

impl GraphCounters {
    /// Creates counters that have counted nothing.
    pub fn new() -> (counters: Self)
        ensures
            counters@ == Counts::zero(),
    {
        let counters = GraphCounters {
            live_nodes_by_kind: [0, 0, 0, 0, 0, 0],
            live_edges: 0,
            queued_effects: 0,
            peak_nodes: 0,
            peak_edges: 0,
            peak_pending_jobs: 0,
            nodes_created: 0,
            nodes_disposed: 0,
            edges_added: 0,
            edges_removed: 0,
            flushes: 0,
        };
        assert(counters@.live_nodes_by_kind =~= Counts::zero().live_nodes_by_kind);
        counters
    }

    /// Records an allocation. `live_nodes` is the node count including the new node.
    pub fn node_created(&mut self, kind: NodeKind, live_nodes: usize)
        ensures
            final(self)@ == old(self)@.node_created(kind, live_nodes),
    {
        let slot: usize = kind.index();
        let raised: usize = self.live_nodes_by_kind[slot].saturating_add(1);
        self.live_nodes_by_kind[slot] = raised;
        self.nodes_created = self.nodes_created.saturating_add(1);
        if live_nodes > self.peak_nodes {
            self.peak_nodes = live_nodes;
        }
    }

    /// Records the disposal of a live node.
    pub fn node_disposed(&mut self, kind: NodeKind)
        ensures
            final(self)@ == old(self)@.node_disposed(kind),
    {
        let slot: usize = kind.index();
        let lowered: usize = self.live_nodes_by_kind[slot].saturating_sub(1);
        self.live_nodes_by_kind[slot] = lowered;
        self.nodes_disposed = self.nodes_disposed.saturating_add(1);
    }

    /// Records one newly recorded dependency edge.
    pub fn edge_added(&mut self)
        ensures
            final(self)@ == old(self)@.edge_added(),
    {
        let live: usize = self.live_edges.saturating_add(1);
        self.live_edges = live;
        self.edges_added = self.edges_added.saturating_add(1);
        if live > self.peak_edges {
            self.peak_edges = live;
        }
    }

    /// Records `count` edges retracted at once, as observer teardown does.
    pub fn edges_removed(&mut self, count: usize)
        ensures
            final(self)@ == old(self)@.edges_removed(count),
    {
        self.live_edges = self.live_edges.saturating_sub(count);
        self.edges_removed = self.edges_removed.saturating_add(count as u64);
    }

    /// Records an effect acquiring a pending run.
    pub fn effect_queued(&mut self)
        ensures
            final(self)@ == old(self)@.effect_queued(),
    {
        self.queued_effects = self.queued_effects.saturating_add(1);
    }

    /// Records a pending run being executed or discarded.
    pub fn effect_unqueued(&mut self)
        ensures
            final(self)@ == old(self)@.effect_unqueued(),
    {
        self.queued_effects = self.queued_effects.saturating_sub(1);
    }

    /// Effects currently holding a pending run.
    pub fn queued_effects(&self) -> (count: usize)
        ensures
            count == self@.queued_effects,
    {
        self.queued_effects
    }

    /// Records a flush opening.
    pub fn flush_opened(&mut self)
        ensures
            final(self)@ == old(self)@.flush_opened(),
    {
        self.flushes = self.flushes.saturating_add(1);
    }

    /// Records the queue depth after a job was pushed.
    pub fn job_queued(&mut self, pending_jobs: usize)
        ensures
            final(self)@ == old(self)@.job_queued(pending_jobs),
    {
        if pending_jobs > self.peak_pending_jobs {
            self.peak_pending_jobs = pending_jobs;
        }
    }

    /// Assembles the public snapshot from the maintained counters plus the lengths the caller
    /// reads out of the reactor's own state.
    pub fn snapshot(
        &self,
        reactor: ReactorId,
        live_nodes: usize,
        observed_nodes: usize,
        pending_jobs: usize,
        flush_depth: u32,
        flush_epoch: u64,
    ) -> (stats: GraphStats)
        ensures
            stats.reactor == reactor,
            stats.live_nodes == live_nodes,
            stats.observed_nodes == observed_nodes,
            stats.pending_jobs == pending_jobs,
            stats.flush_depth == flush_depth,
            stats.flush_epoch == flush_epoch,
            stats.counts() == self@,
    {
        GraphStats {
            reactor,
            live_nodes,
            live_edges: self.live_edges,
            observed_nodes,
            queued_effects: self.queued_effects,
            pending_jobs,
            flush_depth,
            flush_epoch,
            peak_nodes: self.peak_nodes,
            peak_edges: self.peak_edges,
            peak_pending_jobs: self.peak_pending_jobs,
            nodes_created: self.nodes_created,
            nodes_disposed: self.nodes_disposed,
            edges_added: self.edges_added,
            edges_removed: self.edges_removed,
            flushes: self.flushes,
            live_nodes_by_kind: self.live_nodes_by_kind,
        }
    }
}

impl GraphStats {
    /// The maintained counts that a snapshot shows.
    pub open spec fn counts(self) -> Counts {
        Counts {
            live_nodes_by_kind: self.by_kind(),
            live_edges: self.live_edges,
            queued_effects: self.queued_effects,
            peak_nodes: self.peak_nodes,
            peak_edges: self.peak_edges,
            peak_pending_jobs: self.peak_pending_jobs,
            nodes_created: self.nodes_created,
            nodes_disposed: self.nodes_disposed,
            edges_added: self.edges_added,
            edges_removed: self.edges_removed,
            flushes: self.flushes,
        }
    }
}

/// Work that happens inside nested flushes is counted once: an inner flush's totals leave the
/// enclosing flush's totals as they were.
pub proof fn nested_flush_keeps_outer_totals(ledger: FlushLedger, jobs: usize, item: FlushItem)
    requires
        ledger.open.len() > 0,
        ledger.pending == FlushStats::zero(),
    ensures
        ledger.opened(jobs).recorded(item).closed() == ledger,
{
    let inner = ledger.opened(jobs).recorded(item);
    assert(inner.closed().open =~= ledger.open);
}

impl FlushStats {
    /// How many computations ran in the flush without publishing anything in it: they are still
    /// running, or failed.
    pub open spec fn unpublished(self) -> int {
        self.computed_recomputed - self.computed_changed - self.computed_suppressed
    }
}

/// The computations that published a new value and those that were judged unchanged are together
/// at most as many as those that ran: a computation that runs adds one to the difference, only one
/// that ends takes it away, and nothing else touches it. So the difference is never negative in a
/// flush in which every computation that ended had also started, until a total is full.
pub proof fn outcomes_stay_within_computations(stats: FlushStats, item: FlushItem)
    requires
        0 <= stats.unpublished(),
        stats.computed_recomputed < u32::MAX,
    ensures
        stats.with(item).unpublished() == (match item {
            FlushItem::ComputedRecomputed => stats.unpublished() + 1,
            FlushItem::ComputedChanged | FlushItem::ComputedSuppressed => stats.unpublished() - 1,
            _ => stats.unpublished(),
        }),
{
}

/// Work done outside any flush is handed, whole, to the flush that opens next.
pub proof fn pending_work_goes_to_the_next_flush(
    ledger: FlushLedger,
    item: FlushItem,
    jobs: usize,
    remaining: usize,
    effects: usize,
)
    requires
        ledger.open.len() == 0,
    ensures
        ledger.recorded(item).opened(jobs).totals(remaining, effects) == (FlushStats {
            jobs_at_start: clamp_u32(jobs),
            jobs_at_finish: clamp_u32(remaining),
            effects_pending: clamp_u32(effects),
            ..ledger.pending.with(item)
        }),
        ledger.recorded(item).opened(jobs).closed() == FlushLedger::empty(),
{
    let open = ledger.recorded(item).opened(jobs);
    assert(open.closed().open =~= Seq::<FlushStats>::empty());
}

/// High-water marks never retreat, and cumulative totals never decrease.
pub proof fn counts_only_grow(counts: Counts, kind: NodeKind, n: usize)
    ensures
        counts.node_created(kind, n).peak_nodes >= counts.peak_nodes,
        counts.node_created(kind, n).nodes_created >= counts.nodes_created,
        counts.node_disposed(kind).nodes_disposed >= counts.nodes_disposed,
        counts.edge_added().peak_edges >= counts.peak_edges,
        counts.edge_added().edges_added >= counts.edges_added,
        counts.edges_removed(n).edges_removed >= counts.edges_removed,
        counts.flush_opened().flushes >= counts.flushes,
        counts.job_queued(n).peak_pending_jobs >= counts.peak_pending_jobs,
{
}

} // verus!
