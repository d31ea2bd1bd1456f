//! Fine-grained reactivity: a verified dependency graph with signals, computed values, effects,
//! owners and diagnostics.
//!
//! Everything here is plain state with methods that change it. Running computations, effect bodies
//! and cleanups, and waking up to flush, is up to the program around it.
pub mod births;
pub mod cell;
pub mod coherence;
mod collections;
pub mod computations;
pub mod defaults;
pub mod diagnostics;
pub mod drains;
pub mod echoes;
pub mod effect;
pub mod event;
pub mod exchanges;
pub mod freshness;
pub mod gauges;
pub mod graph;
pub mod history;
pub mod hooks;
pub mod households;
pub mod id;
pub mod lifecycle;
pub mod messages;
pub mod model;
pub mod observable;
pub mod observers;
pub mod ownership;
pub mod reactor;
pub mod reads;
pub mod refresh;
pub mod regions;
pub mod reports;
pub mod resource;
pub mod scope;
mod seqs;
pub mod settled;
pub mod signal;
pub mod source;
pub mod stats;
pub mod teardowns;
pub mod thunk;
pub mod tracking;
pub mod unheard;
pub mod wakeups;
pub mod watch;
pub mod writable;
pub mod writes;

pub use crate::cell::{cell_in, Cell};
pub use crate::defaults::{Ambient, Defaults, EnterGuard, ReactorIds};
pub use crate::diagnostics::{
    ComputeOutcome, DiagnosticEvent, DiagnosticSubscription, InvalidationCause, InvalidationLevel,
    NodeKind, ReactorId,
};
pub use crate::effect::{
    effect_in, effect_with_in, Containment, EffectHandle, EffectRun, EffectScheduler, RunBoundary,
    RunStep, RunTicket, MAX_RUNS_PER_FLUSH,
};
pub use crate::event::{event_in, on_in, Event, EventQueue, Subscription};
pub use crate::graph::RecordedDependency;
pub use crate::id::{Location, NodeId};
pub use crate::model::Job;
pub use crate::observable::{DynObservable, Erased, Observable};
pub use crate::ownership::{OwnershipAudit, OwnershipDrift, OwnershipGauge, OwnershipStats};
pub use crate::reactor::{ContextGuard, DrainGuard, FlushGuard, ReactCycleError, Reactor};
pub use crate::refresh::{Refresh, RefreshStep};
pub use crate::resource::{resource_in, Resource};
pub use crate::scope::{
    audit_ownership, debug_assert_ownership_consistent, on_cleanup, owner, ownership_stats, scope,
    scope_catch, unowned, Adoption, ErrorInfo, OpenScope, Owned, Owner, OwnerGuard, OwnerId, Owners,
    Pending, ScopeHandle, Teardown, TeardownStep,
};
pub use crate::signal::{signal_in, Signal};
pub use crate::source::{source_in, source_with_hooks_in, Source};
pub use crate::stats::{FlushStats, GraphStats};
pub use crate::thunk::{memo_in, thunk_in, Memo, Thunk};
pub use crate::tracking::{untrack, Tracking, UntrackGuard};
pub use crate::watch::{watch_in, Watch};
pub use crate::writable::{writable_in, Writable, WritableObservable, Write};
