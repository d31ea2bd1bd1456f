//! The mathematical content of a reactor, and what each of its steps does to it.
use vstd::prelude::*;

use crate::diagnostics::{DiagnosticEvent, InvalidationCause, NodeKind, ReactorId};
use crate::graph::{GraphModel, NodeMeta};
use crate::id::{Location, NodeId};
use crate::observers::{Delivery, EffectRecord, HookState, Mark, Observer, State};
use crate::stats::{Counts, FlushItem, FlushLedger, FlushStats};

verus! {

/// A unit of work in a reactor's queue.
#[derive(Clone, Copy, Debug, Eq, PartialEq, Structural)]
pub enum Job {
    /// Run an effect that has a run pending.
    Effect(NodeId),
    /// Deliver a node's observation hooks, if there is still something to deliver.
    Hook(NodeId),
    /// Run whatever the caller keeps under this number.
    Task(u64),
}

/// The mathematical content of a reactor.
#[verifier::ext_equal]
pub struct ReactorModel {
    pub id: ReactorId,
    /// Nodes, edges and the stack of computations.
    pub graph: GraphModel,
    /// The observers, by raw node id.
    pub observers: Map<u64, Observer>,
    /// The observation hooks, by raw node id.
    pub hooks: Map<u64, HookState>,
    /// The queued jobs, next one first.
    pub jobs: Seq<Job>,
    /// Effects that were handed to a consumer's lane and not yet taken from the reactor.
    pub ready: Seq<NodeId>,
    /// A flush of the queue has been asked for.
    pub flush_scheduled: bool,
    /// The host has been asked to run a flush and has not yet taken notice.
    pub wake: bool,
    /// The number of the flush opened last.
    pub flush_epoch: u64,
    /// The number of the flush that the outermost consumer-driven flush opened.
    pub open_flush_epoch: u64,
    /// The number of the logical drain opened last.
    pub drain_epoch: u64,
    /// How many flushes are open.
    pub flush_depth: u32,
    /// The token that the next diagnostic subscription receives.
    pub next_diagnostic: u64,
    /// The tokens of the diagnostic subscriptions, oldest first.
    pub subscribers: Seq<u64>,
    /// The diagnostic events that nobody has taken yet, oldest first.
    pub events: Seq<DiagnosticEvent>,
    pub counts: Counts,
    pub ledger: FlushLedger,
}

/// The number after `value`, with the largest followed by zero.
pub open spec fn wrapping_next(value: u64) -> u64 {
    if value == u64::MAX {
        0
    } else {
        (value + 1) as u64
    }
}

/// Tells every other number from `token`.
pub open spec fn other_than(token: u64) -> spec_fn(u64) -> bool {
    |other: u64| other != token
}

/// `list` holds exactly the members of `set`, each once.
pub open spec fn lists(list: Seq<u64>, set: Set<u64>) -> bool {
    list.no_duplicates() && list.to_set() == set
}

/// The nodes that lose their last observer when `observer` forgets its inputs.
pub open spec fn abandoned(graph: GraphModel, observer: u64) -> Set<u64> {
    graph.observed().difference(graph.forgetting(observer).observed())
}

/// The observer records of effects that have a run pending.
pub open spec fn pending_effects(observers: Map<u64, Observer>) -> Set<u64> {
    observers.dom().filter(
        |node: u64| observers[node].effect matches Some(effect) && effect.scheduled,
    )
}

impl ReactorModel {
    /// A reactor with nothing in it.
    pub open spec fn fresh(id: ReactorId) -> ReactorModel {
        ReactorModel {
            id,
            graph: GraphModel::empty(),
            observers: Map::empty(),
            hooks: Map::empty(),
            jobs: Seq::empty(),
            ready: Seq::empty(),
            flush_scheduled: false,
            wake: false,
            flush_epoch: 0,
            open_flush_epoch: 0,
            drain_epoch: 0,
            flush_depth: 0,
            next_diagnostic: 1,
            subscribers: Seq::empty(),
            events: Seq::empty(),
            counts: Counts::zero(),
            ledger: FlushLedger::empty(),
        }
    }

    /// The maintained counts describe the graph: edges, nodes of each kind and pending effects are
    /// exact, every identifier that was handed out is counted as a node created, and what is live
    /// is what was created and not disposed. The totals of edges account for the live ones until
    /// they are full.
    pub open spec fn counts_agree(self) -> bool {
        &&& self.counts.live_edges == self.graph.edges.dom().len()
        &&& self.counts.live_nodes_by_kind.len() == NodeKind::COUNT
        &&& forall|kind: NodeKind|
            self.counts.live_nodes_by_kind[#[trigger] kind.position()] == self.graph.of_kind(
                kind,
            ).len()
        &&& self.counts.queued_effects == pending_effects(self.observers).len()
        &&& self.counts.edges_added < u64::MAX ==> self.counts.live_edges
            == self.counts.edges_added - self.counts.edges_removed
        &&& self.counts.nodes_created == self.graph.next_node - 1
        &&& self.graph.nodes.dom().len() == self.counts.nodes_created - self.counts.nodes_disposed
    }

    /// What every reactor satisfies.
    pub open spec fn wf(self) -> bool {
        &&& self.graph.wf()
        &&& self.observers.dom().finite()
        &&& self.observers.dom().len() <= usize::MAX
        &&& forall|node: u64| #[trigger]
            self.observers.contains_key(node) ==> node < self.graph.next_node
        &&& self.jobs.len() <= usize::MAX
        &&& self.counts_agree()
    }

    /// Diagnostics have a subscriber.
    pub open spec fn listening(self) -> bool {
        self.subscribers.len() > 0
    }

    /// Where a live node was created.
    pub open spec fn origin(self, node: u64) -> Option<Location> {
        if self.graph.nodes.contains_key(node) {
            Some(self.graph.nodes[node].origin)
        } else {
            None
        }
    }

    /// After reporting an event, which happens only while someone listens.
    pub open spec fn emitted(self, event: DiagnosticEvent) -> ReactorModel {
        if self.listening() {
            ReactorModel { events: self.events.push(event), ..self }
        } else {
            self
        }
    }

    /// After counting a unit of work, which happens only while someone listens.
    pub open spec fn recorded(self, item: FlushItem) -> ReactorModel {
        if self.listening() {
            ReactorModel { ledger: self.ledger.recorded(item), ..self }
        } else {
            self
        }
    }

    /// After making sure that the host has been asked to flush the queue.
    pub open spec fn flush_asked(self) -> ReactorModel {
        if self.flush_scheduled {
            self
        } else {
            ReactorModel { flush_scheduled: true, wake: true, ..self }
        }
    }

    /// After queueing a job.
    pub open spec fn scheduled(self, job: Job) -> ReactorModel {
        let jobs = self.jobs.push(job);
        let counts = self.counts.job_queued(jobs.len() as usize);
        ReactorModel { jobs, counts, ..self }.flush_asked()
    }

    /// After a node with hooks gained its first observer or lost its last: the latest fact is
    /// kept, and one delivery is queued unless one is queued already.
    pub open spec fn noted(self, node: u64, observed: bool) -> ReactorModel {
        if self.hooks.contains_key(node) {
            let hooks = self.hooks[node];
            let after = ReactorModel {
                hooks: self.hooks.insert(node, HookState { observed, queued: true, ..hooks }),
                ..self
            };
            if hooks.queued {
                after
            } else {
                after.scheduled(Job::Hook(NodeId(node)))
            }
        } else {
            self
        }
    }

    /// After each of `nodes` in turn lost its last observer.
    pub open spec fn noted_abandoned(self, nodes: Seq<u64>) -> ReactorModel
        decreases nodes.len(),
    {
        if nodes.len() == 0 {
            self
        } else {
            self.noted_abandoned(nodes.drop_last()).noted(nodes.last(), false)
        }
    }

    /// After allocating a node.
    pub open spec fn created(self, kind: NodeKind, origin: Location) -> ReactorModel {
        let graph = self.graph.allocated(kind, origin);
        ReactorModel {
            graph,
            counts: self.counts.node_created(kind, graph.nodes.dom().len() as usize),
            ..self
        }.emitted(
            DiagnosticEvent::NodeCreated {
                reactor: self.id,
                node: NodeId(self.graph.next_node),
                kind,
                origin,
            },
        )
    }

    /// After `observer` read `node`.
    pub open spec fn observing(self, observer: u64, node: u64) -> ReactorModel {
        let recorded = ReactorModel { graph: self.graph.observing(observer, node), ..self };
        let counted = if self.graph.observes(observer, node) {
            recorded
        } else {
            ReactorModel { counts: self.counts.edge_added(), ..recorded }.recorded(
                FlushItem::EdgeAdded,
            )
        };
        if self.graph.observed().contains(node) {
            counted
        } else {
            counted.noted(node, true)
        }
    }

    /// After dropping the edges that `observer` recorded; `lost` lists the nodes that lost their
    /// last observer, in the order in which that was noted.
    pub open spec fn forgotten(self, observer: u64, lost: Seq<u64>) -> ReactorModel {
        let count = self.graph.inputs(observer).dom().len() as usize;
        ReactorModel {
            graph: self.graph.forgetting(observer),
            counts: self.counts.edges_removed(count),
            ..self
        }.recorded(FlushItem::EdgesRemoved { count }).noted_abandoned(lost)
    }

    /// After dropping the edges that observers recorded on `node`.
    pub open spec fn unobserved(self, node: u64) -> ReactorModel {
        let count = self.graph.observers(node).len() as usize;
        ReactorModel {
            graph: self.graph.unobserving(node),
            counts: self.counts.edges_removed(count),
            ..self
        }.recorded(FlushItem::EdgesRemoved { count })
    }

    /// After marks no longer reach `node`.
    pub open spec fn unregistered(self, node: u64) -> ReactorModel {
        if self.observers.contains_key(node) {
            ReactorModel {
                observers: self.observers.insert(
                    node,
                    Observer { registered: false, ..self.observers[node] },
                ),
                ..self
            }
        } else {
            self
        }
    }

    /// After tearing down all graph bookkeeping for `node`.
    pub open spec fn disposed(self, node: u64, lost: Seq<u64>) -> ReactorModel {
        let cut = self.forgotten(node, lost).unobserved(node).unregistered(node);
        let gone = ReactorModel {
            graph: cut.graph.without_node(node),
            hooks: cut.hooks.remove(node),
            ..cut
        };
        if self.graph.nodes.contains_key(node) {
            let meta = self.graph.nodes[node];
            ReactorModel { counts: gone.counts.node_disposed(meta.kind), ..gone }.emitted(
                DiagnosticEvent::NodeDisposed {
                    reactor: self.id,
                    node: NodeId(node),
                    kind: meta.kind,
                    origin: meta.origin,
                    dependencies: self.graph.inputs(node).dom().len() as usize,
                    observers: self.graph.observers(node).len() as usize,
                },
            )
        } else {
            gone
        }
    }

    /// `after` is the outcome of disposing `node`, whatever the order in which the nodes it alone
    /// observed were told.
    pub open spec fn is_disposal(self, node: u64, after: ReactorModel) -> bool {
        exists|lost: Seq<u64>|
            lists(lost, abandoned(self.graph, node)) && after == #[trigger] self.disposed(
                node,
                lost,
            )
    }

    /// After storing the record of an observer.
    pub open spec fn with_observer(self, node: u64, record: Observer) -> ReactorModel {
        ReactorModel { observers: self.observers.insert(node, record), ..self }
    }

    /// The record of an effect.
    pub open spec fn effect(self, node: u64) -> EffectRecord {
        self.observers[node].effect->0
    }

    /// `node` is known as an effect.
    pub open spec fn is_effect(self, node: u64) -> bool {
        self.observers.contains_key(node) && self.observers[node].effect is Some
    }

    /// `node` is known as a computed node.
    pub open spec fn is_computed(self, node: u64) -> bool {
        self.observers.contains_key(node) && self.observers[node].effect is None
    }

    /// After changing the record of an effect.
    pub open spec fn with_effect(self, node: u64, effect: EffectRecord) -> ReactorModel {
        self.with_observer(node, Observer { effect: Some(effect), ..self.observers[node] })
    }

    /// After changing how stale an observer is.
    pub open spec fn with_state(self, node: u64, state: State) -> ReactorModel {
        self.with_observer(node, Observer { state, ..self.observers[node] })
    }

    /// After an effect acquired a pending run, which the gauge counts.
    pub open spec fn latched(self, node: u64) -> ReactorModel {
        ReactorModel {
            counts: self.counts.effect_queued(),
            ..self.with_effect(node, EffectRecord { scheduled: true, ..self.effect(node) })
        }
    }

    /// After an effect's pending run, if it has one, was executed or discarded.
    pub open spec fn unlatched(self, node: u64) -> ReactorModel {
        if self.effect(node).scheduled {
            ReactorModel {
                counts: self.counts.effect_unqueued(),
                ..self.with_effect(node, EffectRecord { scheduled: false, ..self.effect(node) })
            }
        } else {
            self
        }
    }

    /// After an effect was asked to run: a request to a disposed effect, or to one that has a run
    /// pending, is absorbed; any other leaves exactly one run pending, in the reactor's queue or in
    /// the consumer's lane.
    pub open spec fn requested(self, node: u64) -> ReactorModel {
        let skipped = self.effect(node).disposed || self.effect(node).scheduled;
        let held = if skipped {
            self.recorded(FlushItem::EffectCoalesced)
        } else {
            self.latched(node).recorded(FlushItem::EffectQueued)
        };
        let told = match self.origin(node) {
            Some(effect_origin) => held.emitted(
                DiagnosticEvent::EffectScheduled {
                    reactor: self.id,
                    effect: NodeId(node),
                    effect_origin,
                    queued: !skipped,
                    flush_epoch: self.flush_epoch,
                },
            ),
            None => held,
        };
        if skipped {
            told
        } else if self.effect(node).external {
            ReactorModel { ready: told.ready.push(NodeId(node)), ..told }
        } else {
            told.scheduled(Job::Effect(NodeId(node)))
        }
    }

    /// After a delivered mark had its consequences: it is reported, an effect is asked to run, and
    /// the mark is counted. How stale the observer became is settled by the propagation itself.
    pub open spec fn received(
        self,
        delivery: Delivery,
        cause: Option<InvalidationCause>,
    ) -> ReactorModel {
        let node = delivery.observer;
        let reported = match (cause, self.origin(node)) {
            (Some(cause), Some(origin)) => if self.is_effect(node) {
                self.emitted(
                    DiagnosticEvent::EffectInvalidated {
                        reactor: self.id,
                        effect: NodeId(node),
                        effect_origin: origin,
                        cause,
                        level: delivery.mark.reported(),
                    },
                )
            } else {
                self.emitted(
                    DiagnosticEvent::ComputedInvalidated {
                        reactor: self.id,
                        node: NodeId(node),
                        kind: self.graph.nodes[node].kind,
                        node_origin: origin,
                        cause,
                        level: delivery.mark.reported(),
                        flush_epoch: self.flush_epoch,
                        state_changed: delivery.before.rank() < State::asked(delivery.mark).rank(),
                    },
                )
            },
            _ => self,
        };
        let asked = if self.is_effect(node) {
            reported.requested(node)
        } else {
            reported
        };
        asked.recorded(FlushItem::Marked { mark: delivery.mark, depth: delivery.depth })
    }

    /// After every mark in `log` had its consequences, in order.
    pub open spec fn received_all(
        self,
        log: Seq<Delivery>,
        cause: Option<InvalidationCause>,
    ) -> ReactorModel
        decreases log.len(),
    {
        if log.len() == 0 {
            self
        } else {
            self.received_all(log.drop_last(), cause).received(log.last(), cause)
        }
    }

    /// What a write to `node` is reported as, if the node is live and someone listens.
    pub open spec fn write_cause(self, node: u64, write_origin: Location) -> Option<
        InvalidationCause,
    > {
        match self.origin(node) {
            Some(node_origin) => if self.listening() {
                Some(
                    InvalidationCause {
                        node: NodeId(node),
                        version: self.graph.version(node),
                        node_origin,
                        write_origin,
                    },
                )
            } else {
                None
            },
            None => None,
        }
    }

    /// After the value of `node` changed and the change was reported, before its observers learn.
    pub open spec fn written(self, node: u64, write_origin: Location) -> ReactorModel {
        let bumped = ReactorModel { graph: self.graph.bumped(node), ..self };
        match bumped.write_cause(node, write_origin) {
            Some(cause) => bumped.emitted(
                DiagnosticEvent::ReactiveWrite {
                    reactor: self.id,
                    kind: self.graph.nodes[node].kind,
                    cause,
                },
            ).recorded(FlushItem::RootWrite),
            None => bumped,
        }
    }

    /// After a write to `node` whose propagation delivered the marks in `log`.
    pub open spec fn triggered(
        self,
        node: u64,
        write_origin: Location,
        log: Seq<Delivery>,
    ) -> ReactorModel {
        let written = self.written(node, write_origin);
        let cause = ReactorModel { graph: self.graph.bumped(node), ..self }.write_cause(
            node,
            write_origin,
        );
        ReactorModel {
            observers: crate::observers::delivered(self.observers, log),
            ..written
        }.received_all(log, cause)
    }
}

impl ReactorModel {
    /// After a subscription to diagnostics.
    pub open spec fn subscribed(self) -> ReactorModel {
        ReactorModel {
            subscribers: self.subscribers.push(self.next_diagnostic),
            next_diagnostic: if self.next_diagnostic == u64::MAX {
                1
            } else {
                (self.next_diagnostic + 1) as u64
            },
            ..self
        }
    }

    /// After the subscription under `token` ended. When nobody listens any more, the totals that
    /// were being accumulated are dropped.
    pub open spec fn unsubscribed(self, token: u64) -> ReactorModel {
        let subscribers = self.subscribers.filter(other_than(token));
        ReactorModel {
            subscribers,
            ledger: if subscribers.len() > 0 {
                self.ledger
            } else {
                FlushLedger::empty()
            },
            ..self
        }
    }

    /// After a flush of the queue got its number, was counted and was reported.
    pub open spec fn flush_opened(self) -> ReactorModel {
        let numbered = ReactorModel {
            flush_epoch: wrapping_next(self.flush_epoch),
            counts: self.counts.flush_opened(),
            ..self
        };
        let opened = if self.listening() {
            ReactorModel { ledger: self.ledger.opened(self.jobs.len() as usize), ..numbered }
        } else {
            numbered
        };
        opened.emitted(
            DiagnosticEvent::FlushStarted {
                reactor: self.id,
                flush_epoch: opened.flush_epoch,
                pending_jobs: self.jobs.len() as usize,
            },
        )
    }

    /// After the innermost flush was reported as finished under the number `epoch`, unless its
    /// opening was not reported to anyone who listens now.
    pub open spec fn flush_closed(self, epoch: u64) -> ReactorModel {
        if self.listening() && self.ledger.open.len() > 0 {
            ReactorModel { ledger: self.ledger.closed(), ..self }.emitted(
                DiagnosticEvent::FlushFinished {
                    reactor: self.id,
                    flush_epoch: epoch,
                    remaining_jobs: self.jobs.len() as usize,
                    stats: self.ledger.totals(
                        self.jobs.len() as usize,
                        self.counts.queued_effects,
                    ),
                },
            )
        } else {
            self
        }
    }

    /// After a consumer opened a flush. One that is opened inside another joins it.
    pub open spec fn begun(self) -> ReactorModel {
        if self.flush_depth > 0 {
            ReactorModel { flush_depth: (self.flush_depth + 1) as u32, ..self }
        } else {
            let opened = ReactorModel {
                drain_epoch: wrapping_next(self.drain_epoch),
                flush_depth: 1,
                open_flush_epoch: wrapping_next(self.flush_epoch),
                ..self
            };
            opened.flush_opened()
        }
    }

    /// After a consumer closed the flush it opened last. The outermost one is reported under the
    /// number it was opened with.
    pub open spec fn finished(self) -> ReactorModel {
        if self.flush_depth > 1 {
            ReactorModel { flush_depth: (self.flush_depth - 1) as u32, ..self }
        } else {
            ReactorModel { flush_depth: 0, ..self }.flush_closed(self.open_flush_epoch)
        }
    }

    /// After the reactor started to drain its own queue. Inside another flush this is a flush of
    /// its own, but part of the same logical drain.
    pub open spec fn drain_started(self) -> ReactorModel {
        let drain = if self.flush_depth == 0 {
            wrapping_next(self.drain_epoch)
        } else {
            self.drain_epoch
        };
        let opened = ReactorModel { drain_epoch: drain, ..self }.flush_opened();
        ReactorModel { flush_depth: (self.flush_depth + 1) as u32, ..opened }
    }

    /// After the reactor stopped draining its own queue. What is left goes to a fresh flush.
    pub open spec fn drain_finished(self, epoch: u64) -> ReactorModel {
        let depth = if self.flush_depth == 0 {
            0
        } else {
            (self.flush_depth - 1) as u32
        };
        let closed = ReactorModel { flush_depth: depth, ..self }.flush_closed(epoch);
        let idle = ReactorModel { flush_scheduled: false, ..closed };
        if self.jobs.len() > 0 {
            idle.flush_asked()
        } else {
            idle
        }
    }

    /// After the next job was taken from the queue, if there is one.
    pub open spec fn job_taken(self) -> ReactorModel {
        if self.jobs.len() > 0 {
            ReactorModel { jobs: self.jobs.drop_first(), ..self }
        } else {
            self
        }
    }

    /// What delivering the hooks of `node` tells the consumer: nothing if the node is gone or the
    /// consumer knows already, else whether the node is observed now.
    pub open spec fn hook_news(self, node: u64) -> Option<bool> {
        if self.hooks.contains_key(node) && self.hooks[node].delivered
            != self.hooks[node].observed {
            Some(self.hooks[node].observed)
        } else {
            None
        }
    }

    /// After the hooks of `node` were delivered.
    pub open spec fn hook_delivered(self, node: u64) -> ReactorModel {
        if self.hooks.contains_key(node) {
            let hooks = self.hooks[node];
            ReactorModel {
                hooks: self.hooks.insert(
                    node,
                    HookState { queued: false, delivered: hooks.observed, ..hooks },
                ),
                ..self
            }
        } else {
            self
        }
    }
}

} // verus!
