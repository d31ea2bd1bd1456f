//! The library's promises on concrete values, without a host around it.
use adaptite::{
    audit_ownership, cell_in, debug_assert_ownership_consistent, event_in, memo_in, on_cleanup,
    ownership_stats, resource_in, scope, scope_catch, signal_in, source_in, source_with_hooks_in,
    thunk_in, unowned, untrack, watch_in, Adoption, ContextGuard, DiagnosticEvent, EffectHandle,
    ErrorInfo, EventQueue, FlushStats, Job, Location, Memo, NodeId, NodeKind, Owned, Owners,
    OwnershipAudit, OwnershipStats, Reactor, ReactorId, Refresh, RefreshStep, Resource, RunStep,
    RunTicket, Teardown, TeardownStep, Tracking, Watch,
};

fn at(line: u32) -> Location {
    Location { file: "laws.rs", line, column: 3 }
}

fn reactor() -> Reactor {
    Reactor::new(ReactorId(7))
}

/// Takes steps until the refresh asks for something.
fn advance(refresh: &mut Refresh, reactor: &mut Reactor) -> RefreshStep {
    loop {
        match refresh.step(reactor) {
            RefreshStep::Continue => {}
            step => return step,
        }
    }
}

/// Takes a teardown's steps, noting what they ask for.
fn steps(teardown: &mut Teardown, owners: &mut Owners) -> Vec<String> {
    let mut seen = Vec::new();
    while let Some(step) = teardown.step(owners) {
        match step {
            TeardownStep::Cleanup(token) => seen.push(format!("cleanup {token}")),
            TeardownStep::Effect { effect, .. } => seen.push(format!("effect {}", effect.get())),
            TeardownStep::Continue => {}
        }
    }
    seen
}

/// Tears down what an effect's last run left, and enters the effect's body.
fn enter(
    reactor: &mut Reactor,
    owners: &mut Owners,
    tracking: &mut Tracking,
    effect: &EffectHandle,
    ticket: RunTicket,
) -> ContextGuard {
    let mut teardown = owners.reset(effect.owner());
    let _ = steps(&mut teardown, owners);
    reactor.enter_body(tracking, ticket, teardown).expect("the effect is alive")
}

#[test]
fn identifiers_start_at_one_and_are_never_reused() {
    let mut reactor = reactor();
    let first = reactor.allocate_node(NodeKind::Source, at(1));
    let second = reactor.allocate_node(NodeKind::Source, at(2));
    reactor.dispose(first);
    reactor.dispose(second);
    let third = reactor.allocate_node(NodeKind::Source, at(3));
    assert_eq!((first.get(), second.get(), third.get()), (1, 2, 3));
    assert_eq!(reactor.id().get(), 7);
    assert_eq!(NodeId::new(3), third);
}

#[test]
fn disposing_twice_is_disposing_once() {
    let mut reactor = reactor();
    let mut tracking = Tracking::new();
    let observer = reactor.allocate_node(NodeKind::Source, at(1));
    let node = reactor.allocate_node(NodeKind::Source, at(2));
    let guard = reactor.run_in_context(&mut tracking, observer);
    reactor.observe(&tracking, node);
    reactor.leave_context(&mut tracking, guard);
    let _subscription = reactor.subscribe_diagnostics();
    reactor.dispose(node);
    let once = reactor.graph_stats();
    assert_eq!(
        reactor.take_events(),
        vec![DiagnosticEvent::NodeDisposed {
            reactor: ReactorId(7),
            node,
            kind: NodeKind::Source,
            origin: at(2),
            dependencies: 0,
            observers: 1,
        }]
    );
    reactor.dispose(node);
    assert_eq!(reactor.graph_stats(), once);
    assert!(reactor.take_events().is_empty());
    assert_eq!((once.live_nodes, once.live_edges, once.edges_removed), (1, 0, 1));
    assert!(!reactor.is_observed(node));
}

#[test]
fn a_write_marks_and_wakes_but_runs_nothing() {
    let mut reactor = reactor();
    let mut owners = Owners::new(true);
    let mut tracking = Tracking::new();
    let mut signal = signal_in(&mut reactor, 1, at(1));
    let effect = reactor.effect(&mut owners, at(2));
    assert!(reactor.take_wake());
    let drain = reactor.flush_now().expect("the first run is queued");
    assert_eq!(reactor.next_job(), Some(Job::Effect(effect.id())));
    let ticket = match reactor.start_run(effect.id()) {
        RunStep::Teardown(ticket) => ticket,
        other => panic!("a new effect runs, got {other:?}"),
    };
    let guard = enter(&mut reactor, &mut owners, &mut tracking, &effect, ticket);
    assert_eq!(signal.get(&mut reactor, &tracking), 1);
    reactor.finish_run(&mut tracking, guard, ticket);
    assert_eq!(reactor.next_job(), None);
    reactor.finish_flush(drain);
    assert!(!reactor.take_wake());

    assert_eq!(signal.set(&mut reactor, 2, at(3)), Some(1));
    assert!(reactor.take_wake(), "the host is asked to flush");
    assert_eq!(signal.set(&mut reactor, 3, at(3)), Some(2));
    assert!(!reactor.take_wake(), "and asked once");
    assert_eq!(reactor.graph_stats().queued_effects, 1);
    assert_eq!(reactor.graph_stats().pending_jobs, 1, "two writes, one run");
    assert!(!reactor.is_computation_active(effect.id()));
}

#[test]
fn an_effect_that_is_running_is_not_entered_again_but_owes_a_run() {
    let mut reactor = reactor();
    let mut owners = Owners::new(true);
    let mut tracking = Tracking::new();
    let mut signal = signal_in(&mut reactor, 0, at(1));
    let effect = reactor.effect(&mut owners, at(2));
    let outer = reactor.flush_now().expect("a run is queued");
    let _ = reactor.next_job();
    let ticket = match reactor.start_run(effect.id()) {
        RunStep::Teardown(ticket) => ticket,
        other => panic!("a new effect runs, got {other:?}"),
    };
    let guard = enter(&mut reactor, &mut owners, &mut tracking, &effect, ticket);
    signal.get(&mut reactor, &tracking);
    signal.set(&mut reactor, 1, at(3));
    let inner = reactor.flush_now().expect("the write queued the effect");
    assert_eq!(reactor.next_job(), Some(Job::Effect(effect.id())));
    assert!(matches!(reactor.start_run(effect.id()), RunStep::Done));
    reactor.finish_flush(inner);
    assert_eq!(reactor.graph_stats().queued_effects, 0);
    reactor.finish_run(&mut tracking, guard, ticket);
    assert_eq!(reactor.graph_stats().queued_effects, 1, "the run it owed is pending now");
    reactor.finish_flush(outer);
    assert!(reactor.take_wake());
}

#[test]
fn a_drain_that_is_broken_off_loses_nothing() {
    let mut reactor = reactor();
    reactor.schedule(Job::Task(10));
    reactor.schedule(Job::Task(11));
    reactor.schedule(Job::Task(12));
    assert!(reactor.take_wake());
    let drain = reactor.flush_now().expect("jobs are queued");
    assert_eq!(reactor.next_job(), Some(Job::Task(10)));
    reactor.finish_flush(drain);
    assert!(reactor.take_wake(), "the host is asked again");
    let drain = reactor.flush_now().expect("jobs are left");
    assert_eq!(reactor.next_job(), Some(Job::Task(11)));
    assert_eq!(reactor.next_job(), Some(Job::Task(12)));
    assert_eq!(reactor.next_job(), None);
    reactor.finish_flush(drain);
    assert!(!reactor.take_wake());
    assert!(reactor.flush_now().is_none(), "an empty queue is not a flush");
    assert_eq!(reactor.graph_stats().flushes, 2);
}

#[test]
fn a_node_recomputes_once_per_change_and_a_failed_one_is_retried() {
    let mut reactor = reactor();
    let mut tracking = Tracking::new();
    let mut signal = signal_in(&mut reactor, 2, at(1));
    let mut memo = memo_in(&mut reactor, at(2));
    let mut refresh = Refresh::node(memo.id());
    assert!(matches!(
        advance(&mut refresh, &mut reactor),
        RefreshStep::Recompute(node) if node == memo.id()
    ));
    let guard = reactor.start_recompute(&mut tracking, memo.id());
    reactor.fail_recompute(&mut tracking, guard, memo.id());
    assert!(memo.cached().is_none());

    let mut refresh = Refresh::node(memo.id());
    assert!(matches!(advance(&mut refresh, &mut reactor), RefreshStep::Recompute(_)));
    let guard = reactor.start_recompute(&mut tracking, memo.id());
    let value = signal.get(&mut reactor, &tracking) * 10;
    reactor.leave_context(&mut tracking, guard);
    assert!(memo.finish(&mut reactor, value));
    assert!(matches!(advance(&mut refresh, &mut reactor), RefreshStep::Done));
    assert_eq!(memo.get(&mut reactor, &tracking), 20);

    let mut again = Refresh::node(memo.id());
    assert!(matches!(advance(&mut again, &mut reactor), RefreshStep::Done));

    signal.set(&mut reactor, 2, at(3));
    let mut unchanged = Refresh::node(memo.id());
    assert!(matches!(advance(&mut unchanged, &mut reactor), RefreshStep::Done));
    signal.set(&mut reactor, 3, at(3));
    let mut changed = Refresh::node(memo.id());
    assert!(matches!(advance(&mut changed, &mut reactor), RefreshStep::Recompute(_)));
}

#[test]
fn equal_results_keep_the_version_and_thunks_never_do() {
    let mut reactor = reactor();
    let mut memo = memo_in(&mut reactor, at(1));
    assert!(memo.finish(&mut reactor, 5));
    assert_eq!(reactor.node_version(memo.id()), Some(1));
    assert!(!memo.finish(&mut reactor, 5));
    assert_eq!(reactor.node_version(memo.id()), Some(1));
    assert!(!memo.finish_by(&mut reactor, 6, |left: &i32, right: &i32| left / 10 == right / 10));
    assert_eq!(memo.peek(), 6, "the result is cached either way");
    assert!(memo.finish_judged(&mut reactor, 6, false));
    assert_eq!(reactor.node_version(memo.id()), Some(2));

    let mut thunk = thunk_in(&mut reactor, at(2));
    thunk.finish(&mut reactor, 5);
    thunk.finish(&mut reactor, 5);
    assert_eq!(reactor.node_version(thunk.id()), Some(2));
    assert_eq!(thunk.with_peek(|value| value + 1), 6);
    let id = thunk.id();
    thunk.release(&mut reactor);
    assert_eq!(reactor.node_kind(id), None);
}

#[test]
fn untracked_reads_record_nothing_and_regions_nest() {
    let mut reactor = reactor();
    let mut tracking = Tracking::new();
    let signal = signal_in(&mut reactor, 'x', at(1));
    let cell = cell_in(&mut reactor, 'y', at(2));
    let observer = reactor.allocate_node(NodeKind::Source, at(3));
    let guard = reactor.run_in_context(&mut tracking, observer);
    let outer = untrack(&mut tracking);
    let inner = untrack(&mut tracking);
    signal.get(&mut reactor, &tracking);
    inner.resume(&mut tracking);
    assert!(tracking.is_untracked());
    cell.get(&mut reactor, &tracking);
    outer.resume(&mut tracking);
    assert!(!tracking.is_untracked());
    assert_eq!(reactor.dependency_count(observer), 0);
    signal.get(&mut reactor, &tracking);
    assert_eq!(signal.peek(), 'x');
    reactor.leave_context(&mut tracking, guard);
    assert_eq!(reactor.dependency_count(observer), 1);
    assert_eq!(reactor.observers_of(signal.id()), vec![observer]);
    assert!(!tracking.is_untracked() && tracking.accepts(ReactorId(8)));
}

#[test]
fn a_run_forgets_what_the_run_before_it_read() {
    let mut reactor = reactor();
    let mut tracking = Tracking::new();
    let left = source_in(&mut reactor, at(1));
    let right = source_in(&mut reactor, at(2));
    let observer = reactor.allocate_node(NodeKind::Source, at(3));
    let guard = reactor.run_in_context(&mut tracking, observer);
    left.observe(&mut reactor, &tracking);
    assert!(!tracking.accepts(ReactorId(8)), "another reactor's nodes are not recorded here");
    reactor.leave_context(&mut tracking, guard);
    assert!(left.is_observed(&reactor) && !right.is_observed(&reactor));
    right.trigger(&mut reactor, at(4));
    let guard = reactor.run_in_context(&mut tracking, observer);
    right.observe(&mut reactor, &tracking);
    reactor.leave_context(&mut tracking, guard);
    assert!(!left.is_observed(&reactor) && right.is_observed(&reactor));
    let recorded = reactor.dependencies_of(observer);
    assert_eq!((recorded[0].node, recorded[0].version), (right.id(), 1));
}

#[test]
fn hooks_tell_the_latest_fact_once() {
    let mut reactor = reactor();
    let mut tracking = Tracking::new();
    let source = source_with_hooks_in(&mut reactor, at(1));
    let observer = reactor.allocate_node(NodeKind::Source, at(2));
    for _ in 0..3 {
        let guard = reactor.run_in_context(&mut tracking, observer);
        source.observe(&mut reactor, &tracking);
        reactor.leave_context(&mut tracking, guard);
    }
    assert_eq!(reactor.graph_stats().pending_jobs, 1, "deliveries coalesce");
    let flush = reactor.external_flush();
    assert_eq!(reactor.deliver_hooks(source.id()), Some(true));
    assert_eq!(reactor.deliver_hooks(source.id()), None, "never twice in a row");
    reactor.dispose(observer);
    assert_eq!(reactor.deliver_hooks(source.id()), Some(false));
    reactor.finish_external_flush(flush);
    source.release(&mut reactor);
}

#[test]
fn flush_totals_count_every_unit_of_work_once() {
    let mut reactor = reactor();
    let mut owners = Owners::new(false);
    let mut tracking = Tracking::new();
    let mut signal = signal_in(&mut reactor, 0, at(1));
    let effect = reactor.effect(&mut owners, at(2));
    let subscription = reactor.subscribe_diagnostics();
    signal.set(&mut reactor, 0, at(3));
    signal.set(&mut reactor, 1, at(3));
    let drain = reactor.flush_now().expect("the first run is queued");
    let _ = reactor.next_job();
    let ticket = match reactor.start_run(effect.id()) {
        RunStep::Teardown(ticket) => ticket,
        other => panic!("a new effect runs, got {other:?}"),
    };
    let guard = enter(&mut reactor, &mut owners, &mut tracking, &effect, ticket);
    signal.get(&mut reactor, &tracking);
    signal.set(&mut reactor, 2, at(3));
    reactor.finish_run(&mut tracking, guard, ticket);
    reactor.finish_flush(drain);

    let totals: Vec<FlushStats> = reactor
        .take_events()
        .into_iter()
        .filter_map(|event| match event {
            DiagnosticEvent::FlushFinished { stats, flush_epoch: 1, remaining_jobs: 1, .. } => {
                Some(stats)
            }
            _ => None,
        })
        .collect();
    let mut expected = FlushStats::default();
    assert!(expected.is_empty());
    expected.writes_suppressed = 1;
    expected.root_writes = 2;
    expected.nodes_marked_dirty = 1;
    expected.max_propagation_depth = 1;
    expected.effects_queued = 1;
    expected.effects_run = 1;
    expected.effects_pending = 1;
    expected.edges_added = 1;
    expected.jobs_at_start = 1;
    expected.jobs_at_finish = 1;
    assert_eq!(totals, vec![expected]);
    assert!(!expected.is_empty());
    reactor.unsubscribe_diagnostics(subscription);
    assert!(!reactor.diagnostics_enabled());
}

#[test]
fn the_hundred_and_first_run_in_one_drain_is_stopped() {
    let mut reactor = reactor();
    let mut owners = Owners::new(false);
    let mut tracking = Tracking::new();
    let mut signal = signal_in(&mut reactor, 0, at(1));
    let effect = reactor.effect(&mut owners, at(2));
    let drain = reactor.flush_now().expect("the first run is queued");
    let mut runs = 0;
    while let Some(job) = reactor.next_job() {
        assert_eq!(job, Job::Effect(effect.id()));
        match reactor.start_run(effect.id()) {
            RunStep::Teardown(ticket) => {
                let guard = enter(&mut reactor, &mut owners, &mut tracking, &effect, ticket);
                let next = signal.get(&mut reactor, &tracking) + 1;
                signal.set(&mut reactor, next, at(3));
                reactor.finish_run(&mut tracking, guard, ticket);
                runs += 1;
            }
            RunStep::Diverged => break,
            other => panic!("the effect is dirty, got {other:?}"),
        }
    }
    reactor.finish_flush(drain);
    assert_eq!(runs, adaptite::MAX_RUNS_PER_FLUSH);
    assert_eq!(runs, 100);
}

#[test]
fn teardown_goes_backwards_and_cleanups_come_first() {
    let mut owners = Owners::new(true);
    let mut reactor = reactor();
    let open = scope(&mut owners);
    assert!(on_cleanup(&mut owners, 1));
    let first = reactor.effect(&mut owners, at(1));
    let nested = scope(&mut owners);
    assert!(on_cleanup(&mut owners, 2));
    let (_inner, adoption) = nested.finish(&mut owners);
    assert!(matches!(adoption, Adoption::Adopted));
    assert!(on_cleanup(&mut owners, 3));
    let second = reactor.effect(&mut owners, at(2));
    let (handle, adoption) = open.finish(&mut owners);
    assert!(matches!(adoption, Adoption::Unowned));
    assert_eq!(
        ownership_stats(&owners),
        OwnershipStats {
            live_owners: 4,
            cleanup_registrations: 3,
            owned_children: 3,
            owners_created: 4,
            owners_disposed: 0,
            cleanups_registered: 3,
            cleanups_run: 0,
        }
    );

    let mut teardown = handle.dispose(&mut owners);
    assert_eq!(
        steps(&mut teardown, &mut owners),
        vec![
            "cleanup 3".to_string(),
            "cleanup 1".to_string(),
            format!("effect {}", second.id().get()),
            "cleanup 2".to_string(),
            format!("effect {}", first.id().get()),
        ]
    );
    assert!(handle.is_disposed(&owners));
    let mut again = handle.dispose(&mut owners);
    assert!(again.is_complete() && steps(&mut again, &mut owners).is_empty());
    assert_eq!(audit_ownership(&mut owners), OwnershipAudit::Consistent);
    let stats = ownership_stats(&owners);
    assert_eq!((stats.cleanup_registrations, stats.owned_children), (0, 0));
    assert_eq!(stats.cleanups_run, 3);
    assert!(!stats.is_empty(), "the frames are still there");
    assert!(OwnershipStats::default().is_empty());
}

#[test]
fn the_nearest_handler_is_found_through_plain_scopes_and_not_past_barriers() {
    let mut owners = Owners::new(false);
    let outer = scope_catch(&mut owners, 40);
    let plain = scope(&mut owners);
    assert_eq!(owners.error_handler(plain.owner), Some(40));
    let inner = scope_catch(&mut owners, 41);
    assert_eq!(owners.error_handler(inner.owner), Some(41));
    let barrier = unowned(&mut owners);
    assert!(owners.current_owner().is_none());
    let outside = scope(&mut owners);
    assert_eq!(owners.error_handler(outside.owner), None);
    let _ = outside.finish(&mut owners);
    owners.leave(barrier);
    let _ = inner.finish(&mut owners);
    let _ = plain.finish(&mut owners);
    let _ = outer.finish(&mut owners);
    assert!(matches!(
        owners.adopt_into_current(Owned::Effect { reactor: ReactorId(7), effect: NodeId::new(1) }),
        Adoption::Unowned
    ));
}

#[test]
fn disposal_takes_an_effect_out_of_the_graph_though_its_teardown_is_cut_short() {
    let mut reactor = reactor();
    let mut owners = Owners::new(true);
    let mut tracking = Tracking::new();
    let signal = signal_in(&mut reactor, 0, at(1));
    let effect = reactor.effect(&mut owners, at(2));
    let ticket = match reactor.start_run(effect.id()) {
        RunStep::Teardown(ticket) => ticket,
        other => panic!("a new effect runs, got {other:?}"),
    };
    let guard = enter(&mut reactor, &mut owners, &mut tracking, &effect, ticket);
    signal.get(&mut reactor, &tracking);
    reactor.finish_run(&mut tracking, guard, ticket);
    assert_eq!(reactor.graph_stats().live_nodes, 2);
    let teardown = effect.dispose(&mut reactor, &mut owners);
    assert!(teardown.is_some());
    reactor.unhook_effect(effect.id());
    let stats = reactor.graph_stats();
    assert_eq!(stats.live_nodes_of_kind(NodeKind::Effect), 0);
    assert_eq!(stats.live_edges, 0);
    assert_eq!(reactor.observer_count(signal.id()), 0);
    assert!(effect.is_disposed(&reactor));
    assert!(effect.dispose(&mut reactor, &mut owners).is_none(), "an effect is disposed once");
}

#[test]
fn queues_hand_out_what_was_emitted_in_order_and_once() {
    let mut reactor = reactor();
    let tracking = Tracking::new();
    let event = event_in(&mut reactor, at(1));
    let mut queue = EventQueue::new();
    queue.push("a");
    queue.push("b");
    assert_eq!(queue.drain(&event, &mut reactor, &tracking), vec!["a", "b"]);
    assert!(queue.drain(&event, &mut reactor, &tracking).is_empty());
    queue.push("c");
    assert_eq!(queue.drain(&event, &mut reactor, &tracking), vec!["c"]);
    event.emit(&mut reactor, at(2));
    assert_eq!(reactor.node_version(event.id()), Some(1));
    event.release(&mut reactor);
    assert_eq!(reactor.graph_stats().live_nodes, 0);
}

#[test]
fn each_subscriber_hears_of_everything_after_it_subscribed() {
    let mut reactor = reactor();
    let first = reactor.subscribe_diagnostics();
    let second = reactor.subscribe_diagnostics();
    let signal = signal_in(&mut reactor, 0, at(9));
    assert_eq!(
        reactor.take_events(),
        vec![DiagnosticEvent::NodeCreated {
            reactor: ReactorId(7),
            node: signal.id(),
            kind: NodeKind::Signal,
            origin: at(9),
        }]
    );
    reactor.unsubscribe_diagnostics(first);
    assert!(reactor.diagnostics_enabled(), "the other one still listens");
    reactor.unsubscribe_diagnostics(second);
    assert!(!reactor.diagnostics_enabled());
    signal.release(&mut reactor);
    assert!(reactor.take_events().is_empty());
}

#[test]
fn releasing_a_watch_or_a_resource_takes_its_nodes_out_of_the_graph() {
    let mut reactor = reactor();
    let mut owners = Owners::new(true);
    let watch: Watch<i32> = watch_in(&mut reactor, &mut owners, at(1));
    let (resource, input): (Resource<i32>, Memo<i32>) =
        resource_in(&mut reactor, &mut owners, at(2));
    assert_eq!(reactor.graph_stats().live_nodes, 7);
    assert_eq!(resource.effect().reactor_id(), ReactorId(7));
    watch.release(&mut reactor);
    assert_eq!(reactor.graph_stats().live_nodes_of_kind(NodeKind::Memo), 1);
    resource.release(&mut reactor);
    assert_eq!(reactor.graph_stats().live_nodes_of_kind(NodeKind::Signal), 0);
    input.release(&mut reactor);
    assert_eq!(reactor.graph_stats().live_nodes_of_kind(NodeKind::Effect), 2);
    assert_eq!(reactor.graph_stats().live_nodes, 2);
}

#[test]
fn a_frame_goes_away_once_it_is_empty_and_out_of_effect() {
    let mut owners = Owners::new(true);
    let open = scope(&mut owners);
    let owner = open.owner;
    assert!(!owners.release(owner), "it is in effect");
    assert!(on_cleanup(&mut owners, 1));
    let (handle, _) = open.finish(&mut owners);
    assert!(!owners.release(owner), "it holds a cleanup");
    let open = scope(&mut owners);
    let empty_owner = open.owner;
    let (empty, _) = open.finish(&mut owners);
    assert!(!owners.release(empty_owner), "it was not disposed");
    assert!(steps(&mut empty.dispose(&mut owners), &mut owners).is_empty());
    assert!(owners.release(empty_owner));
    let mut teardown = handle.dispose(&mut owners);
    assert_eq!(steps(&mut teardown, &mut owners), vec!["cleanup 1".to_string()]);
    assert!(owners.release(owner));
    assert!(!owners.release(owner), "it is gone");
    assert!(handle.is_disposed(&owners));
    assert!(handle.dispose(&mut owners).is_complete());
    assert!(ownership_stats(&owners).is_empty());
    assert_eq!(audit_ownership(&mut owners), OwnershipAudit::Consistent);
}

#[test]
fn failures_are_told_in_words() {
    let mut reactor = reactor();
    let mut tracking = Tracking::new();
    let outer = reactor.allocate_node(NodeKind::Memo, at(1));
    let inner = reactor.allocate_node(NodeKind::Memo, at(205));
    let first = reactor.run_in_context(&mut tracking, outer);
    let second = reactor.run_in_context(&mut tracking, inner);
    let error = reactor.cycle_check(outer).expect_err("the outer one is being computed");
    assert_eq!(
        error.message(),
        "reactive cycle detected: 1 (created at laws.rs:1:3) -> 2 (created at laws.rs:205:3) -> 1 \
         (created at laws.rs:1:3)"
    );
    reactor.dispose(inner);
    let error = reactor.cycle_check(inner).expect_err("the inner one is being computed");
    assert_eq!(error.message(), "reactive cycle detected: 2 -> 2");
    reactor.leave_context(&mut tracking, second);
    reactor.leave_context(&mut tracking, first);

    assert_eq!(
        reactor.divergence_message(outer),
        "adaptite: effect created at laws.rs:1:3 ran more than 100 times in a single drain; this \
         suggests a divergent reactive feedback loop (the effect writes state it depends on \
         without converging)"
    );
    assert!(reactor.divergence_message(inner).starts_with("adaptite: effect created at <unknown>"));

    let known = ErrorInfo::new("payload", NodeId::new(40), Some(at(6)));
    assert_eq!(known.describe(Some("boom")), "effect 40 panicked (created at laws.rs:6:3): boom");
    let unknown = ErrorInfo::new("payload", NodeId::new(u64::MAX), None);
    assert_eq!(unknown.describe(None), "effect 18446744073709551615 panicked");
    assert_eq!(*unknown.payload(), "payload");
}

/// A write, a flush with one run, and a disposal; what happened apart from diagnostics.
fn small_workload(reactor: &mut Reactor) -> Vec<String> {
    let mut owners = Owners::new(false);
    let mut tracking = Tracking::new();
    let mut log = Vec::new();
    let mut signal = signal_in(reactor, 1, at(1));
    let effect = reactor.effect(&mut owners, at(2));
    log.push(format!("{:?} {}", reactor.graph_stats(), reactor.take_wake()));
    let drain = reactor.flush_now().expect("a run is queued");
    while let Some(job) = reactor.next_job() {
        log.push(format!("{job:?}"));
        if let RunStep::Teardown(ticket) = reactor.start_run(effect.id()) {
            let guard = enter(reactor, &mut owners, &mut tracking, &effect, ticket);
            signal.get(reactor, &tracking);
            reactor.finish_run(&mut tracking, guard, ticket);
        }
    }
    reactor.finish_flush(drain);
    signal.set(reactor, 2, at(3));
    log.push(format!("{:?} {}", reactor.graph_stats(), reactor.take_wake()));
    signal.release(reactor);
    log.push(format!("{:?}", reactor.graph_stats()));
    log
}

#[test]
fn listening_changes_nothing_that_a_reactor_does() {
    let mut quiet = reactor();
    let mut heard = reactor();
    let subscription = heard.subscribe_diagnostics();
    assert_eq!(small_workload(&mut quiet), small_workload(&mut heard));
    assert!(quiet.take_events().is_empty());
    assert_eq!(heard.take_events().len(), 11);
    heard.unsubscribe_diagnostics(subscription);
}

#[test]
fn a_whole_tree_is_torn_down_and_the_teardown_ends() {
    let mut owners = Owners::new(true);
    let root = scope(&mut owners);
    let root_owner = root.owner;
    for token in 0..3 {
        let middle = scope(&mut owners);
        let leaf = scope(&mut owners);
        assert!(on_cleanup(&mut owners, token));
        let _ = leaf.finish(&mut owners);
        let effect = NodeId::new(100 + token);
        let owned = Owned::Effect { reactor: ReactorId(7), effect };
        assert!(matches!(owners.adopt_into_current(owned), Adoption::Adopted));
        let _ = middle.finish(&mut owners);
    }
    let (handle, _) = root.finish(&mut owners);
    let mut teardown = handle.dispose(&mut owners);
    assert_eq!(
        steps(&mut teardown, &mut owners),
        vec!["effect 102", "cleanup 2", "effect 101", "cleanup 1", "effect 100", "cleanup 0"]
    );
    let stats = ownership_stats(&owners);
    assert_eq!((stats.owners_created, stats.owners_disposed), (7, 7));
    assert_eq!((stats.cleanup_registrations, stats.owned_children), (0, 0));
    assert!(!owners.add_cleanup(root_owner, 9), "a disposed owner takes nothing in");
    assert_eq!(ownership_stats(&owners).cleanup_registrations, 0);
}

/// Computes a memo from what `compute` reads, and says whether that counts as a change.
fn recompute(
    memo: &mut Memo<i32>,
    reactor: &mut Reactor,
    tracking: &mut Tracking,
    compute: impl FnOnce(&mut Reactor, &Tracking) -> i32,
) -> bool {
    let guard = reactor.start_recompute(tracking, memo.id());
    let value = compute(reactor, tracking);
    reactor.leave_context(tracking, guard);
    memo.finish(reactor, value)
}

#[test]
fn a_stale_chain_is_brought_up_to_date_from_the_inside_out() {
    let mut reactor = reactor();
    let mut tracking = Tracking::new();
    let mut signal = signal_in(&mut reactor, 12, at(1));
    let mut tens = memo_in(&mut reactor, at(2));
    let mut text = memo_in(&mut reactor, at(3));
    recompute(&mut tens, &mut reactor, &mut tracking, |graph, inside| {
        signal.get(graph, inside) / 10
    });
    recompute(&mut text, &mut reactor, &mut tracking, |graph, inside| tens.get(graph, inside) + 100);

    signal.set(&mut reactor, 13, at(4));
    let mut refresh = Refresh::node(text.id());
    assert!(matches!(
        advance(&mut refresh, &mut reactor),
        RefreshStep::Recompute(node) if node == tens.id()
    ));
    assert!(!recompute(&mut tens, &mut reactor, &mut tracking, |graph, inside| {
        signal.get(graph, inside) / 10
    }));
    assert!(matches!(advance(&mut refresh, &mut reactor), RefreshStep::Done));

    signal.set(&mut reactor, 25, at(4));
    let mut refresh = Refresh::node(text.id());
    assert!(matches!(
        advance(&mut refresh, &mut reactor),
        RefreshStep::Recompute(node) if node == tens.id()
    ));
    assert!(recompute(&mut tens, &mut reactor, &mut tracking, |graph, inside| {
        signal.get(graph, inside) / 10
    }));
    assert!(matches!(
        advance(&mut refresh, &mut reactor),
        RefreshStep::Recompute(node) if node == text.id()
    ));
    assert!(recompute(&mut text, &mut reactor, &mut tracking, |graph, inside| {
        tens.get(graph, inside) + 100
    }));
    assert!(matches!(advance(&mut refresh, &mut reactor), RefreshStep::Done));
    assert_eq!(text.peek(), 102);
    let recorded = reactor.dependencies_of(text.id());
    assert_eq!(reactor.node_version(tens.id()), Some(recorded[0].version));
}

#[test]
fn an_effect_is_let_off_where_nothing_changed_and_saw_the_present_either_way() {
    let mut reactor = reactor();
    let mut owners = Owners::new(true);
    let mut tracking = Tracking::new();
    let mut signal = signal_in(&mut reactor, 1i32, at(1));
    let mut sign = memo_in(&mut reactor, at(2));
    let handle = reactor.effect(&mut owners, at(3));
    let effect = handle.id();
    let mut runs = 0;
    for (value, lets_off) in [(1i32, false), (2, true), (-2, false), (-3, true)] {
        signal.set(&mut reactor, value, at(4));
        let drain = reactor.flush_now().expect("a run is queued");
        assert_eq!(reactor.next_job(), Some(Job::Effect(effect)));
        let mut step = reactor.start_run(effect);
        if let RunStep::Verify = step {
            let mut refresh = Refresh::effect(&reactor, effect);
            let changed = loop {
                match advance(&mut refresh, &mut reactor) {
                    RefreshStep::Verified(changed) => break changed,
                    _ => recompute(&mut sign, &mut reactor, &mut tracking, |graph, inside| {
                        signal.get(graph, inside).signum()
                    }),
                };
            };
            assert_eq!(changed, !lets_off);
            step = reactor.resume_run(effect, changed);
        }
        match step {
            RunStep::Teardown(ticket) => {
                let guard = enter(&mut reactor, &mut owners, &mut tracking, &handle, ticket);
                if sign.cached().is_none() {
                    recompute(&mut sign, &mut reactor, &mut tracking, |graph, inside| {
                        signal.get(graph, inside).signum()
                    });
                }
                assert_eq!(sign.get(&mut reactor, &tracking), value.signum());
                reactor.finish_run(&mut tracking, guard, ticket);
                runs += 1;
            }
            _ => assert!(lets_off),
        }
        assert_eq!(reactor.next_job(), None);
        reactor.finish_flush(drain);
        let recorded = reactor.dependencies_of(effect);
        assert_eq!(recorded.len(), 1);
        assert_eq!(reactor.node_version(sign.id()), Some(recorded[0].version));
    }
    assert_eq!(runs, 2);
}

#[test]
fn after_each_flush_the_last_thing_heard_of_a_node_is_how_it_is() {
    let mut reactor = reactor();
    let mut tracking = Tracking::new();
    let source = source_with_hooks_in(&mut reactor, at(1));
    let observer = reactor.allocate_node(NodeKind::Source, at(2));
    let mut heard = Vec::new();
    for round in [&[true][..], &[true, false], &[false, true, false, true], &[true], &[false]] {
        for &reads in round {
            let guard = reactor.run_in_context(&mut tracking, observer);
            if reads {
                source.observe(&mut reactor, &tracking);
            }
            reactor.leave_context(&mut tracking, guard);
        }
        if let Some(drain) = reactor.flush_now() {
            while let Some(job) = reactor.next_job() {
                if let Job::Hook(node) = job {
                    heard.extend(reactor.deliver_hooks(node));
                }
            }
            reactor.finish_flush(drain);
        }
        assert_eq!(heard.last().copied().unwrap_or(false), source.is_observed(&reactor));
    }
    assert_eq!(heard, vec![true, false, true, false]);
}

#[test]
fn a_computation_inside_an_untracked_region_records_for_itself_alone() {
    let mut reactor = reactor();
    let mut tracking = Tracking::new();
    let left = source_in(&mut reactor, at(1));
    let right = source_in(&mut reactor, at(2));
    let outer = reactor.allocate_node(NodeKind::Source, at(3));
    let inner = reactor.allocate_node(NodeKind::Source, at(4));
    let running = reactor.run_in_context(&mut tracking, outer);
    let region = untrack(&mut tracking);
    left.observe(&mut reactor, &tracking);
    let nested = reactor.run_in_context(&mut tracking, inner);
    right.observe(&mut reactor, &tracking);
    let error = reactor.try_observe(&tracking, outer).expect_err("it is running");
    assert_eq!(error.cycle(), &vec![outer, inner, outer]);
    reactor.leave_context(&mut tracking, nested);
    assert!(tracking.is_untracked());
    left.observe(&mut reactor, &tracking);
    let error = reactor.try_observe(&tracking, outer).expect_err("suspended or not");
    assert_eq!(error.cycle(), &vec![outer, outer]);
    region.resume(&mut tracking);
    assert_eq!(reactor.dependency_count(outer), 0);
    assert_eq!(reactor.observers_of(right.id()), vec![inner]);
    left.observe(&mut reactor, &tracking);
    reactor.leave_context(&mut tracking, running);
    assert_eq!(reactor.observers_of(left.id()), vec![outer]);
}

#[test]
fn another_reactors_computation_does_not_learn_of_a_read() {
    let mut here = Reactor::new(ReactorId(1));
    let mut there = Reactor::new(ReactorId(2));
    let mut tracking = Tracking::new();
    let signal = signal_in(&mut there, 5, at(1));
    let observer = here.allocate_node(NodeKind::Source, at(2));
    let guard = here.run_in_context(&mut tracking, observer);
    assert!(!tracking.accepts(there.id()), "a program can tell beforehand");
    assert_eq!(signal.get(&mut there, &tracking), 5);
    here.leave_context(&mut tracking, guard);
    assert_eq!((here.dependency_count(observer), there.graph_stats().live_edges), (0, 0));
}

#[test]
fn asserting_consistency_changes_nothing_that_counts() {
    let mut owners = Owners::new(true);
    let kept = scope(&mut owners).finish(&mut owners).0;
    let open = scope(&mut owners);
    let dropped_owner = open.owner;
    let dropped = open.finish(&mut owners).0;
    assert!(steps(&mut dropped.dispose(&mut owners), &mut owners).is_empty());
    assert!(owners.release(dropped_owner));
    let before = ownership_stats(&owners);
    assert!(debug_assert_ownership_consistent(&mut owners));
    assert_eq!(ownership_stats(&owners), before);
    assert!(!kept.is_disposed(&owners));
    assert_eq!(audit_ownership(&mut owners), OwnershipAudit::Consistent);
}

#[test]
fn a_failure_goes_to_the_boundary_that_was_there_as_the_turn_began() {
    let mut reactor = reactor();
    let mut owners = Owners::new(true);
    let open = scope_catch(&mut owners, 40);
    let boundary = open.owner;
    let effect = reactor.effect(&mut owners, at(9));
    let (handle, _) = open.finish(&mut owners);
    let handler = owners.error_handler(effect.owner());
    assert_eq!(handler, Some(40));

    assert_eq!(steps(&mut handle.dispose(&mut owners), &mut owners), vec!["effect 1"]);
    assert!(owners.release(boundary), "the body ended its own boundary");
    assert_eq!(owners.error_handler(effect.owner()), None);
    let contained = effect.contain(&mut reactor, &mut owners, handler).expect("it is contained");
    assert_eq!((contained.handler, contained.origin), (40, Some(at(9))));
    assert!(contained.teardown.is_some() && effect.is_disposed(&reactor));

    let again = effect.contain(&mut reactor, &mut owners, handler).expect("it is contained");
    assert!(again.teardown.is_none(), "it was disposed before");
    assert!(effect.contain(&mut reactor, &mut owners, None).is_none());
}

#[test]
fn a_cycle_met_while_verifying_names_every_node_and_where_it_was_created() {
    let mut reactor = reactor();
    let mut tracking = Tracking::new();
    let mut signal = signal_in(&mut reactor, 1i32, at(1));
    let mut gate = memo_in(&mut reactor, at(2));
    let first: Memo<i32> = memo_in(&mut reactor, at(3));
    let second: Memo<i32> = memo_in(&mut reactor, at(4));
    recompute(&mut gate, &mut reactor, &mut tracking, |graph, inside| {
        signal.get(graph, inside).signum()
    });
    for (observer, inputs) in [
        (first.id(), vec![gate.id(), second.id()]),
        (second.id(), vec![first.id()]),
    ] {
        let guard = reactor.start_recompute(&mut tracking, observer);
        for input in inputs {
            reactor.observe(&tracking, input);
        }
        reactor.leave_context(&mut tracking, guard);
        reactor.publish(observer, false);
    }

    signal.set(&mut reactor, 2, at(5));
    let mut refresh = Refresh::node(first.id());
    let error = loop {
        match advance(&mut refresh, &mut reactor) {
            RefreshStep::Cycle(error) => break error,
            _ => recompute(&mut gate, &mut reactor, &mut tracking, |graph, inside| {
                signal.get(graph, inside).signum()
            }),
        };
    };
    assert_eq!(error.cycle(), &vec![first.id(), second.id(), first.id()]);
    assert_eq!(error.origins(), &vec![Some(at(3)), Some(at(4)), Some(at(3))]);
}

#[test]
fn equality_is_that_of_the_type() {
    let mut reactor = reactor();
    let mut name = signal_in(&mut reactor, "a".to_string(), at(1));
    assert_eq!(name.set(&mut reactor, "a".to_string(), at(2)), None);
    assert_eq!(name.set(&mut reactor, "b".to_string(), at(2)), Some("a".to_string()));
    let mut list = cell_in(&mut reactor, vec![1, 2], at(3));
    assert_eq!(list.set(&mut reactor, vec![1, 2], at(4)), None);
    assert_eq!(list.set(&mut reactor, vec![2, 1], at(4)), Some(vec![1, 2]));
    let mut memo = memo_in(&mut reactor, at(5));
    assert!(memo.finish(&mut reactor, Some('x')));
    assert!(!memo.finish(&mut reactor, Some('x')));
    assert!(memo.finish(&mut reactor, None));
}

#[test]
fn a_run_starts_with_an_empty_owner() {
    let mut reactor = reactor();
    let mut owners = Owners::new(true);
    let mut tracking = Tracking::new();
    let effect = reactor.effect(&mut owners, at(1));
    let ticket = match reactor.start_run(effect.id()) {
        RunStep::Teardown(ticket) => ticket,
        other => panic!("a new effect runs, got {other:?}"),
    };
    let guard = enter(&mut reactor, &mut owners, &mut tracking, &effect, ticket);
    let inside = owners.with_owner(effect.owner());
    assert!(on_cleanup(&mut owners, 5));
    let _ = scope(&mut owners).finish(&mut owners);
    owners.leave(inside);
    reactor.finish_run(&mut tracking, guard, ticket);
    let held = ownership_stats(&owners);
    assert_eq!((held.cleanup_registrations, held.owned_children), (1, 1));

    let mut teardown = owners.reset(effect.owner());
    assert_eq!(steps(&mut teardown, &mut owners), vec!["cleanup 5"]);
    assert!(teardown.is_complete());
    let held = ownership_stats(&owners);
    assert_eq!((held.cleanup_registrations, held.owned_children), (0, 0));
    assert!(!effect.is_disposed(&reactor));
}

#[test]
fn live_nodes_of_all_kinds_are_the_live_nodes() {
    let mut reactor = reactor();
    let mut owners = Owners::new(true);
    let gone = source_in(&mut reactor, at(1)).id();
    let _signal = signal_in(&mut reactor, 1, at(2));
    let _event = event_in(&mut reactor, at(3));
    let _memo: Memo<i32> = memo_in(&mut reactor, at(4));
    let _effect = reactor.effect(&mut owners, at(5));
    reactor.dispose(gone);
    let stats = reactor.graph_stats();
    let total: usize = NodeKind::all().into_iter().map(|kind| stats.live_nodes_of_kind(kind)).sum();
    assert_eq!((total, stats.live_nodes), (4, 4));
    assert_eq!((stats.nodes_created, stats.nodes_disposed), (5, 1));
    assert_eq!(stats.live_nodes_of_kind(NodeKind::Source), 0);
    assert_eq!(stats.live_nodes_of_kind(NodeKind::Memo), 1);
}
