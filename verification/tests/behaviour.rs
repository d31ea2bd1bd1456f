//! The library at work: a small host runs the closures that the library decides about.
use std::cell::{Cell as Slot, RefCell};
use std::collections::HashMap;
use std::rc::{Rc, Weak};

use adaptite::{
    audit_ownership, debug_assert_ownership_consistent, on_cleanup, owner, ownership_stats, scope,
    scope_catch, unowned, untrack, Adoption, Ambient, Cell, ComputeOutcome, ContextGuard, Defaults,
    DiagnosticEvent, DiagnosticSubscription, DynObservable, EffectHandle, EffectRun, Erased,
    ErrorInfo, Event, EventQueue, InvalidationLevel, Job, Location, Memo, NodeId, NodeKind,
    Observable, Owner, Owners, OwnershipAudit, OwnershipDrift, OwnershipGauge, Reactor, ReactorId,
    ReactorIds, Refresh, RefreshStep, Resource, RunStep, ScopeHandle, Signal, Source, Subscription,
    Teardown, TeardownStep, Thunk, Tracking, Watch, Writable, WritableObservable, Write,
};

/// What a computation or an effect body comes to: it may fail.
type Outcome<T> = Result<T, String>;

fn line(line: u32) -> Location {
    Location { file: "tests/behaviour.rs", line, column: 1 }
}

/// What one thread shares between its reactors.
struct Desk {
    tracking: Tracking,
    owners: Owners,
    next: u64,
    cleanups: HashMap<u64, Box<dyn FnOnce()>>,
    handlers: HashMap<u64, Rc<dyn Fn(ErrorInfo<String>)>>,
    hosts: Vec<(ReactorId, Weak<Host>)>,
}

#[derive(Clone)]
struct Bench(Rc<RefCell<Desk>>);

impl Bench {
    fn new() -> Self {
        Bench(Rc::new(RefCell::new(Desk {
            tracking: Tracking::new(),
            owners: Owners::new(true),
            next: 1,
            cleanups: HashMap::new(),
            handlers: HashMap::new(),
            hosts: Vec::new(),
        })))
    }

    fn token(&self) -> u64 {
        let mut desk = self.0.borrow_mut();
        let token = desk.next;
        desk.next += 1;
        token
    }

    fn host(&self) -> Rc<Host> {
        let id = ReactorId(self.0.borrow().hosts.len() as u64 + 1);
        let host = Rc::new(Host {
            bench: self.clone(),
            reactor: RefCell::new(Reactor::new(id)),
            computed: RefCell::new(HashMap::new()),
            effects: RefCell::new(HashMap::new()),
            hooks: RefCell::new(HashMap::new()),
            tasks: RefCell::new(HashMap::new()),
            listeners: RefCell::new(Vec::new()),
            woken: Slot::new(false),
        });
        self.0.borrow_mut().hosts.push((id, Rc::downgrade(&host)));
        host
    }

    fn untracked<T>(&self, f: impl FnOnce() -> T) -> T {
        let guard = untrack(&mut self.0.borrow_mut().tracking);
        let output = f();
        guard.resume(&mut self.0.borrow_mut().tracking);
        output
    }

    fn unowned<T>(&self, f: impl FnOnce() -> T) -> T {
        let guard = unowned(&mut self.0.borrow_mut().owners);
        let output = f();
        self.0.borrow_mut().owners.leave(guard);
        output
    }

    fn owner(&self) -> Option<Owner> {
        owner(&self.0.borrow().owners)
    }

    fn run_in<T>(&self, owner: &Owner, f: impl FnOnce() -> T) -> T {
        let guard = owner.run_in(&mut self.0.borrow_mut().owners);
        let output = f();
        self.0.borrow_mut().owners.leave(guard);
        output
    }

    fn on_cleanup(&self, cleanup: impl FnOnce() + 'static) {
        assert!(self.owner().is_some(), "on_cleanup called outside of a reactive owner");
        let token = self.token();
        self.0.borrow_mut().cleanups.insert(token, Box::new(cleanup));
        let registered = on_cleanup(&mut self.0.borrow_mut().owners, token);
        if !registered {
            let cleanup = self.0.borrow_mut().cleanups.remove(&token);
            cleanup.expect("the cleanup was just stored")();
        }
    }

    fn drive(&self, teardown: &mut Teardown) {
        loop {
            let step = teardown.step(&mut self.0.borrow_mut().owners);
            match step {
                None => break,
                Some(TeardownStep::Continue) => {}
                Some(TeardownStep::Cleanup(token)) => {
                    let cleanup = self.0.borrow_mut().cleanups.remove(&token);
                    self.untracked(cleanup.expect("every cleanup is kept until it runs"));
                }
                Some(TeardownStep::Effect { reactor, effect }) => {
                    let host = self.0.borrow().hosts.iter().find(|host| host.0 == reactor).and_then(
                        |host| host.1.upgrade(),
                    );
                    if let Some(host) = host {
                        self.untracked(|| host.dispose_effect(effect));
                    }
                }
            }
        }
        assert!(teardown.is_complete());
    }

    fn close_scope(&self, open: adaptite::OpenScope) -> Scope {
        let (handle, adoption) = open.finish(&mut self.0.borrow_mut().owners);
        let scope = Scope {
            bench: self.clone(),
            handle: Some(handle),
            tied: matches!(adoption, Adoption::Unowned),
        };
        if matches!(adoption, Adoption::Refused) {
            scope.dispose();
        }
        scope
    }

    fn scope<T>(&self, f: impl FnOnce() -> T) -> (Scope, T) {
        let open = scope(&mut self.0.borrow_mut().owners);
        let output = f();
        (self.close_scope(open), output)
    }

    fn scope_catch<T>(
        &self,
        f: impl FnOnce() -> T,
        on_error: impl Fn(ErrorInfo<String>) + 'static,
    ) -> (Scope, T) {
        let token = self.token();
        self.0.borrow_mut().handlers.insert(token, Rc::new(on_error));
        let open = scope_catch(&mut self.0.borrow_mut().owners, token);
        let output = f();
        (self.close_scope(open), output)
    }
}

struct Scope {
    bench: Bench,
    handle: Option<ScopeHandle>,
    tied: bool,
}

impl Scope {
    fn dispose(&self) {
        let mut teardown = match &self.handle {
            Some(handle) => handle.dispose(&mut self.bench.0.borrow_mut().owners),
            None => return,
        };
        self.bench.drive(&mut teardown);
    }

    fn is_disposed(&self) -> bool {
        let handle = self.handle.as_ref().expect("the handle was not leaked");
        handle.is_disposed(&self.bench.0.borrow().owners)
    }

    fn owner(&self) -> Owner {
        self.handle.as_ref().expect("the handle was not leaked").owner()
    }

    fn leak(mut self) {
        self.tied = false;
        let _ = self.handle.take().expect("the handle was not leaked").leak();
    }
}

impl Drop for Scope {
    fn drop(&mut self) {
        if self.tied {
            self.dispose();
            if let Some(handle) = self.handle.take() {
                let owner = handle.leak();
                self.bench.0.borrow_mut().owners.release(owner);
            }
        }
    }
}

trait Compute {
    fn recompute(&self) -> Outcome<()>;
}

struct EffectCell {
    handle: EffectHandle,
    body: Rc<dyn Fn() -> Outcome<()>>,
    lane: Option<Rc<dyn Fn(EffectRun)>>,
    running: Slot<bool>,
}

type Hook = Rc<dyn Fn()>;
type Listener = Rc<dyn Fn(&DiagnosticEvent)>;

/// One reactor with the closures that belong to it.
struct Host {
    bench: Bench,
    reactor: RefCell<Reactor>,
    computed: RefCell<HashMap<u64, Weak<dyn Compute>>>,
    effects: RefCell<HashMap<u64, Rc<EffectCell>>>,
    hooks: RefCell<HashMap<u64, (Hook, Hook)>>,
    tasks: RefCell<HashMap<u64, Box<dyn FnOnce()>>>,
    listeners: RefCell<Vec<(u64, Listener)>>,
    woken: Slot<bool>,
}

impl Host {
    /// Lets the library work, then delivers what it left in its outboxes.
    fn op<T>(&self, f: impl FnOnce(&mut Reactor, &mut Tracking) -> T) -> T {
        let output = {
            let mut desk = self.bench.0.borrow_mut();
            f(&mut self.reactor.borrow_mut(), &mut desk.tracking)
        };
        self.pump();
        output
    }

    fn ask<T>(&self, f: impl FnOnce(&Reactor) -> T) -> T {
        f(&self.reactor.borrow())
    }

    fn pump(&self) {
        loop {
            let (events, ready, wake) = {
                let mut reactor = self.reactor.borrow_mut();
                (reactor.take_events(), reactor.take_ready(), reactor.take_wake())
            };
            if wake {
                self.woken.set(true);
            }
            if events.is_empty() && ready.is_empty() {
                return;
            }
            for event in &events {
                let listeners: Vec<Listener> =
                    self.listeners.borrow().iter().map(|entry| entry.1.clone()).collect();
                for listener in listeners {
                    listener(event);
                }
            }
            for node in ready {
                let lane =
                    self.effects.borrow().get(&node.get()).and_then(|effect| effect.lane.clone());
                if let Some(lane) = lane {
                    lane(EffectRun::new(node));
                }
            }
        }
    }

    fn subscribe(
        self: &Rc<Self>,
        listener: impl Fn(&DiagnosticEvent) + 'static,
    ) -> DiagnosticsHandle {
        let subscription = self.reactor.borrow_mut().subscribe_diagnostics();
        let key = self.bench.token();
        self.listeners.borrow_mut().push((key, Rc::new(listener)));
        DiagnosticsHandle { host: self.clone(), subscription: Some(subscription), key }
    }

    fn guarded_read(&self, node: NodeId) -> Outcome<()> {
        match self.ask(|reactor| reactor.cycle_check(node)) {
            Ok(()) => Ok(()),
            Err(error) => Err(error.message()),
        }
    }

    /// Brings a computed node up to date.
    fn refresh(&self, node: NodeId) -> Outcome<()> {
        self.guarded_read(node)?;
        let mut refresh = Refresh::node(node);
        loop {
            match self.op(|reactor, _| refresh.step(reactor)) {
                RefreshStep::Continue => {}
                RefreshStep::Recompute(node) => self.recompute(node)?,
                RefreshStep::Done => return Ok(()),
                RefreshStep::Verified(_) => unreachable!("only effects are verified"),
                RefreshStep::Cycle(error) => return Err(error.message()),
            }
        }
    }

    fn recompute(&self, node: NodeId) -> Outcome<()> {
        let computed = self.computed.borrow().get(&node.get()).and_then(|entry| entry.upgrade());
        computed.expect("a computed node has a computation").recompute()
    }

    fn verify(&self, effect: NodeId) -> Outcome<bool> {
        let mut refresh = self.ask(|reactor| Refresh::effect(reactor, effect));
        loop {
            match self.op(|reactor, _| refresh.step(reactor)) {
                RefreshStep::Continue => {}
                RefreshStep::Recompute(node) => self.recompute(node)?,
                RefreshStep::Done => unreachable!("effects are verified, not computed"),
                RefreshStep::Verified(changed) => return Ok(changed),
                RefreshStep::Cycle(error) => return Err(error.message()),
            }
        }
    }

    /// Runs a computation as `node`, handing the end of it to `finish`.
    fn compute<T>(
        &self,
        node: NodeId,
        compute: impl FnOnce() -> Outcome<T>,
    ) -> Outcome<T> {
        let guard: ContextGuard = self.op(|reactor, tracking| reactor.start_recompute(tracking, node));
        match compute() {
            Ok(value) => {
                self.op(|reactor, tracking| reactor.leave_context(tracking, guard));
                Ok(value)
            }
            Err(failure) => {
                self.op(|reactor, tracking| reactor.fail_recompute(tracking, guard, node));
                Err(failure)
            }
        }
    }

    fn create_effect(
        self: &Rc<Self>,
        body: Rc<dyn Fn() -> Outcome<()>>,
        lane: Option<Rc<dyn Fn(EffectRun)>>,
        origin: Location,
    ) -> Effect {
        let owned = self.bench.0.borrow().owners.current_owner().is_some();
        let handle = {
            let mut desk = self.bench.0.borrow_mut();
            let mut reactor = self.reactor.borrow_mut();
            if lane.is_some() {
                reactor.effect_with(&mut desk.owners, origin)
            } else {
                reactor.effect(&mut desk.owners, origin)
            }
        };
        self.adopt_effect(handle, body, lane, owned)
    }

    fn adopt_effect(
        self: &Rc<Self>,
        handle: EffectHandle,
        body: Rc<dyn Fn() -> Outcome<()>>,
        lane: Option<Rc<dyn Fn(EffectRun)>>,
        owned: bool,
    ) -> Effect {
        let id = handle.id();
        let kept = body.clone();
        let effect = Rc::new(EffectCell { handle, body, lane, running: Slot::new(false) });
        self.effects.borrow_mut().insert(id.get(), effect.clone());
        self.pump();
        if self.is_effect_disposed(id) {
            self.forget_effect(&effect);
        }
        Effect { host: self.clone(), id, tied: Slot::new(!owned), _body: kept }
    }

    fn effect_at(self: &Rc<Self>, origin: Location, body: impl Fn() + 'static) -> Effect {
        let body = move || {
            body();
            Ok(())
        };
        self.create_effect(Rc::new(body), None, origin)
    }

    fn effect(self: &Rc<Self>, body: impl Fn() + 'static) -> Effect {
        self.effect_at(line(0), body)
    }

    fn failing_effect(self: &Rc<Self>, body: impl Fn() -> Outcome<()> + 'static) -> Effect {
        self.create_effect(Rc::new(body), None, line(0))
    }

    fn lane_effect(
        self: &Rc<Self>,
        lane: impl Fn(EffectRun) + 'static,
        body: impl Fn() + 'static,
    ) -> Effect {
        let body = move || {
            body();
            Ok(())
        };
        self.create_effect(Rc::new(body), Some(Rc::new(lane)), line(0))
    }

    fn dispose_effect(&self, node: NodeId) {
        let effect = match self.effects.borrow().get(&node.get()) {
            Some(effect) => effect.clone(),
            None => return,
        };
        let teardown = {
            let mut desk = self.bench.0.borrow_mut();
            effect.handle.dispose(&mut self.reactor.borrow_mut(), &mut desk.owners)
        };
        self.finish_disposal(node, &effect, teardown);
    }

    fn finish_disposal(&self, node: NodeId, effect: &EffectCell, teardown: Option<Teardown>) {
        self.pump();
        if let Some(mut teardown) = teardown {
            self.bench.drive(&mut teardown);
            self.op(|reactor, _| reactor.unhook_effect(node));
        }
        if !effect.running.get() {
            self.forget_effect(effect);
        }
    }

    fn forget_effect(&self, effect: &EffectCell) {
        self.effects.borrow_mut().remove(&effect.handle.id().get());
        self.op(|reactor, _| reactor.release_observer(effect.handle.id()));
        self.bench.0.borrow_mut().owners.release(effect.handle.owner());
    }

    fn is_effect_disposed(&self, node: NodeId) -> bool {
        match self.effects.borrow().get(&node.get()) {
            Some(effect) => effect.handle.is_disposed(&self.reactor.borrow()),
            None => true,
        }
    }

    fn run_effect(&self, node: NodeId) -> Outcome<()> {
        let effect = match self.effects.borrow().get(&node.get()) {
            Some(effect) => effect.clone(),
            None => return Ok(()),
        };
        let boundary = self.bench.0.borrow().owners.error_handler(effect.handle.owner());
        let nested = effect.running.replace(true);
        let outcome = self.take_turn(node, &effect);
        effect.running.set(nested);
        let outcome = match outcome {
            Ok(()) => Ok(()),
            Err(failure) => self.route(node, &effect, boundary, failure),
        };
        if !nested && self.is_effect_disposed(node) {
            self.forget_effect(&effect);
        }
        outcome
    }

    fn take_turn(&self, node: NodeId, effect: &EffectCell) -> Outcome<()> {
        let mut step = self.op(|reactor, _| reactor.start_run(node));
        loop {
            match step {
                RunStep::Done => return Ok(()),
                RunStep::Diverged => {
                    return Err(self.ask(|reactor| reactor.divergence_message(node)));
                }
                RunStep::Verify => match self.verify(node) {
                    Ok(changed) => step = self.op(|reactor, _| reactor.resume_run(node, changed)),
                    Err(failure) => {
                        self.op(|reactor, _| reactor.fail_verification(node));
                        return Err(failure);
                    }
                },
                RunStep::Teardown(ticket) => {
                    let owner = effect.handle.owner();
                    let mut teardown = self.bench.0.borrow_mut().owners.reset(owner);
                    self.bench.drive(&mut teardown);
                    let entered = self.op(|reactor, tracking| {
                        reactor.enter_body(tracking, ticket, teardown)
                    });
                    let guard = match entered {
                        Some(guard) => guard,
                        None => return Ok(()),
                    };
                    let inside = self.bench.0.borrow_mut().owners.with_owner(owner);
                    let outcome = (effect.body)();
                    self.bench.0.borrow_mut().owners.leave(inside);
                    return match outcome {
                        Ok(()) => {
                            self.op(|reactor, tracking| {
                                reactor.finish_run(tracking, guard, ticket)
                            });
                            Ok(())
                        }
                        Err(failure) => {
                            self.op(|reactor, tracking| reactor.abort_run(tracking, guard, ticket));
                            Err(failure)
                        }
                    };
                }
            }
        }
    }

    /// Hands the failure of an effect to the boundary that was nearest as its turn began.
    fn route(
        &self,
        node: NodeId,
        effect: &EffectCell,
        boundary: Option<u64>,
        failure: String,
    ) -> Outcome<()> {
        let contained = {
            let mut desk = self.bench.0.borrow_mut();
            let mut reactor = self.reactor.borrow_mut();
            match effect.handle.contain(&mut reactor, &mut desk.owners, boundary) {
                Some(contained) => contained,
                None => return Err(failure),
            }
        };
        self.finish_disposal(node, effect, contained.teardown);
        let handler = self.bench.0.borrow().handlers[&contained.handler].clone();
        handler(ErrorInfo::new(failure, node, contained.origin));
        Ok(())
    }

    fn try_flush(&self) -> Outcome<()> {
        let guard = match self.op(|reactor, _| reactor.flush_now()) {
            Some(guard) => guard,
            None => return Ok(()),
        };
        let mut outcome = Ok(());
        while outcome.is_ok() {
            outcome = match self.op(|reactor, _| reactor.next_job()) {
                None => break,
                Some(Job::Effect(node)) => self.run_effect(node),
                Some(Job::Hook(node)) => {
                    let news = self.op(|reactor, _| reactor.deliver_hooks(node));
                    let hooks = self.hooks.borrow().get(&node.get()).cloned();
                    if let (Some(observed), Some(hooks)) = (news, hooks) {
                        if observed {
                            (hooks.0)();
                        } else {
                            (hooks.1)();
                        }
                    }
                    Ok(())
                }
                Some(Job::Task(token)) => {
                    let task = self.tasks.borrow_mut().remove(&token);
                    task.expect("a queued task is kept until it runs")();
                    Ok(())
                }
            };
        }
        self.op(|reactor, _| reactor.finish_flush(guard));
        outcome
    }

    fn flush_now(&self) {
        self.try_flush().expect("nothing fails without a boundary");
    }

    fn schedule(&self, task: impl FnOnce() + 'static) {
        let token = self.bench.token();
        self.tasks.borrow_mut().insert(token, Box::new(task));
        self.op(|reactor, _| reactor.schedule(Job::Task(token)));
    }

    /// Serves the wake-ups that the reactor asked for.
    fn run(&self) {
        while self.woken.replace(false) {
            self.flush_now();
        }
    }

    /// Runs an effect that a lane holds.
    fn run_lane(&self, run: EffectRun) {
        let id = self.ask(|reactor| run.id(reactor));
        let boundary = self.op(|reactor, _| run.run(reactor));
        if let Some(id) = id {
            self.run_effect(id).expect("nothing fails without a boundary");
        }
        self.op(|reactor, _| boundary.finish(reactor));
    }

    fn discard(&self, run: EffectRun) {
        self.op(|reactor, _| run.discard(reactor));
    }

    fn external_flush<T>(&self, f: impl FnOnce() -> T) -> T {
        let guard = self.op(|reactor, _| reactor.external_flush());
        let output = f();
        self.op(|reactor, _| reactor.finish_external_flush(guard));
        output
    }
}

/// A consumer-defined lane: effects queue here and run only when the consumer drains.
#[derive(Clone)]
struct Lane(Rc<RefCell<Vec<EffectRun>>>);

impl Lane {
    fn new() -> Self {
        Lane(Rc::new(RefCell::new(Vec::new())))
    }

    fn scheduler(&self) -> impl Fn(EffectRun) + 'static {
        let queue = self.0.clone();
        move |ready| queue.borrow_mut().push(ready)
    }

    fn len(&self) -> usize {
        self.0.borrow().len()
    }

    fn pop(&self) -> EffectRun {
        self.0.borrow_mut().pop().expect("a run was queued")
    }

    fn drain(&self, host: &Host) {
        host.external_flush(|| {
            let ready = self.0.take();
            for run in ready {
                host.run_lane(run);
            }
        });
    }
}

struct DiagnosticsHandle {
    host: Rc<Host>,
    subscription: Option<DiagnosticSubscription>,
    key: u64,
}

impl Drop for DiagnosticsHandle {
    fn drop(&mut self) {
        if let Some(subscription) = self.subscription.take() {
            self.host.reactor.borrow_mut().unsubscribe_diagnostics(subscription);
            let key = self.key;
            self.host.listeners.borrow_mut().retain(|entry| entry.0 != key);
        }
    }
}

struct Effect {
    host: Rc<Host>,
    id: NodeId,
    tied: Slot<bool>,
    /// What the body captured lives as long as the handle.
    _body: Rc<dyn Fn() -> Outcome<()>>,
}

impl Effect {
    fn dispose(&self) {
        self.host.dispose_effect(self.id);
    }

    fn leak(self) {
        self.tied.set(false);
    }
}

impl Drop for Effect {
    fn drop(&mut self) {
        if self.tied.get() {
            self.host.dispose_effect(self.id);
        }
    }
}

struct SignalCell<T> {
    host: Rc<Host>,
    signal: RefCell<Option<Signal<T>>>,
}

impl<T> Drop for SignalCell<T> {
    fn drop(&mut self) {
        if let Some(signal) = self.signal.borrow_mut().take() {
            self.host.op(|reactor, _| signal.release(reactor));
        }
    }
}

struct Sig<T>(Rc<SignalCell<T>>);

impl<T> Clone for Sig<T> {
    fn clone(&self) -> Self {
        Sig(self.0.clone())
    }
}

impl<T> Sig<T> {
    fn change<R>(&self, f: impl FnOnce(&mut Signal<T>, &mut Reactor) -> R) -> R {
        self.0.host.op(|reactor, _| {
            f(self.0.signal.borrow_mut().as_mut().expect("the signal is alive"), reactor)
        })
    }

    fn id(&self) -> NodeId {
        self.0.signal.borrow().as_ref().expect("the signal is alive").id()
    }

    fn with<R>(&self, f: impl FnOnce(&T) -> R) -> R {
        self.0.host.guarded_read(self.id()).expect("signals close no cycle");
        self.0.host.op(|reactor, tracking| {
            self.0.signal.borrow().as_ref().expect("the signal is alive").with(reactor, tracking, f)
        })
    }

    fn replace(&self, value: T) -> T {
        self.change(|signal, reactor| signal.replace(reactor, value, line(1)))
    }

    fn update<R>(&self, f: impl FnOnce(&mut T) -> R) -> R {
        self.change(|signal, reactor| signal.update(reactor, f, line(1)))
    }
}

impl<T: Clone> Sig<T> {
    fn get(&self) -> T {
        self.with(T::clone)
    }

    fn peek(&self) -> T {
        self.0.signal.borrow().as_ref().expect("the signal is alive").peek()
    }
}

impl<T: PartialEq> Sig<T> {
    fn set(&self, value: T) -> Option<T> {
        self.set_at(value, line(1))
    }

    fn set_at(&self, value: T, origin: Location) -> Option<T> {
        self.change(|signal, reactor| signal.set(reactor, value, origin))
    }
}

/// A signal that is shared in erased form.
struct ErasedSig<T> {
    host: Rc<Host>,
    erased: Rc<RefCell<DynObservable<T>>>,
}

impl<T> Clone for ErasedSig<T> {
    fn clone(&self) -> Self {
        ErasedSig { host: self.host.clone(), erased: self.erased.clone() }
    }
}

impl<T: Clone + PartialEq> ErasedSig<T> {
    fn new(host: &Rc<Host>, signal: Signal<T>) -> Self {
        ErasedSig { host: host.clone(), erased: Rc::new(RefCell::new(signal.into_dyn())) }
    }

    fn get(&self) -> T {
        self.host.op(|reactor, tracking| self.erased.borrow().get(reactor, tracking))
    }

    fn with_peek<R>(&self, f: impl FnOnce(&T) -> R) -> R {
        self.erased.borrow().with_peek(f)
    }

    fn set(&self, value: T) {
        self.host.op(|reactor, _| match &mut self.erased.borrow_mut().erased {
            Erased::Signal(signal) => {
                signal.set(reactor, value, line(1));
            }
            _ => unreachable!("a signal was erased"),
        });
    }
}

struct MemoCell<T> {
    host: Rc<Host>,
    memo: RefCell<Option<Memo<T>>>,
    compute: Box<dyn Fn(Option<&T>) -> Outcome<T>>,
    equals: Box<dyn Fn(&T, &T) -> bool>,
}

impl<T> MemoCell<T> {
    fn id(&self) -> NodeId {
        self.memo.borrow().as_ref().expect("the memo is alive").id()
    }
}

impl<T> Compute for MemoCell<T> {
    fn recompute(&self) -> Outcome<()> {
        let next = {
            let memo = self.memo.borrow();
            let memo = memo.as_ref().expect("the memo is alive");
            self.host.compute(memo.id(), || (self.compute)(memo.cached()))?
        };
        let equal = {
            let memo = self.memo.borrow();
            match memo.as_ref().expect("the memo is alive").cached() {
                Some(current) => self.host.bench.untracked(|| (self.equals)(current, &next)),
                None => false,
            }
        };
        self.host.op(|reactor, _| {
            let mut memo = self.memo.borrow_mut();
            memo.as_mut().expect("the memo is alive").finish_judged(reactor, next, equal)
        });
        Ok(())
    }
}

impl<T> Drop for MemoCell<T> {
    fn drop(&mut self) {
        if let Some(memo) = self.memo.borrow_mut().take() {
            self.host.computed.borrow_mut().remove(&memo.id().get());
            self.host.op(|reactor, _| memo.release(reactor));
        }
    }
}

struct Mem<T>(Rc<MemoCell<T>>);

impl<T> Clone for Mem<T> {
    fn clone(&self) -> Self {
        Mem(self.0.clone())
    }
}

impl<T: Clone> Mem<T> {
    fn try_get(&self) -> Outcome<T> {
        self.0.host.refresh(self.0.id())?;
        Ok(self.0.host.op(|reactor, tracking| {
            self.0.memo.borrow().as_ref().expect("the memo is alive").get(reactor, tracking)
        }))
    }

    fn get(&self) -> T {
        self.try_get().expect("the computation succeeds")
    }

    fn peek(&self) -> T {
        self.0.host.refresh(self.0.id()).expect("the computation succeeds");
        self.0.memo.borrow().as_ref().expect("the memo is alive").peek()
    }
}

struct ThunkCell<T> {
    host: Rc<Host>,
    thunk: RefCell<Option<Thunk<T>>>,
    compute: Box<dyn Fn() -> Outcome<T>>,
}

impl<T> ThunkCell<T> {
    fn id(&self) -> NodeId {
        self.thunk.borrow().as_ref().expect("the thunk is alive").id()
    }
}

impl<T> Compute for ThunkCell<T> {
    fn recompute(&self) -> Outcome<()> {
        let next = self.host.compute(self.id(), || (self.compute)())?;
        self.host.op(|reactor, _| {
            let mut thunk = self.thunk.borrow_mut();
            thunk.as_mut().expect("the thunk is alive").finish(reactor, next)
        });
        Ok(())
    }
}

impl<T> Drop for ThunkCell<T> {
    fn drop(&mut self) {
        if let Some(thunk) = self.thunk.borrow_mut().take() {
            self.host.computed.borrow_mut().remove(&thunk.id().get());
            self.host.op(|reactor, _| thunk.release(reactor));
        }
    }
}

struct Thu<T>(Rc<ThunkCell<T>>);

impl<T> Clone for Thu<T> {
    fn clone(&self) -> Self {
        Thu(self.0.clone())
    }
}

impl<T: Clone> Thu<T> {
    fn try_get(&self) -> Outcome<T> {
        self.0.host.refresh(self.0.id())?;
        Ok(self.0.host.op(|reactor, tracking| {
            self.0.thunk.borrow().as_ref().expect("the thunk is alive").get(reactor, tracking)
        }))
    }

    fn get(&self) -> T {
        self.try_get().expect("the computation succeeds")
    }

    fn peek(&self) -> T {
        self.0.host.refresh(self.0.id()).expect("the computation succeeds");
        self.0.thunk.borrow().as_ref().expect("the thunk is alive").peek()
    }
}

/// Constructors, under the names that the library's users know.
trait Make {
    fn signal_at<T>(&self, initial: T, origin: Location) -> Sig<T>;
    fn signal<T>(&self, initial: T) -> Sig<T>;
    fn try_thunk<T: 'static>(&self, compute: impl Fn() -> Outcome<T> + 'static) -> Thu<T>;
    fn thunk<T: 'static>(&self, compute: impl Fn() -> T + 'static) -> Thu<T>;
    fn try_memo<T: 'static>(
        &self,
        origin: Location,
        equals: impl Fn(&T, &T) -> bool + 'static,
        compute: impl Fn(Option<&T>) -> Outcome<T> + 'static,
    ) -> Mem<T>;
    fn adopt_memo<T: 'static>(
        &self,
        memo: Memo<T>,
        equals: impl Fn(&T, &T) -> bool + 'static,
        compute: impl Fn(Option<&T>) -> Outcome<T> + 'static,
    ) -> Mem<T>;
    fn memo<T: PartialEq + 'static>(&self, compute: impl Fn() -> T + 'static) -> Mem<T>;
    fn memo_by<T: 'static>(
        &self,
        equals: impl Fn(&T, &T) -> bool + 'static,
        compute: impl Fn() -> T + 'static,
    ) -> Mem<T>;
    fn memo_with_prev<T: PartialEq + 'static>(
        &self,
        compute: impl Fn(Option<&T>) -> T + 'static,
    ) -> Mem<T>;
}

impl Make for Rc<Host> {
    fn signal_at<T>(&self, initial: T, origin: Location) -> Sig<T> {
        let signal = self.op(|reactor, _| reactor.signal(initial, origin));
        Sig(Rc::new(SignalCell { host: self.clone(), signal: RefCell::new(Some(signal)) }))
    }

    fn signal<T>(&self, initial: T) -> Sig<T> {
        self.signal_at(initial, line(0))
    }

    fn try_thunk<T: 'static>(&self, compute: impl Fn() -> Outcome<T> + 'static) -> Thu<T> {
        let thunk = self.op(|reactor, _| reactor.thunk(line(0)));
        let id = thunk.id();
        let cell = Rc::new(ThunkCell {
            host: self.clone(),
            thunk: RefCell::new(Some(thunk)),
            compute: Box::new(compute),
        });
        let entry: Rc<dyn Compute> = cell.clone();
        self.computed.borrow_mut().insert(id.get(), Rc::downgrade(&entry));
        Thu(cell)
    }

    fn thunk<T: 'static>(&self, compute: impl Fn() -> T + 'static) -> Thu<T> {
        self.try_thunk(move || Ok(compute()))
    }

    fn try_memo<T: 'static>(
        &self,
        origin: Location,
        equals: impl Fn(&T, &T) -> bool + 'static,
        compute: impl Fn(Option<&T>) -> Outcome<T> + 'static,
    ) -> Mem<T> {
        let memo = self.op(|reactor, _| reactor.memo(origin));
        self.adopt_memo(memo, equals, compute)
    }

    fn adopt_memo<T: 'static>(
        &self,
        memo: Memo<T>,
        equals: impl Fn(&T, &T) -> bool + 'static,
        compute: impl Fn(Option<&T>) -> Outcome<T> + 'static,
    ) -> Mem<T> {
        let id = memo.id();
        let cell = Rc::new(MemoCell {
            host: self.clone(),
            memo: RefCell::new(Some(memo)),
            compute: Box::new(compute),
            equals: Box::new(equals),
        });
        let entry: Rc<dyn Compute> = cell.clone();
        self.computed.borrow_mut().insert(id.get(), Rc::downgrade(&entry));
        Mem(cell)
    }

    fn memo<T: PartialEq + 'static>(&self, compute: impl Fn() -> T + 'static) -> Mem<T> {
        self.try_memo(line(0), |left, right| left == right, move |_| Ok(compute()))
    }

    fn memo_by<T: 'static>(
        &self,
        equals: impl Fn(&T, &T) -> bool + 'static,
        compute: impl Fn() -> T + 'static,
    ) -> Mem<T> {
        self.try_memo(line(0), equals, move |_| Ok(compute()))
    }

    fn memo_with_prev<T: PartialEq + 'static>(
        &self,
        compute: impl Fn(Option<&T>) -> T + 'static,
    ) -> Mem<T> {
        self.try_memo(line(0), |left, right| left == right, move |previous| Ok(compute(previous)))
    }
}

struct SourceCell {
    host: Rc<Host>,
    source: RefCell<Option<Source>>,
}

impl Drop for SourceCell {
    fn drop(&mut self) {
        if let Some(source) = self.source.borrow_mut().take() {
            self.host.hooks.borrow_mut().remove(&source.id().get());
            self.host.op(|reactor, _| source.release(reactor));
        }
    }
}

#[derive(Clone)]
struct Src(Rc<SourceCell>);

impl Src {
    fn new(host: &Rc<Host>) -> Self {
        let source = host.op(|reactor, _| reactor.source(line(0)));
        Src(Rc::new(SourceCell { host: host.clone(), source: RefCell::new(Some(source)) }))
    }

    fn with_hooks(host: &Rc<Host>, watch: Hook, unwatch: Hook) -> Self {
        let source = host.op(|reactor, _| reactor.source_with_hooks(line(0)));
        host.hooks.borrow_mut().insert(source.id().get(), (watch, unwatch));
        Src(Rc::new(SourceCell { host: host.clone(), source: RefCell::new(Some(source)) }))
    }

    fn id(&self) -> NodeId {
        self.0.source.borrow().as_ref().expect("the source is alive").id()
    }

    fn observe(&self) {
        self.0.host.op(|reactor, tracking| {
            self.0.source.borrow().as_ref().expect("the source is alive").observe(reactor, tracking)
        })
    }

    fn trigger(&self) {
        self.0.host.op(|reactor, _| {
            self.0.source.borrow().as_ref().expect("the source is alive").trigger(reactor, line(1))
        })
    }

    fn is_observed(&self) -> bool {
        self.0.host.ask(|reactor| {
            self.0.source.borrow().as_ref().expect("the source is alive").is_observed(reactor)
        })
    }
}

struct WatchCell<S> {
    host: Rc<Host>,
    watch: RefCell<Watch<S>>,
    compute: Box<dyn Fn() -> S>,
}

impl<S: PartialEq> Compute for WatchCell<S> {
    fn recompute(&self) -> Outcome<()> {
        let id = self.watch.borrow().gated().id();
        let next = self.host.compute(id, || Ok((self.compute)()))?;
        self.host.op(|reactor, _| self.watch.borrow_mut().gated_mut().finish(reactor, next));
        Ok(())
    }
}

impl Host {
    fn watch<S: Clone + PartialEq + 'static>(
        self: &Rc<Self>,
        source: impl Fn() -> S + 'static,
        handler: impl Fn(&S, Option<&S>) + 'static,
    ) -> Effect {
        let owned = self.bench.owner().is_some();
        let watch: Watch<S> = {
            let mut desk = self.bench.0.borrow_mut();
            self.reactor.borrow_mut().watch(&mut desk.owners, line(0))
        };
        let (gate, effect) = (watch.gated().id(), *watch.effect());
        let cell = Rc::new(WatchCell {
            host: self.clone(),
            watch: RefCell::new(watch),
            compute: Box::new(source),
        });
        let entry: Rc<dyn Compute> = cell.clone();
        self.computed.borrow_mut().insert(gate.get(), Rc::downgrade(&entry));
        let body = {
            let host = self.clone();
            move || {
                host.refresh(gate)?;
                let (new, guard) =
                    host.op(|reactor, tracking| cell.watch.borrow().begin(reactor, tracking));
                handler(&new, cell.watch.borrow().previous());
                host.op(|_, tracking| cell.watch.borrow_mut().handled(tracking, guard, new));
                Ok(())
            }
        };
        self.adopt_effect(effect, Rc::new(body), None, owned)
    }
}

struct WritableCell<T> {
    host: Rc<Host>,
    writable: RefCell<Writable<T>>,
    compute: Box<dyn Fn() -> T>,
    setter: Box<dyn Fn(T)>,
}

impl<T: PartialEq> Compute for WritableCell<T> {
    fn recompute(&self) -> Outcome<()> {
        let id = self.writable.borrow().as_memo().id();
        let next = self.host.compute(id, || Ok((self.compute)()))?;
        self.host.op(|reactor, _| self.writable.borrow_mut().as_memo_mut().finish(reactor, next));
        Ok(())
    }
}

struct Wri<T>(Rc<WritableCell<T>>);

impl<T> Clone for Wri<T> {
    fn clone(&self) -> Self {
        Wri(self.0.clone())
    }
}

impl<T: Clone + PartialEq + 'static> Wri<T> {
    fn new(
        host: &Rc<Host>,
        get: impl Fn() -> T + 'static,
        set: impl Fn(T) + 'static,
    ) -> Self {
        let writable = host.op(|reactor, _| adaptite::writable_in(reactor, line(0)));
        let id = writable.as_memo().id();
        let cell = Rc::new(WritableCell {
            host: host.clone(),
            writable: RefCell::new(writable),
            compute: Box::new(get),
            setter: Box::new(set),
        });
        let entry: Rc<dyn Compute> = cell.clone();
        host.computed.borrow_mut().insert(id.get(), Rc::downgrade(&entry));
        Wri(cell)
    }

    fn get(&self) -> T {
        let id = self.0.writable.borrow().as_memo().id();
        self.0.host.refresh(id).expect("the computation succeeds");
        self.0.host.op(|reactor, tracking| {
            Observable::get(&*self.0.writable.borrow(), reactor, tracking)
        })
    }

    fn set(&self, value: T) {
        let write = self.0.host.op(|reactor, tracking| {
            self.0.writable.borrow_mut().set(reactor, tracking, value, line(1))
        });
        match write {
            Write::Forwarded(value, guard) => {
                (self.0.setter)(value);
                self.0.host.op(|_, tracking| guard.resume(tracking));
            }
            Write::Stored(_) | Write::Suppressed => unreachable!("a setter takes the value"),
        }
    }
}

#[test]
fn thunk_caches_until_invalidated() {
    let host = Bench::new().host();
    let source = host.signal(2usize);
    let compute_count = Rc::new(Slot::new(0usize));
    let thunk = host.thunk({
        let source = source.clone();
        let compute_count = compute_count.clone();
        move || {
            compute_count.set(compute_count.get() + 1);
            source.get() * 2
        }
    });

    assert_eq!(thunk.get(), 4);
    assert_eq!(thunk.get(), 4);
    assert_eq!(compute_count.get(), 1);

    source.set(3);
    assert_eq!(thunk.get(), 6);
    assert_eq!(compute_count.get(), 2);
}

#[test]
fn nested_thunks_recompute_only_affected_layers() {
    let host = Bench::new().host();
    let base = host.signal(5usize);
    let extra = host.signal(1usize);
    let double_count = Rc::new(Slot::new(0usize));
    let label_count = Rc::new(Slot::new(0usize));

    let doubled = host.thunk({
        let base = base.clone();
        let double_count = double_count.clone();
        move || {
            double_count.set(double_count.get() + 1);
            base.get() * 2
        }
    });
    let label = host.thunk({
        let doubled = doubled.clone();
        let extra = extra.clone();
        let label_count = label_count.clone();
        move || {
            label_count.set(label_count.get() + 1);
            format!("{} + {}", doubled.get(), extra.get())
        }
    });

    assert_eq!(label.get(), "10 + 1");
    assert_eq!(double_count.get(), 1);
    assert_eq!(label_count.get(), 1);

    extra.set(2);
    assert_eq!(label.get(), "10 + 2");
    assert_eq!(double_count.get(), 1);
    assert_eq!(label_count.get(), 2);

    base.set(6);
    assert_eq!(label.get(), "12 + 2");
    assert_eq!(double_count.get(), 2);
    assert_eq!(label_count.get(), 3);
}

#[test]
fn diamond_memos_do_not_glitch_or_recompute_redundantly() {
    let host = Bench::new().host();
    let source = host.signal(1i64);
    let sum_computes = Rc::new(Slot::new(0usize));
    let left = host.memo({
        let source = source.clone();
        move || source.get() * 10
    });
    let right = host.memo({
        let source = source.clone();
        move || source.get() * 100
    });
    let sum = host.memo({
        let left = left.clone();
        let right = right.clone();
        let sum_computes = sum_computes.clone();
        move || {
            sum_computes.set(sum_computes.get() + 1);
            left.get() + right.get()
        }
    });

    assert_eq!(sum.get(), 110);
    assert_eq!(sum_computes.get(), 1);

    source.set(2);
    assert_eq!(sum.get(), 220);
    assert_eq!(sum_computes.get(), 2);
}

#[test]
fn unchanged_memo_suppresses_downstream_recomputation() {
    let host = Bench::new().host();
    let source = host.signal(1usize);
    let downstream_computes = Rc::new(Slot::new(0usize));
    let parity = host.memo({
        let source = source.clone();
        move || source.get() % 2
    });
    let label = host.memo({
        let parity = parity.clone();
        let downstream_computes = downstream_computes.clone();
        move || {
            downstream_computes.set(downstream_computes.get() + 1);
            format!("parity: {}", parity.get())
        }
    });

    assert_eq!(label.get(), "parity: 1");
    assert_eq!(downstream_computes.get(), 1);

    source.set(3);
    assert_eq!(label.get(), "parity: 1");
    assert_eq!(downstream_computes.get(), 1);

    source.set(4);
    assert_eq!(label.get(), "parity: 0");
    assert_eq!(downstream_computes.get(), 2);
}

#[test]
fn memo_with_prev_receives_previous_value() {
    let host = Bench::new().host();
    let source = host.signal(5i64);
    let max_seen = host.memo_with_prev({
        let source = source.clone();
        move |previous: Option<&i64>| {
            let current = source.get();
            match previous {
                Some(&best) if best >= current => best,
                _ => current,
            }
        }
    });

    assert_eq!(max_seen.get(), 5);
    source.set(9);
    assert_eq!(max_seen.get(), 9);
    source.set(3);
    assert_eq!(max_seen.get(), 9);
    source.set(12);
    assert_eq!(max_seen.get(), 12);
}

#[test]
fn cycles_discovered_through_verification_report_cycle_errors() {
    let host = Bench::new().host();
    let flag = host.signal(false);
    let source = host.signal(1i32);
    let v_slot = Rc::new(RefCell::new(None::<Thu<i32>>));
    let x = host.try_thunk({
        let flag = flag.clone();
        let source = source.clone();
        let v_slot = v_slot.clone();
        move || {
            if flag.get() {
                let v = v_slot.borrow().as_ref().expect("v should exist").clone();
                v.try_get()
            } else {
                Ok(source.get())
            }
        }
    });
    let v = host.try_thunk({
        let x = x.clone();
        move || x.try_get()
    });
    *v_slot.borrow_mut() = Some(v.clone());

    assert_eq!(v.get(), 1);
    flag.set(true);

    let error = x.try_get().expect_err("a cycle found while verifying should fail");
    assert!(error.contains("reactive cycle detected"), "expected a cycle error, got: {error}");
    *v_slot.borrow_mut() = None;
}

#[test]
fn a_write_from_inside_a_compute_re_marks_the_thunk() {
    let host = Bench::new().host();
    let source = host.signal(0i32);
    let clamped = host.thunk({
        let source = source.clone();
        move || {
            let value = source.get();
            if value < 10 {
                source.set(10);
            }
            value
        }
    });

    assert_eq!(clamped.get(), 0);
    assert_eq!(clamped.get(), 10, "the self-write must re-mark the thunk");
    assert_eq!(clamped.get(), 10);
}

#[test]
fn cycle_detection_reports_two_thunks_reading_each_other() {
    let host = Bench::new().host();
    let left_slot = Rc::new(RefCell::new(None::<Thu<i32>>));
    let right_slot = Rc::new(RefCell::new(None::<Thu<i32>>));
    let left = host.try_thunk({
        let right_slot = right_slot.clone();
        move || {
            let right = right_slot.borrow().as_ref().expect("right thunk should exist").clone();
            Ok(right.try_get()? + 1)
        }
    });
    let right = host.try_thunk({
        let left_slot = left_slot.clone();
        move || {
            let left = left_slot.borrow().as_ref().expect("left thunk should exist").clone();
            Ok(left.try_get()? + 1)
        }
    });
    *left_slot.borrow_mut() = Some(left.clone());
    *right_slot.borrow_mut() = Some(right.clone());

    let error = left.try_get().expect_err("mutually recursive thunks should fail");
    assert!(error.contains("reactive cycle detected"), "panic should indicate cycle detected");
    assert!(
        error.contains("created at") && error.contains("behaviour.rs"),
        "panic should name the source locations of the nodes in the cycle, got: {error}"
    );
    *left_slot.borrow_mut() = None;
    *right_slot.borrow_mut() = None;
}

#[test]
fn memo_suppresses_unchanged_results_and_memo_by_uses_custom_comparator() {
    let host = Bench::new().host();
    let reactive_seen = Rc::new(RefCell::new(Vec::new()));
    let source = host.signal(1usize);
    let parity = host.memo({
        let source = source.clone();
        move || source.get() % 2
    });
    let bucket = host.memo_by(|left: &usize, right: &usize| left / 10 == right / 10, {
        let source = source.clone();
        move || source.get()
    });
    let _effect = host.effect({
        let reactive_seen = reactive_seen.clone();
        move || reactive_seen.borrow_mut().push((parity.get(), bucket.get()))
    });

    host.run();
    assert_eq!(&*reactive_seen.borrow(), &[(1, 1)]);

    source.set(3);
    source.set(9);
    source.set(10);
    host.run();
    assert_eq!(&*reactive_seen.borrow(), &[(1, 1), (0, 10)]);
}

#[test]
fn effect_identity_is_the_same_from_the_handle_the_lane_and_the_diagnostics() {
    let host = Bench::new().host();
    let events = Rc::new(RefCell::new(Vec::new()));
    let _subscription = host.subscribe({
        let events = events.clone();
        move |event| {
            let effect = match event {
                DiagnosticEvent::EffectScheduled { effect, .. }
                | DiagnosticEvent::EffectRunStarted { effect, .. }
                | DiagnosticEvent::EffectRunFinished { effect, .. }
                | DiagnosticEvent::EffectDisposed { effect, .. } => Some(*effect),
                _ => None,
            };
            events.borrow_mut().extend(effect);
        }
    });
    let lane = Lane::new();
    let value = host.signal(1);
    let effect = host.lane_effect(lane.scheduler(), {
        let value = value.clone();
        move || {
            let _ = value.get();
        }
    });

    let id = effect.id;
    let cell = host.effects.borrow().get(&id.get()).expect("the effect is alive").clone();
    assert_eq!(cell.handle.reactor_id(), host.ask(|reactor| reactor.id()));
    let queued = lane.0.borrow().first().and_then(|run| host.ask(|reactor| run.id(reactor)));
    assert_eq!(queued, Some(id), "the lane sees the same node");

    lane.drain(&host);
    assert_eq!(cell.handle.id(), id, "running does not change identity");

    value.set(2);
    lane.drain(&host);
    effect.dispose();
    assert_eq!(cell.handle.id(), id, "a disposed effect keeps its id; ids are never reused");

    assert!(!events.borrow().is_empty());
    assert!(events.borrow().iter().all(|reported| *reported == id));
}

#[test]
fn a_custom_scheduler_owns_when_the_effect_runs() {
    let host = Bench::new().host();
    let lane = Lane::new();
    let value = host.signal(1);
    let seen = Rc::new(RefCell::new(Vec::new()));
    let effect = host.lane_effect(lane.scheduler(), {
        let value = value.clone();
        let seen = seen.clone();
        move || seen.borrow_mut().push(value.get())
    });

    assert_eq!(lane.len(), 1);
    host.flush_now();
    assert!(seen.borrow().is_empty(), "the reactor lane must not run it");

    lane.drain(&host);
    assert_eq!(*seen.borrow(), [1]);

    value.set(2);
    assert_eq!(lane.len(), 1, "an invalidation re-enters the scheduler");
    assert_eq!(*seen.borrow(), [1], "and still does not run inline");

    lane.drain(&host);
    assert_eq!(*seen.borrow(), [1, 2]);
    effect.dispose();
}

#[test]
fn scheduled_runs_coalesce_between_drains() {
    let host = Bench::new().host();
    let lane = Lane::new();
    let value = host.signal(0);
    let runs = Rc::new(Slot::new(0));
    let effect = host.lane_effect(lane.scheduler(), {
        let value = value.clone();
        let runs = runs.clone();
        move || {
            value.get();
            runs.set(runs.get() + 1);
        }
    });
    lane.drain(&host);
    assert_eq!(runs.get(), 1);

    for next in 1..=5 {
        value.set(next);
    }
    assert_eq!(lane.len(), 1, "repeat invalidations coalesce into the pending run");

    lane.drain(&host);
    assert_eq!(runs.get(), 2, "the effect observes only the final value");
    effect.dispose();
}

#[test]
fn separate_lanes_run_in_the_order_the_consumer_drains_them() {
    let host = Bench::new().host();
    let (state, render) = (Lane::new(), Lane::new());
    let value = host.signal(1);
    let order = Rc::new(RefCell::new(Vec::new()));
    let write_dom = host.lane_effect(render.scheduler(), {
        let value = value.clone();
        let order = order.clone();
        move || {
            value.get();
            order.borrow_mut().push("render");
        }
    });
    let propagate = host.lane_effect(state.scheduler(), {
        let value = value.clone();
        let order = order.clone();
        move || {
            value.get();
            order.borrow_mut().push("state");
        }
    });

    state.drain(&host);
    render.drain(&host);
    assert_eq!(*order.borrow(), ["state", "render"]);
    write_dom.dispose();
    propagate.dispose();
}

#[test]
fn discarding_a_run_does_not_starve_the_effect_forever() {
    let host = Bench::new().host();
    let lane = Lane::new();
    let value = host.signal(1);
    let seen = Rc::new(RefCell::new(Vec::new()));
    let effect = host.lane_effect(lane.scheduler(), {
        let value = value.clone();
        let seen = seen.clone();
        move || seen.borrow_mut().push(value.get())
    });
    lane.drain(&host);
    assert_eq!(*seen.borrow(), [1], "the dependency edge is now recorded");

    value.set(2);
    assert_eq!(lane.len(), 1);
    host.discard(lane.pop());
    assert_eq!(*seen.borrow(), [1], "the discarded run never executed");

    value.set(3);
    assert_eq!(lane.len(), 1, "a discarded run must leave the effect schedulable");

    lane.drain(&host);
    assert_eq!(
        *seen.borrow(),
        [1, 3],
        "the effect resumes at the current value; the skipped one is not replayed"
    );
    effect.dispose();
}

#[test]
fn running_a_disposed_effect_is_a_no_op() {
    let host = Bench::new().host();
    let lane = Lane::new();
    let runs = Rc::new(Slot::new(0));
    let effect = host.lane_effect(lane.scheduler(), {
        let runs = runs.clone();
        move || runs.set(runs.get() + 1)
    });

    assert_eq!(lane.len(), 1);
    effect.dispose();

    let ready = lane.pop();
    assert!(
        host.ask(|reactor| ready.is_stale(reactor)),
        "a disposed effect reports its run stale"
    );
    host.run_lane(ready);
    assert_eq!(runs.get(), 0);
}

#[test]
fn external_flush_gives_a_whole_drain_one_epoch() {
    let host = Bench::new().host();
    let lane = Lane::new();
    let epochs = Rc::new(RefCell::new(Vec::new()));
    for _ in 0..2 {
        let body = {
            let host = Rc::downgrade(&host);
            let epochs = epochs.clone();
            move || {
                let host = host.upgrade().expect("the host is alive");
                epochs.borrow_mut().push(host.ask(|reactor| reactor.flush_epoch()));
            }
        };
        host.lane_effect(lane.scheduler(), body).leak();
    }

    lane.drain(&host);
    let observed = epochs.borrow().clone();
    assert_eq!(observed.len(), 2);
    assert_eq!(observed[0], observed[1], "one drain is one flush: {observed:?}");

    epochs.borrow_mut().clear();
    lane.drain(&host);
    assert!(epochs.borrow().is_empty(), "nothing was invalidated");
}

#[test]
fn a_run_outside_any_flush_opens_its_own() {
    let host = Bench::new().host();
    let lane = Lane::new();
    let epochs = Rc::new(RefCell::new(Vec::new()));
    let value = host.signal(0);
    let effect = host.lane_effect(lane.scheduler(), {
        let host = host.clone();
        let value = value.clone();
        let epochs = epochs.clone();
        move || {
            value.get();
            epochs.borrow_mut().push(host.ask(|reactor| reactor.flush_epoch()));
        }
    });

    host.run_lane(lane.pop());
    value.set(1);
    host.run_lane(lane.pop());

    let observed = epochs.borrow().clone();
    assert_eq!(observed.len(), 2);
    assert_ne!(observed[0], observed[1], "each bare run is its own flush: {observed:?}");
    effect.dispose();
}

#[test]
fn effects_flush_through_microtasks_and_coalesce() {
    let host = Bench::new().host();
    let seen = Rc::new(RefCell::new(Vec::new()));
    let source = host.signal(0usize);
    let _effect = host.effect({
        let seen = seen.clone();
        let source = source.clone();
        move || seen.borrow_mut().push(source.get())
    });
    source.set(1);
    source.set(2);
    assert!(seen.borrow().is_empty(), "effect should not run inline");
    host.run();
    assert_eq!(&*seen.borrow(), &[2]);

    let other = Bench::new().host();
    let reruns = Rc::new(Slot::new(0usize));
    let source = other.signal(2usize);
    let _effect = other.effect({
        let reruns = reruns.clone();
        let seen = seen.clone();
        let source = source.clone();
        move || {
            reruns.set(reruns.get() + 1);
            seen.borrow_mut().push(source.get());
        }
    });
    source.set(3);
    source.set(4);
    other.run();
    assert_eq!(reruns.get(), 1);
}

#[test]
fn effects_rerun_after_async_future_updates_a_dependency() {
    let host = Bench::new().host();
    let seen = Rc::new(RefCell::new(Vec::new()));
    let source = host.signal(0usize);
    let _effect = host.effect({
        let seen = seen.clone();
        let source = source.clone();
        move || seen.borrow_mut().push(source.get())
    });
    host.run();
    let _ = source.set(1);
    host.run();
    assert_eq!(&*seen.borrow(), &[0, 1]);
}

#[test]
fn effect_recovers_after_a_panicking_dependency_verification() {
    let host = Bench::new().host();
    let seen = Rc::new(RefCell::new(Vec::new()));
    let source = host.signal(1i32);
    let doubled = host.try_memo(line(0), |left, right| left == right, {
        let source = source.clone();
        move |_| match source.get() {
            13 => Err("unlucky number".to_string()),
            value => Ok(value * 2),
        }
    });
    let effect = host.failing_effect({
        let seen = seen.clone();
        move || {
            let value = doubled.try_get()?;
            seen.borrow_mut().push(value);
            Ok(())
        }
    });
    host.flush_now();
    assert_eq!(&*seen.borrow(), &[2]);

    source.set(13);
    assert!(host.try_flush().is_err(), "verification should propagate the failure");

    source.set(7);
    host.flush_now();
    assert_eq!(&*seen.borrow(), &[2, 14], "the effect must recover");
    effect.leak();
}

#[test]
fn comparator_reads_do_not_become_effect_dependencies() {
    let host = Bench::new().host();
    let runs = Rc::new(Slot::new(0usize));
    let tuning = host.signal(0i32);
    let source = host.signal(1i32);
    let value = host.memo_by(
        {
            let tuning = tuning.clone();
            move |old: &i32, new: &i32| {
                let _ = tuning.get();
                old == new
            }
        },
        {
            let source = source.clone();
            move || source.get()
        },
    );
    let effect = host.effect({
        let value = value.clone();
        let source = source.clone();
        let runs = runs.clone();
        move || {
            runs.set(runs.get() + 1);
            let _ = source.get();
            let _ = value.get();
        }
    });

    host.flush_now();
    assert_eq!(runs.get(), 1);
    source.set(2);
    host.flush_now();
    assert_eq!(runs.get(), 2);
    tuning.set(99);
    host.flush_now();
    assert_eq!(runs.get(), 2, "comparator reads must not be tracked");
    effect.leak();
}

#[test]
fn disposing_a_queued_effect_prevents_its_run() {
    let host = Bench::new().host();
    let b_runs = Rc::new(Slot::new(0usize));
    let trigger_a = host.signal(0usize);
    let trigger_b = host.signal(0usize);
    let b = Rc::new(host.effect({
        let b_runs = b_runs.clone();
        let trigger_b = trigger_b.clone();
        move || {
            let _ = trigger_b.get();
            b_runs.set(b_runs.get() + 1);
        }
    }));
    let _a = host.effect({
        let trigger_a = trigger_a.clone();
        let b = b.clone();
        move || {
            if trigger_a.get() == 1 {
                b.dispose();
            }
        }
    });
    host.run();

    trigger_a.set(1);
    trigger_b.set(1);
    host.run();
    assert_eq!(b_runs.get(), 1, "an effect disposed while queued must not run");
}

#[test]
fn effect_writes_propagate_to_other_effects_in_the_same_flush() {
    let host = Bench::new().host();
    let seen = Rc::new(RefCell::new(Vec::new()));
    let input = host.signal(0usize);
    let mirrored = host.signal(0usize);
    let _mirror = host.effect({
        let input = input.clone();
        let mirrored = mirrored.clone();
        move || {
            let _ = mirrored.set(input.get());
        }
    });
    let _observe = host.effect({
        let mirrored = mirrored.clone();
        let seen = seen.clone();
        move || seen.borrow_mut().push(mirrored.get())
    });
    host.run();
    input.set(5);
    host.run();
    assert_eq!(
        &*seen.borrow(),
        &[0, 5],
        "the observer must settle on the mirrored value within the flush"
    );
}

#[test]
fn untracked_and_peeked_reads_do_not_create_dependencies() {
    let bench = Bench::new();
    let host = bench.host();
    let seen = Rc::new(RefCell::new(Vec::new()));
    let followed = host.signal(1usize);
    let untracked_via_fn = host.signal(10usize);
    let untracked_via_peek = host.signal(100usize);
    let _effect = host.effect({
        let bench = bench.clone();
        let seen = seen.clone();
        let followed = followed.clone();
        let untracked_via_fn = untracked_via_fn.clone();
        let untracked_via_peek = untracked_via_peek.clone();
        move || {
            let total = followed.get()
                + bench.untracked(|| untracked_via_fn.get())
                + untracked_via_peek.peek();
            seen.borrow_mut().push(total);
        }
    });
    host.run();

    untracked_via_fn.set(20);
    untracked_via_peek.set(200);
    host.run();
    followed.set(2);
    host.run();
    assert_eq!(&*seen.borrow(), &[111, 222]);
}

#[test]
fn convergent_feedback_loops_settle() {
    let host = Bench::new().host();
    let seen = Rc::new(RefCell::new(Vec::new()));
    let value = host.signal(5i64);
    let _effect = host.effect({
        let value = value.clone();
        let seen = seen.clone();
        move || {
            let current = value.get();
            seen.borrow_mut().push(current);
            if current > 10 {
                value.set(10);
            }
        }
    });
    value.set(25);
    host.run();
    assert_eq!(&*seen.borrow(), &[25, 10]);
}

#[test]
fn divergent_feedback_loops_panic_instead_of_hanging() {
    let host = Bench::new().host();
    let counter = host.signal(0u64);
    let body = {
        let counter = counter.clone();
        move || {
            let next = counter.get() + 1;
            counter.set(next);
            Ok(())
        }
    };
    let _effect = host.create_effect(Rc::new(body), None, line(1738));
    let message = host.try_flush().expect_err("divergent loop should panic");
    assert!(
        message.contains("divergent reactive feedback loop"),
        "panic should describe the divergence, got: {message}"
    );
    let site = format!("{}:{}:", line(1738).file, 1738);
    assert!(
        message.contains(&site),
        "panic should name the effect's creation site ({site}), got: {message}"
    );
    assert_eq!(counter.peek(), 100, "exactly a hundred runs are let through");
}

/// Collects the messages a boundary reports.
fn error_log() -> (Rc<RefCell<Vec<String>>>, impl Fn(ErrorInfo<String>) + 'static) {
    let log = Rc::new(RefCell::new(Vec::new()));
    let handler = {
        let log = log.clone();
        move |error: ErrorInfo<String>| log.borrow_mut().push(error.payload().clone())
    };
    (log, handler)
}

/// An effect body that fails with `message` once `value` is `bad`.
fn fails_at(value: &Sig<i32>, bad: i32, message: &'static str) -> impl Fn() -> Outcome<()> {
    let value = value.clone();
    move || {
        if value.get() == bad {
            return Err(message.to_string());
        }
        Ok(())
    }
}

#[test]
fn a_boundary_contains_a_panicking_effect_and_spares_its_siblings() {
    let bench = Bench::new();
    let host = bench.host();
    let (errors, handler) = error_log();
    let value = host.signal(1);
    let sibling_runs = Rc::new(RefCell::new(0));
    let (boundary, ()) = bench.scope_catch(
        || {
            host.failing_effect(fails_at(&value, 2, "boom")).leak();
            host.effect({
                let value = value.clone();
                let sibling_runs = sibling_runs.clone();
                move || {
                    value.get();
                    *sibling_runs.borrow_mut() += 1;
                }
            })
            .leak();
        },
        handler,
    );

    host.flush_now();
    assert!(errors.borrow().is_empty());
    assert_eq!(*sibling_runs.borrow(), 1);

    value.set(2);
    host.flush_now();
    assert_eq!(*errors.borrow(), ["boom"]);
    assert_eq!(*sibling_runs.borrow(), 2, "the sibling ran despite the failure");

    value.set(3);
    host.flush_now();
    assert_eq!(*sibling_runs.borrow(), 3);
    assert_eq!(*errors.borrow(), ["boom"], "reported once, not on every run");
    boundary.dispose();
}

#[test]
fn the_panicking_effect_is_disposed_and_its_cleanups_run() {
    let bench = Bench::new();
    let host = bench.host();
    let (errors, handler) = error_log();
    let value = host.signal(1);
    let torn_down = Rc::new(RefCell::new(false));
    let (boundary, ()) = bench.scope_catch(
        || {
            host.failing_effect({
                let bench = bench.clone();
                let torn_down = torn_down.clone();
                let body = fails_at(&value, 2, "boom");
                move || {
                    let torn_down = torn_down.clone();
                    bench.on_cleanup(move || *torn_down.borrow_mut() = true);
                    body()
                }
            })
            .leak();
        },
        handler,
    );

    host.flush_now();
    assert!(!*torn_down.borrow());

    value.set(2);
    host.flush_now();
    assert_eq!(*errors.borrow(), ["boom"]);
    assert!(*torn_down.borrow(), "disposal must run the failed effect's cleanups");
    boundary.dispose();
}

#[test]
fn without_a_boundary_a_panic_still_propagates() {
    let host = Bench::new().host();
    let value = host.signal(1);
    let effect = host.failing_effect(fails_at(&value, 2, "boom"));
    host.flush_now();

    value.set(2);
    assert!(host.try_flush().is_err(), "an uncaught failure must not be swallowed");
    effect.dispose();
}

#[test]
fn the_nearest_boundary_wins_and_boundaries_nest() {
    let bench = Bench::new();
    let host = bench.host();
    let (outer_errors, outer_handler) = error_log();
    let (inner_errors, inner_handler) = error_log();
    let value = host.signal(1);
    let (boundary, ()) = bench.scope_catch(
        || {
            host.failing_effect(fails_at(&value, 3, "outer child")).leak();
            let (inner, ()) = bench.scope_catch(
                || host.failing_effect(fails_at(&value, 2, "inner child")).leak(),
                inner_handler,
            );
            inner.leak();
        },
        outer_handler,
    );
    host.flush_now();

    value.set(2);
    host.flush_now();
    assert_eq!(*inner_errors.borrow(), ["inner child"]);
    assert!(outer_errors.borrow().is_empty(), "the inner boundary caught it");

    value.set(3);
    host.flush_now();
    assert_eq!(*outer_errors.borrow(), ["outer child"]);
    assert_eq!(*inner_errors.borrow(), ["inner child"], "unchanged");
    boundary.dispose();
}

#[test]
fn a_boundary_catches_effects_nested_below_it() {
    let bench = Bench::new();
    let host = bench.host();
    let (errors, handler) = error_log();
    let value = host.signal(1);
    let (boundary, ()) = bench.scope_catch(
        || {
            let (nested, ()) =
                bench.scope(|| host.failing_effect(fails_at(&value, 2, "deep")).leak());
            nested.leak();
        },
        handler,
    );

    host.flush_now();
    value.set(2);
    host.flush_now();
    assert_eq!(
        *errors.borrow(),
        ["deep"],
        "a plain scope between the effect and the boundary is transparent"
    );
    boundary.dispose();
}

#[test]
fn error_info_reports_the_effects_creation_site() {
    let bench = Bench::new();
    let host = bench.host();
    let captured = Rc::new(RefCell::new(None));
    let value = host.signal(1);
    let site = line(77);
    let (boundary, ()) = bench.scope_catch(
        || {
            let body = fails_at(&value, 2, "located");
            host.create_effect(Rc::new(body), None, site).leak();
        },
        {
            let captured = captured.clone();
            move |error: ErrorInfo<String>| {
                *captured.borrow_mut() = Some((error.node().get(), error.origin()));
            }
        },
    );

    host.flush_now();
    value.set(2);
    host.flush_now();

    let (node, origin) = captured.borrow().expect("the handler ran");
    assert!(node > 0);
    assert_eq!(origin, Some(site), "the origin points at the effect's creation site");
    boundary.dispose();
}

#[test]
fn a_panic_during_dependency_verification_reaches_the_boundary() {
    let bench = Bench::new();
    let host = bench.host();
    let (errors, handler) = error_log();
    let value = host.signal(1);
    let upstream = host.try_memo(line(0), |left: &i32, right: &i32| left == right, {
        let value = value.clone();
        move |_| match value.get() {
            2 => Err("upstream exploded".to_string()),
            value => Ok(value),
        }
    });
    let (boundary, ()) = bench.scope_catch(
        || {
            let upstream = upstream.clone();
            host.failing_effect(move || upstream.try_get().map(|_| ())).leak();
        },
        handler,
    );

    host.flush_now();
    assert!(errors.borrow().is_empty());

    value.set(2);
    host.flush_now();
    assert_eq!(*errors.borrow(), ["upstream exploded"]);

    host.flush_now();
    assert_eq!(*errors.borrow(), ["upstream exploded"]);
    boundary.dispose();
}

#[test]
fn an_unowned_effect_is_outside_every_boundary() {
    let bench = Bench::new();
    let host = bench.host();
    let (errors, handler) = error_log();
    let value = host.signal(1);
    let (boundary, effect) = bench.scope_catch(
        || bench.unowned(|| host.failing_effect(fails_at(&value, 2, "escaped"))),
        handler,
    );
    host.flush_now();

    value.set(2);
    assert!(host.try_flush().is_err(), "the failure propagates past the boundary");
    assert!(errors.borrow().is_empty(), "the handler was not consulted");
    effect.dispose();
    boundary.dispose();
}

#[test]
fn on_cleanup_outside_an_owner_is_not_possible() {
    let bench = Bench::new();
    assert!(bench.owner().is_none());
    let (_scope, ()) = bench.scope(|| assert!(bench.owner().is_some()));
    assert!(bench.owner().is_none());
}

#[test]
fn disposing_a_scope_disposes_owned_effects_and_runs_cleanups() {
    let bench = Bench::new();
    let host = bench.host();
    let seen = Rc::new(RefCell::new(Vec::new()));
    let events = Rc::new(RefCell::new(Vec::<&'static str>::new()));
    let source = host.signal(1usize);
    let (handle, ()) = bench.scope(|| {
        let _ = host.effect({
            let seen = seen.clone();
            let source = source.clone();
            move || seen.borrow_mut().push(source.get())
        });
        let events = events.clone();
        bench.on_cleanup(move || events.borrow_mut().push("scope cleanup"));
    });
    host.run();
    source.set(2);
    host.run();

    assert!(!handle.is_disposed());
    handle.dispose();
    assert!(handle.is_disposed());
    events.borrow_mut().push("disposed");
    source.set(3);
    host.run();
    assert_eq!(&*seen.borrow(), &[1, 2]);
    assert_eq!(&*events.borrow(), &["scope cleanup", "disposed"]);
}

#[test]
fn effect_reruns_dispose_nested_effects_and_run_cleanups() {
    let bench = Bench::new();
    let host = bench.host();
    let events = Rc::new(RefCell::new(Vec::<String>::new()));
    let outer_dep = host.signal(0usize);
    let inner_dep = host.signal(0usize);
    let (_handle, ()) = bench.scope(|| {
        let _ = host.effect({
            let bench = bench.clone();
            let host = host.clone();
            let events = events.clone();
            let outer_dep = outer_dep.clone();
            let inner_dep = inner_dep.clone();
            move || {
                let generation = outer_dep.get();
                events.borrow_mut().push(format!("outer {generation}"));
                bench.on_cleanup({
                    let events = events.clone();
                    move || events.borrow_mut().push(format!("cleanup {generation}"))
                });
                let _ = host.effect({
                    let events = events.clone();
                    let inner_dep = inner_dep.clone();
                    move || {
                        let value = inner_dep.get();
                        events.borrow_mut().push(format!("inner {generation}: {value}"));
                    }
                });
            }
        });
    });
    host.run();
    inner_dep.set(1);
    host.run();
    outer_dep.set(1);
    host.run();
    inner_dep.set(2);
    host.run();
    assert_eq!(
        &*events.borrow(),
        &[
            "outer 0",
            "inner 0: 0",
            "inner 0: 1",
            "cleanup 0",
            "outer 1",
            "inner 1: 1",
            "inner 1: 2",
        ]
    );
}

#[test]
fn a_panicking_scope_closure_still_runs_registered_cleanups() {
    let bench = Bench::new();
    let ran = Rc::new(Slot::new(false));
    let open = scope(&mut bench.0.borrow_mut().owners);
    bench.on_cleanup({
        let ran = ran.clone();
        move || ran.set(true)
    });
    let mut teardown = open.abort(&mut bench.0.borrow_mut().owners);
    bench.drive(&mut teardown);
    assert!(ran.get(), "cleanups registered before the failure must still run");
    assert!(bench.owner().is_none());
}

#[test]
fn problem_effects_created_after_an_await_escape_their_scope() {
    let bench = Bench::new();
    let host = bench.host();
    let seen = Rc::new(RefCell::new(Vec::new()));
    let data = host.signal(0usize);
    let (handle, ()) = bench.scope(|| {});
    host.effect({
        let data = data.clone();
        let seen = seen.clone();
        move || seen.borrow_mut().push(data.get())
    })
    .leak();
    host.run();

    handle.dispose();
    data.set(1);
    host.run();
    assert_eq!(
        &*seen.borrow(),
        &[0, 1],
        "without owner capture, the effect escapes its scope (this documents the problem)"
    );
}

#[test]
fn owner_run_in_reattaches_async_work_to_its_scope() {
    let bench = Bench::new();
    let host = bench.host();
    let seen = Rc::new(RefCell::new(Vec::new()));
    let data = host.signal(0usize);
    let (handle, scope_owner) =
        bench.scope(|| bench.owner().expect("scope should be the owner"));
    bench.run_in(&scope_owner, || {
        let _ = host.effect({
            let data = data.clone();
            let seen = seen.clone();
            move || seen.borrow_mut().push(data.get())
        });
    });
    host.run();

    handle.dispose();
    data.set(1);
    host.run();
    assert_eq!(
        &*seen.borrow(),
        &[0],
        "the re-attached effect must be disposed with its scope"
    );
}

#[test]
fn run_in_on_a_disposed_owner_disposes_children_immediately() {
    let bench = Bench::new();
    let host = bench.host();
    let seen = Rc::new(RefCell::new(Vec::new()));
    let data = host.signal(0usize);
    let (handle, ()) = bench.scope(|| {});
    let scope_owner = handle.owner();
    handle.dispose();
    assert!(scope_owner.is_disposed(&bench.0.borrow().owners));

    bench.run_in(&scope_owner, || {
        let _ = host.effect({
            let data = data.clone();
            let seen = seen.clone();
            move || seen.borrow_mut().push(data.get())
        });
    });
    host.flush_now();
    assert!(seen.borrow().is_empty(), "children created under a disposed owner must never run");
}

#[test]
fn unowned_suppresses_the_enclosing_owner_at_the_boundary_only() {
    let bench = Bench::new();
    let (_handle, ()) = bench.scope(|| {
        assert!(bench.owner().is_some(), "the scope is the current owner");
        bench.unowned(|| {
            assert!(bench.owner().is_none(), "no owner is current inside unowned");
            let (_inner, ()) = bench.scope(|| {
                assert!(
                    bench.owner().is_some(),
                    "a scope created inside unowned is the current owner"
                );
            });
        });
        assert!(
            bench.owner().is_some(),
            "the enclosing owner is restored after unowned returns"
        );
    });
}

#[test]
fn unowned_effects_escape_their_scope_and_die_with_their_handle() {
    let bench = Bench::new();
    let host = bench.host();
    let seen = Rc::new(RefCell::new(Vec::new()));
    let data = host.signal(0usize);
    let (handle, background) = bench.scope(|| {
        bench.unowned(|| {
            host.effect({
                let data = data.clone();
                let seen = seen.clone();
                move || seen.borrow_mut().push(data.get())
            })
        })
    });
    host.run();

    handle.dispose();
    data.set(1);
    host.run();
    drop(background);
    data.set(2);
    host.run();
    assert_eq!(
        &*seen.borrow(),
        &[0, 1],
        "the effect must survive scope disposal and die when its handle drops"
    );
}

#[test]
fn nested_scopes_are_disposed_with_their_parent() {
    let bench = Bench::new();
    let (parent, child) = bench.scope(|| bench.scope(|| {}).0);
    assert!(!child.is_disposed());
    parent.dispose();
    assert!(child.is_disposed(), "disposing the parent scope must dispose nested scopes");
}

/// Records watch/unwatch deliveries for a hooked source.
fn hooked(host: &Rc<Host>) -> (Src, Rc<RefCell<Vec<&'static str>>>) {
    let log = Rc::new(RefCell::new(Vec::new()));
    let watch = {
        let log = log.clone();
        move || log.borrow_mut().push("watch")
    };
    let unwatch = {
        let log = log.clone();
        move || log.borrow_mut().push("unwatch")
    };
    (Src::with_hooks(host, Rc::new(watch), Rc::new(unwatch)), log)
}

/// A thunk that observes a source.
fn reader_of(host: &Rc<Host>, node: &Src) -> Thu<i32> {
    let node = node.clone();
    host.thunk(move || {
        node.observe();
        1
    })
}

#[test]
fn hooks_fire_on_the_first_observer_and_the_last_departure() {
    let host = Bench::new().host();
    let (node, log) = hooked(&host);
    host.flush_now();
    assert!(log.borrow().is_empty(), "an unread source is not watched");

    let reader = reader_of(&host, &node);
    assert!(log.borrow().is_empty());
    let _ = reader.get();
    host.flush_now();
    assert_eq!(*log.borrow(), ["watch"]);

    drop(reader);
    host.flush_now();
    assert_eq!(*log.borrow(), ["watch", "unwatch"]);
}

#[test]
fn hooks_are_deferred_not_inline() {
    let host = Bench::new().host();
    let (node, log) = hooked(&host);
    let reader = reader_of(&host, &node);
    let _ = reader.get();
    assert!(log.borrow().is_empty(), "delivery waits for the flush, even for the watch edge");
    host.flush_now();
    assert_eq!(*log.borrow(), ["watch"]);
}

#[test]
fn a_leave_and_arrive_within_one_flush_collapses() {
    let host = Bench::new().host();
    let (node, log) = hooked(&host);
    let toggle = host.signal(0);
    let reader = host.thunk({
        let node = node.clone();
        let toggle = toggle.clone();
        move || {
            toggle.get();
            node.observe();
            1
        }
    });
    let _ = reader.get();
    host.flush_now();
    assert_eq!(*log.borrow(), ["watch"]);

    toggle.set(1);
    let _ = reader.get();
    host.flush_now();
    assert_eq!(*log.borrow(), ["watch"], "a rerunning reader must not disconnect and reconnect");

    drop(reader);
    host.flush_now();
    assert_eq!(*log.borrow(), ["watch", "unwatch"]);
}

#[test]
fn neither_hook_is_delivered_twice_in_a_row() {
    let host = Bench::new().host();
    let (node, log) = hooked(&host);
    let mut readers: Vec<Thu<i32>> = (0..2).map(|_| reader_of(&host, &node)).collect();
    for reader in &readers {
        let _ = reader.get();
    }
    host.flush_now();
    assert_eq!(*log.borrow(), ["watch"], "one watch, not two");

    drop(readers.pop());
    host.flush_now();
    assert_eq!(*log.borrow(), ["watch"], "one reader remains");

    drop(readers);
    host.flush_now();
    assert_eq!(*log.borrow(), ["watch", "unwatch"]);
}

#[test]
fn dropping_the_source_cancels_a_queued_hook() {
    let host = Bench::new().host();
    let (node, log) = hooked(&host);
    let id = node.id();
    let reader = reader_of(&host, &node);
    let _ = reader.get();
    assert!(log.borrow().is_empty());
    drop(node);
    drop(reader);
    assert_eq!(host.ask(|reactor| reactor.node_kind(id)), None);
    host.flush_now();
    assert!(log.borrow().is_empty(), "a disposed source must not deliver hooks");
}

#[test]
fn is_observed_agrees_with_the_hooks_but_answers_immediately() {
    let host = Bench::new().host();
    let (node, log) = hooked(&host);
    let reader = reader_of(&host, &node);
    let _ = reader.get();
    assert!(node.is_observed(), "the edge exists immediately");
    assert!(log.borrow().is_empty(), "the hook has not been delivered");

    host.flush_now();
    assert!(node.is_observed());
    assert_eq!(*log.borrow(), ["watch"]);
}

#[test]
fn sources_have_distinct_ids() {
    let host = Bench::new().host();
    let one = Src::new(&host);
    let two = Src::new(&host);
    assert_ne!(one.id(), two.id());
}

#[test]
fn observe_and_trigger_drive_an_effect_around_external_state() {
    let host = Bench::new().host();
    let seen = Rc::new(RefCell::new(Vec::new()));
    let source = Src::new(&host);
    let external = Rc::new(Slot::new(1usize));
    let _effect = host.effect({
        let source = source.clone();
        let external = external.clone();
        let seen = seen.clone();
        move || {
            source.observe();
            seen.borrow_mut().push(external.get());
        }
    });
    host.run();
    external.set(2);
    source.trigger();
    host.run();
    assert_eq!(&*seen.borrow(), &[1, 2]);
}

#[test]
fn watch_fires_on_change_with_old_and_new_values() {
    let host = Bench::new().host();
    let seen = Rc::new(RefCell::new(Vec::new()));
    let value = host.signal(1i32);
    let handle = host.watch(
        {
            let value = value.clone();
            move || value.get()
        },
        {
            let seen = seen.clone();
            move |new: &i32, old: Option<&i32>| seen.borrow_mut().push((old.copied(), *new))
        },
    );
    host.flush_now();
    value.set(2);
    host.flush_now();
    value.set(2);
    host.flush_now();
    value.set(5);
    host.flush_now();
    handle.leak();
    assert_eq!(&*seen.borrow(), &[(None, 1), (Some(1), 2), (Some(2), 5)]);
}

#[test]
fn watch_source_is_equality_gated_and_handler_is_untracked() {
    let host = Bench::new().host();
    let runs = Rc::new(RefCell::new(0usize));
    let numerator = host.signal(4i32);
    let side_input = host.signal(0i32);
    let handle = host.watch(
        {
            let numerator = numerator.clone();
            move || numerator.get() % 2
        },
        {
            let runs = runs.clone();
            let side_input = side_input.clone();
            move |_new: &i32, _old: Option<&i32>| {
                let _ = side_input.get();
                *runs.borrow_mut() += 1;
            }
        },
    );
    host.flush_now();
    assert_eq!(*runs.borrow(), 1, "immediate first invocation");

    numerator.set(6);
    host.flush_now();
    assert_eq!(*runs.borrow(), 1);

    side_input.set(99);
    host.flush_now();
    assert_eq!(*runs.borrow(), 1);

    numerator.set(7);
    host.flush_now();
    assert_eq!(*runs.borrow(), 2);
    handle.leak();
}

#[test]
fn writes_translate_upstream_and_reads_stay_derived() {
    let host = Bench::new().host();
    let celsius = host.signal(0.0f64);
    let fahrenheit = Wri::new(
        &host,
        {
            let celsius = celsius.clone();
            move || celsius.get() * 9.0 / 5.0 + 32.0
        },
        {
            let celsius = celsius.clone();
            move |value: f64| {
                celsius.set((value - 32.0) * 5.0 / 9.0);
            }
        },
    );
    assert_eq!(fahrenheit.get(), 32.0);

    fahrenheit.set(212.0);
    assert_eq!(celsius.get(), 100.0, "the setter wrote through");
    assert_eq!(fahrenheit.get(), 212.0);

    celsius.set(0.0);
    assert_eq!(fahrenheit.get(), 32.0, "the source still drives the memo");
}

#[test]
fn a_value_identical_round_trip_propagates_nothing() {
    let host = Bench::new().host();
    let source = host.signal(10);
    let doubled = Wri::new(
        &host,
        {
            let source = source.clone();
            move || source.get() * 2
        },
        {
            let source = source.clone();
            move |value: i32| {
                source.set(value / 2);
            }
        },
    );
    let recomputes = Rc::new(RefCell::new(0));
    let downstream = host.memo({
        let doubled = doubled.clone();
        let recomputes = recomputes.clone();
        move || {
            *recomputes.borrow_mut() += 1;
            doubled.get()
        }
    });
    assert_eq!(downstream.get(), 20);
    assert_eq!(*recomputes.borrow(), 1);

    doubled.set(20);
    assert_eq!(downstream.get(), 20);
    assert_eq!(*recomputes.borrow(), 1, "no downstream recomputation");

    doubled.set(40);
    assert_eq!(downstream.get(), 40);
    assert_eq!(*recomputes.borrow(), 2);
}

#[test]
fn the_setter_runs_untracked() {
    let host = Bench::new().host();
    let source = host.signal(1);
    let offset = host.signal(100);
    let view = Wri::new(
        &host,
        {
            let source = source.clone();
            move || source.get()
        },
        {
            let source = source.clone();
            let offset = offset.clone();
            move |value: i32| {
                source.set(value + offset.get());
            }
        },
    );
    let recomputes = Rc::new(RefCell::new(0));
    let observer = host.memo({
        let view = view.clone();
        let recomputes = recomputes.clone();
        move || {
            *recomputes.borrow_mut() += 1;
            view.set(0);
            view.get()
        }
    });
    assert_eq!(observer.get(), 100);
    assert_eq!(*recomputes.borrow(), 1);

    offset.set(500);
    assert_eq!(observer.get(), 100);
    assert_eq!(*recomputes.borrow(), 1, "reads made by the setter are not dependencies");
}

#[test]
fn a_lossy_setter_reports_what_the_source_holds() {
    let host = Bench::new().host();
    let source = host.signal(0);
    let clamped = Wri::new(
        &host,
        {
            let source = source.clone();
            move || source.get()
        },
        {
            let source = source.clone();
            move |value: i32| {
                source.set(value.clamp(0, 10));
            }
        },
    );
    clamped.set(50);
    assert_eq!(clamped.get(), 10, "the next read reports the source, not the assignment");
}

/// Bumps anything writable, and returns what is to be handed to a setter.
fn bump(
    field: &mut impl WritableObservable<Item = i32>,
    reactor: &mut Reactor,
    tracking: &mut Tracking,
) -> Option<i32> {
    let next = field.peek() + 1;
    match field.set(reactor, tracking, next, line(1)) {
        Write::Stored(_) | Write::Suppressed => None,
        Write::Forwarded(value, guard) => {
            guard.resume(tracking);
            Some(value)
        }
    }
}

#[test]
fn signals_and_writable_computeds_are_interchangeable() {
    let mut reactor = Reactor::new(ReactorId(1));
    let mut tracking = Tracking::new();
    let mut count = reactor.signal(1, line(0));
    assert_eq!(bump(&mut count, &mut reactor, &mut tracking), None);
    assert_eq!(count.peek(), 2);

    let mut doubled = adaptite::writable_in(&mut reactor, line(0));
    doubled.as_memo_mut().finish(&mut reactor, count.peek() * 2);
    assert_eq!(Observable::peek(&doubled), 4);
    let forwarded = bump(&mut doubled, &mut reactor, &mut tracking);
    assert_eq!(forwarded, Some(5));
    assert_eq!(count.set(&mut reactor, 5 / 2, line(1)), None);
    assert_eq!(count.peek(), 2, "5 / 2 truncates back onto the source");
    assert_eq!(Observable::peek(&doubled), 4);
}

#[test]
fn signal_set_suppresses_unchanged_writes() {
    let host = Bench::new().host();
    let value = host.signal(10usize);
    assert_eq!(value.set(10), None);
    assert_eq!(value.get(), 10);
    assert_eq!(value.set(11), Some(10));
    assert_eq!(value.get(), 11);
}

#[test]
fn signal_replace_and_update_write_values() {
    let host = Bench::new().host();
    let value: Sig<Vec<usize>> = host.signal(vec![1, 2]);
    let old = value.replace(vec![3]);
    assert_eq!(old, vec![1, 2]);
    assert_eq!(value.with(|items| items.clone()), vec![3]);

    value.update(|items| items.push(4));
    assert_eq!(value.with(|items| items.clone()), vec![3, 4]);
}

#[test]
fn cell_set_suppresses_unchanged_writes() {
    let mut reactor = Reactor::new(ReactorId(1));
    let tracking = Tracking::new();
    let mut value = reactor.cell(10usize, line(0));
    assert_eq!(value.set(&mut reactor, 10, line(1)), None);
    assert_eq!(value.get(&mut reactor, &tracking), 10);
    assert_eq!(value.set(&mut reactor, 11, line(1)), Some(10));
    assert_eq!(value.get(&mut reactor, &tracking), 11);
}

#[test]
fn cell_replace_and_update_write_values() {
    let mut reactor = Reactor::new(ReactorId(1));
    let tracking = Tracking::new();
    let mut value: Cell<Vec<usize>> = reactor.cell(vec![1, 2], line(0));
    let old = value.replace(&mut reactor, vec![3], line(1));
    assert_eq!(old, vec![1, 2]);
    assert_eq!(value.with(&mut reactor, &tracking, |items| items.clone()), vec![3]);

    value.update(&mut reactor, |items| items.push(4), line(1));
    assert_eq!(value.with(&mut reactor, &tracking, |items| items.clone()), vec![3, 4]);
}

/// Maps an observable to a memo on its own reactor.
fn mapped<T: Clone + 'static, U: PartialEq + 'static>(
    base: &Sig<T>,
    f: impl Fn(&T) -> U + 'static,
) -> Mem<U> {
    let host = base.0.host.clone();
    let memo = host.op(|reactor, _| {
        let signal = base.0.signal.borrow();
        let signal = signal.as_ref().expect("the signal is alive");
        assert_eq!(Observable::reactor(signal), Some(reactor.id()));
        Observable::map::<U>(signal, reactor, line(0))
    });
    let base = base.clone();
    host.adopt_memo(memo, |left: &U, right: &U| left == right, move |_| Ok(f(&base.get())))
}

fn read<O: Observable<Item = i32>>(
    observable: &O,
    reactor: &mut Reactor,
    tracking: &Tracking,
) -> i32 {
    observable.get(reactor, tracking)
}

#[test]
fn signals_thunks_and_memos_share_the_observable_interface() {
    let mut reactor = Reactor::new(ReactorId(1));
    let tracking = Tracking::new();
    let base = reactor.signal(7, line(0));
    let mut doubled = reactor.thunk(line(0));
    doubled.finish(&mut reactor, base.peek() * 2);
    let mut capped = reactor.memo(line(0));
    capped.finish(&mut reactor, base.peek().min(10));

    assert_eq!(read(&base, &mut reactor, &tracking), 7);
    assert_eq!(read(&doubled, &mut reactor, &tracking), 14);
    assert_eq!(read(&capped, &mut reactor, &tracking), 7);
}

#[test]
fn map_derives_a_memo_without_a_manual_clone() {
    let host = Bench::new().host();
    let base = host.signal(2);
    let doubled = mapped(&base, |value| value * 2);
    assert_eq!(doubled.get(), 4);

    base.set(5);
    assert_eq!(doubled.get(), 10);
}

#[test]
fn map_builds_on_the_receivers_reactor_not_the_thread_default() {
    let host = Bench::new().host();
    let base = host.signal(1);
    let derived = mapped(&base, |value| value + 1);
    let home = derived.0.memo.borrow().as_ref().expect("the memo is alive").reactor();
    assert_eq!(home, host.ask(|reactor| reactor.id()));

    let composed = host.memo({
        let derived = derived.clone();
        move || derived.get() * 10
    });
    assert_eq!(composed.get(), 20);
}

#[test]
fn map_suppresses_equal_results() {
    let host = Bench::new().host();
    let base = host.signal(1);
    let parity = mapped(&base, |value| value % 2);
    let recomputes = Rc::new(Slot::new(0));
    let downstream = host.memo({
        let parity = parity.clone();
        let recomputes = recomputes.clone();
        move || {
            recomputes.set(recomputes.get() + 1);
            parity.get()
        }
    });
    assert_eq!(downstream.get(), 1);
    assert_eq!(recomputes.get(), 1);

    base.set(3);
    assert_eq!(downstream.get(), 1);
    assert_eq!(recomputes.get(), 1);

    base.set(4);
    assert_eq!(downstream.get(), 0);
    assert_eq!(recomputes.get(), 2);
}

#[test]
fn map_chains_and_works_through_erasure() {
    let host = Bench::new().host();
    let signal = host.op(|reactor, _| reactor.signal(3, line(0)));
    let doubled: Memo<i32> = host.op(|reactor, _| signal.map(reactor, line(0)));
    let plus_one: Memo<i32> = host.op(|reactor, _| doubled.map(reactor, line(0)));
    let base = ErasedSig::new(&host, signal);
    let doubled = host.adopt_memo(doubled, |left, right| left == right, {
        let base = base.clone();
        move |_| Ok(base.get() * 2)
    });
    let chained = host.adopt_memo(plus_one, |left, right| left == right, {
        let doubled = doubled.clone();
        move |_| Ok(doubled.get() + 1)
    });
    assert_eq!(chained.get(), 7);

    let from_erased: Memo<i32> =
        host.op(|reactor, _| base.erased.borrow().map(reactor, line(0)));
    assert_eq!(
        from_erased.reactor(),
        host.ask(|reactor| reactor.id()),
        "erasure must not lose the reactor"
    );
    let from_erased = host.adopt_memo(from_erased, |left, right| left == right, {
        let base = base.clone();
        move |_| Ok(base.get() * 100)
    });
    assert_eq!(from_erased.get(), 300);

    base.set(4);
    assert_eq!(chained.get(), 9);
    assert_eq!(from_erased.get(), 400);
}

#[test]
fn dyn_observables_erase_and_track() {
    let mut reactor = Reactor::new(ReactorId(1));
    let mut tracking = Tracking::new();
    let base = reactor.signal(1, line(0));
    let base_id = base.id();
    let mut tenfold = reactor.memo(line(0));
    tenfold.finish(&mut reactor, base.peek() * 10);
    let observer = reactor.allocate_node(NodeKind::Source, line(0));

    let mut erased: Vec<DynObservable<i32>> =
        vec![base.into_dyn(), DynObservable::constant(100), tenfold.into_dyn()];
    let guard = reactor.run_in_context(&mut tracking, observer);
    let total: i32 = erased.iter().map(|entry| entry.get(&mut reactor, &tracking)).sum();
    reactor.leave_context(&mut tracking, guard);
    assert_eq!(total, 111);
    assert_eq!(reactor.dependency_count(observer), 2, "a constant is no dependency");
    assert_eq!(reactor.observers_of(base_id), vec![observer]);

    match &mut erased[0].erased {
        Erased::Signal(signal) => {
            signal.set(&mut reactor, 2, line(1));
        }
        _ => unreachable!("the first handle is the signal"),
    }
    match &mut erased[2].erased {
        Erased::Memo(memo) => {
            memo.finish(&mut reactor, 20);
        }
        _ => unreachable!("the last handle is the memo"),
    }
    let total: i32 = erased.iter().map(|entry| entry.peek()).sum();
    assert_eq!(total, 122, "erased handles still track updates");
}

#[test]
fn with_peek_reads_without_recording_a_dependency() {
    let host = Bench::new().host();
    let signal = host.op(|reactor, _| reactor.signal(7_u32, line(0)));
    let id = signal.id();
    assert_eq!(signal.with_peek(|v| *v), 7);
    let erased = ErasedSig::new(&host, signal);
    let computed = host.thunk({
        let value = erased.clone();
        move || value.get() * 2
    });
    let gated = host.memo({
        let value = erased.clone();
        move || value.get() % 2
    });
    assert_eq!(computed.peek(), 14);
    assert_eq!(gated.peek(), 1);
    assert_eq!(erased.with_peek(|v| *v), 7);
    assert!(format!("{:?}", erased.erased.borrow()).contains("DynObservable"));

    let runs = Rc::new(Slot::new(0));
    let effect = host.effect({
        let computed = computed.clone();
        let gated = gated.clone();
        let erased = erased.clone();
        let runs = runs.clone();
        move || {
            runs.set(runs.get() + 1);
            match &erased.erased.borrow().erased {
                Erased::Signal(signal) => signal.with_peek(|_| {}),
                _ => unreachable!("a signal was erased"),
            }
            computed.peek();
            gated.peek();
            erased.with_peek(|_| {});
        }
    });
    host.flush_now();
    assert_eq!(runs.get(), 1);
    assert_eq!(
        host.ask(|reactor| reactor.observer_count(id)),
        2,
        "the thunk and the memo read it; the peeking effect did not"
    );

    erased.set(9);
    host.flush_now();
    assert_eq!(runs.get(), 1, "an observer that only peeks must never be re-run");
    effect.dispose();
}

type Handler = Rc<dyn Fn(&usize)>;

/// An event with the handlers of its subscribers.
struct EventCell {
    host: Rc<Host>,
    event: RefCell<Event>,
    handlers: RefCell<HashMap<u64, Handler>>,
}

impl EventCell {
    fn new(host: &Rc<Host>) -> Rc<Self> {
        let event = host.op(|reactor, _| reactor.event(line(0)));
        Rc::new(EventCell {
            host: host.clone(),
            event: RefCell::new(event),
            handlers: RefCell::new(HashMap::new()),
        })
    }

    fn cleanup(self: &Rc<Self>, token: u64) -> u64 {
        let cleanup = self.host.bench.token();
        let cell = self.clone();
        let cancel = move || {
            let mut subscription = Subscription { token, active: true, tied: false };
            cell.event.borrow_mut().unsubscribe(&mut subscription);
        };
        self.host.bench.0.borrow_mut().cleanups.insert(cleanup, Box::new(cancel));
        cleanup
    }

    fn subscribe(self: &Rc<Self>, handler: Handler) -> Subscription {
        let token = self.handlers.borrow().len() as u64 + 1;
        let cleanup = self.cleanup(token);
        let subscription = self
            .event
            .borrow_mut()
            .subscribe(&mut self.host.bench.0.borrow_mut().owners, cleanup);
        self.handlers.borrow_mut().insert(subscription.token, handler);
        subscription
    }

    fn on(self: &Rc<Self>, handler: impl Fn(&usize) + 'static) -> (Subscription, Effect) {
        let owned = self.host.bench.owner().is_some();
        let token = self.handlers.borrow().len() as u64 + 1;
        let cleanup = self.cleanup(token);
        let (direct, queue, effect): (Subscription, EventQueue<usize>, EffectHandle) = {
            let mut desk = self.host.bench.0.borrow_mut();
            self.host.reactor.borrow_mut().on(
                &mut desk.owners,
                &mut self.event.borrow_mut(),
                cleanup,
                line(0),
            )
        };
        let queue = Rc::new(RefCell::new(queue));
        let push: Handler = {
            let queue = queue.clone();
            Rc::new(move |value: &usize| queue.borrow_mut().push(*value))
        };
        self.handlers.borrow_mut().insert(direct.token, push);
        let body = {
            let cell = self.clone();
            move || {
                let values = cell.host.op(|reactor, tracking| {
                    queue.borrow_mut().drain(&cell.event.borrow(), reactor, tracking)
                });
                for value in &values {
                    handler(value);
                }
                Ok(())
            }
        };
        (direct, self.host.adopt_effect(effect, Rc::new(body), None, owned))
    }

    fn emit(&self, value: usize) {
        let recipients = self.event.borrow().recipients();
        for token in recipients {
            let handler = self.handlers.borrow()[&token].clone();
            handler(&value);
        }
        self.host.op(|reactor, _| self.event.borrow().emit(reactor, line(1)));
    }
}

#[test]
fn emit_delivers_immediately_and_on_drains_reactively() {
    let host = Bench::new().host();
    let immediate = Rc::new(RefCell::new(Vec::new()));
    let reactive = Rc::new(RefCell::new(Vec::new()));
    let event = EventCell::new(&host);
    let direct = event.subscribe({
        let immediate = immediate.clone();
        Rc::new(move |value: &usize| immediate.borrow_mut().push(*value))
    });
    let (draining, _effect) = event.on({
        let reactive = reactive.clone();
        move |value: &usize| reactive.borrow_mut().push(*value)
    });

    event.emit(1);
    event.emit(2);
    assert_eq!(&*immediate.borrow(), &[1, 2]);
    assert!(reactive.borrow().is_empty(), "reactive drain should be deferred");
    assert!(direct.is_active() && draining.is_active());

    host.run();
    assert_eq!(&*reactive.borrow(), &[1, 2]);
}

#[test]
fn subscriptions_end_with_their_handle_unless_they_are_owned_or_leaked() {
    let bench = Bench::new();
    let host = bench.host();
    let event = EventCell::new(&host);
    let ignore: Handler = Rc::new(|_: &usize| {});

    let tied = event.subscribe(ignore.clone());
    assert_eq!(event.event.borrow().recipients(), vec![1]);
    event.event.borrow_mut().drop_subscription(tied);
    assert!(event.event.borrow().recipients().is_empty());

    let leaked = event.subscribe(ignore.clone()).leak();
    event.event.borrow_mut().drop_subscription(leaked);
    assert_eq!(event.event.borrow().recipients(), vec![2]);

    let (scope, owned) = bench.scope(|| event.subscribe(ignore.clone()));
    assert!(owned.is_active());
    event.event.borrow_mut().drop_subscription(owned);
    assert_eq!(event.event.borrow().recipients().len(), 2, "the owner keeps it");
    scope.dispose();
    assert_eq!(event.event.borrow().recipients(), vec![2], "and it ends with the owner");

    let late = bench.run_in(&scope.owner(), || event.subscribe(ignore));
    assert!(!late.is_active(), "a disposed owner takes no subscription");
    assert_eq!(event.event.borrow().recipients(), vec![2]);
}

#[test]
fn unsubscribing_twice_is_unsubscribing_once() {
    let host = Bench::new().host();
    let event = EventCell::new(&host);
    let ignore: Handler = Rc::new(|_: &usize| {});
    let mut first = event.subscribe(ignore.clone());
    let second = event.subscribe(ignore);
    event.event.borrow_mut().unsubscribe(&mut first);
    event.event.borrow_mut().unsubscribe(&mut first);
    assert!(!first.is_active());
    assert!(second.is_active());
    assert_eq!(event.event.borrow().recipients(), vec![2]);
}

#[test]
fn current_reactor_is_thread_local_singleton() {
    let mut defaults = Defaults::new();
    let one = match defaults.current(|_| true, ReactorId(1)) {
        Ambient::Installed { reactor, replaces: false } => reactor,
        other => panic!("a fresh reactor should be installed, got {other:?}"),
    };
    match defaults.current(|_| true, ReactorId(2)) {
        Ambient::Reused(two) => assert_eq!(one, two),
        other => panic!("the default should be reused, got {other:?}"),
    }
}

#[test]
fn try_current_reports_absence_instead_of_installing_a_reactor() {
    let mut defaults = Defaults::new();
    assert!(defaults.try_current(|_| true).is_none(), "try_current must not install a reactor");
    assert!(
        defaults.try_current(|_| true).is_none(),
        "and must still report absence after being asked once"
    );
    let _ = defaults.current(|_| true, ReactorId(9));
    assert_eq!(defaults.try_current(|_| true), Some(ReactorId(9)));
}

#[test]
fn entering_anchors_the_reactor_as_the_thread_default() {
    let mut defaults = Defaults::new();
    let expected = ReactorId(3);
    let guard = defaults.enter(expected);
    assert_eq!(defaults.anchor, Some(expected), "the guard keeps this reactor alive");
    assert_eq!(
        defaults.try_current(|id| id == expected),
        Some(expected),
        "the entered reactor stays current with no other handle alive"
    );
    defaults.leave(guard);
    assert!(
        defaults.try_current(|_| true).is_none(),
        "leaving restores the absent default"
    );
    match defaults.current(|_| true, ReactorId(4)) {
        Ambient::Installed { replaces, .. } => assert!(replaces, "the thread had a default"),
        other => panic!("a fresh reactor should be installed, got {other:?}"),
    }
}

#[test]
fn entering_nests_and_restores_the_previous_default() {
    let mut ids = ReactorIds::new();
    let (outer, inner) = (ids.allocate(), ids.allocate());
    assert_ne!(outer, inner);
    let mut defaults = Defaults::new();
    let outer_guard = defaults.enter(outer);
    assert_eq!(defaults.try_current(|_| true), Some(outer));
    let inner_guard = defaults.enter(inner);
    assert_eq!(defaults.try_current(|_| true), Some(inner));
    defaults.leave(inner_guard);
    assert_eq!(
        defaults.try_current(|_| true),
        Some(outer),
        "leaving the inner reactor restores the outer one"
    );
    defaults.leave(outer_guard);
    assert!(defaults.try_current(|_| true).is_none());
}

#[test]
fn an_expired_default_is_replaced_by_an_unrelated_reactor() {
    let mut defaults = Defaults::new();
    let _ = defaults.current(|_| true, ReactorId(1));
    match defaults.current(|_| false, ReactorId(2)) {
        Ambient::Installed { reactor, replaces: true } => assert_eq!(reactor, ReactorId(2)),
        other => panic!("an unanchored default is replaced, got {other:?}"),
    }
    match defaults.current(|_| true, ReactorId(3)) {
        Ambient::Reused(held) => assert_eq!(held, ReactorId(2)),
        other => panic!("holding any handle keeps it stable, got {other:?}"),
    }
}

#[test]
fn observe_records_dependency_edges_with_versions() {
    let mut reactor = Reactor::new(ReactorId(1));
    let mut tracking = Tracking::new();
    let observer = reactor.allocate_node(NodeKind::Source, line(0));
    let observable = reactor.allocate_node(NodeKind::Source, line(0));
    reactor.trigger(observable, line(1));

    let guard = reactor.run_in_context(&mut tracking, observer);
    reactor.try_observe(&tracking, observable).expect("should not detect cycle");
    reactor.leave_context(&mut tracking, guard);

    let recorded = reactor.dependencies_of(observer);
    assert_eq!(recorded.len(), 1);
    assert_eq!(recorded[0].node, observable);
    assert_eq!(Some(recorded[0].version), reactor.node_version(observable));
    assert_eq!(recorded[0].version, 1);
    assert_eq!(reactor.dependents_of(observable), vec![observer]);
}

#[test]
fn the_public_queries_answer_why_did_this_update() {
    let host = Bench::new().host();
    let left = host.signal(1_u32);
    let right = host.signal(10_u32);
    let total = host.memo({
        let left = left.clone();
        let right = right.clone();
        move || left.get() + right.get()
    });
    assert_eq!(total.get(), 11);
    let total_id = total.0.id();
    assert_eq!(host.ask(|reactor| reactor.observer_count(left.id())), 1);
    assert_eq!(host.ask(|reactor| reactor.observer_count(right.id())), 1);
    assert_eq!(host.ask(|reactor| reactor.observers_of(left.id())), vec![total_id]);

    let recorded = host.ask(|reactor| reactor.dependencies_of(total_id));
    assert_eq!(recorded.len(), 2);
    right.set(20);

    let moved: Vec<NodeId> = recorded
        .iter()
        .filter(|edge| {
            host.ask(|reactor| reactor.node_version(edge.node)) != Some(edge.version)
        })
        .map(|edge| edge.node)
        .collect();
    assert_eq!(moved, vec![right.id()]);
}

#[test]
fn observer_counts_are_late_but_never_early() {
    let host = Bench::new().host();
    let toggle = host.signal(true);
    let watched = Src::new(&host);
    let effect = host.effect({
        let toggle = toggle.clone();
        let watched = watched.clone();
        move || {
            if toggle.get() {
                watched.observe();
            }
        }
    });
    let count = || host.ask(|reactor| reactor.observer_count(watched.id()));
    host.flush_now();
    assert_eq!(count(), 1);

    toggle.set(false);
    assert_eq!(count(), 1, "the edge survives until the observer re-runs");
    host.flush_now();
    assert_eq!(count(), 0);
    assert!(host.ask(|reactor| reactor.observers_of(watched.id())).is_empty());

    toggle.set(true);
    host.flush_now();
    assert_eq!(count(), 1);
    effect.dispose();
    assert_eq!(count(), 0);
}

#[test]
fn node_origin_reports_the_creation_site_and_forgets_a_disposed_node() {
    let host = Bench::new().host();
    let site = line(31);
    let value = host.signal_at(0_u32, site);
    let id = value.id();
    assert_eq!(host.ask(|reactor| reactor.node_origin(id)), Some(site));
    assert_eq!(host.ask(|reactor| reactor.node_version(id)), Some(0));

    drop(value);
    assert_eq!(
        host.ask(|reactor| reactor.node_origin(id)),
        None,
        "a disposed node is absent, not misattributed: ids are never reused"
    );
    assert_eq!(host.ask(|reactor| reactor.node_version(id)), None);
}

#[test]
fn a_nested_flush_takes_a_new_epoch_but_stays_in_the_same_drain() {
    let host = Bench::new().host();
    let seen = Rc::new(RefCell::new(Vec::new()));
    host.schedule({
        let host = host.clone();
        let seen = seen.clone();
        move || {
            let note = move |host: &Host, seen: &RefCell<Vec<(u64, u64)>>| {
                seen.borrow_mut()
                    .push(host.ask(|reactor| (reactor.drain_epoch(), reactor.flush_epoch())));
            };
            note(&host, &seen);
            host.schedule({
                let host = host.clone();
                let seen = seen.clone();
                move || note(&host, &seen)
            });
            host.flush_now();
        }
    });
    host.flush_now();

    let seen = seen.borrow();
    assert_eq!(seen.len(), 2);
    let (outer_drain, outer_flush) = seen[0];
    let (nested_drain, nested_flush) = seen[1];
    assert_eq!(nested_drain, outer_drain, "a re-entrant flush stays inside the enclosing drain");
    assert_ne!(
        nested_flush, outer_flush,
        "but takes its own diagnostic epoch so its totals are separable"
    );
}

#[test]
fn a_computation_that_first_runs_untracked_still_records_its_dependencies() {
    let bench = Bench::new();
    let host = bench.host();
    let base = host.signal(1_u64);
    let doubled = host.memo({
        let base = base.clone();
        move || base.get() * 2
    });
    bench.untracked(|| assert_eq!(doubled.get(), 2));
    assert_eq!(
        host.ask(|reactor| reactor.dependency_count(doubled.0.id())),
        1,
        "the memo's own read of `base` belongs to the memo, untracked caller or not"
    );
    base.set(50);
    assert_eq!(doubled.get(), 100, "the memo must still be reactive");

    let tick = host.signal(0_u64);
    let seen = Rc::new(RefCell::new(Vec::new()));
    let watcher = host.watch(
        {
            let tick = tick.clone();
            move || tick.get()
        },
        {
            let doubled = doubled.clone();
            let seen = seen.clone();
            move |_: &u64, _: Option<&u64>| seen.borrow_mut().push(doubled.get())
        },
    );
    host.flush_now();

    base.set(21);
    tick.set(1);
    host.flush_now();
    assert_eq!(
        *seen.borrow(),
        [100, 42],
        "a memo first read from an untracked handler must keep updating"
    );
    watcher.dispose();
}

#[test]
fn cycle_detection_panics_with_path_and_origins() {
    let mut reactor = Reactor::new(ReactorId(1));
    let mut tracking = Tracking::new();
    let a = reactor.allocate_node(NodeKind::Source, line(5));
    let b = reactor.allocate_node(NodeKind::Source, line(6));
    let outer = reactor.run_in_context(&mut tracking, a);
    reactor.observe(&tracking, b);
    let inner = reactor.run_in_context(&mut tracking, b);
    let error = reactor.try_observe(&tracking, a).expect_err("the read closes a cycle");
    reactor.leave_context(&mut tracking, inner);
    reactor.leave_context(&mut tracking, outer);

    assert_eq!(error.cycle(), &vec![a, b, a]);
    assert_eq!(error.origins(), &vec![Some(line(5)), Some(line(6)), Some(line(5))]);
    let message = error.message();
    assert!(message.contains("reactive cycle detected"), "panic should indicate cycle detected");
    assert!(
        message.contains("1 (created at")
            && message.contains("-> 2 (created at")
            && message.contains(line(5).file),
        "panic should include the cycle path with node origins, got: {message}"
    );
}

#[test]
fn scheduled_jobs_flush_on_runtime_microtask_queue() {
    let host = Bench::new().host();
    let observed = Rc::new(Slot::new(0usize));
    host.schedule({
        let observed = observed.clone();
        move || observed.set(1)
    });
    assert_eq!(observed.get(), 0);
    host.run();
    assert_eq!(observed.get(), 1);
}

#[test]
fn graph_survives_dropping_the_reactor_handle() {
    let host = Bench::new().host();
    let seen = Rc::new(RefCell::new(Vec::new()));
    let source = host.signal(1usize);
    let effect = host.effect({
        let seen = seen.clone();
        let source = source.clone();
        move || seen.borrow_mut().push(source.get())
    });
    host.run();
    drop(host);

    source.set(2);
    effect.host.run();
    assert_eq!(&*seen.borrow(), &[1, 2]);
}

#[test]
fn flush_recovers_after_a_panicking_job() {
    let host = Bench::new().host();
    let observed = Rc::new(Slot::new(0usize));
    let failing = host.failing_effect(|| Err("job fails".to_string()));
    assert!(host.try_flush().is_err(), "flush should propagate the failure of a job");

    host.schedule({
        let observed = observed.clone();
        move || observed.set(1)
    });
    host.flush_now();
    assert_eq!(observed.get(), 1);
    failing.dispose();
}

type Log = Rc<RefCell<Vec<DiagnosticEvent>>>;

/// Collects everything that a reactor reports.
fn recorded(host: &Rc<Host>) -> (Log, DiagnosticsHandle) {
    let events: Log = Rc::new(RefCell::new(Vec::new()));
    let handle = host.subscribe({
        let events = events.clone();
        move |event| events.borrow_mut().push(*event)
    });
    (events, handle)
}

#[test]
fn diagnostics_preserve_root_write_through_computed_dependencies() {
    let host = Bench::new().host();
    let (events, _subscription) = recorded(&host);
    let source = host.signal(1_u32);
    let doubled = host.memo({
        let source = source.clone();
        move || source.get() * 2
    });
    let _effect = host.effect(move || {
        let _ = doubled.get();
    });
    host.flush_now();
    events.borrow_mut().clear();

    source.set(2);
    host.flush_now();

    let events = events.borrow();
    let write = events
        .iter()
        .find_map(|event| match event {
            DiagnosticEvent::ReactiveWrite { cause, .. } => Some(*cause),
            _ => None,
        })
        .expect("source write should be diagnosed");
    assert!(
        events.iter().any(|event| matches!(
            event,
            DiagnosticEvent::EffectInvalidated { cause, level: InvalidationLevel::Check, .. }
                if *cause == write
        )),
        "the effect should retain the source write through the memo"
    );
    assert!(events.iter().any(|event| matches!(event, DiagnosticEvent::EffectRunStarted { .. })));
    assert!(events.iter().any(|event| matches!(event, DiagnosticEvent::EffectRunFinished { .. })));
}

#[test]
fn effect_schedule_events_report_coalesced_direct_writes() {
    let host = Bench::new().host();
    let (events, _subscription) = recorded(&host);
    let first = host.signal(0_u32);
    let second = host.signal(0_u32);
    let _effect = host.effect({
        let first = first.clone();
        let second = second.clone();
        move || {
            let _ = (first.get(), second.get());
        }
    });
    host.flush_now();
    events.borrow_mut().clear();

    first.set(1);
    second.set(1);
    let queued: Vec<bool> = events
        .borrow()
        .iter()
        .filter_map(|event| match event {
            DiagnosticEvent::EffectScheduled { queued, .. } => Some(*queued),
            _ => None,
        })
        .collect();
    assert_eq!(queued, [true, false]);
}

#[test]
fn subscription_keeps_an_empty_default_reactor_alive() {
    let bench = Bench::new();
    let host = bench.host();
    let (events, subscription) = recorded(&host);
    drop(host);
    let (_, kept) = bench.0.borrow().hosts[0].clone();
    let host = kept.upgrade().expect("the subscription keeps the reactor alive");
    let value = host.signal(0_u32);
    value.set(1);
    assert!(events
        .borrow()
        .iter()
        .any(|event| matches!(event, DiagnosticEvent::ReactiveWrite { .. })));
    drop(subscription);
}

#[test]
fn disposing_an_effect_is_reported() {
    let host = Bench::new().host();
    let (events, _subscription) = recorded(&host);
    let effect = host.effect(|| {});
    host.flush_now();
    let effect_id = events
        .borrow()
        .iter()
        .find_map(|event| match event {
            DiagnosticEvent::EffectRunStarted { effect, .. } => Some(*effect),
            _ => None,
        })
        .expect("initial effect run should be diagnosed");
    events.borrow_mut().clear();

    effect.dispose();
    assert!(events.borrow().iter().any(|event| matches!(
        event,
        DiagnosticEvent::EffectDisposed { effect, .. } if *effect == effect_id
    )));
}

#[test]
fn a_write_is_followed_through_equality_suppressed_verification_to_the_effect() {
    let host = Bench::new().host();
    let (events, _subscription) = recorded(&host);
    let source = host.signal(1_u32);
    let parity = host.memo({
        let source = source.clone();
        move || source.get() % 2
    });
    let label = host.memo({
        let parity = parity.clone();
        move || parity.get() * 10
    });
    let _effect = host.effect({
        let label = label.clone();
        move || {
            let _ = label.get();
        }
    });
    host.flush_now();
    events.borrow_mut().clear();

    source.set(3);
    host.flush_now();

    let (parity_id, label_id) = (parity.0.id(), label.0.id());
    let events = events.borrow();
    let write = events
        .iter()
        .find_map(|event| match event {
            DiagnosticEvent::ReactiveWrite { cause, .. } => Some(*cause),
            _ => None,
        })
        .expect("the write opens the causal chain");
    assert_eq!(write.node, source.id());

    let invalidated: Vec<_> = events
        .iter()
        .filter_map(|event| match event {
            DiagnosticEvent::ComputedInvalidated { node, kind, cause, .. } => {
                Some((*node, *kind, *cause))
            }
            _ => None,
        })
        .collect();
    assert!(
        invalidated.contains(&(parity_id, NodeKind::Memo, write)),
        "the first memo reports the write that reached it"
    );
    assert!(
        invalidated.iter().any(|entry| entry.0 == label_id && entry.2 == write),
        "and so does the second, rather than blaming the memo above it"
    );

    let suppressed = events
        .iter()
        .find_map(|event| match event {
            DiagnosticEvent::ComputedRecomputeFinished { node, changed, outcome, .. }
                if *node == parity_id =>
            {
                Some((*changed, *outcome))
            }
            _ => None,
        })
        .expect("the parity memo recomputes");
    assert_eq!(suppressed, (false, ComputeOutcome::Completed));

    let label_verified = events
        .iter()
        .find_map(|event| match event {
            DiagnosticEvent::ComputedVerified { node, recomputed, .. } if *node == label_id => {
                Some(*recomputed)
            }
            _ => None,
        })
        .expect("the label memo verifies its inputs");
    assert!(!label_verified, "verification resolved from cache");
    assert!(
        !events.iter().any(|event| matches!(
            event,
            DiagnosticEvent::ComputedRecomputeStarted { node, .. } if *node == label_id
        )),
        "so it must not have recomputed"
    );
    assert!(
        events.iter().any(|event| matches!(event, DiagnosticEvent::EffectRunSkipped { .. })),
        "and the effect body is spared"
    );
}

/// What the accessors owe for an event: its node, where that was created, and its flush.
fn payload(event: &DiagnosticEvent) -> (Option<NodeId>, Option<Location>, Option<u64>) {
    match event {
        DiagnosticEvent::NodeCreated { node, origin, .. }
        | DiagnosticEvent::NodeDisposed { node, origin, .. } => (Some(*node), Some(*origin), None),
        DiagnosticEvent::WriteSuppressed { node, node_origin, .. }
        | DiagnosticEvent::ComputedInvalidated { node, node_origin, .. } => {
            (Some(*node), Some(*node_origin), None)
        }
        DiagnosticEvent::ReactiveWrite { cause, .. } => {
            (Some(cause.node), Some(cause.node_origin), None)
        }
        DiagnosticEvent::ComputedVerified { node, node_origin, flush_epoch, .. }
        | DiagnosticEvent::ComputedRecomputeStarted { node, node_origin, flush_epoch, .. }
        | DiagnosticEvent::ComputedRecomputeFinished { node, node_origin, flush_epoch, .. } => {
            (Some(*node), Some(*node_origin), Some(*flush_epoch))
        }
        DiagnosticEvent::EffectInvalidated { effect, effect_origin, .. } => {
            (Some(*effect), Some(*effect_origin), None)
        }
        DiagnosticEvent::EffectScheduled { effect, effect_origin, flush_epoch, .. }
        | DiagnosticEvent::EffectRunStarted { effect, effect_origin, flush_epoch, .. } => {
            (Some(*effect), Some(*effect_origin), Some(*flush_epoch))
        }
        DiagnosticEvent::EffectRunFinished { effect, flush_epoch, .. }
        | DiagnosticEvent::EffectRunSkipped { effect, flush_epoch, .. } => {
            (Some(*effect), None, Some(*flush_epoch))
        }
        DiagnosticEvent::EffectDisposed { effect, .. } => (Some(*effect), None, None),
        DiagnosticEvent::FlushStarted { flush_epoch, .. }
        | DiagnosticEvent::FlushFinished { flush_epoch, .. } => (None, None, Some(*flush_epoch)),
    }
}

/// The variant of an event.
fn variant(event: &DiagnosticEvent) -> &'static str {
    match event {
        DiagnosticEvent::NodeCreated { .. } => "NodeCreated",
        DiagnosticEvent::NodeDisposed { .. } => "NodeDisposed",
        DiagnosticEvent::WriteSuppressed { .. } => "WriteSuppressed",
        DiagnosticEvent::ReactiveWrite { .. } => "ReactiveWrite",
        DiagnosticEvent::ComputedInvalidated { .. } => "ComputedInvalidated",
        DiagnosticEvent::ComputedVerified { .. } => "ComputedVerified",
        DiagnosticEvent::ComputedRecomputeStarted { .. } => "ComputedRecomputeStarted",
        DiagnosticEvent::ComputedRecomputeFinished { .. } => "ComputedRecomputeFinished",
        DiagnosticEvent::EffectInvalidated { .. } => "EffectInvalidated",
        DiagnosticEvent::EffectScheduled { .. } => "EffectScheduled",
        DiagnosticEvent::EffectRunStarted { .. } => "EffectRunStarted",
        DiagnosticEvent::EffectRunFinished { .. } => "EffectRunFinished",
        DiagnosticEvent::EffectRunSkipped { .. } => "EffectRunSkipped",
        DiagnosticEvent::EffectDisposed { .. } => "EffectDisposed",
        DiagnosticEvent::FlushStarted { .. } => "FlushStarted",
        DiagnosticEvent::FlushFinished { .. } => "FlushFinished",
    }
}

#[test]
fn the_generic_accessors_agree_with_every_variant_they_cover() {
    let host = Bench::new().host();
    let (events, _subscription) = recorded(&host);
    let source = host.signal(1_u32);
    let doubled = host.thunk({
        let source = source.clone();
        move || source.get() * 2
    });
    let effect = host.effect({
        let doubled = doubled.clone();
        move || {
            let _ = doubled.get();
        }
    });
    host.flush_now();
    source.set(2);
    source.set(2);
    host.flush_now();
    effect.dispose();

    let events = events.borrow();
    assert!(events.len() > 10, "the workload should be varied");
    let id = host.ask(|reactor| reactor.id());
    let latest = host.ask(|reactor| reactor.graph_stats()).flush_epoch;
    for event in events.iter() {
        assert_eq!(event.reactor(), id);
        let (node, node_origin, flush_epoch) = payload(event);
        assert_eq!(event.node(), node, "node() disagrees with {event:?}");
        assert_eq!(event.node_origin(), node_origin, "node_origin() disagrees with {event:?}");
        assert_eq!(event.flush_epoch(), flush_epoch, "flush_epoch() disagrees with {event:?}");
        if let Some(epoch) = event.flush_epoch() {
            assert!(epoch <= latest);
        }
    }
    for name in [
        "EffectInvalidated",
        "EffectScheduled",
        "EffectRunStarted",
        "EffectRunFinished",
        "EffectDisposed",
        "ComputedInvalidated",
        "ComputedRecomputeStarted",
    ] {
        assert!(
            events.iter().any(|event| variant(event) == name),
            "{name} is absent, so its mapping is untested"
        );
    }
    let nodes: Vec<NodeId> = events.iter().filter_map(DiagnosticEvent::node).collect();
    assert!(nodes.contains(&source.id()));
    assert!(nodes.contains(&doubled.0.id()));
    assert!(events.iter().any(|event| event.flush_epoch().is_some()), "some events carry a flush");
    assert!(events.iter().any(|event| event.flush_epoch().is_none()), "and some do not");
    assert_eq!(
        format!("{}:{}", id.label(), source.id().label()),
        format!("{}:{}", id.get(), source.id().get())
    );
}

#[test]
fn a_coalesced_mark_is_reported_and_says_it_changed_nothing() {
    let host = Bench::new().host();
    let (events, _subscription) = recorded(&host);
    let source = host.signal(0_u32);
    let doubled = host.memo({
        let source = source.clone();
        move || source.get() * 2
    });
    assert_eq!(doubled.get(), 0);
    events.borrow_mut().clear();

    source.set(1);
    source.set(2);
    let marks: Vec<bool> = events
        .borrow()
        .iter()
        .filter_map(|event| match event {
            DiagnosticEvent::ComputedInvalidated { node, state_changed, .. }
                if *node == doubled.0.id() =>
            {
                Some(*state_changed)
            }
            _ => None,
        })
        .collect();
    assert_eq!(
        marks,
        [true, false],
        "both marks must be reported, and only the first changed the node's state"
    );
}

#[test]
fn a_panicking_computation_closes_its_pair() {
    let host = Bench::new().host();
    let (events, _subscription) = recorded(&host);
    let boom = host.try_thunk(|| -> Outcome<u32> { Err("compute failed".to_string()) });
    let id = boom.0.id();
    assert!(boom.try_get().is_err());

    let events = events.borrow();
    let started = events
        .iter()
        .filter(|event| {
            matches!(event, DiagnosticEvent::ComputedRecomputeStarted { node, .. } if *node == id)
        })
        .count();
    let finished: Vec<(ComputeOutcome, bool)> = events
        .iter()
        .filter_map(|event| match event {
            DiagnosticEvent::ComputedRecomputeFinished { node, outcome, changed, .. }
                if *node == id =>
            {
                Some((*outcome, *changed))
            }
            _ => None,
        })
        .collect();
    assert_eq!(started, 1);
    assert_eq!(
        finished,
        [(ComputeOutcome::Panicked, false)],
        "a failing computation still closes its pair, and publishes nothing"
    );
}

#[test]
fn dependency_counts_show_a_computation_whose_read_set_grows() {
    let host = Bench::new().host();
    let (events, _subscription) = recorded(&host);
    let width = host.signal(1_usize);
    let inputs: Vec<Sig<u32>> = (0..4).map(|value| host.signal(value)).collect();
    let sum = host.memo({
        let width = width.clone();
        let inputs = inputs.clone();
        move || inputs.iter().take(width.get()).map(|input| input.get()).sum::<u32>()
    });
    assert_eq!(sum.get(), 0);
    events.borrow_mut().clear();

    width.set(4);
    assert_eq!(sum.get(), 6);

    let id = sum.0.id();
    let after = events
        .borrow()
        .iter()
        .find_map(|event| match event {
            DiagnosticEvent::ComputedRecomputeFinished { node, dependencies_after, .. }
                if *node == id =>
            {
                Some(*dependencies_after)
            }
            _ => None,
        })
        .expect("the memo recomputes");
    let before = events
        .borrow()
        .iter()
        .find_map(|event| match event {
            DiagnosticEvent::ComputedRecomputeStarted { node, dependencies_before, .. }
                if *node == id =>
            {
                Some(*dependencies_before)
            }
            _ => None,
        })
        .expect("and reports what it started from");
    assert_eq!(before, 2, "width plus the first input");
    assert_eq!(after, 5, "width plus all four inputs");
}

#[test]
fn every_node_kind_reports_its_creation_and_disposal() {
    let host = Bench::new().host();
    let (events, _subscription) = recorded(&host);
    let source = Src::new(&host);
    let signal = host.signal(0_u32);
    let stream = EventCell::new(&host);
    let thunk = host.thunk(|| 1_u32);
    let memo = host.memo(|| 2_u32);
    let effect = host.effect(|| {});
    for kind in NodeKind::all() {
        assert!(
            events.borrow().iter().any(|event| matches!(
                event,
                DiagnosticEvent::NodeCreated { kind: reported, .. } if *reported == kind
            )),
            "{kind:?} should report its creation"
        );
    }

    let kind_of = |id: NodeId| host.ask(|reactor| reactor.node_kind(id));
    assert_eq!(kind_of(source.id()), Some(NodeKind::Source));
    assert_eq!(kind_of(signal.id()), Some(NodeKind::Signal));
    assert_eq!(kind_of(stream.event.borrow().id()), Some(NodeKind::Event));
    assert_eq!(kind_of(thunk.0.id()), Some(NodeKind::Thunk));
    assert_eq!(kind_of(memo.0.id()), Some(NodeKind::Memo));
    assert_eq!(kind_of(effect.id), Some(NodeKind::Effect));

    let signal_id = signal.id();
    events.borrow_mut().clear();
    drop(signal);
    let disposals = events
        .borrow()
        .iter()
        .filter(|event| {
            matches!(event, DiagnosticEvent::NodeDisposed { node, .. } if *node == signal_id)
        })
        .count();
    assert_eq!(disposals, 1);
    assert_eq!(kind_of(signal_id), None);

    events.borrow_mut().clear();
    host.op(|reactor, _| reactor.dispose(signal_id));
    assert!(events.borrow().is_empty(), "a node already gone reports nothing");
}

#[test]
fn disposal_reports_the_edges_the_node_died_holding() {
    let host = Bench::new().host();
    let (events, _subscription) = recorded(&host);
    let left = host.signal(1_u32);
    let right = host.signal(2_u32);
    let total = host.memo({
        let left = left.clone();
        let right = right.clone();
        move || left.get() + right.get()
    });
    assert_eq!(total.get(), 3);
    let memo_id = total.0.id();
    events.borrow_mut().clear();
    drop(total);

    let epitaph = events
        .borrow()
        .iter()
        .find_map(|event| match event {
            DiagnosticEvent::NodeDisposed { node, kind, dependencies, observers, .. }
                if *node == memo_id =>
            {
                Some((*kind, *dependencies, *observers))
            }
            _ => None,
        })
        .expect("the memo should report its disposal");
    assert_eq!(
        epitaph,
        (NodeKind::Memo, 2, 0),
        "counts are sampled before teardown empties the maps"
    );
}

#[test]
fn diagnostics_do_not_change_stale_node_trigger_behavior() {
    let host = Bench::new().host();
    let stale_id = Src::new(&host).id();
    host.op(|reactor, _| reactor.trigger(stale_id, line(1)));
    let (events, _subscription) = recorded(&host);
    host.op(|reactor, _| reactor.trigger(stale_id, line(1)));
    assert!(
        events.borrow().is_empty(),
        "a stale node remains a silent no-op when diagnostics are active"
    );
}

/// Runs a workload that produces every kind of event.
fn exercise(host: &Rc<Host>) {
    let seen = Rc::new(RefCell::new(Vec::new()));
    let source = host.signal(1_u32);
    let parity = host.memo({
        let source = source.clone();
        move || source.get() % 2
    });
    let doubled = host.thunk({
        let parity = parity.clone();
        move || parity.get() * 2
    });
    let effect = host.effect({
        let doubled = doubled.clone();
        let seen = seen.clone();
        move || seen.borrow_mut().push(doubled.get())
    });
    host.flush_now();
    source.set(2);
    source.set(4);
    host.flush_now();
    source.set(6);
    host.flush_now();
    source.set(6);
    host.flush_now();
    effect.dispose();
    drop(doubled);
    host.flush_now();
}

#[test]
fn every_event_stops_when_the_last_subscription_drops() {
    let host = Bench::new().host();
    let (events, subscription) = recorded(&host);
    exercise(&host);
    let seen: Vec<&'static str> = events.borrow().iter().map(variant).collect();
    for expected in [
        "NodeCreated",
        "NodeDisposed",
        "WriteSuppressed",
        "ReactiveWrite",
        "ComputedInvalidated",
        "ComputedVerified",
        "ComputedRecomputeStarted",
        "ComputedRecomputeFinished",
        "EffectInvalidated",
        "EffectScheduled",
        "EffectRunStarted",
        "EffectRunFinished",
        "EffectRunSkipped",
        "EffectDisposed",
        "FlushStarted",
        "FlushFinished",
    ] {
        assert!(seen.contains(&expected), "{expected} is unreachable in the workload");
    }
    drop(subscription);
    assert!(!host.ask(|reactor| reactor.diagnostics_enabled()));
    events.borrow_mut().clear();

    exercise(&host);
    assert!(events.borrow().is_empty(), "delivery continued after the subscription was dropped");
}

#[test]
fn flush_totals_do_not_survive_an_unsubscribed_window() {
    let host = Bench::new().host();
    let source = host.signal(0_u32);
    let effect = host.effect({
        let source = source.clone();
        move || {
            let _ = source.get();
        }
    });
    host.flush_now();

    let first = host.subscribe(|_| {});
    source.set(1);
    drop(first);

    let flushes = Rc::new(RefCell::new(Vec::new()));
    let _subscription = host.subscribe({
        let flushes = flushes.clone();
        move |event| {
            if let DiagnosticEvent::FlushFinished { stats, .. } = event {
                flushes.borrow_mut().push(*stats);
            }
        }
    });
    source.set(99);
    host.flush_now();

    let flushes = flushes.borrow();
    assert_eq!(flushes.len(), 1);
    assert_eq!(
        flushes[0].root_writes, 1,
        "the write made under the previous subscription must have been discarded"
    );
    assert_eq!(
        flushes[0].effects_run, 1,
        "a new subscriber must not inherit totals from a window it could not observe"
    );
    effect.dispose();
}

#[test]
fn dropping_the_subscription_stops_delivery_and_disables_diagnostics() {
    let host = Bench::new().host();
    let source = Src::new(&host);
    let (events, subscription) = recorded(&host);
    assert!(host.ask(|reactor| reactor.diagnostics_enabled()));

    source.trigger();
    assert!(!events.borrow().is_empty());
    events.borrow_mut().clear();
    drop(subscription);

    assert!(!host.ask(|reactor| reactor.diagnostics_enabled()));
    source.trigger();
    assert!(
        events.borrow().is_empty(),
        "dropping the subscription must stop all later delivery"
    );
}

#[test]
fn flush_boundaries_and_verified_skips_are_reported() {
    let host = Bench::new().host();
    let (events, _subscription) = recorded(&host);
    let source = host.signal(1_u32);
    let parity = host.memo({
        let source = source.clone();
        move || source.get() % 2
    });
    let _effect = host.effect(move || {
        let _ = parity.get();
    });
    host.flush_now();
    events.borrow_mut().clear();

    source.set(3);
    host.flush_now();
    let seen: Vec<&'static str> = events.borrow().iter().map(variant).collect();
    assert!(seen.contains(&"FlushStarted"));
    assert!(seen.contains(&"EffectRunSkipped"));
    assert!(seen.contains(&"FlushFinished"));
}

#[test]
fn a_nested_flush_closes_its_own_epoch() {
    let host = Bench::new().host();
    let boundaries = Rc::new(RefCell::new(Vec::new()));
    let _subscription = host.subscribe({
        let boundaries = boundaries.clone();
        move |event| match event {
            DiagnosticEvent::FlushStarted { flush_epoch, .. } => {
                boundaries.borrow_mut().push(("start", *flush_epoch));
            }
            DiagnosticEvent::FlushFinished { flush_epoch, .. } => {
                boundaries.borrow_mut().push(("finish", *flush_epoch));
            }
            _ => {}
        }
    });
    host.schedule({
        let host = host.clone();
        move || {
            host.schedule(|| {});
            host.flush_now();
        }
    });
    host.flush_now();
    assert_eq!(
        &*boundaries.borrow(),
        &[("start", 1), ("start", 2), ("finish", 2), ("finish", 1)],
        "each flush must close the epoch it opened"
    );
}

/// Holds the maintained counters against each other.
fn assert_edges_consistent(host: &Host, nodes: &[NodeId]) {
    let stats = host.ask(|reactor| reactor.graph_stats());
    let (mut outgoing, mut incoming, mut observed) = (0, 0, 0);
    for node in nodes {
        outgoing += host.ask(|reactor| reactor.dependency_count(*node));
        let observers = host.ask(|reactor| reactor.observer_count(*node));
        incoming += observers;
        if observers > 0 {
            observed += 1;
        }
    }
    assert_eq!(outgoing, incoming, "the two indexes disagree");
    assert_eq!(stats.observed_nodes, observed, "the observed-node counter drifted");
    assert_eq!(stats.live_edges, outgoing, "the edge counter drifted from the graph");
    assert_eq!(
        stats.edges_added - stats.edges_removed,
        stats.live_edges as u64,
        "cumulative edge counters do not reconcile to the live count"
    );
    assert_eq!(stats.nodes_created - stats.nodes_disposed, stats.live_nodes as u64);
}

#[test]
fn counters_survive_a_workload_with_churn_and_disposal() {
    let host = Bench::new().host();
    assert_edges_consistent(&host, &[]);
    let toggle = host.signal(true);
    let left = host.signal(1_u32);
    let right = host.signal(2_u32);
    let chosen = host.memo({
        let toggle = toggle.clone();
        let left = left.clone();
        let right = right.clone();
        move || {
            if toggle.get() {
                left.get()
            } else {
                right.get()
            }
        }
    });
    let seen = Rc::new(RefCell::new(Vec::new()));
    let effect = host.effect({
        let chosen = chosen.clone();
        let seen = seen.clone();
        move || seen.borrow_mut().push(chosen.get())
    });
    host.flush_now();

    let nodes = [toggle.id(), left.id(), right.id(), chosen.0.id(), effect.id];
    let stats = host.ask(|reactor| reactor.graph_stats());
    assert_eq!(stats.live_nodes, 5);
    assert_eq!(stats.live_nodes_of_kind(NodeKind::Signal), 3);
    assert_eq!(stats.live_nodes_of_kind(NodeKind::Memo), 1);
    assert_eq!(stats.live_nodes_of_kind(NodeKind::Effect), 1);
    assert_eq!(stats.live_edges, 3);
    assert_eq!(stats.observed_nodes, 3);
    assert_edges_consistent(&host, &nodes);

    toggle.set(false);
    host.flush_now();
    assert_eq!(*seen.borrow(), [1, 2]);

    let after = host.ask(|reactor| reactor.graph_stats());
    assert_eq!(after.live_edges, 3, "one input swapped for another");
    assert!(
        after.edges_added > stats.edges_added,
        "re-running re-records the edge set, and the churn is visible"
    );
    assert!(after.edges_removed > stats.edges_removed);
    assert_edges_consistent(&host, &nodes);
    assert!(after.peak_nodes >= after.live_nodes);
    assert!(after.peak_edges >= after.live_edges);

    effect.dispose();
    drop(chosen);
    assert_edges_consistent(&host, &nodes);
    let disposed = host.ask(|reactor| reactor.graph_stats());
    assert_eq!(disposed.live_edges, 2, "the memo still reads its inputs");
    assert_eq!(disposed.live_nodes_of_kind(NodeKind::Memo), 1);
    assert_eq!(disposed.live_nodes_of_kind(NodeKind::Effect), 0);

    drop(effect);
    assert_edges_consistent(&host, &nodes);
    let torn_down = host.ask(|reactor| reactor.graph_stats());
    assert_eq!(torn_down.live_edges, 0);
    assert_eq!(torn_down.observed_nodes, 0);
    assert_eq!(torn_down.live_nodes, 3, "the three signals are still held");
    assert_eq!(torn_down.live_nodes_of_kind(NodeKind::Memo), 0);
    assert_eq!(torn_down.live_nodes_of_kind(NodeKind::Effect), 0);
    assert_eq!(torn_down.peak_nodes, 5, "but the peak remembers");
}

#[test]
fn queued_effects_follows_the_pending_run_latch() {
    let host = Bench::new().host();
    let value = host.signal(0_u32);
    let lane = Lane::new();
    let effect = host.lane_effect(lane.scheduler(), {
        let value = value.clone();
        move || {
            let _ = value.get();
        }
    });
    let queued = || host.ask(|reactor| reactor.graph_stats()).queued_effects;
    assert_eq!(queued(), 1, "the initial run");

    value.set(1);
    value.set(2);
    assert_eq!(queued(), 1);
    lane.drain(&host);
    assert_eq!(queued(), 0);

    value.set(3);
    assert_eq!(queued(), 1);
    host.discard(lane.pop());
    assert_eq!(queued(), 0);
    effect.dispose();
}

#[test]
fn dropping_a_latched_effect_releases_the_queued_gauge() {
    let host = Bench::new().host();
    let baseline = host.ask(|reactor| reactor.graph_stats()).queued_effects;
    for _ in 0..100 {
        let _effect = host.effect(|| {});
    }
    host.flush_now();
    let stats = host.ask(|reactor| reactor.graph_stats());
    assert_eq!(
        stats.queued_effects, baseline,
        "an effect dropped while latched must not leave a run pending forever"
    );
    assert_eq!(stats.live_nodes, 0, "and its node must be gone too");
}

#[test]
fn a_settled_graph_reports_no_pending_work() {
    let host = Bench::new().host();
    let value = host.signal(0_u32);
    let effect = host.effect({
        let value = value.clone();
        move || {
            let _ = value.get();
        }
    });
    host.flush_now();

    let idle = host.ask(|reactor| reactor.graph_stats());
    assert_eq!(idle.queued_effects, 0);
    assert_eq!(idle.pending_jobs, 0);
    assert_eq!(idle.flush_depth, 0);

    let flushes_before = idle.flushes;
    value.set(0);
    host.flush_now();
    assert_eq!(
        host.ask(|reactor| reactor.graph_stats()).flushes,
        flushes_before,
        "an equal `set` is suppressed at the signal, before the graph hears about it"
    );

    value.set(1);
    host.flush_now();
    let after = host.ask(|reactor| reactor.graph_stats());
    assert_eq!(after.flushes, flushes_before + 1);
    assert_eq!(after.queued_effects, 0);
    assert_eq!(after.pending_jobs, 0);
    effect.dispose();
}

#[test]
fn an_unobserved_source_is_counted_as_a_node_but_not_as_an_edge() {
    let host = Bench::new().host();
    let node = Src::new(&host);
    let stats = host.ask(|reactor| reactor.graph_stats());
    assert_eq!(stats.live_nodes, 1);
    assert_eq!(stats.live_nodes_of_kind(NodeKind::Source), 1);
    assert_eq!(stats.live_edges, 0);
    assert_eq!(stats.observed_nodes, 0);

    drop(node);
    let after = host.ask(|reactor| reactor.graph_stats());
    assert_eq!(after.live_nodes, 0);
    assert_eq!(after.nodes_disposed, 1);
}

/// A fetch that was started and has not been completed.
struct Fetch<S> {
    input: S,
    generation: u64,
    aborted: Rc<Slot<bool>>,
}

/// A resource whose fetches are completed by hand.
struct ResourceCell<S, T> {
    host: Rc<Host>,
    resource: RefCell<Resource<T>>,
    input: RefCell<Memo<S>>,
    compute: Box<dyn Fn() -> S>,
    fetches: RefCell<Vec<Fetch<S>>>,
}

impl<S: PartialEq, T> Compute for ResourceCell<S, T> {
    fn recompute(&self) -> Outcome<()> {
        let id = self.input.borrow().id();
        let next = self.host.compute(id, || Ok((self.compute)()))?;
        self.host.op(|reactor, _| self.input.borrow_mut().finish(reactor, next));
        Ok(())
    }
}

impl<S: Clone + PartialEq + 'static, T: Clone + 'static> ResourceCell<S, T> {
    fn new(host: &Rc<Host>, source: impl Fn() -> S + 'static) -> (Rc<Self>, Effect) {
        let owned = host.bench.owner().is_some();
        let (resource, input): (Resource<T>, Memo<S>) = {
            let mut desk = host.bench.0.borrow_mut();
            host.reactor.borrow_mut().resource(&mut desk.owners, line(0))
        };
        let (id, effect) = (input.id(), *resource.effect());
        let cell = Rc::new(ResourceCell {
            host: host.clone(),
            resource: RefCell::new(resource),
            input: RefCell::new(input),
            compute: Box::new(source),
            fetches: RefCell::new(Vec::new()),
        });
        let entry: Rc<dyn Compute> = cell.clone();
        host.computed.borrow_mut().insert(id.get(), Rc::downgrade(&entry));
        let body = {
            let cell = cell.clone();
            move || cell.start()
        };
        (cell, host.adopt_effect(effect, Rc::new(body), None, owned))
    }

    fn start(self: &Rc<Self>) -> Outcome<()> {
        let id = self.input.borrow().id();
        self.host.refresh(id)?;
        let (input, generation, guard) = self.host.op(|reactor, tracking| {
            self.resource.borrow_mut().start_fetch(&self.input.borrow(), reactor, tracking, line(1))
        });
        let aborted = Rc::new(Slot::new(false));
        self.fetches.borrow_mut().push(Fetch { input, generation, aborted: aborted.clone() });
        let cell = self.clone();
        self.host.bench.on_cleanup(move || {
            aborted.set(true);
            cell.host.op(|reactor, _| cell.resource.borrow_mut().cancel(reactor, line(1)));
        });
        self.host.op(|_, tracking| guard.resume(tracking));
        Ok(())
    }

    fn complete(&self, generation: u64, result: T) -> bool {
        self.host.op(|reactor, _| {
            self.resource.borrow_mut().complete(reactor, generation, result, line(1))
        })
    }

    fn get(&self) -> Option<T> {
        self.host.op(|reactor, tracking| self.resource.borrow().get(reactor, tracking))
    }

    fn loading(&self) -> bool {
        self.host.op(|reactor, tracking| self.resource.borrow().loading(reactor, tracking))
    }

    fn refetch(&self) {
        self.host.op(|reactor, _| self.resource.borrow_mut().refetch(reactor, line(1)));
    }
}

#[test]
fn resource_fetches_refetches_on_input_change_and_on_request() {
    let host = Bench::new().host();
    let seen = Rc::new(RefCell::new(Vec::new()));
    let id = host.signal(1u32);
    let (doubled, _driver) = ResourceCell::<u32, u32>::new(&host, {
        let id = id.clone();
        move || id.get()
    });
    host.effect({
        let doubled = doubled.clone();
        let seen = seen.clone();
        move || seen.borrow_mut().push(doubled.get())
    })
    .leak();
    let serve = || {
        host.run();
        loop {
            let fetch = match doubled.fetches.borrow_mut().pop() {
                Some(fetch) => fetch,
                None => break,
            };
            assert!(doubled.complete(fetch.generation, fetch.input * 10));
            host.run();
        }
    };
    serve();
    let _ = id.set(1);
    serve();
    id.set(2);
    serve();
    doubled.refetch();
    serve();
    assert_eq!(
        &*seen.borrow(),
        &[None, Some(10), Some(20), Some(20)],
        "initial fetch, input-change refetch, and explicit refetch"
    );
}

#[test]
fn superseded_fetches_are_aborted_and_never_publish() {
    let host = Bench::new().host();
    let seen = Rc::new(RefCell::new(Vec::new()));
    let input = host.signal("slow");
    let (fetched, _driver) = ResourceCell::<&'static str, &'static str>::new(&host, {
        let input = input.clone();
        move || input.get()
    });
    host.effect({
        let fetched = fetched.clone();
        let seen = seen.clone();
        move || seen.borrow_mut().push(fetched.get())
    })
    .leak();
    host.run();
    assert!(fetched.loading(), "a fetch should have been in flight mid-test");

    input.set("fast");
    host.run();
    let (slow, fast) = {
        let fetches = fetched.fetches.borrow();
        assert_eq!(fetches.len(), 2);
        assert!(fetches[0].aborted.get() && !fetches[1].aborted.get());
        (fetches[0].generation, fetches[1].generation)
    };
    assert!(fetched.complete(fast, "fast"));
    assert!(!fetched.complete(slow, "slow"), "a stale completion is discarded");
    host.run();
    assert!(!fetched.loading(), "no fetch should remain in flight");
    assert_eq!(
        &*seen.borrow(),
        &[None, Some("fast")],
        "the superseded slow fetch must never publish"
    );
}

#[test]
fn disposing_the_owner_aborts_the_in_flight_fetch() {
    let bench = Bench::new();
    let host = bench.host();
    let (handle, (fetched, _driver)) =
        bench.scope(|| ResourceCell::<(), u32>::new(&host, || ()));
    host.run();
    assert!(fetched.loading(), "the fetch should be in flight");

    handle.dispose();
    host.run();
    assert!(fetched.fetches.borrow()[0].aborted.get(), "the fetch must be aborted");
    assert_eq!(fetched.get(), None, "aborted fetch must not publish");
    assert!(
        !fetched.loading(),
        "loading must clear when the owner disposes the in-flight fetch"
    );
}

#[test]
fn the_audit_detects_a_gauge_that_has_drifted() {
    let bench = Bench::new();
    let (_handle, ()) = bench.scope(|| {});
    let mut desk = bench.0.borrow_mut();
    assert_eq!(audit_ownership(&mut desk.owners), OwnershipAudit::Consistent);

    let stats = ownership_stats(&desk.owners);
    let before = stats.owned_children;
    let mut drifted = stats;
    drifted.owned_children += 1;
    let audit = adaptite::ownership::audit_counts(
        &drifted,
        stats.live_owners,
        stats.cleanup_registrations,
        before,
    );
    match audit {
        OwnershipAudit::Drifted(drift) => assert_eq!(
            drift,
            vec![OwnershipDrift {
                gauge: OwnershipGauge::OwnedChildren,
                reported: before + 1,
                actual: before,
            }]
        ),
        other => panic!("the audit missed a drift it was built to catch: {other:?}"),
    }
    assert_eq!(audit_ownership(&mut desk.owners), OwnershipAudit::Consistent);
}

#[test]
fn the_audit_registry_does_not_grow_with_owners_long_dead() {
    let bench = Bench::new();
    for _ in 0..2_000 {
        let (handle, ()) = bench.scope(|| bench.on_cleanup(|| {}));
        handle.dispose();
    }
    let desk = bench.0.borrow();
    let live = ownership_stats(&desk.owners).live_owners;
    let entries = desk.owners.registry_len().expect("the tree is audited");
    assert!(entries < 64, "registry retained {entries} entries for {live} live owners");
}

#[test]
fn the_audit_reports_unavailable_rather_than_consistent_without_a_registry() {
    let mut plain = Owners::new(false);
    assert_eq!(audit_ownership(&mut plain), OwnershipAudit::Unavailable);
    assert!(debug_assert_ownership_consistent(&mut plain));
    assert_eq!(plain.registry_len(), None);

    let mut audited = Owners::new(true);
    let open = scope(&mut audited);
    let (_handle, _) = open.finish(&mut audited);
    assert_eq!(audit_ownership(&mut audited), OwnershipAudit::Consistent);
    assert!(debug_assert_ownership_consistent(&mut audited));
}
