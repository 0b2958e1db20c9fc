use vstd::prelude::*;

use crate::error::{WalleError, WalleResult};

verus! {

/// The capability the orchestrator requires of its action side. Each method
/// declares its outcome through a spec-level twin, so every verified
/// implementation pins the pipeline result exactly; implementations supplied
/// from outside are bound to the same interface.
pub trait ActionHandler<E, A, R>: Sized {
    spec fn call_spec(&self, action: A) -> WalleResult<R>;

    spec fn before_call_event_spec(&self, event: E) -> WalleResult<E>;

    spec fn after_call_event_spec(&self) -> WalleResult<()>;

    /// Performs the action and produces its response.
    fn call(&self, action: A) -> (r: WalleResult<R>)
        ensures
            r == self.call_spec(action),
    ;

    /// Pre-filter on events: may transform or veto before dispatch.
    fn before_call_event(&self, event: E) -> (r: WalleResult<E>)
        ensures
            r == self.before_call_event_spec(event),
    ;

    /// Post-hook after an event was dispatched.
    fn after_call_event(&self) -> (r: WalleResult<()>)
        ensures
            r == self.after_call_event_spec(),
    ;

    /// Shutdown hook; infallible from the orchestrator's point of view.
    fn shutdown(&self);
}

/// The capability the orchestrator requires of its event side; symmetric to
/// the action side.
pub trait EventHandler<E, A, R>: Sized {
    spec fn call_spec(&self, event: E) -> WalleResult<()>;

    spec fn before_call_action_spec(&self, action: A) -> WalleResult<A>;

    spec fn after_call_action_spec(&self, resp: R) -> WalleResult<R>;

    /// Delivers the event to application logic.
    fn call(&self, event: E) -> (r: WalleResult<()>)
        ensures
            r == self.call_spec(event),
    ;

    /// Pre-filter on actions: may transform or veto before dispatch.
    fn before_call_action(&self, action: A) -> (r: WalleResult<A>)
        ensures
            r == self.before_call_action_spec(action),
    ;

    /// Post-hook on an action's result: may transform it before return.
    fn after_call_action(&self, resp: R) -> (r: WalleResult<R>)
        ensures
            r == self.after_call_action_spec(resp),
    ;

    /// Shutdown hook; infallible from the orchestrator's point of view.
    fn shutdown(&self);
}

/// What `start` decides: in which order the two handlers' own background work
/// is to be started by the caller.
#[derive(Debug, Clone, Copy, PartialEq, Eq)]
pub struct StartPlan {
    /// True: the action side starts first; false: the event side does.
    pub action_first: bool,
}

/// A fresh, independent subscription to the shutdown broadcast. Each
/// subscriber receives the signal once; the transport layer binds it to a
/// real channel.
#[derive(Debug, Clone, Copy, PartialEq, Eq)]
pub struct ShutdownSignal {
}

/// The orchestrator: owns the two handler implementations and the one
/// lifecycle cell. Created stopped; `start` moves it to running; `shutdown`
/// moves it back; it may restart after a clean shutdown.
pub struct OneBot<AH, EH> {
    pub action_handler: AH,
    pub event_handler: EH,
    pub running: bool,
}

/// The verdict of the three-stage event pipeline: the first failing stage
/// aborts the rest and is returned.
pub open spec fn event_pipeline_spec<E, A, R, AH: ActionHandler<E, A, R>, EH: EventHandler<E, A, R>>(
    ah: AH,
    eh: EH,
    event: E,
) -> WalleResult<()> {
    match ah.before_call_event_spec(event) {
        Err(e) => Err(e),
        Ok(filtered) => match eh.call_spec(filtered) {
            Err(e) => Err(e),
            Ok(_) => ah.after_call_event_spec(),
        },
    }
}

/// The verdict of the three-stage action pipeline.
pub open spec fn action_pipeline_spec<
    E,
    A,
    R,
    AH: ActionHandler<E, A, R>,
    EH: EventHandler<E, A, R>,
>(ah: AH, eh: EH, action: A) -> WalleResult<R> {
    match eh.before_call_action_spec(action) {
        Err(e) => Err(e),
        Ok(filtered) => match ah.call_spec(filtered) {
            Err(e) => Err(e),
            Ok(resp) => eh.after_call_action_spec(resp),
        },
    }
}

impl<AH, EH> OneBot<AH, EH> {
    pub open spec fn is_running(&self) -> bool {
        self.running
    }

    /// A fresh orchestrator: handlers installed, lifecycle stopped.
    pub fn new(action_handler: AH, event_handler: EH) -> (r: Self)
        ensures
            !r.is_running(),
            r.action_handler == action_handler,
            r.event_handler == event_handler,
    {
        Self { action_handler, event_handler, running: false }
    }

    /// Non-mutating point-in-time check of the lifecycle cell.
    pub fn started(&self) -> (r: bool)
        ensures
            r == self.is_running(),
    {
        self.running
    }

    /// The guarded check-and-set of the lifecycle cell: fails with
    /// already-started unless stopped; on success the runtime is running and
    /// the caller receives the plan saying which handler's background work to
    /// start first. The caller owns the supervision of that work.
    pub fn start(&mut self, ah_first: bool) -> (r: WalleResult<StartPlan>)
        ensures
            !old(self).is_running() ==> (r matches Ok(plan) && plan.action_first == ah_first
                && final(self).is_running()),
            old(self).is_running() ==> (r matches Err(e) && e == WalleError::AlreadyStarted
                && *final(self) == *old(self)),
            final(self).action_handler == old(self).action_handler,
            final(self).event_handler == old(self).event_handler,
    {
        if self.running {
            Err(WalleError::AlreadyStarted)
        } else {
            self.running = true;
            Ok(StartPlan { action_first: ah_first })
        }
    }

    /// A fresh subscription to the shutdown broadcast; fails with not-started
    /// while stopped. Arbitrarily many subscribers may each receive the
    /// signal once.
    pub fn get_signal_rx(&self) -> (r: WalleResult<ShutdownSignal>)
        ensures
            self.is_running() ==> r is Ok,
            !self.is_running() ==> (r matches Err(e) && e == WalleError::NotStarted),
    {
        if self.running {
            Ok(ShutdownSignal {  })
        } else {
            Err(WalleError::NotStarted)
        }
    }

    /// Clears the lifecycle cell: fails with not-started if already stopped;
    /// otherwise the runtime is stopped and the caller must broadcast the
    /// signal and await both handlers' own shutdown hooks.
    pub fn shutdown(&mut self) -> (r: WalleResult<()>)
        ensures
            old(self).is_running() ==> (!final(self).is_running() && r is Ok),
            !old(self).is_running() ==> (r matches Err(e) && e == WalleError::NotStarted
                && *final(self) == *old(self)),
            final(self).action_handler == old(self).action_handler,
            final(self).event_handler == old(self).event_handler,
    {
        if self.running {
            self.running = false;
            Ok(())
        } else {
            Err(WalleError::NotStarted)
        }
    }

    /// Three-stage event pipeline: action-side pre-filter, event-side
    /// dispatch, action-side post-hook. The first failure aborts the rest.
    pub fn handle_event<E, A, R>(&self, event: E) -> (r: WalleResult<()>) where
        AH: ActionHandler<E, A, R>,
        EH: EventHandler<E, A, R>,

        ensures
            r == event_pipeline_spec(self.action_handler, self.event_handler, event),
    {
        match self.action_handler.before_call_event(event) {
            Err(e) => Err(e),
            Ok(filtered) => match self.event_handler.call(filtered) {
                Err(e) => Err(e),
                Ok(_) => self.action_handler.after_call_event(),
            },
        }
    }

    /// Three-stage action pipeline: event-side pre-filter, action-side
    /// dispatch, event-side post-hook over the result.
    pub fn handle_action<E, A, R>(&self, action: A) -> (r: WalleResult<R>) where
        AH: ActionHandler<E, A, R>,
        EH: EventHandler<E, A, R>,

        ensures
            r == action_pipeline_spec(self.action_handler, self.event_handler, action),
    {
        match self.event_handler.before_call_action(action) {
            Err(e) => Err(e),
            Ok(filtered) => match self.action_handler.call(filtered) {
                Err(e) => Err(e),
                Ok(resp) => self.event_handler.after_call_action(resp),
            },
        }
    }
}

/// Lifecycle law: on a fresh orchestrator `start` succeeds; a second `start`
/// before `shutdown` fails with already-started; `shutdown` before any
/// `start` fails with not-started; and after a clean `shutdown` the runtime
/// reports stopped and may start again.
pub fn lifecycle_round<AH, EH>(action_handler: AH, event_handler: EH)
{
    let mut ob = OneBot::new(action_handler, event_handler);
    let premature = ob.shutdown();
    assert(premature matches Err(e) && e == WalleError::NotStarted);
    let first = ob.start(true);
    assert(first is Ok);
    assert(ob.is_running());
    let second = ob.start(true);
    assert(second matches Err(e) && e == WalleError::AlreadyStarted);
    let stop = ob.shutdown();
    assert(stop is Ok);
    assert(!ob.is_running());
    let again = ob.start(false);
    assert(again is Ok);
}

} // verus!
