//! The stop escalation state machine.
//!
//! Stopping a guest is driven by asynchronous engine callbacks and a timer.
//! The controller converts them into a deterministic sequence: request a
//! cooperative stop when the guest supports one and arm an escalation timer;
//! if the guest has not acknowledged by the deadline, issue a forced stop;
//! a guest that cannot be stopped at all is a fatal failure. Each call of
//! [`stop_transition`] consumes one event and says which action the driver
//! must perform; the driver owns the engine, the timer and the process exit.

use vstd::prelude::*;

verus! {

/// How many time units the controller waits for a cooperative stop before
/// it escalates to a forced stop.
pub const STOP_ESCALATION_TIMEOUT: u64 = 15;

/// Where the shutdown of one guest stands.
#[derive(Debug, Clone, Copy, PartialEq, Eq, Structural)]
pub enum StopState {
    /// The guest runs and no stop has been requested.
    Running,
    /// A cooperative stop was requested; the escalation timer fires at
    /// `deadline`.
    StopRequested { deadline: u64 },
    /// A forced stop has been issued and its completion is awaited.
    ForceStopPending,
    /// The guest acknowledged the cooperative stop. Terminal.
    StoppedGracefully,
    /// The forced stop completed. Terminal.
    StoppedForcefully,
    /// The guest could not be stopped. Terminal.
    FailedToStop,
}

/// One occurrence the driver reports to the machine.
#[derive(Debug, Clone, Copy, PartialEq, Eq, Structural)]
pub enum StopEvent {
    /// A stop was asked for at time `now`; the engine reports whether the
    /// guest supports a cooperative stop.
    StopInvoked { now: u64, cooperative_supported: bool },
    /// The engine failed to deliver the cooperative stop request.
    CooperativeRequestFailed,
    /// The escalation timer fired at time `now`.
    TimerFired { now: u64 },
    /// The engine reports the guest has stopped by itself or in answer to
    /// the cooperative request.
    GuestStopped,
    /// The engine reports the guest stopped because of an error.
    GuestStoppedWithError,
    /// The engine reports the guest is in no state to be force-stopped.
    ForceStopRefused,
    /// The forced stop completed, well or badly.
    ForceStopCompleted { ok: bool },
}

/// What the driver must do after a transition.
#[derive(Debug, Clone, Copy, PartialEq, Eq, Structural)]
pub enum StopAction {
    /// Ask the guest to stop cooperatively and arm the escalation timer
    /// for `deadline`.
    RequestCooperativeStop { deadline: u64 },
    /// Issue a forced stop through the engine.
    IssueForceStop,
    /// End the supervising process with a success status.
    ExitSuccess,
    /// End the supervising process with a failure status.
    ExitFailure,
    /// Do nothing; the event lost its race and must be ignored.
    Ignore,
}

impl StopState {
    pub open spec fn is_terminal(&self) -> bool {
        self is StoppedGracefully || self is StoppedForcefully || self is FailedToStop
    }
}

/// The transition relation, one event at a time.
pub open spec fn spec_stop_transition(s: StopState, e: StopEvent) -> (StopState, StopAction) {
    if s.is_terminal() {
        (s, StopAction::Ignore)
    } else {
        match (s, e) {
            (StopState::Running, StopEvent::StopInvoked { now, cooperative_supported }) => {
                if cooperative_supported {
                    let deadline = (now + STOP_ESCALATION_TIMEOUT) as u64;
                    (
                        StopState::StopRequested { deadline },
                        StopAction::RequestCooperativeStop { deadline },
                    )
                } else {
                    (StopState::ForceStopPending, StopAction::IssueForceStop)
                }
            },
            (StopState::Running, StopEvent::GuestStopped) => (
                StopState::StoppedGracefully,
                StopAction::ExitSuccess,
            ),
            (StopState::Running, StopEvent::GuestStoppedWithError) => (
                StopState::FailedToStop,
                StopAction::ExitFailure,
            ),
            (StopState::StopRequested { deadline }, StopEvent::TimerFired { now }) => {
                if now >= deadline {
                    (StopState::ForceStopPending, StopAction::IssueForceStop)
                } else {
                    (s, StopAction::Ignore)
                }
            },
            (StopState::StopRequested { .. }, StopEvent::GuestStopped) => (
                StopState::StoppedGracefully,
                StopAction::ExitSuccess,
            ),
            (StopState::StopRequested { .. }, StopEvent::GuestStoppedWithError) => (
                StopState::FailedToStop,
                StopAction::ExitFailure,
            ),
            (StopState::StopRequested { .. }, StopEvent::CooperativeRequestFailed) => (
                StopState::FailedToStop,
                StopAction::ExitFailure,
            ),
            (StopState::ForceStopPending, StopEvent::GuestStopped) => (s, StopAction::Ignore),
            (StopState::ForceStopPending, StopEvent::GuestStoppedWithError) => (
                StopState::FailedToStop,
                StopAction::ExitFailure,
            ),
            (StopState::ForceStopPending, StopEvent::ForceStopRefused) => (
                StopState::FailedToStop,
                StopAction::ExitFailure,
            ),
            (StopState::ForceStopPending, StopEvent::ForceStopCompleted { ok }) => {
                if ok {
                    (StopState::StoppedForcefully, StopAction::ExitSuccess)
                } else {
                    (StopState::FailedToStop, StopAction::ExitFailure)
                }
            },
            _ => (s, StopAction::Ignore),
        }
    }
}

/// Consumes one event and returns the next state and the action owed.
pub fn stop_transition(s: StopState, e: StopEvent) -> (r: (StopState, StopAction))
    requires
        e matches StopEvent::StopInvoked { now, .. } ==> now <= u64::MAX
            - STOP_ESCALATION_TIMEOUT,
    ensures
        r == spec_stop_transition(s, e),
{
    match s {
        StopState::StoppedGracefully | StopState::StoppedForcefully | StopState::FailedToStop => (
            s,
            StopAction::Ignore,
        ),
        StopState::Running => match e {
            StopEvent::StopInvoked { now, cooperative_supported } => {
                if cooperative_supported {
                    let deadline = now + STOP_ESCALATION_TIMEOUT;
                    (
                        StopState::StopRequested { deadline },
                        StopAction::RequestCooperativeStop { deadline },
                    )
                } else {
                    (StopState::ForceStopPending, StopAction::IssueForceStop)
                }
            },
            StopEvent::GuestStopped => (StopState::StoppedGracefully, StopAction::ExitSuccess),
            StopEvent::GuestStoppedWithError => (StopState::FailedToStop, StopAction::ExitFailure),
            _ => (s, StopAction::Ignore),
        },
        StopState::StopRequested { deadline } => match e {
            StopEvent::TimerFired { now } => {
                if now >= deadline {
                    (StopState::ForceStopPending, StopAction::IssueForceStop)
                } else {
                    (s, StopAction::Ignore)
                }
            },
            StopEvent::GuestStopped => (StopState::StoppedGracefully, StopAction::ExitSuccess),
            StopEvent::GuestStoppedWithError => (StopState::FailedToStop, StopAction::ExitFailure),
            StopEvent::CooperativeRequestFailed => (
                StopState::FailedToStop,
                StopAction::ExitFailure,
            ),
            _ => (s, StopAction::Ignore),
        },
        StopState::ForceStopPending => match e {
            StopEvent::GuestStopped => (s, StopAction::Ignore),
            StopEvent::GuestStoppedWithError => (StopState::FailedToStop, StopAction::ExitFailure),
            StopEvent::ForceStopRefused => (StopState::FailedToStop, StopAction::ExitFailure),
            StopEvent::ForceStopCompleted { ok } => {
                if ok {
                    (StopState::StoppedForcefully, StopAction::ExitSuccess)
                } else {
                    (StopState::FailedToStop, StopAction::ExitFailure)
                }
            },
            _ => (s, StopAction::Ignore),
        },
    }
}

/// The state after consuming a whole sequence of events.
pub open spec fn run_stop(s: StopState, evs: Seq<StopEvent>) -> StopState
    decreases evs.len(),
{
    if evs.len() == 0 {
        s
    } else {
        run_stop(spec_stop_transition(s, evs[0]).0, evs.drop_first())
    }
}

/// Whether consuming `evs` from `s` ever performs `a`.
pub open spec fn run_performs(s: StopState, evs: Seq<StopEvent>, a: StopAction) -> bool
    decreases evs.len(),
{
    if evs.len() == 0 {
        false
    } else {
        spec_stop_transition(s, evs[0]).1 == a || run_performs(
            spec_stop_transition(s, evs[0]).0,
            evs.drop_first(),
            a,
        )
    }
}

/// A guest that never acknowledges is not force-stopped before the
/// deadline: as long as every observed event is a timer tick earlier than
/// the deadline, the machine stays in `StopRequested` and issues nothing.
pub proof fn lemma_no_force_before_deadline(deadline: u64, evs: Seq<StopEvent>)
    requires
        forall|i: int|
            0 <= i < evs.len() ==> ((#[trigger] evs[i]) matches StopEvent::TimerFired { now }
                && now < deadline),
    ensures
        run_stop(StopState::StopRequested { deadline }, evs) == (StopState::StopRequested {
            deadline,
        }),
        !run_performs(StopState::StopRequested { deadline }, evs, StopAction::IssueForceStop),
    decreases evs.len(),
{
    if evs.len() > 0 {
        let s = StopState::StopRequested { deadline };
        assert(evs[0] matches StopEvent::TimerFired { now } && now < deadline);
        assert(spec_stop_transition(s, evs[0]) == (s, StopAction::Ignore));
        assert(forall|i: int|
            0 <= i < evs.drop_first().len() ==> ((#[trigger] evs.drop_first()[i])
                matches StopEvent::TimerFired { now } && now < deadline)) by {
            assert(forall|i: int|
                0 <= i < evs.drop_first().len() ==> evs.drop_first()[i] == evs[i + 1]);
        }
        lemma_no_force_before_deadline(deadline, evs.drop_first());
    }
}

/// At or after the deadline the timer tick escalates: the machine moves to
/// `ForceStopPending` and issues the forced stop.
pub proof fn lemma_force_at_deadline(deadline: u64, now: u64)
    requires
        now >= deadline,
    ensures
        spec_stop_transition(
            StopState::StopRequested { deadline },
            StopEvent::TimerFired { now },
        ) == (StopState::ForceStopPending, StopAction::IssueForceStop),
{
}

/// Invoking a stop on a cooperative guest at time `now` arms the
/// escalation deadline exactly `STOP_ESCALATION_TIMEOUT` units later.
pub proof fn lemma_stop_invoked_arms_timer(now: u64)
    requires
        now <= u64::MAX - STOP_ESCALATION_TIMEOUT,
    ensures
        spec_stop_transition(
            StopState::Running,
            StopEvent::StopInvoked { now, cooperative_supported: true },
        ) == (
            StopState::StopRequested { deadline: (now + STOP_ESCALATION_TIMEOUT) as u64 },
            StopAction::RequestCooperativeStop {
                deadline: (now + STOP_ESCALATION_TIMEOUT) as u64,
            },
        ),
{
}

/// A late cooperative acknowledgement after the forced stop was issued is
/// ignored: it neither changes state nor performs an action.
pub proof fn lemma_late_acknowledgement_ignored()
    ensures
        spec_stop_transition(StopState::ForceStopPending, StopEvent::GuestStopped) == (
            StopState::ForceStopPending,
            StopAction::Ignore,
        ),
{
}

/// Running a run in two halves: the second half starts where the first
/// ended.
pub proof fn lemma_run_stop_append(s: StopState, a: Seq<StopEvent>, b: Seq<StopEvent>)
    ensures
        run_stop(s, a + b) == run_stop(run_stop(s, a), b),
        run_performs(s, a + b, StopAction::IssueForceStop) == (run_performs(
            s,
            a,
            StopAction::IssueForceStop,
        ) || run_performs(run_stop(s, a), b, StopAction::IssueForceStop)),
    decreases a.len(),
{
    if a.len() == 0 {
        assert(a + b =~= b);
    } else {
        assert((a + b)[0] == a[0]);
        assert((a + b).drop_first() =~= a.drop_first() + b);
        lemma_run_stop_append(spec_stop_transition(s, a[0]).0, a.drop_first(), b);
    }
}

/// The whole escalation story of an uncooperative guest: a stop invoked
/// at `now` on a guest that supports a cooperative stop, any number of
/// timer ticks strictly before the deadline, and then a tick at or after
/// it. The run ends awaiting the forced stop, and the forced stop is
/// issued by that last tick and by nothing earlier.
pub proof fn lemma_uncooperative_guest_is_forced(now: u64, ticks: Seq<StopEvent>, fire: u64)
    requires
        now <= u64::MAX - STOP_ESCALATION_TIMEOUT,
        forall|i: int|
            0 <= i < ticks.len() ==> ((#[trigger] ticks[i]) matches StopEvent::TimerFired { now: t }
                && t < now + STOP_ESCALATION_TIMEOUT),
        fire >= now + STOP_ESCALATION_TIMEOUT,
    ensures
        ({
            let evs = seq![
                StopEvent::StopInvoked { now, cooperative_supported: true },
            ] + ticks + seq![StopEvent::TimerFired { now: fire }];
            run_stop(StopState::Running, evs) == StopState::ForceStopPending && run_performs(
                StopState::Running,
                evs,
                StopAction::IssueForceStop,
            ) && !run_performs(StopState::Running, evs.take(evs.len() - 1), StopAction::IssueForceStop)
        }),
{
    let deadline = (now + STOP_ESCALATION_TIMEOUT) as u64;
    let invoked = StopEvent::StopInvoked { now, cooperative_supported: true };
    let armed = StopState::StopRequested { deadline };
    let fired = seq![StopEvent::TimerFired { now: fire }];
    let evs = seq![invoked] + ticks + fired;
    lemma_stop_invoked_arms_timer(now);

    // the head arms the timer; the rest is ticks + the deciding one
    assert(evs[0] == invoked);
    assert(evs.drop_first() =~= ticks + fired);
    assert(run_stop(StopState::Running, evs) == run_stop(armed, ticks + fired));
    lemma_run_stop_append(armed, ticks, fired);
    lemma_no_force_before_deadline(deadline, ticks);
    lemma_force_at_deadline(deadline, fire);
    assert(fired[0] == StopEvent::TimerFired { now: fire });
    assert(spec_stop_transition(armed, fired[0]).0 == StopState::ForceStopPending);
    assert(fired.drop_first() =~= Seq::<StopEvent>::empty());
    assert(run_stop(StopState::ForceStopPending, fired.drop_first())
        == StopState::ForceStopPending);
    assert(run_stop(armed, fired) == StopState::ForceStopPending);
    assert(run_performs(armed, fired, StopAction::IssueForceStop));
    assert(spec_stop_transition(StopState::Running, invoked).1 != StopAction::IssueForceStop);

    // before the deciding tick nothing was forced
    let prefix = evs.take(evs.len() - 1);
    assert(prefix =~= seq![invoked] + ticks);
    assert(prefix[0] == invoked);
    assert(prefix.drop_first() =~= ticks);
    assert(!run_performs(StopState::Running, prefix, StopAction::IssueForceStop));
}

/// Terminal states are absorbing: every further event is ignored, so each
/// terminal action is performed at most once per run.
pub proof fn lemma_terminal_absorbing(s: StopState, evs: Seq<StopEvent>)
    requires
        s.is_terminal(),
    ensures
        run_stop(s, evs) == s,
        forall|a: StopAction| a != StopAction::Ignore ==> !run_performs(s, evs, a),
    decreases evs.len(),
{
    if evs.len() > 0 {
        lemma_terminal_absorbing(s, evs.drop_first());
        assert forall|a: StopAction| a != StopAction::Ignore implies !run_performs(s, evs, a) by {
            assert(spec_stop_transition(s, evs[0]).1 == StopAction::Ignore);
            assert(spec_stop_transition(s, evs[0]).0 == s);
            assert(!run_performs(s, evs.drop_first(), a));
        }
    }
}

} // verus!
