use vstd::prelude::*;

verus! {

/// Seconds between the end of one sweep cycle and the start of the next.
pub const SWEEP_PERIOD_SECS: u64 = 3600;

/// Where the expiry sweeper stands.
#[derive(Clone, Copy, Debug, PartialEq, Eq, Structural)]
pub enum SweeperState {
    /// Waiting for the timer.
    Idle,
    /// A sweep cycle is running.
    Sweeping,
}

/// What the sweeper is told.
#[derive(Clone, Copy, Debug, PartialEq, Eq, Structural)]
pub enum SweeperEvent {
    /// The period has elapsed.
    TimerFired,
    /// The running cycle has removed what had expired.
    SweepSucceeded,
    /// The running cycle has failed.
    SweepFailed,
}

/// What the sweeper asks its driver to do.
#[derive(Clone, Copy, Debug, PartialEq, Eq, Structural)]
pub enum SweeperAction {
    /// Run one sweep cycle now, then report how it ended.
    RunSweep,
    /// Set the timer to the given number of seconds.
    Wait(u64),
    /// Report the failed cycle, then set the timer to the given number of seconds.
    ReportAndWait(u64),
    /// Nothing: the event does not concern the present state.
    Ignore,
}

/// The sweeper's transition: the state and the action that follow `event` in `state`.
pub open spec fn sweeper_next(state: SweeperState, event: SweeperEvent) -> (
    SweeperState,
    SweeperAction,
) {
    match (state, event) {
        (SweeperState::Idle, SweeperEvent::TimerFired) => (
            SweeperState::Sweeping,
            SweeperAction::RunSweep,
        ),
        (SweeperState::Sweeping, SweeperEvent::SweepSucceeded) => (
            SweeperState::Idle,
            SweeperAction::Wait(SWEEP_PERIOD_SECS),
        ),
        (SweeperState::Sweeping, SweeperEvent::SweepFailed) => (
            SweeperState::Idle,
            SweeperAction::ReportAndWait(SWEEP_PERIOD_SECS),
        ),
        _ => (state, SweeperAction::Ignore),
    }
}

/// One step of the sweeper: a timer that fires while idle starts a cycle; a
/// cycle that ends, well or badly, leads back to idle with the timer set anew;
/// any other event changes nothing.
pub fn sweeper_step(state: SweeperState, event: SweeperEvent) -> (next: (
    SweeperState,
    SweeperAction,
))
    ensures
        next == sweeper_next(state, event),
{
    match state {
        SweeperState::Idle => match event {
            SweeperEvent::TimerFired => (SweeperState::Sweeping, SweeperAction::RunSweep),
            _ => (SweeperState::Idle, SweeperAction::Ignore),
        },
        SweeperState::Sweeping => match event {
            SweeperEvent::TimerFired => (SweeperState::Sweeping, SweeperAction::Ignore),
            SweeperEvent::SweepSucceeded => (
                SweeperState::Idle,
                SweeperAction::Wait(SWEEP_PERIOD_SECS),
            ),
            SweeperEvent::SweepFailed => (
                SweeperState::Idle,
                SweeperAction::ReportAndWait(SWEEP_PERIOD_SECS),
            ),
        },
    }
}

/// Sweep cycles never overlap: a cycle is started only from idle, and while
/// one runs the sweeper stays in it until the cycle reports its end.
pub proof fn lemma_cycles_are_sequential(state: SweeperState, event: SweeperEvent)
    ensures
        sweeper_next(state, event).1 == SweeperAction::RunSweep ==> state == SweeperState::Idle
            && sweeper_next(state, event).0 == SweeperState::Sweeping,
        state == SweeperState::Sweeping && event == SweeperEvent::TimerFired ==> sweeper_next(
            state,
            event,
        ) == (SweeperState::Sweeping, SweeperAction::Ignore),
{
}

/// A failed cycle does not stop the sweeper: it is idle again, and the next
/// cycle starts when the timer fires.
pub proof fn lemma_failure_is_survived()
    ensures
        sweeper_next(SweeperState::Sweeping, SweeperEvent::SweepFailed).0 == SweeperState::Idle,
        sweeper_next(
            sweeper_next(SweeperState::Sweeping, SweeperEvent::SweepFailed).0,
            SweeperEvent::TimerFired,
        ) == (SweeperState::Sweeping, SweeperAction::RunSweep),
{
}

} // verus!
