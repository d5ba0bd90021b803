//! The termination rule of a tracing session: it runs until its time budget
//! is spent or until it is cancelled from outside.

use vstd::prelude::*;

verus! {

/// Where a session stands.
#[derive(Clone, Copy, Debug, PartialEq, Eq, Structural)]
pub enum SessionState {
    /// Events are being polled.
    Running,
    /// The time budget was spent.
    Completed,
    /// The cancellation flag was found set.
    Cancelled,
}

/// What the caller does next.
#[derive(Clone, Copy, Debug, PartialEq, Eq, Structural)]
pub enum SessionAction {
    /// Poll the event source once more.
    Poll,
    /// Stop polling and write the report.
    Report,
}

/// What the loop sees after one poll: the whole seconds since the start and
/// whether the cancellation flag is set.
#[derive(Clone, Copy, Debug, PartialEq, Eq, Structural)]
pub struct Tick {
    pub elapsed_secs: u64,
    pub cancelled: bool,
}

/// The budget of `duration_secs` is spent. A budget of 0 is unlimited and
/// is never spent.
pub open spec fn budget_spent(duration_secs: u64, elapsed_secs: u64) -> bool {
    duration_secs > 0 && elapsed_secs >= duration_secs
}

/// The state after one poll. Terminal states stay; a running session
/// completes when its budget is spent, else is cancelled when the flag is
/// set, else keeps running.
pub open spec fn next_state(state: SessionState, duration_secs: u64, tick: Tick) -> SessionState {
    match state {
        SessionState::Running => if budget_spent(duration_secs, tick.elapsed_secs) {
            SessionState::Completed
        } else if tick.cancelled {
            SessionState::Cancelled
        } else {
            SessionState::Running
        },
        terminal => terminal,
    }
}

/// The state of a session that started running and has seen `ticks`.
pub open spec fn state_after(duration_secs: u64, ticks: Seq<Tick>) -> SessionState
    decreases ticks.len(),
{
    if ticks.len() == 0 {
        SessionState::Running
    } else {
        next_state(state_after(duration_secs, ticks.drop_last()), duration_secs, ticks.last())
    }
}

impl SessionState {
    /// The state in which every session starts.
    pub fn start() -> (r: SessionState)
        ensures
            r == SessionState::Running,
    {
        SessionState::Running
    }

    /// The session has ended, one way or the other.
    pub fn is_terminal(&self) -> (r: bool)
        ensures
            r == (*self != SessionState::Running),
    {
        match self {
            SessionState::Running => false,
            _ => true,
        }
    }

    /// The state after one poll, from the configured duration in seconds
    /// (0 for unlimited), the seconds elapsed and the cancellation flag.
    pub fn step(self, duration_secs: u64, elapsed_secs: u64, cancelled: bool) -> (r: SessionState)
        ensures
            r == next_state(self, duration_secs, Tick { elapsed_secs, cancelled }),
    {
        match self {
            SessionState::Running => {
                if duration_secs > 0 && elapsed_secs >= duration_secs {
                    SessionState::Completed
                } else if cancelled {
                    SessionState::Cancelled
                } else {
                    SessionState::Running
                }
            },
            terminal => terminal,
        }
    }

    /// What the caller does in this state: poll while running, report once
    /// the session has ended, however it ended.
    pub fn action(&self) -> (r: SessionAction)
        ensures
            r == (if *self == SessionState::Running {
                SessionAction::Poll
            } else {
                SessionAction::Report
            }),
    {
        match self {
            SessionState::Running => SessionAction::Poll,
            _ => SessionAction::Report,
        }
    }
}

/// A session without a time budget never completes by itself: it runs until
/// the first tick that finds the cancellation flag set, and is cancelled from
/// then on.
pub proof fn law_unlimited_session_ends_only_by_cancellation(ticks: Seq<Tick>)
    ensures
        state_after(0, ticks) != SessionState::Completed,
        state_after(0, ticks) == SessionState::Cancelled <==> exists|i: int|
            0 <= i < ticks.len() && (#[trigger] ticks[i]).cancelled,
    decreases ticks.len(),
{
    if ticks.len() > 0 {
        let head = ticks.drop_last();
        law_unlimited_session_ends_only_by_cancellation(head);
        if exists|i: int| 0 <= i < head.len() && (#[trigger] head[i]).cancelled {
            let i = choose|i: int| 0 <= i < head.len() && (#[trigger] head[i]).cancelled;
            assert(ticks[i].cancelled);
        } else if ticks.last().cancelled {
            assert(ticks[ticks.len() - 1].cancelled);
        } else {
            assert forall|i: int| 0 <= i < ticks.len() implies !(#[trigger] ticks[i]).cancelled by {
                if i < head.len() {
                    assert(head[i] == ticks[i]);
                }
            }
        }
    }
}

/// A session that has ended stays as it ended, whatever comes after.
pub proof fn law_terminal_states_stay(state: SessionState, duration_secs: u64, tick: Tick)
    requires
        state != SessionState::Running,
    ensures
        next_state(state, duration_secs, tick) == state,
{
}

} // verus!
