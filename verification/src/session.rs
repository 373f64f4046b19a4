//! The states that a cleaning session passes through.
//!
//! A session starts idle. Found processes call for the user's word; a yes
//! leads to their termination, a no back to idle. Either way the scan
//! follows, then the trashing, which ends the session as done or, where a
//! path could not be trashed, as a partial failure.

use vstd::prelude::*;
use crate::removal::{failure_count, failures, RemovalOutcome, RemovalOutcomeView};

verus! {

/// Where a session stands.
#[derive(Debug, Clone, Copy, PartialEq, Eq, Structural)]
pub enum SessionState {
    /// Nothing is pending.
    Idle,
    /// Processes of the application are running: the user has to decide.
    ProcessesFound,
    /// The user agreed: the processes are being ended.
    Terminating,
    /// The footprint is known.
    Scanned,
    /// The footprint is being moved to the trash.
    Trashing,
    /// Every path was moved to the trash.
    Done,
    /// Some path could not be moved to the trash.
    PartialFailure,
}

/// What happens to a session.
#[derive(Debug, Clone, Copy, PartialEq, Eq, Structural)]
pub enum SessionEvent {
    /// Running processes of the application were found.
    ProcessesFound,
    /// The user agreed to end them.
    Confirmed,
    /// The user declined; the processes stay.
    Declined,
    /// The scan ran to its end.
    ScanCompleted,
    /// The caller asked for the footprint to be trashed.
    TrashRequested,
    /// Every path was trashed.
    TrashSucceeded,
    /// The trashing ended with at least one failure.
    TrashFailedInPart,
    /// The caller abandons the session.
    Reset,
}

/// The state that `event` leads to from `state`, or `None` where the event
/// has no place in that state.
pub open spec fn next_state(state: SessionState, event: SessionEvent) -> Option<SessionState> {
    match (state, event) {
        (_, SessionEvent::Reset) => Some(SessionState::Idle),
        (SessionState::Idle, SessionEvent::ProcessesFound) => Some(SessionState::ProcessesFound),
        (SessionState::ProcessesFound, SessionEvent::Confirmed) => Some(SessionState::Terminating),
        (SessionState::ProcessesFound, SessionEvent::Declined) => Some(SessionState::Idle),
        (SessionState::Idle, SessionEvent::ScanCompleted) => Some(SessionState::Scanned),
        (SessionState::Terminating, SessionEvent::ScanCompleted) => Some(SessionState::Scanned),
        (SessionState::Scanned, SessionEvent::TrashRequested) => Some(SessionState::Trashing),
        (SessionState::Trashing, SessionEvent::TrashSucceeded) => Some(SessionState::Done),
        (SessionState::Trashing, SessionEvent::TrashFailedInPart) => Some(
            SessionState::PartialFailure,
        ),
        _ => None,
    }
}

/// The event that ends the trashing with these outcomes.
pub open spec fn trash_event(outcomes: Seq<RemovalOutcomeView>) -> SessionEvent {
    if failures(outcomes) == 0 {
        SessionEvent::TrashSucceeded
    } else {
        SessionEvent::TrashFailedInPart
    }
}

impl SessionState {
    /// The state after `event`, or `None` where the event has no place in
    /// this state.
    pub fn after(self, event: SessionEvent) -> (r: Option<SessionState>)
        ensures
            r == next_state(self, event),
    {
        match (self, event) {
            (_, SessionEvent::Reset) => Some(SessionState::Idle),
            (SessionState::Idle, SessionEvent::ProcessesFound) => Some(
                SessionState::ProcessesFound,
            ),
            (SessionState::ProcessesFound, SessionEvent::Confirmed) => Some(
                SessionState::Terminating,
            ),
            (SessionState::ProcessesFound, SessionEvent::Declined) => Some(SessionState::Idle),
            (SessionState::Idle, SessionEvent::ScanCompleted) => Some(SessionState::Scanned),
            (SessionState::Terminating, SessionEvent::ScanCompleted) => Some(
                SessionState::Scanned,
            ),
            (SessionState::Scanned, SessionEvent::TrashRequested) => Some(SessionState::Trashing),
            (SessionState::Trashing, SessionEvent::TrashSucceeded) => Some(SessionState::Done),
            (SessionState::Trashing, SessionEvent::TrashFailedInPart) => Some(
                SessionState::PartialFailure,
            ),
            _ => None,
        }
    }

    /// Whether the session waits for the user's word.
    pub fn needs_confirmation(self) -> (r: bool)
        ensures
            r == (self == SessionState::ProcessesFound),
    {
        match self {
            SessionState::ProcessesFound => true,
            _ => false,
        }
    }

    /// Whether the session has ended.
    pub fn is_final(self) -> (r: bool)
        ensures
            r == (self == SessionState::Done || self == SessionState::PartialFailure),
    {
        match self {
            SessionState::Done => true,
            SessionState::PartialFailure => true,
            _ => false,
        }
    }
}

impl SessionEvent {
    /// The event that ends the trashing with these outcomes: a failure of
    /// one path makes the whole a partial failure, and never more.
    pub fn trash_completed(outcomes: &Vec<RemovalOutcome>) -> (r: SessionEvent)
        ensures
            r == trash_event(outcomes.deep_view()),
    {
        if failure_count(outcomes) == 0 {
            SessionEvent::TrashSucceeded
        } else {
            SessionEvent::TrashFailedInPart
        }
    }
}

/// A session that has ended stays as it is until it is reset.
pub proof fn lemma_final_states_only_reset(state: SessionState, event: SessionEvent)
    requires
        state == SessionState::Done || state == SessionState::PartialFailure,
    ensures
        next_state(state, event) is Some ==> event == SessionEvent::Reset,
{
}

/// Nothing is trashed before the scan has run to its end: the only way into
/// the trashing leads through the scanned state.
pub proof fn lemma_trashing_follows_scan(state: SessionState, event: SessionEvent)
    requires
        next_state(state, event) == Some(SessionState::Trashing),
    ensures
        state == SessionState::Scanned,
        event == SessionEvent::TrashRequested,
{
}

/// Processes are ended only on the user's word.
pub proof fn lemma_termination_needs_confirmation(state: SessionState, event: SessionEvent)
    requires
        next_state(state, event) == Some(SessionState::Terminating),
    ensures
        state == SessionState::ProcessesFound,
        event == SessionEvent::Confirmed,
{
}

} // verus!
