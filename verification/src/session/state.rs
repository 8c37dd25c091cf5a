use vstd::prelude::*;

use crate::text::push_str;

verus! {

/// Lifecycle of a GUI session.
#[derive(Debug, Clone, Copy, PartialEq, Eq)]
pub enum SessionState {
    Created,
    Starting,
    Running,
    Stopping,
    Exited,
    Failed,
}

/// A rejected lifecycle step.
#[derive(Debug, Clone, Copy, PartialEq, Eq)]
pub struct TransitionError {
    pub from: SessionState,
    pub to: SessionState,
}

/// The lifecycle edges: `Created -> Starting -> Running -> Stopping -> Exited`,
/// `Running -> Exited`, and every non-terminal state except `Created`'s
/// successors may fail.
pub open spec fn valid_transition(from: SessionState, to: SessionState) -> bool {
    match (from, to) {
        (SessionState::Created, SessionState::Starting) => true,
        (SessionState::Created, SessionState::Failed) => true,
        (SessionState::Starting, SessionState::Running) => true,
        (SessionState::Starting, SessionState::Failed) => true,
        (SessionState::Running, SessionState::Stopping) => true,
        (SessionState::Running, SessionState::Exited) => true,
        (SessionState::Running, SessionState::Failed) => true,
        (SessionState::Stopping, SessionState::Exited) => true,
        (SessionState::Stopping, SessionState::Failed) => true,
        _ => false,
    }
}

/// `Exited` and `Failed` end a session.
pub open spec fn is_terminal(state: SessionState) -> bool {
    state == SessionState::Exited || state == SessionState::Failed
}

impl SessionState {
    /// Moves to `next` when the lifecycle allows that step.
    pub fn transition(self, next: Self) -> (result: Result<Self, TransitionError>)
        ensures
            valid_transition(self, next) ==> result == Ok::<Self, TransitionError>(next),
            !valid_transition(self, next) ==> result == Err::<Self, TransitionError>(
                TransitionError { from: self, to: next },
            ),
            next == SessionState::Starting ==> (result is Ok <==> self == SessionState::Created),
            next == SessionState::Running ==> (result is Ok <==> self == SessionState::Starting),
            next == SessionState::Stopping ==> (result is Ok <==> self == SessionState::Running),
            next == SessionState::Exited ==> (result is Ok <==> (self == SessionState::Running
                || self == SessionState::Stopping)),
            next == SessionState::Failed ==> (result is Ok <==> (self != SessionState::Exited
                && self != SessionState::Failed)),
            next == SessionState::Created ==> result is Err,
    {
        proof {
            lemma_transitions_into(self, next);
        }
        let valid = match (self, next) {
            (Self::Created, Self::Starting)
            | (Self::Created, Self::Failed)
            | (Self::Starting, Self::Running)
            | (Self::Starting, Self::Failed)
            | (Self::Running, Self::Stopping)
            | (Self::Running, Self::Exited)
            | (Self::Running, Self::Failed)
            | (Self::Stopping, Self::Exited)
            | (Self::Stopping, Self::Failed) => true,
            _ => false,
        };
        if valid {
            Ok(next)
        } else {
            Err(TransitionError { from: self, to: next })
        }
    }
}

/// The name of a state, as `Debug` shows it.
pub open spec fn state_name(state: SessionState) -> Seq<char> {
    match state {
        SessionState::Created => "Created"@,
        SessionState::Starting => "Starting"@,
        SessionState::Running => "Running"@,
        SessionState::Stopping => "Stopping"@,
        SessionState::Exited => "Exited"@,
        SessionState::Failed => "Failed"@,
    }
}

fn push_state_name(text: &mut String, state: SessionState)
    ensures
        final(text)@ == old(text)@ + state_name(state),
{
    match state {
        SessionState::Created => push_str(text, "Created"),
        SessionState::Starting => push_str(text, "Starting"),
        SessionState::Running => push_str(text, "Running"),
        SessionState::Stopping => push_str(text, "Stopping"),
        SessionState::Exited => push_str(text, "Exited"),
        SessionState::Failed => push_str(text, "Failed"),
    }
}

impl TransitionError {
    /// The human-readable message of this error.
    pub fn message(&self) -> (text: String)
        ensures
            text@ == "invalid session transition: "@ + state_name(self.from) + " -> "@ + state_name(
                self.to,
            ),
    {
        let mut text = String::new();
        push_str(&mut text, "invalid session transition: ");
        push_state_name(&mut text, self.from);
        push_str(&mut text, " -> ");
        push_state_name(&mut text, self.to);
        text
    }
}

/// Position of a state along the lifecycle; terminal states share the last rank.
pub open spec fn lifecycle_rank(state: SessionState) -> int {
    match state {
        SessionState::Created => 0,
        SessionState::Starting => 1,
        SessionState::Running => 2,
        SessionState::Stopping => 3,
        SessionState::Exited => 4,
        SessionState::Failed => 4,
    }
}

/// A session that has exited or failed accepts no further transition.
pub proof fn lemma_terminal_states_are_final(from: SessionState, to: SessionState)
    requires
        is_terminal(from),
    ensures
        !valid_transition(from, to),
{
}

/// Every accepted transition moves strictly forward along the lifecycle, so
/// no state is ever entered twice and `Created` is never re-entered.
pub proof fn lemma_transitions_move_forward(from: SessionState, to: SessionState)
    requires
        valid_transition(from, to),
    ensures
        lifecycle_rank(from) < lifecycle_rank(to),
        to != SessionState::Created,
{
}

/// Where each state can be entered from: `Starting` only from `Created`,
/// `Running` only from `Starting`, `Stopping` only from `Running`, `Exited`
/// only from `Running` or `Stopping`, `Failed` from every state that has not
/// ended, and `Created` from none.
pub proof fn lemma_transitions_into(from: SessionState, to: SessionState)
    ensures
        to == SessionState::Starting ==> (valid_transition(from, to) <==> from
            == SessionState::Created),
        to == SessionState::Running ==> (valid_transition(from, to) <==> from
            == SessionState::Starting),
        to == SessionState::Stopping ==> (valid_transition(from, to) <==> from
            == SessionState::Running),
        to == SessionState::Exited ==> (valid_transition(from, to) <==> (from
            == SessionState::Running || from == SessionState::Stopping)),
        to == SessionState::Failed ==> (valid_transition(from, to) <==> (from
            != SessionState::Exited && from != SessionState::Failed)),
        to == SessionState::Created ==> !valid_transition(from, to),
{
}

/// Every state that has not ended can still fail.
pub proof fn lemma_live_states_can_fail(state: SessionState)
    requires
        !is_terminal(state),
    ensures
        valid_transition(state, SessionState::Failed),
{
}

} // verus!
