//! The authentication state machine the caller walks: awaiting a phone
//! number, awaiting a one-time code, authenticated.
//!
//! Transitions are driven exclusively by [`Outcome`] values arriving
//! from the dispatch bridge, never directly by user input.  There is no
//! failure state: a failed step leaves the caller where it was, and the
//! caller retries by submitting another job.

use vstd::prelude::*;

use crate::jobs::Outcome;

verus! {

/// The opaque continuation handle a code request issues: it must come
/// back with the code submission that follows.  The caller keeps one
/// copy for its state while another travels with the next job.
#[derive(Clone, Copy, Debug, PartialEq, Eq, Structural)]
pub struct PendingToken {
    pub id: u64,
}

/// Where the caller stands in the login flow.  `Authenticated` is
/// terminal.
#[derive(Clone, Copy, Debug, PartialEq, Eq, Structural)]
pub enum AuthState {
    AwaitingPhoneNumber,
    AwaitingCode(PendingToken),
    Authenticated,
}

/// The state the caller moves to when `outcome` arrives in `state`.
///
/// A code request answered with a token moves to `AwaitingCode`; one
/// answered with no token means the client was already authorized, so
/// the caller moves straight to `Authenticated`.  A successful code
/// submission reaches `Authenticated`.  A failed step, and any outcome
/// that does not concern the login flow, leaves the state unchanged.
pub open spec fn spec_auth_step(state: AuthState, outcome: Outcome) -> AuthState {
    match outcome {
        Outcome::CodeRequested(Some(Some(token))) => AuthState::AwaitingCode(token),
        Outcome::CodeRequested(Some(None)) => AuthState::Authenticated,
        Outcome::CodeRequested(None) => state,
        Outcome::CodeSubmitted(Some(())) => AuthState::Authenticated,
        Outcome::CodeSubmitted(None) => state,
        Outcome::MembersFetched(_, _) => state,
        Outcome::Exported(_, _) => state,
    }
}

/// An already-authorized client needs no code: the "no token needed"
/// answer to a code request moves the caller straight to
/// `Authenticated`, from any state, without a code submission.
pub proof fn lemma_authorized_needs_no_code(state: AuthState)
    ensures
        spec_auth_step(state, Outcome::CodeRequested(Some(None))) == AuthState::Authenticated,
{
}

/// A failed code request or code submission leaves the caller exactly
/// where it was: retrying is always by resubmitting a job, never by a
/// state change.
pub proof fn lemma_failed_step_keeps_state(state: AuthState)
    ensures
        spec_auth_step(state, Outcome::CodeRequested(None)) == state,
        spec_auth_step(state, Outcome::CodeSubmitted(None)) == state,
{
}

/// Walks the login flow one outcome at a time.
pub fn auth_step(state: AuthState, outcome: &Outcome) -> (next: AuthState)
    ensures
        next == spec_auth_step(state, *outcome),
{
    match outcome {
        Outcome::CodeRequested(Some(Some(token))) => AuthState::AwaitingCode(*token),
        Outcome::CodeRequested(Some(None)) => AuthState::Authenticated,
        Outcome::CodeRequested(None) => state,
        Outcome::CodeSubmitted(Some(())) => AuthState::Authenticated,
        Outcome::CodeSubmitted(None) => state,
        Outcome::MembersFetched(_, _) => state,
        Outcome::Exported(_, _) => state,
    }
}

} // verus!
