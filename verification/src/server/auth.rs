//! Whether a server process serves with authorization enabled.

use vstd::prelude::*;

verus! {

/// Whether the process is serving with authorization enabled. It is set once at server build from
/// the presence of a verifier, and is a fail-closed backstop: a mutating handler reached without
/// an authorization token denies the write when it is enabled, rather than trusting that the
/// request was checked before.
#[derive(Debug, Clone, Copy, PartialEq, Eq, Structural)]
pub struct AuthState {
    enabled: bool,
}

impl View for AuthState {
    type V = bool;

    closed spec fn view(&self) -> bool {
        self.enabled
    }
}

impl Default for AuthState {
    fn default() -> (r: AuthState)
        ensures
            !r@,
    {
        AuthState { enabled: false }
    }
}

/// Record whether authorization is enabled.
pub fn set_auth_enabled(state: &mut AuthState, enabled: bool)
    ensures
        final(state)@ == enabled,
{
    state.enabled = enabled;
}

/// Whether authorization is enabled.
pub fn auth_enabled(state: &AuthState) -> (r: bool)
    ensures
        r == state@,
{
    state.enabled
}

} // verus!
