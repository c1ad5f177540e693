//! The state of one session.

use vstd::prelude::*;

verus! {

/// What a session remembers: whether `initialize` has succeeded.
#[derive(Debug, Clone, Copy, PartialEq, Eq, Structural)]
pub struct AppState {
    pub initialized: bool,
}

impl AppState {
    /// Records that the session is initialised.
    pub fn mark_initialized(&mut self)
        ensures
            final(self).initialized,
    {
        self.initialized = true;
    }

    /// Whether the session is initialised.
    pub fn is_initialized(&self) -> (r: bool)
        ensures
            r == self.initialized,
    {
        self.initialized
    }
}

impl Default for AppState {
    /// The state of a session that has just begun.
    fn default() -> (r: AppState)
        ensures
            !r.initialized,
    {
        AppState { initialized: false }
    }
}

} // verus!
