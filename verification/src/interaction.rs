//! Asking the user before a sensitive action.
use vstd::prelude::*;

verus! {

/// Handles the questions asked of the user; tests give their own
/// answers through it.
pub trait InteractionHandler {
    /// Whether `answer` is an answer that this handler may give to the
    /// question about `profile_name`; any answer may be given unless an
    /// implementation says otherwise.
    open spec fn may_answer(&self, profile_name: Seq<char>, answer: bool) -> bool {
        true
    }

    /// Asks the user to confirm a sensitive action involving the given
    /// profile; true when confirmed.
    fn confirm_sensitive_action(&self, profile_name: &str) -> (r: bool)
        ensures
            self.may_answer(profile_name@, r),
    ;
}

/// The handler that asks on the terminal (the terminal prompt itself is
/// the application's).
pub struct RealInteractionHandler;

impl RealInteractionHandler {
    /// Creates a new real interaction handler.
    pub fn new() -> (r: Self)
        ensures
            r == RealInteractionHandler,
    {
        RealInteractionHandler
    }
}

impl Default for RealInteractionHandler {
    fn default() -> (r: Self)
        ensures
            r == RealInteractionHandler,
    {
        Self::new()
    }
}

} // verus!
