//! Cooperative cancellation.
//!
//! A token is constructed once and its flag raised to request shutdown —
//! by the registry when a model leaves the configuration, or process-wide
//! when a termination signal is observed.  Every loop of the pipeline polls
//! the flag between steps; nothing is interrupted mid-call.

use vstd::prelude::*;

verus! {

/// What raising the flag leaves it at, whatever it held before.
pub open spec fn raised_after_set(flag: bool) -> bool {
    true
}

/// Law: raising the abort flag twice has the same effect as raising it
/// once — the outcome does not depend on the flag's earlier value.
pub proof fn lemma_set_idempotent(flag: bool)
    ensures
        raised_after_set(raised_after_set(flag)) == raised_after_set(flag),
{
}

/// A cancellation token: a flag that is only ever raised.
pub struct AbortToken {
    raised: bool,
}

impl View for AbortToken {
    type V = bool;

    closed spec fn view(&self) -> bool {
        self.raised
    }
}

impl AbortToken {
    /// A fresh token, not yet raised.
    pub fn new() -> (r: AbortToken)
        ensures
            !r@,
    {
        AbortToken { raised: false }
    }

    /// Whether abort was requested.
    pub fn get(&self) -> (r: bool)
        ensures
            r == self@,
    {
        self.raised
    }

    /// Requests abort.  Raising an already-raised token changes nothing.
    pub fn set(&mut self)
        ensures
            final(self)@ == raised_after_set(old(self)@),
    {
        self.raised = true;
    }
}

} // verus!
