//! The single-slot cancellation coordinator.
//!
//! At most one turn is active per application instance, so at most one
//! cancellation handle is live at a time.  Starting a turn installs a fresh
//! handle, silently replacing a stale one (the replaced handle is not
//! fired).  An explicit cancel takes whatever handle occupies the slot so
//! the caller can fire it, a no-op when the slot is empty.  Handles are
//! identified by plain tokens; the caller maps tokens to its own handle
//! values and performs the firing, which must be idempotent.

use vstd::prelude::*;

verus! {

/// Holds the token of the most recently started turn, if any.
pub struct CancellationSlot {
    /// The live token.
    pub current: Option<u64>,
}

impl CancellationSlot {
    /// An empty slot.
    pub fn new() -> (r: CancellationSlot)
        ensures
            r.current is None,
    {
        CancellationSlot { current: None }
    }

    /// Install the new turn's token; the stale token comes back to be
    /// dropped, not fired.
    pub fn install(&mut self, token: u64) -> (replaced: Option<u64>)
        ensures
            final(self).current == Some(token),
            replaced == old(self).current,
    {
        let replaced = self.current;
        self.current = Some(token);
        replaced
    }

    /// Remove and return the live token so the caller can fire it; `None`
    /// (and no effect) when the slot is empty.
    pub fn take(&mut self) -> (t: Option<u64>)
        ensures
            final(self).current is None,
            t == old(self).current,
    {
        let t = self.current;
        self.current = None;
        t
    }
}

} // verus!
