//! Mutual exclusion of catalog-sync operations.
//!
//! Only one product-catalog operation (fetch, refresh, scan) may run at a
//! time. The token here makes that rule explicit: an operation starts only
//! if it acquires the token, and releases it unconditionally when it ends,
//! on the success and the failure path alike.

use vstd::prelude::*;

verus! {

/// The mutually exclusive right to run a catalog-sync operation.
pub struct UpdateLock {
    pub busy: bool,
}

impl UpdateLock {
    /// A fresh lock: no operation in flight.
    pub fn new() -> (r: UpdateLock)
        ensures
            !r.busy,
    {
        UpdateLock { busy: false }
    }

    /// Tries to take the token: succeeds exactly when no operation holds it,
    /// and the holder is then recorded.
    pub fn try_acquire(&mut self) -> (r: bool)
        ensures
            r == !old(self).busy,
            final(self).busy,
    {
        if self.busy {
            false
        } else {
            self.busy = true;
            true
        }
    }

    /// Releases the token unconditionally.
    pub fn release(&mut self)
        ensures
            !final(self).busy,
    {
        self.busy = false;
    }
}

} // verus!
