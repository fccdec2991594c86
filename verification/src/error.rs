//! Failure taxonomy of the coordination layer.

use vstd::prelude::*;

verus! {

/// Every way a transaction or a component call can fail.
///
/// `Conflict` is a correct, expected outcome of the write path — the
/// spatial-exclusion invariant rejected the insert — not a fault.  The
/// other variants are faults: `Config` is fatal at startup (an invalid
/// resolution or request shape), `LockTimeout` means contention was not
/// resolved within the wait window and the whole transaction may be
/// retried by the caller, `BackendUnavailable` means the lock store could
/// not be reached, and `Store` is a persistence failure surfaced from the
/// document store.
#[derive(Clone, Copy, Debug, PartialEq, Eq, Structural)]
pub enum GeoError {
    Config,
    LockTimeout,
    BackendUnavailable,
    Conflict,
    Store,
}

impl GeoError {
    /// Whether a caller may usefully retry the enclosing transaction.
    pub fn retryable(&self) -> (r: bool)
        ensures
            r == (*self == GeoError::LockTimeout || *self == GeoError::BackendUnavailable
                || *self == GeoError::Store),
    {
        match self {
            GeoError::LockTimeout => true,
            GeoError::BackendUnavailable => true,
            GeoError::Store => true,
            GeoError::Config => false,
            GeoError::Conflict => false,
        }
    }
}

} // verus!
