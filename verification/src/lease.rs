//! The per-key lease: the distributed mutual-exclusion primitive's state.
//!
//! One lease exists (lazily) per lock key.  A lease is acquired by bumping
//! the key's monotonic sequence counter and claiming the new value as the
//! holder's ticket; it is released by bumping the counter again and
//! checking that no intervening acquire stole the key in between.  A
//! holder that never releases is recovered from by lease expiry: once
//! `lease_duration` has elapsed since `acquired_at`, any other party may
//! reclaim the key.
//!
//! Both transitions are given here as pure, verified functions over a
//! `Lease` value together with matching spec-level transitions.  A backend
//! (an in-process table, or a remote key-value store executing the same
//! step atomically) supplies atomicity; the decisions themselves are
//! proved against the contracts below.

use vstd::prelude::*;

verus! {

/// Upper bound on clock readings (`now` arguments) the protocol accepts.
///
/// Clock readings are milliseconds or seconds since an epoch, far below
/// this bound; it exists only so that expiry arithmetic provably fits in
/// a `u64`.
pub const MAX_CLOCK: u64 = 0x4000_0000_0000_0000;

/// Upper bound on lease durations and wait windows, for the same reason.
pub const MAX_SPAN: u64 = 0x1000_0000_0000_0000;

/// Per-key lease state.
///
/// `sequence` is bumped by every acquire and every release; the holder's
/// ticket is the sequence value its acquire produced, which lets a release
/// detect whether an intervening reclaim stole the key.  `acquired_at` is
/// meaningful only while `owner_ticket` is `Some`; it is left in place on
/// release rather than cleared.
#[derive(Clone, Copy, Debug)]
pub struct Lease {
    /// Whether the key has ever been acquired.
    pub initialized: bool,
    /// Monotonic counter; bumped once by every acquire and every release.
    pub sequence: u64,
    /// Ticket of the current holder, or `None` when the key is free.
    pub owner_ticket: Option<u64>,
    /// Clock reading at which the current holder acquired the lease.
    pub acquired_at: u64,
}

impl Lease {
    /// The state of a key that has never been acquired.
    pub open spec fn spec_empty() -> Lease {
        Lease { initialized: false, sequence: 0, owner_ticket: None, acquired_at: 0 }
    }

    /// Executable counterpart of [`Lease::spec_empty`].
    pub fn empty() -> (l: Lease)
        ensures
            l == Lease::spec_empty(),
    {
        Lease { initialized: false, sequence: 0, owner_ticket: None, acquired_at: 0 }
    }

    /// Some party currently holds the key.
    pub open spec fn held(self) -> bool {
        self.owner_ticket is Some
    }

    /// The current holder's lease has run out: `lease_duration` has elapsed
    /// since it acquired the key, so the holder is presumed crashed and the
    /// key may be reclaimed.
    pub open spec fn expired(self, now: u64, lease_duration: u64) -> bool {
        self.held() && self.acquired_at + lease_duration <= now
    }

    /// The key can be claimed outright at clock `now`: it was never
    /// initialized, or it was fully released, or its holder's lease expired.
    pub open spec fn available(self, now: u64, lease_duration: u64) -> bool {
        !self.initialized || self.owner_ticket is None || self.expired(now, lease_duration)
    }

    /// The clock stored in a lease stays within the range over which expiry
    /// arithmetic provably fits in a `u64`.
    pub open spec fn wf(self) -> bool {
        self.acquired_at <= MAX_CLOCK + MAX_SPAN
    }

    /// The lease after a successful acquire at clock `now`: the sequence
    /// counter is bumped and the new value becomes the holder's ticket.
    pub open spec fn spec_acquire(self, now: u64) -> Lease {
        Lease {
            initialized: true,
            sequence: (self.sequence + 1) as u64,
            owner_ticket: Some((self.sequence + 1) as u64),
            acquired_at: now,
        }
    }

    /// One atomic acquire attempt at clock `now`.
    ///
    /// Returns the successor state and whether the attempt succeeded.  The
    /// attempt succeeds exactly when the key is available: never acquired,
    /// fully released, or held under an expired lease (the crash-recovery
    /// path).  On contention the state is unchanged and the caller is
    /// expected to wait for a release signal.
    ///
    /// A success over a state that was still `held()` is a reclaim of an
    /// expired lease; the party applying the step must then also signal the
    /// key's waiters, as a release would, so that no waiter parked against
    /// the crashed holder is stranded.
    pub fn acquire_step(&self, now: u64, lease_duration: u64) -> (r: (Lease, bool))
        requires
            self.sequence < u64::MAX,
        ensures
            r.1 == self.available(now, lease_duration),
            r.1 ==> r.0 == self.spec_acquire(now),
            !r.1 ==> r.0 == *self,
    {
        let available = !self.initialized || match self.owner_ticket {
            None => true,
            Some(_) => now >= self.acquired_at && now - self.acquired_at >= lease_duration,
        };
        if available {
            (
                Lease {
                    initialized: true,
                    sequence: self.sequence + 1,
                    owner_ticket: Some(self.sequence + 1),
                    acquired_at: now,
                },
                true,
            )
        } else {
            (*self, false)
        }
    }

    /// The state after one release at clock `now`, and whether a waiter is
    /// to be signalled.
    ///
    /// The release bumps the sequence counter (its own ticket) and clears
    /// the owner.  If there was no owner the key was already free.  If the
    /// cleared ticket was the value just below the bumped sequence, no
    /// acquire intervened since that holder's acquire, so the key is freed
    /// and one waiter is signalled; the same holds when the lease had
    /// already expired.  Otherwise another party reclaimed the key between
    /// this holder's acquire and its release, so the owner values are
    /// restored unchanged and nobody is signalled.
    pub open spec fn spec_release(self, now: u64, lease_duration: u64) -> (Lease, bool) {
        match self.owner_ticket {
            None => (
                Lease {
                    initialized: self.initialized,
                    sequence: (self.sequence + 1) as u64,
                    owner_ticket: None,
                    acquired_at: self.acquired_at,
                },
                false,
            ),
            Some(ticket) => {
                if ticket == self.sequence || self.expired(now, lease_duration) {
                    (
                        Lease {
                            initialized: self.initialized,
                            sequence: (self.sequence + 1) as u64,
                            owner_ticket: None,
                            acquired_at: self.acquired_at,
                        },
                        true,
                    )
                } else {
                    (
                        Lease {
                            initialized: self.initialized,
                            sequence: (self.sequence + 1) as u64,
                            owner_ticket: Some(ticket),
                            acquired_at: self.acquired_at,
                        },
                        false,
                    )
                }
            },
        }
    }

    /// One atomic release step at clock `now`; executable counterpart of
    /// [`Lease::spec_release`].
    pub fn release_step(&self, now: u64, lease_duration: u64) -> (r: (Lease, bool))
        requires
            self.sequence < u64::MAX,
        ensures
            r == self.spec_release(now, lease_duration),
    {
        match self.owner_ticket {
            None => (
                Lease {
                    initialized: self.initialized,
                    sequence: self.sequence + 1,
                    owner_ticket: None,
                    acquired_at: self.acquired_at,
                },
                false,
            ),
            Some(ticket) => {
                let expired = now >= self.acquired_at && now - self.acquired_at >= lease_duration;
                if ticket == self.sequence || expired {
                    (
                        Lease {
                            initialized: self.initialized,
                            sequence: self.sequence + 1,
                            owner_ticket: None,
                            acquired_at: self.acquired_at,
                        },
                        true,
                    )
                } else {
                    (
                        Lease {
                            initialized: self.initialized,
                            sequence: self.sequence + 1,
                            owner_ticket: Some(ticket),
                            acquired_at: self.acquired_at,
                        },
                        false,
                    )
                }
            },
        }
    }
}

/// Mutual exclusion at the key level: while a lease is held and has not
/// expired, no other acquire attempt can succeed on the same key.
pub proof fn lemma_mutual_exclusion(l: Lease, now: u64, lease_duration: u64)
    requires
        l.initialized,
        l.held(),
        now < l.acquired_at + lease_duration,
    ensures
        !l.available(now, lease_duration),
{
}

/// Lease recovery: once `lease_duration` has elapsed since the holder's
/// acquire, a second acquirer succeeds on the very next attempt even
/// though the holder never released; before it has elapsed, every attempt
/// fails.
pub proof fn lemma_lease_recovery(l: Lease, now: u64, lease_duration: u64)
    requires
        l.initialized,
        l.held(),
    ensures
        l.acquired_at + lease_duration <= now ==> l.available(now, lease_duration),
        now < l.acquired_at + lease_duration ==> !l.available(now, lease_duration),
{
}

/// Release makes room: after a release that signalled a waiter, the very
/// next acquire attempt on the key succeeds, whatever clock or duration it
/// runs under.
pub proof fn lemma_release_then_acquire(
    l: Lease,
    now: u64,
    lease_duration: u64,
    now2: u64,
    lease_duration2: u64,
)
    requires
        l.spec_release(now, lease_duration).1,
    ensures
        l.spec_release(now, lease_duration).0.available(now2, lease_duration2),
{
}

} // verus!
