//! An in-process lease-lock backend and the ordered multi-key discipline.
//!
//! `LockTable` maps lock keys to [`Lease`] states and applies the lease
//! protocol's atomic steps to them.  It is one interchangeable backend of
//! the mutual-exclusion contract: a remote key-value store executing the
//! same steps atomically per key satisfies the same per-step contracts,
//! and the multi-key functions below depend on nothing else.
//!
//! Waiting on a contended key is modelled by the clock: a contended
//! acquire succeeds exactly when the current holder's lease expires within
//! the caller's wait window, and the grant is then recorded at the expiry
//! instant.  This is the worst case of the real backend, where a waiter
//! may also be signalled earlier by a release.
//!
//! `acquire_all` takes its keys strictly sorted and acquires them in that
//! ascending order; on the first failure it releases every key already
//! acquired before reporting the error.  The fixed global order is the
//! deadlock-avoidance discipline: see [`lemma_fixed_order_no_wait_cycle`].

use std::collections::HashMap;

use vstd::prelude::*;

use crate::error::GeoError;
use crate::lease::Lease;
use crate::lease::MAX_CLOCK;
use crate::lease::MAX_SPAN;

verus! {

broadcast use vstd::std_specs::hash::group_hash_axioms;

/// The keys ascend strictly: sorted, with no duplicates.
pub open spec fn strictly_sorted(s: Seq<u64>) -> bool {
    forall|i: int, j: int| 0 <= i < j < s.len() ==> s[i] < s[j]
}

/// The clock at which a contended-or-not acquire is granted: at once when
/// the key is available, otherwise at the current holder's expiry.
pub open spec fn grant_clock(l: Lease, now: u64, lease_duration: u64) -> u64 {
    if l.available(now, lease_duration) {
        now
    } else {
        (l.acquired_at + lease_duration) as u64
    }
}

/// An acquire of a key in this lease state is owed success: the key is
/// available at once, or its holder's lease runs out within the wait
/// window.
pub open spec fn acquire_grantable(l: Lease, now: u64, lease_duration: u64, wait_timeout: u64) -> bool {
    l.available(now, lease_duration) || l.acquired_at + lease_duration <= now + wait_timeout
}

/// Per-key lease states, created lazily on first acquire.
pub struct LockTable {
    leases: HashMap<u64, Lease>,
}

impl LockTable {
    /// The lease recorded for `key`; a key never touched carries the
    /// empty lease.
    pub closed spec fn lease_of(self, key: u64) -> Lease {
        if self.leases@.contains_key(key) {
            self.leases@[key]
        } else {
            Lease::spec_empty()
        }
    }

    /// Every stored clock stays in the range over which expiry arithmetic
    /// provably fits in a `u64`.
    pub open spec fn wf(self) -> bool {
        forall|k: u64| (#[trigger] self.lease_of(k)).wf()
    }

    /// `key` is held under an unexpired lease at clock `now`.
    pub open spec fn held(self, key: u64, now: u64, lease_duration: u64) -> bool {
        self.lease_of(key).held() && now < self.lease_of(key).acquired_at + lease_duration
    }

    /// An empty table: every key carries the empty lease.
    pub fn new() -> (t: LockTable)
        ensures
            forall|k: u64| t.lease_of(k) == Lease::spec_empty(),
            t.wf(),
    {
        LockTable { leases: HashMap::new() }
    }

    /// Read a key's lease, the empty lease when none is recorded yet.
    fn get_lease(&self, key: u64) -> (l: Lease)
        ensures
            l == self.lease_of(key),
    {
        match self.leases.get(&key) {
            Some(l) => *l,
            None => Lease::empty(),
        }
    }

    /// Record a key's lease.
    fn put_lease(&mut self, key: u64, l: Lease)
        ensures
            final(self).lease_of(key) == l,
            forall|k: u64| k != key ==> final(self).lease_of(k) == old(self).lease_of(k),
    {
        self.leases.insert(key, l);
    }

    /// Whether `key` is held under an unexpired lease at clock `now`.
    pub fn is_held(&self, key: u64, now: u64, lease_duration: u64) -> (r: bool)
        ensures
            r == self.held(key, now, lease_duration),
    {
        let l = self.get_lease(key);
        match l.owner_ticket {
            None => false,
            Some(_) => now < l.acquired_at || now - l.acquired_at < lease_duration,
        }
    }

    /// One atomic acquire attempt on `key` at clock `now`, with no
    /// waiting.  Succeeds exactly when the key is available: never
    /// acquired, fully released, or held under an expired lease.
    pub fn attempt(&mut self, key: u64, now: u64, lease_duration: u64) -> (acquired: bool)
        requires
            old(self).lease_of(key).sequence < u64::MAX,
            now <= MAX_CLOCK,
        ensures
            acquired == old(self).lease_of(key).available(now, lease_duration),
            acquired ==> final(self).lease_of(key) == old(self).lease_of(key).spec_acquire(now),
            !acquired ==> final(self).lease_of(key) == old(self).lease_of(key),
            forall|k: u64| k != key ==> final(self).lease_of(k) == old(self).lease_of(k),
            old(self).wf() ==> final(self).wf(),
    {
        let l = self.get_lease(key);
        let (granted, ok) = l.acquire_step(now, lease_duration);
        if ok {
            self.put_lease(key, granted);
        }
        ok
    }

    /// Acquire `key` at clock `now`, waiting up to `wait_timeout` for a
    /// contended lease to run out.  Succeeds exactly when the key is
    /// available now or its holder's lease expires within the wait
    /// window; otherwise the table is unchanged and the caller gets
    /// `LockTimeout`.
    pub fn acquire(&mut self, key: u64, now: u64, lease_duration: u64, wait_timeout: u64) -> (r:
        Result<(), GeoError>)
        requires
            old(self).wf(),
            old(self).lease_of(key).sequence < u64::MAX,
            now <= MAX_CLOCK,
            1 <= lease_duration <= MAX_SPAN,
            wait_timeout <= MAX_SPAN,
        ensures
            final(self).wf(),
            (r is Ok) == acquire_grantable(
                old(self).lease_of(key),
                now,
                lease_duration,
                wait_timeout,
            ),
            r is Ok ==> final(self).lease_of(key) == old(self).lease_of(key).spec_acquire(
                grant_clock(old(self).lease_of(key), now, lease_duration),
            ),
            r is Ok ==> final(self).held(key, now, lease_duration),
            r is Err ==> r == Err::<(), GeoError>(GeoError::LockTimeout) && final(self)
                .lease_of(key) == old(self).lease_of(key),
            forall|k: u64| k != key ==> final(self).lease_of(k) == old(self).lease_of(k),
    {
        let l = self.get_lease(key);
        assert(l.wf());
        let (granted, ok) = l.acquire_step(now, lease_duration);
        if ok {
            self.put_lease(key, granted);
            return Ok(());
        }
        // Contended: the holder's lease runs out at `acquired_at +
        // lease_duration`; waiting helps only if that falls inside the
        // wait window.
        let expiry = l.acquired_at + lease_duration;
        if expiry <= now + wait_timeout {
            let (reclaimed, ok_late) = l.acquire_step(expiry, lease_duration);
            assert(ok_late);
            self.put_lease(key, reclaimed);
            Ok(())
        } else {
            Err(GeoError::LockTimeout)
        }
    }

    /// One release step on `key` at clock `now`; returns whether a waiter
    /// is to be signalled.  The key ends free unless another party had
    /// already reclaimed it, in which case the reclaimer's state is
    /// restored untouched.
    pub fn release(&mut self, key: u64, now: u64, lease_duration: u64) -> (signalled: bool)
        requires
            old(self).lease_of(key).sequence < u64::MAX,
        ensures
            final(self).lease_of(key) == old(self).lease_of(key).spec_release(
                now,
                lease_duration,
            ).0,
            signalled == old(self).lease_of(key).spec_release(now, lease_duration).1,
            forall|k: u64| k != key ==> final(self).lease_of(k) == old(self).lease_of(k),
            old(self).wf() ==> final(self).wf(),
    {
        let l = self.get_lease(key);
        let (after, signalled) = l.release_step(now, lease_duration);
        self.put_lease(key, after);
        signalled
    }

    /// Acquire every key of a strictly sorted key set, in ascending
    /// order.  On the first failure every key already acquired is
    /// released again before the error is reported, so a failed call
    /// leaves no key newly held.
    #[verifier::loop_isolation(false)]
    pub fn acquire_all(
        &mut self,
        keys: &Vec<u64>,
        now: u64,
        lease_duration: u64,
        wait_timeout: u64,
    ) -> (r: Result<(), GeoError>)
        requires
            old(self).wf(),
            strictly_sorted(keys@),
            forall|i: int|
                0 <= i < keys@.len() ==> (#[trigger] old(self).lease_of(keys@[i])).sequence + 2
                    <= u64::MAX,
            now <= MAX_CLOCK,
            1 <= lease_duration <= MAX_SPAN,
            wait_timeout <= MAX_SPAN,
        ensures
            final(self).wf(),
            forall|k: u64| !keys@.contains(k) ==> final(self).lease_of(k) == old(self).lease_of(k),
            (r is Ok) == (forall|i: int|
                0 <= i < keys@.len() ==> acquire_grantable(
                    #[trigger] old(self).lease_of(keys@[i]),
                    now,
                    lease_duration,
                    wait_timeout,
                )),
            r is Ok ==> forall|i: int|
                0 <= i < keys@.len() ==> (#[trigger] final(self).lease_of(keys@[i]))
                    == old(self).lease_of(keys@[i]).spec_acquire(
                    grant_clock(old(self).lease_of(keys@[i]), now, lease_duration),
                ),
            r is Ok ==> forall|i: int|
                0 <= i < keys@.len() ==> final(self).held(keys@[i], now, lease_duration),
            r is Err ==> r == Err::<(), GeoError>(GeoError::LockTimeout),
            r is Err ==> forall|i: int|
                0 <= i < keys@.len() ==> ((#[trigger] final(self).lease_of(
                    keys@[i],
                )).owner_ticket is None || final(self).lease_of(keys@[i]) == old(self).lease_of(
                    keys@[i],
                )),
    {
        let ghost t0 = *old(self);
        let mut i: usize = 0;
        while i < keys.len()
            invariant
                0 <= i <= keys@.len(),
                self.wf(),
                forall|j: int|
                    0 <= j < i ==> (#[trigger] self.lease_of(keys@[j])) == t0.lease_of(
                        keys@[j],
                    ).spec_acquire(grant_clock(t0.lease_of(keys@[j]), now, lease_duration)),
                forall|j: int|
                    0 <= j < i ==> acquire_grantable(
                        #[trigger] t0.lease_of(keys@[j]),
                        now,
                        lease_duration,
                        wait_timeout,
                    ),
                forall|j: int|
                    i <= j < keys@.len() ==> (#[trigger] self.lease_of(keys@[j])) == t0.lease_of(
                        keys@[j],
                    ),
                forall|k: u64| !keys@.contains(k) ==> self.lease_of(k) == t0.lease_of(k),
            decreases keys@.len() - i,
        {
            let key = keys[i];
            assert(keys@.contains(keys@[i as int]));
            match self.acquire(key, now, lease_duration, wait_timeout) {
                Ok(()) => {
                    assert(forall|j: int|
                        0 <= j < keys@.len() && j != i ==> keys@[j] != keys@[i as int]);
                    i = i + 1;
                },
                Err(_) => {
                    assert(!acquire_grantable(
                        t0.lease_of(keys@[i as int]),
                        now,
                        lease_duration,
                        wait_timeout,
                    ));
                    // Roll back: release every key acquired so far.  Each
                    // carries the ticket its acquire just issued, so the
                    // release frees it.
                    let mut j: usize = 0;
                    while j < i
                        invariant
                            0 <= j <= i <= keys@.len(),
                            self.wf(),
                            forall|m: int|
                                0 <= m < j ==> (#[trigger] self.lease_of(
                                    keys@[m],
                                )).owner_ticket is None,
                            forall|m: int|
                                j <= m < i ==> (#[trigger] self.lease_of(keys@[m])) == t0.lease_of(
                                    keys@[m],
                                ).spec_acquire(
                                    grant_clock(t0.lease_of(keys@[m]), now, lease_duration),
                                ),
                            forall|m: int|
                                i <= m < keys@.len() ==> (#[trigger] self.lease_of(keys@[m]))
                                    == t0.lease_of(keys@[m]),
                            forall|k: u64| !keys@.contains(k) ==> self.lease_of(k) == t0.lease_of(
                                k,
                            ),
                        decreases i - j,
                    {
                        assert(keys@.contains(keys@[j as int]));
                        assert(forall|m: int|
                            0 <= m < keys@.len() && m != j ==> keys@[m] != keys@[j as int]);
                        self.release(keys[j], now, lease_duration);
                        j = j + 1;
                    }
                    return Err(GeoError::LockTimeout);
                },
            }
        }
        Ok(())
    }

    /// Release every key of a strictly sorted key set.  Every key ends
    /// free unless another party had reclaimed it meanwhile, in which
    /// case that party's ownership is restored untouched.
    #[verifier::loop_isolation(false)]
    pub fn release_all(&mut self, keys: &Vec<u64>, now: u64, lease_duration: u64)
        requires
            old(self).wf(),
            strictly_sorted(keys@),
            forall|i: int|
                0 <= i < keys@.len() ==> (#[trigger] old(self).lease_of(keys@[i])).sequence
                    < u64::MAX,
        ensures
            final(self).wf(),
            forall|k: u64| !keys@.contains(k) ==> final(self).lease_of(k) == old(self).lease_of(k),
            forall|i: int|
                0 <= i < keys@.len() ==> (#[trigger] final(self).lease_of(keys@[i])) == old(
                    self,
                ).lease_of(keys@[i]).spec_release(now, lease_duration).0,
    {
        let ghost t0 = *old(self);
        let mut i: usize = 0;
        while i < keys.len()
            invariant
                0 <= i <= keys@.len(),
                self.wf(),
                forall|j: int|
                    0 <= j < i ==> (#[trigger] self.lease_of(keys@[j])) == t0.lease_of(
                        keys@[j],
                    ).spec_release(now, lease_duration).0,
                forall|j: int|
                    i <= j < keys@.len() ==> (#[trigger] self.lease_of(keys@[j])) == t0.lease_of(
                        keys@[j],
                    ),
                forall|k: u64| !keys@.contains(k) ==> self.lease_of(k) == t0.lease_of(k),
            decreases keys@.len() - i,
        {
            assert(keys@.contains(keys@[i as int]));
            assert(forall|j: int| 0 <= j < keys@.len() && j != i ==> keys@[j] != keys@[i as int]);
            self.release(keys[i], now, lease_duration);
            i = i + 1;
        }
    }
}

/// Sort ascending and deduplicate: the canonical lock set of a candidate
/// cell list.  Every caller building a multi-key lock set goes through
/// this one total, stable order — that shared order is what
/// [`lemma_fixed_order_no_wait_cycle`] rests on.
#[verifier::loop_isolation(false)]
pub fn lock_set(cells: &Vec<u64>) -> (r: Vec<u64>)
    ensures
        strictly_sorted(r@),
        forall|c: u64| r@.contains(c) <==> cells@.contains(c),
{
    let mut r: Vec<u64> = Vec::new();
    let mut i: usize = 0;
    while i < cells.len()
        invariant
            i <= cells@.len(),
            strictly_sorted(r@),
            forall|c: u64| r@.contains(c) <==> cells@.subrange(0, i as int).contains(c),
        decreases cells@.len() - i,
    {
        let x = cells[i];
        let ghost prefix = cells@.subrange(0, i as int);
        let mut pos: usize = 0;
        while pos < r.len() && r[pos] < x
            invariant
                pos <= r@.len(),
                forall|j: int| 0 <= j < pos ==> r@[j] < x,
            decreases r@.len() - pos,
        {
            pos = pos + 1;
        }
        if pos < r.len() && r[pos] == x {
            // already present; the prefix grows only by a value r holds
            assert(r@.contains(x));
            assert(forall|c: u64| r@.contains(c) <==> (prefix.contains(c) || c == x));
        } else {
            let ghost before = r@;
            r.insert(pos, x);
            proof {
                before.insert_ensures(pos as int, x);
            }
            assert forall|p: int, q: int| 0 <= p < q < r@.len() implies r@[p] < r@[q] by {
                if q < pos {
                    assert(r@[p] == before[p] && r@[q] == before[q]);
                } else if pos < p {
                    assert(r@[p] == before[p - 1] && r@[q] == before[q - 1]);
                } else if q == pos {
                    assert(r@[p] == before[p] && r@[q] == x);
                } else {
                    // p <= pos < q: whatever stands at q came from at or
                    // after the scan's stop, so it exceeds x
                    assert(r@[q] == before[q - 1]);
                    assert(!(before[pos as int] < x) && before[pos as int] != x);
                    if q - 1 > pos {
                        assert(before[pos as int] < before[q - 1]);
                    }
                    if p < pos {
                        assert(r@[p] == before[p]);
                    } else {
                        assert(r@[p] == x);
                    }
                }
            }
            assert forall|c: u64| r@.contains(c) implies (before.contains(c) || c == x) by {
                let w = choose|w: int| 0 <= w < r@.len() && r@[w] == c;
                if w < pos {
                    assert(before[w] == c);
                } else if w > pos {
                    assert(before[w - 1] == c);
                }
            }
            assert forall|c: u64| before.contains(c) implies r@.contains(c) by {
                let w = choose|w: int| 0 <= w < before.len() && before[w] == c;
                if w < pos {
                    assert(r@[w] == c);
                } else {
                    assert(r@[w + 1] == c);
                }
            }
            assert(r@[pos as int] == x && r@.contains(x));
            assert forall|c: u64| r@.contains(c) <==> (prefix.contains(c) || c == x) by {
                assert(before.contains(c) == prefix.contains(c));
                if prefix.contains(c) {
                    assert(r@.contains(c));
                }
                if r@.contains(c) {
                    assert(before.contains(c) || c == x);
                }
            }
        }
        // in both branches r now holds exactly the prefix's values and x
        let ghost extended = cells@.subrange(0, i as int + 1);
        assert(extended =~= prefix.push(x));
        assert forall|c: u64| extended.contains(c) implies (prefix.contains(c) || c == x) by {
            let w = choose|w: int| 0 <= w < extended.len() && extended[w] == c;
            if w < prefix.len() {
                assert(prefix[w] == c);
            }
        }
        assert forall|c: u64| prefix.contains(c) implies extended.contains(c) by {
            let w = choose|w: int| 0 <= w < prefix.len() && prefix[w] == c;
            assert(extended[w] == c);
        }
        assert(prefix.push(x)[prefix.len() as int] == x);
        assert(extended[prefix.len() as int] == x && extended.contains(x));
        assert forall|c: u64| r@.contains(c) <==> extended.contains(c) by {
            assert(r@.contains(c) <==> (prefix.contains(c) || c == x));
        }
        i = i + 1;
    }
    assert(cells@.subrange(0, cells@.len() as int) =~= cells@);
    r
}

/// Deadlock avoidance by fixed global order: any two lock sets that are
/// acquired in strictly ascending key order visit their common keys in
/// the same relative order, so two transactions can never each hold one
/// of two common keys while waiting for the other — no cycle of waits can
/// form.
pub proof fn lemma_fixed_order_no_wait_cycle(
    a: Seq<u64>,
    b: Seq<u64>,
    i1: int,
    j1: int,
    i2: int,
    j2: int,
)
    requires
        strictly_sorted(a),
        strictly_sorted(b),
        0 <= i1 < j1 < a.len(),
        0 <= i2 < b.len(),
        0 <= j2 < b.len(),
        a[i1] == b[i2],
        a[j1] == b[j2],
    ensures
        i2 < j2,
{
    assert(a[i1] < a[j1]);
    if j2 < i2 {
        assert(b[j2] < b[i2]);
    }
}

} // verus!
