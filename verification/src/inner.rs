//! The token store: the bucket's mutable state and its acquire protocol.

use vstd::prelude::*;
use vstd::arithmetic::div_mod::{lemma_fundamental_div_mod, lemma_mod_bound};

use crate::refill::{spec_refilled, spec_wait_ms};
use crate::Error;

verus! {

/// Relies on `std::collections::hash_map::RandomState`: each instance is
/// seeded differently, so hashing a fixed value yields a fresh identity
/// stamp for each new store. Nothing is promised of the value; the contracts
/// only relate a permit's stamp to the stamp of the store it came from.
#[verifier::external_body]
pub(crate) fn fresh_id() -> u64 {
    std::hash::BuildHasher::hash_one(&std::collections::hash_map::RandomState::new(), 0u64)
}

/// The token store behind a bucket: the available count, the refill
/// configuration, the offset of the next refill boundary, and an identity
/// stamp that binds permits to the bucket that issued them.
pub struct Inner {
    /// Currently available number of tokens.
    pub available: u64,
    /// Offset, in milliseconds of elapsed time since the bucket's origin, at
    /// which the next refill boundary occurs.
    pub refill_at: u64,
    /// Tokens credited per refill interval.
    pub quantity: u64,
    /// Length of a refill interval in milliseconds.
    pub interval_ms: u64,
    /// Capacity ceiling: the available count never exceeds it.
    pub max: u64,
    /// Identity stamp of this store; a permit is valid only for the store
    /// whose stamp it carries.
    pub id: u64,
}

/// The store and outcome after a try-acquire at the given elapsed time:
/// refill first, then either deduct the requested amount in full, or — when
/// the refilled count still falls short — leave the store as refilled and
/// report the shortfall with an advisory wait estimate.
pub open spec fn spec_try_acquire(s: Inner, num: u64, elapsed_ms: u64) -> (Inner, Result<
    u64,
    Error,
>) {
    let s1 = spec_refilled(s, elapsed_ms);
    if s1.available < num {
        (s1, Err(Error::NotEnoughTokens(Some(spec_wait_ms(s1, s1.available, num)))))
    } else {
        (Inner { available: (s1.available - num) as u64, ..s1 }, Ok(num))
    }
}

/// The outcome of presenting a permit carrying `permit_id` to the bucket
/// whose store is `s`: a permit from another bucket is rejected outright and
/// the store left untouched; a matching permit runs the acquire protocol.
pub open spec fn spec_bucket_acquire(s: Inner, permit_id: u64, num: u64, elapsed_ms: u64) -> (
    Inner,
    Result<u64, Error>,
) {
    if permit_id != s.id {
        (s, Err(Error::InvalidPermit))
    } else {
        spec_try_acquire(s, num, elapsed_ms)
    }
}

impl Inner {
    /// The store's internal invariant: the available count respects the
    /// capacity ceiling, and the rate configuration is non-degenerate.
    pub open spec fn wf(self) -> bool {
        &&& self.available <= self.max
        &&& self.quantity >= 1
        &&& self.interval_ms >= 1
    }

    /// Create a store with the given starting count and rate configuration;
    /// the first refill boundary sits one whole interval from the origin.
    pub fn new(available: u64, quantity: u64, interval_ms: u64, max: u64, id: u64) -> (r: Inner)
        requires
            available <= max,
            quantity >= 1,
            interval_ms >= 1,
        ensures
            r == (Inner { available, refill_at: interval_ms, quantity, interval_ms, max, id }),
            r.wf(),
    {
        Inner { available, refill_at: interval_ms, quantity, interval_ms, max, id }
    }

    /// Current number of available tokens.
    pub fn available(&self) -> (r: u64)
        ensures
            r == self.available,
    {
        self.available
    }

    /// Try to acquire `num` tokens at the given elapsed time: refill what is
    /// due, then deduct `num` in full or fail without deducting anything.
    pub fn try_acquire(&mut self, num: u64, elapsed_ms: u64) -> (r: Result<u64, Error>)
        requires
            old(self).wf(),
        ensures
            (*final(self), r) == spec_try_acquire(*old(self), num, elapsed_ms),
            final(self).wf(),
    {
        self.refill(elapsed_ms);
        let available = self.available;
        if available < num {
            let wait = self.wait_for(available, num);
            Err(Error::NotEnoughTokens(Some(wait)))
        } else {
            self.available = available - num;
            Ok(num)
        }
    }
}

/// Law (tokens stay within bounds): from any well-formed store, an acquire —
/// whatever the elapsed time, the amount, and the permit presented — yields a
/// store whose available count still lies between 0 and the unchanged
/// capacity ceiling.
pub proof fn lemma_acquire_preserves_bounds(s: Inner, permit_id: u64, num: u64, elapsed_ms: u64)
    requires
        s.wf(),
    ensures
        spec_bucket_acquire(s, permit_id, num, elapsed_ms).0.wf(),
        spec_bucket_acquire(s, permit_id, num, elapsed_ms).0.max == s.max,
        spec_bucket_acquire(s, permit_id, num, elapsed_ms).0.available <= s.max,
{
}

/// The total of a sequence of requested amounts.
pub open spec fn total(reqs: Seq<u64>) -> int
    decreases reqs.len(),
{
    if reqs.len() == 0 {
        0
    } else {
        reqs[0] + total(reqs.drop_first())
    }
}

/// The store after running the requests in order, each through the acquire
/// protocol at the same elapsed time.
pub open spec fn run_acquires(s: Inner, reqs: Seq<u64>, elapsed_ms: u64) -> Inner
    decreases reqs.len(),
{
    if reqs.len() == 0 {
        s
    } else {
        run_acquires(spec_try_acquire(s, reqs[0], elapsed_ms).0, reqs.drop_first(), elapsed_ms)
    }
}

/// Whether every request of the run is granted in full.
pub open spec fn all_granted(s: Inner, reqs: Seq<u64>, elapsed_ms: u64) -> bool
    decreases reqs.len(),
{
    reqs.len() == 0 || (spec_try_acquire(s, reqs[0], elapsed_ms).1 == Ok::<u64, Error>(reqs[0])
        && all_granted(spec_try_acquire(s, reqs[0], elapsed_ms).0, reqs.drop_first(), elapsed_ms))
}

/// A sum of unsigned amounts is never negative.
proof fn lemma_total_nonneg(reqs: Seq<u64>)
    ensures
        total(reqs) >= 0,
    decreases reqs.len(),
{
    if reqs.len() > 0 {
        lemma_total_nonneg(reqs.drop_first());
    }
}

/// After a refill, the next refill boundary lies strictly beyond the elapsed
/// time it was computed for (short of the largest representable offset), so
/// re-running the refill at the same elapsed time credits nothing: an
/// interval boundary is credited at most once.
pub proof fn lemma_refill_settles(s: Inner, elapsed_ms: u64)
    requires
        s.wf(),
        elapsed_ms < u64::MAX,
    ensures
        spec_refilled(s, elapsed_ms).refill_at > elapsed_ms,
        spec_refilled(spec_refilled(s, elapsed_ms), elapsed_ms) == spec_refilled(s, elapsed_ms),
{
    if elapsed_ms >= s.refill_at {
        let r0 = s.refill_at as int;
        let i = s.interval_ms as int;
        let q = (elapsed_ms - r0) / i;
        let k = 1 + q;
        lemma_fundamental_div_mod(elapsed_ms - r0, i);
        lemma_mod_bound(elapsed_ms - r0, i);
        assert((1 + q) * i == i + i * q) by (nonlinear_arith);
        assert(r0 + k * i > elapsed_ms);
    }
}

/// Law (no lost update, sequentially): when the amounts requested by a run
/// of acquires — at one and the same elapsed time — total no more than what
/// is available once the refill due at that time is credited, every request
/// is granted in full, and the final available count is exactly the refilled
/// count minus the total deducted: nothing is lost and nothing is granted
/// twice.
pub proof fn lemma_no_lost_update(s: Inner, reqs: Seq<u64>, elapsed_ms: u64)
    requires
        s.wf(),
        elapsed_ms < u64::MAX,
        total(reqs) <= spec_refilled(s, elapsed_ms).available,
    ensures
        all_granted(s, reqs, elapsed_ms),
        run_acquires(s, reqs, elapsed_ms).available as int == if reqs.len() == 0 {
            s.available as int
        } else {
            spec_refilled(s, elapsed_ms).available - total(reqs)
        },
    decreases reqs.len(),
{
    if reqs.len() > 0 {
        let s1 = spec_refilled(s, elapsed_ms);
        lemma_total_nonneg(reqs.drop_first());
        lemma_refill_settles(s, elapsed_ms);
        let s2 = spec_try_acquire(s, reqs[0], elapsed_ms).0;
        assert(spec_refilled(s2, elapsed_ms) == s2);
        lemma_no_lost_update(s2, reqs.drop_first(), elapsed_ms);
    }
}

/// Law (boundary): after any refill, acquiring exactly the available count
/// succeeds and leaves zero tokens; acquiring one more than the available
/// count fails and leaves the refilled store unchanged.
pub proof fn lemma_acquire_boundary(s: Inner, elapsed_ms: u64)
    requires
        s.wf(),
    ensures
        ({
            let s1 = spec_refilled(s, elapsed_ms);
            spec_try_acquire(s, s1.available, elapsed_ms) == (
                (Inner { available: 0, ..s1 }),
                Ok::<u64, Error>(s1.available),
            )
        }),
        ({
            let s1 = spec_refilled(s, elapsed_ms);
            s1.available < u64::MAX ==> spec_try_acquire(s, (s1.available + 1) as u64, elapsed_ms).0
                == s1 && spec_try_acquire(s, (s1.available + 1) as u64, elapsed_ms).1 is Err
        }),
{
}

} // verus!
