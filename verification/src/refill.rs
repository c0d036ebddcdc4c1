//! Constant-rate refill arithmetic.
//!
//! Tokens accrue from elapsed time: whenever the elapsed time since the
//! bucket's origin reaches the store's next refill boundary, a whole number
//! of intervals is credited at once — one for the boundary just reached and
//! one for every further whole interval that has passed since — and the
//! boundary is advanced past the elapsed time, so no interval is ever
//! credited twice. The credit is capped at the store's maximum.

use vstd::prelude::*;
use vstd::arithmetic::div_mod::{lemma_div_by_multiple, lemma_div_nonincreasing};
use vstd::arithmetic::mul::{lemma_mul_inequality, lemma_mul_upper_bound};
use vstd::math::min;

use crate::inner::Inner;

verus! {

/// Configuration of the constant refill rate.
#[derive(Clone, Debug)]
pub struct RateConfig {
    /// Tokens to add per interval.
    pub quantity: u64,
    /// Interval of time per refill, in milliseconds.
    pub interval_ms: u64,
    /// Maximum number of tokens in the bucket.
    pub max: u64,
}

/// The whole number of refill intervals credited when the elapsed time (in
/// milliseconds since the bucket's origin) has reached the store's refill
/// boundary: one for the boundary itself, plus one for every further whole
/// interval elapsed since it.
pub open spec fn spec_intervals(s: Inner, elapsed_ms: u64) -> int {
    1 + (elapsed_ms - s.refill_at) / (s.interval_ms as int)
}

/// The store after refilling for the given elapsed time: a no-op before the
/// refill boundary; otherwise the credited tokens are added (capped at `max`)
/// and the boundary advances by the credited number of intervals (capped at
/// the largest representable offset).
pub open spec fn spec_refilled(s: Inner, elapsed_ms: u64) -> Inner {
    if elapsed_ms < s.refill_at {
        s
    } else {
        let k = spec_intervals(s, elapsed_ms);
        Inner {
            available: min(s.available + k * s.quantity, s.max as int) as u64,
            refill_at: min(s.refill_at + k * s.interval_ms, u64::MAX as int) as u64,
            ..s
        }
    }
}

/// The advisory wait estimate, in milliseconds since the bucket's origin,
/// until `requested` tokens may be available: zero when the request is already
/// covered, otherwise the current refill boundary plus one interval per whole
/// multiple of `quantity` in the shortfall. The interval count uses floor
/// division, so the estimate can under-count by up to one interval when the
/// shortfall is not an exact multiple of `quantity`.
pub open spec fn spec_wait_ms(s: Inner, available: u64, requested: u64) -> u64 {
    if requested <= available {
        0
    } else {
        let n = (requested - available) / (s.quantity as int);
        min(s.refill_at + n * s.interval_ms, u64::MAX as int) as u64
    }
}

impl Inner {
    /// Credit any refill intervals due at the given elapsed time.
    pub fn refill(&mut self, elapsed_ms: u64)
        requires
            old(self).wf(),
        ensures
            *final(self) == spec_refilled(*old(self), elapsed_ms),
            final(self).wf(),
    {
        if elapsed_ms < self.refill_at {
            return;
        }
        let k: u128 = ((elapsed_ms - self.refill_at) / self.interval_ms) as u128 + 1;
        proof {
            assert(k == spec_intervals(*self, elapsed_ms));
            assert(k <= 0x1_0000_0000_0000_0000) by {
                lemma_div_nonincreasing(elapsed_ms - self.refill_at, self.interval_ms as int);
            }
            lemma_mul_upper_bound(
                k as int,
                0x1_0000_0000_0000_0000,
                self.quantity as int,
                u64::MAX as int,
            );
            lemma_mul_upper_bound(
                k as int,
                0x1_0000_0000_0000_0000,
                self.interval_ms as int,
                u64::MAX as int,
            );
        }
        let amount: u128 = k * (self.quantity as u128);
        let have: u128 = (self.available as u128) + amount;
        if have >= self.max as u128 {
            self.available = self.max;
        } else {
            self.available = have as u64;
        }
        let due: u128 = (self.refill_at as u128) + k * (self.interval_ms as u128);
        if due > u64::MAX as u128 {
            self.refill_at = u64::MAX;
        } else {
            self.refill_at = due as u64;
        }
    }

    /// Estimate, in milliseconds since the bucket's origin, when `requested`
    /// tokens may be available given the current count.
    pub fn wait_for(&self, available: u64, requested: u64) -> (r: u64)
        requires
            self.wf(),
        ensures
            r == spec_wait_ms(*self, available, requested),
    {
        if requested <= available {
            0
        } else {
            let n: u64 = (requested - available) / self.quantity;
            proof {
                lemma_mul_upper_bound(n as int, u64::MAX as int, self.interval_ms as int, u64::MAX as int);
            }
            let w: u128 = (self.refill_at as u128) + (n as u128) * (self.interval_ms as u128);
            if w > u64::MAX as u128 {
                u64::MAX
            } else {
                w as u64
            }
        }
    }
}

/// Law (exact refill): with no intervening acquires, waiting exactly `k`
/// whole intervals from a freshly built store credits exactly `k` refills:
/// the available count becomes `min(initial + k * quantity, max)`.
pub proof fn lemma_exact_refill(s: Inner, k: u64)
    requires
        s.wf(),
        s.refill_at == s.interval_ms,
        1 <= k,
        k * s.interval_ms <= u64::MAX,
    ensures
        spec_refilled(s, (k * s.interval_ms) as u64).available
            == min(s.available + k * s.quantity, s.max as int),
        spec_refilled(s, (k * s.interval_ms) as u64).max == s.max,
        spec_refilled(s, (k * s.interval_ms) as u64).quantity == s.quantity,
        spec_refilled(s, (k * s.interval_ms) as u64).interval_ms == s.interval_ms,
{
    let e: u64 = (k * s.interval_ms) as u64;
    lemma_mul_inequality(1, k as int, s.interval_ms as int);
    assert(s.interval_ms <= e);
    assert(e - s.refill_at == (k - 1) * s.interval_ms) by {
        assert(k * s.interval_ms - s.interval_ms == (k - 1) * s.interval_ms) by (nonlinear_arith);
    }
    lemma_div_by_multiple(k - 1, s.interval_ms as int);
    assert(spec_intervals(s, e) == k);
    assert(min(s.available + k * s.quantity, s.max as int) <= u64::MAX);
}

} // verus!
