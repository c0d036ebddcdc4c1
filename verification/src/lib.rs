//! A token-bucket admission-control primitive.
//!
//! A [`Bucket`] tracks a count of available tokens that refills at a constant
//! rate (a fixed quantity per fixed interval, capped at a maximum). Callers
//! first obtain a [`Permit`] — a single-use capability bound to the bucket
//! that issued it — and then present the permit together with a requested
//! amount to [`Bucket::try_acquire`]. Permit issuance may be gated by a
//! threshold: a minimum available-token level under which no new permit is
//! granted. The bucket never blocks or sleeps; failures are returned
//! outcomes, and a shortfall carries an advisory wait estimate in
//! milliseconds.

use vstd::prelude::*;

mod builder;
mod clock;
mod inner;
mod permit;
mod refill;

pub use builder::Builder;
pub use inner::{lemma_acquire_boundary, lemma_acquire_preserves_bounds, spec_bucket_acquire,
    spec_try_acquire, Inner};
pub use permit::{lemma_cross_bucket_rejection, Permit, ThresholdConfig};
pub use refill::{lemma_exact_refill, spec_refilled, spec_wait_ms, RateConfig};

use crate::clock::elapsed_millis;
use crate::permit::Permitter;

verus! {

/// A token bucket: a store of consumable capacity that refills at a constant
/// rate, together with a permit-issuance strategy.
pub struct Bucket {
    inner: Inner,
    permitter: Permitter,
    origin: std::time::Instant,
}

impl Bucket {
    /// The bucket's token store, as the contracts speak of it.
    pub closed spec fn store(self) -> Inner {
        self.inner
    }

    /// The permit threshold gate: `None` when every permit request is
    /// granted.
    pub closed spec fn gate(self) -> Option<u64> {
        self.permitter.spec_threshold()
    }

    /// The bucket's internal invariant: the store is well formed and the
    /// permit strategy is bound to this very store.
    pub closed spec fn wf(self) -> bool {
        &&& self.inner.wf()
        &&& self.permitter.spec_bucket_id() == self.inner.id
    }

    /// Assemble a bucket from its parts.
    pub(crate) fn assemble(inner: Inner, permitter: Permitter, origin: std::time::Instant) -> (r:
        Bucket)
        requires
            inner.wf(),
            permitter.spec_bucket_id() == inner.id,
        ensures
            r.wf(),
            r.store() == inner,
            r.gate() == permitter.spec_threshold(),
    {
        Bucket { inner, permitter, origin }
    }

    /// Create a new [`Builder`].
    pub fn builder() -> (r: Builder)
        ensures
            r.initial is None,
            r.rate is None,
            r.max is None,
            r.threshold is None,
    {
        Builder::default()
    }

    /// Number of tokens available in the bucket: a point-in-time reading,
    /// consistent at the instant of the call.
    pub fn available(&self) -> (r: u64)
        ensures
            r == self.store().available,
    {
        self.inner.available()
    }

    /// The configured permit threshold, or `None` when every permit request
    /// is granted.
    pub fn threshold(&self) -> (r: Option<u64>)
        ensures
            r == self.gate(),
    {
        match &self.permitter {
            Permitter::Always(_) => None,
            Permitter::Threshold(t) => Some(t.threshold),
        }
    }

    /// The bucket's capacity ceiling.
    pub fn max(&self) -> (r: u64)
        ensures
            r == self.store().max,
    {
        self.inner.max
    }

    /// Try to acquire a [`Permit`]; `None` when the threshold gate is not
    /// met. The check is point-in-time: no capacity is reserved, so the
    /// count may change before the permit is consumed.
    pub fn get_permit(&self) -> (r: Option<Permit>)
        requires
            self.wf(),
        ensures
            match self.gate() {
                None => r matches Some(p) && p.id() == self.store().id,
                Some(t) => if self.store().available >= t {
                    r matches Some(p) && p.id() == self.store().id
                } else {
                    r is None
                },
            },
    {
        self.permitter.get_permit(self.inner.available())
    }

    /// Try to acquire a [`Permit`], reporting — when the threshold gate is
    /// not met — an advisory estimate of when enough tokens may have
    /// refilled. The check is point-in-time: no capacity is reserved.
    pub fn try_permit(&self) -> (r: Result<Permit, Error>)
        requires
            self.wf(),
        ensures
            match self.gate() {
                None => r matches Ok(p) && p.id() == self.store().id,
                Some(t) => if self.store().available >= t {
                    r matches Ok(p) && p.id() == self.store().id
                } else {
                    r == Err::<Permit, Error>(
                        Error::NotEnoughTokens(
                            Some(spec_wait_ms(self.store(), self.store().available, t)),
                        ),
                    )
                },
            },
    {
        self.permitter.try_permit(&self.inner)
    }

    /// Try to acquire one token; shorthand for acquiring the amount 1.
    ///
    /// The permit is consumed by the call regardless of outcome.
    pub fn try_acquire_one(&mut self, permit: Permit) -> (r: Result<(), Error>)
        requires
            old(self).wf(),
        ensures
            final(self).wf(),
            final(self).gate() == old(self).gate(),
            permit.id() != old(self).store().id ==> r == Err::<(), Error>(Error::InvalidPermit)
                && final(self).store() == old(self).store(),
            exists|elapsed_ms: u64|
                final(self).store() == (#[trigger] spec_bucket_acquire(
                    old(self).store(),
                    permit.id(),
                    1,
                    elapsed_ms,
                )).0 && r == (match spec_bucket_acquire(
                    old(self).store(),
                    permit.id(),
                    1,
                    elapsed_ms,
                ).1 {
                    Ok(_) => Ok::<(), Error>(()),
                    Err(e) => Err(e),
                }),
    {
        let r = self.try_acquire(permit, 1);
        match r {
            Ok(_) => Ok(()),
            Err(e) => Err(e),
        }
    }

    /// Try to acquire `num` tokens with the given permit.
    ///
    /// The permit must come from this very bucket; one from any other bucket
    /// is rejected and the store left untouched. Otherwise any refill due at
    /// the moment of the call is credited first, and then either `num`
    /// tokens are deducted in full — the returned amount always equals `num`
    /// on success — or the store is left as refilled and the shortfall is
    /// reported with an advisory wait estimate. The permit is consumed by
    /// the call regardless of outcome.
    pub fn try_acquire(&mut self, permit: Permit, num: u64) -> (r: Result<u64, Error>)
        requires
            old(self).wf(),
        ensures
            final(self).wf(),
            final(self).gate() == old(self).gate(),
            permit.id() != old(self).store().id ==> r == Err::<u64, Error>(Error::InvalidPermit)
                && final(self).store() == old(self).store(),
            r matches Ok(n) ==> n == num,
            exists|elapsed_ms: u64|
                (final(self).store(), r) == #[trigger] spec_bucket_acquire(
                    old(self).store(),
                    permit.id(),
                    num,
                    elapsed_ms,
                ),
    {
        if !self.permitter.belongs(&permit) {
            proof {
                assert((self.store(), Err::<u64, Error>(Error::InvalidPermit))
                    == spec_bucket_acquire(old(self).store(), permit.id(), num, 0));
            }
            return Err(Error::InvalidPermit);
        }
        let ghost pid = permit.id();
        permit.notify(num);
        let elapsed_ms = elapsed_millis(&self.origin);
        let r = self.inner.try_acquire(num, elapsed_ms);
        proof {
            assert((self.store(), r) == spec_bucket_acquire(
                old(self).store(),
                pid,
                num,
                elapsed_ms,
            ));
        }
        r
    }
}

/// Errors reported when building a [`Bucket`].
#[derive(Debug, Clone, PartialEq, Eq)]
pub enum BuildError {
    /// The refill configuration was not set.
    MissingRefill,
    /// The maximum number of tokens was not set.
    MissingMax,
}

/// Errors reported by bucket operations.
#[derive(Debug, Clone, PartialEq, Eq)]
pub enum Error {
    /// The requested number of tokens exceeds the maximum possible number of
    /// tokens.
    ExceedMaxTokens,
    /// High contention while updating the number of available tokens.
    HighContention,
    /// The permit passed does not correspond to this bucket.
    InvalidPermit,
    /// Not enough tokens available; carries an advisory wait estimate in
    /// milliseconds until enough tokens may have accrued.
    NotEnoughTokens(Option<u64>),
}

} // verus!
