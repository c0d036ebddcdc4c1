//! Permits and the strategies that issue them.
//!
//! A [`Permit`] is a single-use capability proving that a caller was, at the
//! moment of issuance, authorized to attempt consumption. It carries the
//! identity stamp of the store that issued it — identity, not value,
//! equality: two buckets built with identical configuration are distinct —
//! and is consumed (moved) by its one acquire call. Issuance is decided by a
//! closed set of strategies: always-grant, and threshold-grant, which
//! refuses while the available count is below a configured minimum.

use vstd::prelude::*;

use crate::inner::{spec_bucket_acquire, Inner};
use crate::refill::spec_wait_ms;
use crate::Error;

verus! {

/// Permit used to get tokens from a bucket. It is bound to the bucket that
/// issued it and consumed by its one acquire call.
pub struct Permit {
    bucket_id: u64,
    kind: PermitKind,
}

/// Which strategy issued a permit; the notification hook dispatches on it.
pub(crate) enum PermitKind {
    Always,
    Threshold,
}

impl Permit {
    /// The identity stamp of the store this permit is bound to.
    pub closed spec fn id(self) -> u64 {
        self.bucket_id
    }

    pub(crate) fn new(kind: PermitKind, bucket_id: u64) -> (r: Permit)
        ensures
            r.id() == bucket_id,
    {
        Permit { bucket_id, kind }
    }

    /// Extension hook invoked with the amount about to be consumed; a no-op
    /// for both specified strategies.
    pub(crate) fn notify(self, _num: u64) {
        match self.kind {
            PermitKind::Always => {},
            PermitKind::Threshold => {},
        }
    }
}

/// Grants a permit unconditionally.
pub(crate) struct AlwaysPermitter {
    pub bucket_id: u64,
}

impl AlwaysPermitter {
    pub(crate) fn new(bucket_id: u64) -> (r: AlwaysPermitter)
        ensures
            r.bucket_id == bucket_id,
    {
        AlwaysPermitter { bucket_id }
    }
}

/// Grants a permit only while the available count meets a threshold.
pub(crate) struct ThresholdPermitter {
    pub bucket_id: u64,
    pub threshold: u64,
}

impl ThresholdPermitter {
    pub(crate) fn new(bucket_id: u64, threshold: u64) -> (r: ThresholdPermitter)
        ensures
            r.bucket_id == bucket_id,
            r.threshold == threshold,
    {
        ThresholdPermitter { bucket_id, threshold }
    }
}

/// A bucket's permit-issuance strategy: a closed set of variants dispatched
/// by pattern match.
pub(crate) enum Permitter {
    Always(AlwaysPermitter),
    Threshold(ThresholdPermitter),
}

impl Permitter {
    /// The identity stamp of the store this strategy issues permits for.
    pub(crate) open spec fn spec_bucket_id(self) -> u64 {
        match self {
            Permitter::Always(a) => a.bucket_id,
            Permitter::Threshold(t) => t.bucket_id,
        }
    }

    /// The threshold gate, if any: `None` means always-grant.
    pub(crate) open spec fn spec_threshold(self) -> Option<u64> {
        match self {
            Permitter::Always(_) => None,
            Permitter::Threshold(t) => Some(t.threshold),
        }
    }

    /// Issue a permit if the strategy allows it at the given available
    /// count; the check is point-in-time, and no capacity is reserved.
    pub(crate) fn get_permit(&self, available: u64) -> (r: Option<Permit>)
        ensures
            match self.spec_threshold() {
                None => r matches Some(p) && p.id() == self.spec_bucket_id(),
                Some(t) => if available >= t {
                    r matches Some(p) && p.id() == self.spec_bucket_id()
                } else {
                    r is None
                },
            },
    {
        match self {
            Permitter::Always(a) => Some(Permit::new(PermitKind::Always, a.bucket_id)),
            Permitter::Threshold(t) => {
                if available >= t.threshold {
                    Some(Permit::new(PermitKind::Threshold, t.bucket_id))
                } else {
                    None
                }
            },
        }
    }

    /// Issue a permit, or report why none can be issued now: the threshold
    /// strategy refuses while the store's available count is below the
    /// threshold, estimating when it may have refilled that far.
    pub(crate) fn try_permit(&self, store: &Inner) -> (r: Result<Permit, Error>)
        requires
            store.wf(),
        ensures
            match self.spec_threshold() {
                None => r matches Ok(p) && p.id() == self.spec_bucket_id(),
                Some(t) => if store.available >= t {
                    r matches Ok(p) && p.id() == self.spec_bucket_id()
                } else {
                    r == Err::<Permit, Error>(
                        Error::NotEnoughTokens(Some(spec_wait_ms(*store, store.available, t))),
                    )
                },
            },
    {
        match self {
            Permitter::Always(a) => Ok(Permit::new(PermitKind::Always, a.bucket_id)),
            Permitter::Threshold(t) => {
                let available = store.available();
                if available >= t.threshold {
                    Ok(Permit::new(PermitKind::Threshold, t.bucket_id))
                } else {
                    Err(Error::NotEnoughTokens(Some(store.wait_for(available, t.threshold))))
                }
            },
        }
    }

    /// Check whether the permit was issued for the same store as this
    /// strategy serves.
    pub(crate) fn belongs(&self, permit: &Permit) -> (r: bool)
        ensures
            r == (permit.id() == self.spec_bucket_id()),
    {
        match self {
            Permitter::Always(a) => permit.bucket_id == a.bucket_id,
            Permitter::Threshold(t) => permit.bucket_id == t.bucket_id,
        }
    }
}

/// Threshold configuration.
#[derive(Clone, Debug)]
pub struct ThresholdConfig {
    /// Threshold under which the bucket will refuse to grant new permits.
    pub threshold: u64,
}

/// Law (cross-bucket rejection): a permit carries the identity stamp of the
/// bucket that issued it; presented to any bucket with a different stamp —
/// however alike the two configurations — the acquire is rejected as invalid
/// and that bucket's store is left untouched.
pub proof fn lemma_cross_bucket_rejection(
    a: Inner,
    b: Inner,
    permit_id: u64,
    num: u64,
    elapsed_ms: u64,
)
    requires
        permit_id == a.id,
        a.id != b.id,
    ensures
        spec_bucket_acquire(b, permit_id, num, elapsed_ms) == (
            b,
            Err::<u64, Error>(Error::InvalidPermit),
        ),
{
}

} // verus!
