//! Builder for a [`Bucket`](crate::Bucket).

use vstd::prelude::*;
use vstd::math::min;

use crate::clock::instant_now;
use crate::inner::{fresh_id, Inner};
use crate::permit::{AlwaysPermitter, Permitter, ThresholdConfig, ThresholdPermitter};
use crate::refill::RateConfig;
use crate::{Bucket, BuildError};

verus! {

/// Builder for a [`Bucket`]: accumulates optional configuration; fluent and
/// order-independent.
pub struct Builder {
    /// Initial number of tokens, when set explicitly.
    pub initial: Option<u64>,
    /// Refill rate: tokens per interval, and the interval length in
    /// milliseconds.
    pub rate: Option<(u64, u64)>,
    /// Capacity ceiling.
    pub max: Option<u64>,
    /// Threshold-based permit allocation, when configured.
    pub threshold: Option<ThresholdConfig>,
}

impl Default for Builder {
    /// A builder with nothing configured.
    fn default() -> (r: Builder)
        ensures
            r.initial is None,
            r.rate is None,
            r.max is None,
            r.threshold is None,
    {
        Builder { initial: None, rate: None, max: None, threshold: None }
    }
}

impl Builder {
    /// The starting token count `build` seeds: the explicit initial count
    /// when one was set, otherwise threshold plus refill quantity so that a
    /// threshold bucket starts immediately usable; capped at the maximum
    /// either way.
    pub open spec fn spec_seed(self, quantity: u64, max: u64) -> int {
        min(
            match self.initial {
                Some(v) => v as int,
                None => (match self.threshold {
                    Some(c) => c.threshold as int,
                    None => 0,
                }) + quantity,
            },
            max as int,
        )
    }

    /// Set the initial number of tokens in the [`Bucket`].
    pub fn initial(self, initial: u64) -> (r: Self)
        ensures
            r == (Builder { initial: Some(initial), ..self }),
    {
        Builder { initial: Some(initial), ..self }
    }

    /// Use a constant refill rate, giving quantity, interval and capacity in
    /// one configuration value.
    pub fn rate(self, config: RateConfig) -> (r: Self)
        ensures
            r == (Builder {
                rate: Some((config.quantity, config.interval_ms)),
                max: Some(config.max),
                ..self
            }),
    {
        Builder { rate: Some((config.quantity, config.interval_ms)), max: Some(config.max), ..self }
    }

    /// Use a constant refill rate of `quantity` tokens per `interval_ms`
    /// milliseconds.
    pub fn refill_rate(self, quantity: u64, interval_ms: u64) -> (r: Self)
        ensures
            r == (Builder { rate: Some((quantity, interval_ms)), ..self }),
    {
        Builder { rate: Some((quantity, interval_ms)), ..self }
    }

    /// Set the maximum number of tokens.
    pub fn max(self, max: u64) -> (r: Self)
        ensures
            r == (Builder { max: Some(max), ..self }),
    {
        Builder { max: Some(max), ..self }
    }

    /// Use threshold-based permit allocation: no permit is granted while
    /// fewer than `threshold` tokens are available.
    pub fn threshold(self, threshold: u64) -> (r: Self)
        ensures
            r == (Builder { threshold: Some(ThresholdConfig { threshold }), ..self }),
    {
        Builder { threshold: Some(ThresholdConfig { threshold }), ..self }
    }

    /// Build the [`Bucket`].
    ///
    /// Fails identifying the first missing required field: the refill
    /// configuration, then the capacity maximum. A refill configuration, if
    /// set, must name a positive quantity and a positive interval — the
    /// refill and wait arithmetic divides by both. The refill boundary
    /// starts one whole interval from the moment of the call, and the
    /// starting count is seeded as [`Builder::spec_seed`] describes.
    pub fn build(self) -> (r: Result<Bucket, BuildError>)
        requires
            self.rate matches Some(qi) ==> qi.0 >= 1 && qi.1 >= 1,
        ensures
            self.rate is None <==> r == Err::<Bucket, BuildError>(BuildError::MissingRefill),
            self.rate is Some && self.max is None <==> r == Err::<Bucket, BuildError>(
                BuildError::MissingMax,
            ),
            self.rate is Some && self.max is Some ==> r is Ok,
            r matches Ok(b) ==> {
                &&& self.rate matches Some(qi)
                &&& self.max matches Some(m)
                &&& b.wf()
                &&& b.store().available == self.spec_seed(qi.0, m)
                &&& b.store().refill_at == qi.1
                &&& b.store().quantity == qi.0
                &&& b.store().interval_ms == qi.1
                &&& b.store().max == m
                &&& b.gate() == (match self.threshold {
                    Some(c) => Some(c.threshold),
                    None => None::<u64>,
                })
            },
    {
        let (quantity, interval_ms): (u64, u64) = match self.rate {
            Some(qi) => qi,
            None => {
                return Err(BuildError::MissingRefill);
            },
        };
        let max: u64 = match self.max {
            Some(m) => m,
            None => {
                return Err(BuildError::MissingMax);
            },
        };
        let gate: u64 = match &self.threshold {
            Some(c) => c.threshold,
            None => 0,
        };
        let want: u64 = match self.initial {
            Some(v) => v,
            None => if gate <= u64::MAX - quantity {
                gate + quantity
            } else {
                u64::MAX
            },
        };
        let available: u64 = if want >= max {
            max
        } else {
            want
        };
        let id = fresh_id();
        let store = Inner::new(available, quantity, interval_ms, max, id);
        let permitter = match self.threshold {
            Some(c) => Permitter::Threshold(ThresholdPermitter::new(id, c.threshold)),
            None => Permitter::Always(AlwaysPermitter::new(id)),
        };
        Ok(Bucket::assemble(store, permitter, instant_now()))
    }
}

} // verus!
