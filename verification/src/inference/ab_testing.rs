//! The decisions of an A/B test between two models that do not involve its
//! traffic percentages: which settings are valid, how requests are numbered into
//! buckets, and when enough samples were taken.
use vstd::prelude::*;
use crate::error::FuseError;
use crate::text;

verus! {

/// Which model variant was selected.
#[derive(Debug, Clone, Copy, PartialEq, Eq, Structural)]
pub enum Variant {
    A,
    B,
}

/// Checks the settings of an A/B test: it needs a name, at least one sample per
/// variant, and two different models.
pub fn validate_ab_test(name: &str, model_a: &str, model_b: &str, min_samples: usize) -> (r: Result<(), FuseError>)
    ensures
        name@.len() == 0 ==> (r matches Err(FuseError::ValidationError(m)) && m@ == "A/B test name cannot be empty"@),
        name@.len() > 0 && min_samples == 0 ==> (r matches Err(FuseError::ValidationError(m)) && m@
            == "min_samples must be > 0"@),
        name@.len() > 0 && min_samples > 0 && model_a@ == model_b@ ==> (r matches Err(FuseError::ValidationError(m))
            && m@ == "model_a and model_b must be different"@),
        r is Ok <==> (name@.len() > 0 && min_samples > 0 && model_a@ != model_b@),
{
    if text::str_eq(name, "") {
        proof {
            reveal_strlit("");
        }
        return Err(FuseError::ValidationError(text::owned("A/B test name cannot be empty")));
    }
    proof {
        reveal_strlit("");
        if name@.len() == 0 {
            assert(name@ =~= ""@);
        }
    }
    if min_samples == 0 {
        return Err(FuseError::ValidationError(text::owned("min_samples must be > 0")));
    }
    if text::str_eq(model_a, model_b) {
        return Err(FuseError::ValidationError(text::owned("model_a and model_b must be different")));
    }
    Ok(())
}

/// The bucket, out of 100, of the `n`-th request routed (counting from 1).
pub open spec fn bucket_of(n: nat) -> nat {
    ((n - 1) as nat) % 100
}

/// The request counter of an A/B test and whether the test is running.
pub struct RouteCounter {
    enabled: bool,
    request_count: u64,
}

impl RouteCounter {
    /// The number of requests routed so far.
    pub closed spec fn count(&self) -> u64 {
        self.request_count
    }

    /// Whether the test is running.
    pub closed spec fn running(&self) -> bool {
        self.enabled
    }

    /// A test, running or not, that has routed nothing.
    pub fn new(enabled: bool) -> (r: RouteCounter)
        ensures
            r.running() == enabled,
            r.count() == 0,
    {
        RouteCounter { enabled, request_count: 0 }
    }

    /// Whether the test is running.
    pub fn is_enabled(&self) -> (r: bool)
        ensures
            r == self.running(),
    {
        self.enabled
    }

    /// Stops the test.
    pub fn disable(&mut self)
        ensures
            !final(self).running(),
            final(self).count() == old(self).count(),
    {
        self.enabled = false;
    }

    /// Numbers the next request and returns its bucket, 0 to 99: requests fill
    /// the buckets in turn. A stopped test routes nothing.
    pub fn next_bucket(&mut self) -> (r: Result<u64, FuseError>)
        requires
            old(self).count() < u64::MAX,
        ensures
            final(self).running() == old(self).running(),
            !old(self).running() ==> (r matches Err(FuseError::FeatureDisabled(m)) && m@ == "A/B test is disabled"@)
                && final(self).count() == old(self).count(),
            old(self).running() ==> (r matches Ok(b) && b == bucket_of(final(self).count() as nat))
                && final(self).count() == old(self).count() + 1,
    {
        if !self.enabled {
            return Err(FuseError::FeatureDisabled(text::owned("A/B test is disabled")));
        }
        self.request_count = self.request_count + 1;
        Ok((self.request_count - 1) % 100)
    }

    /// The number of requests routed so far.
    pub fn request_count(&self) -> (r: u64)
        ensures
            r == self.count(),
    {
        self.request_count
    }
}

/// Whether both variants have at least `min_samples` samples.
pub fn has_sufficient_samples(samples_a: usize, samples_b: usize, min_samples: usize) -> (r: bool)
    ensures
        r == (samples_a >= min_samples && samples_b >= min_samples),
{
    samples_a >= min_samples && samples_b >= min_samples
}

/// Any 100 requests in a row fall into 100 different buckets: the buckets of
/// requests `n` and `m`, fewer than 100 apart, differ.
pub proof fn lemma_buckets_cycle(n: nat, m: nat)
    requires
        1 <= n < m < n + 100,
    ensures
        bucket_of(n) != bucket_of(m),
        bucket_of(n + 100) == bucket_of(n),
{
    assert(((n + 100 - 1) as nat) % 100 == ((n - 1) as nat) % 100) by (nonlinear_arith)
        requires
            n >= 1,
    ;
    assert(((m - 1) as nat) % 100 != ((n - 1) as nat) % 100) by (nonlinear_arith)
        requires
            1 <= n < m < n + 100,
    ;
}

} // verus!
