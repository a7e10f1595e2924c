use std::time::Duration;
use vstd::arithmetic::mul::lemma_mul_inequality;
use vstd::arithmetic::power2::{
    lemma_pow2_pos, lemma_pow2_strictly_increases, lemma_pow2_unfold, lemma2_to64, pow2,
};
use vstd::bits::lemma_u64_shl_is_mul;
use vstd::prelude::*;

verus! {

/// Exponential backoff settings for retried operations.
#[derive(Debug, Clone, Copy)]
pub struct RetryPolicy {
    pub max_retries: u32,
    pub base_delay_ms: u64,
    pub max_delay_ms: u64,
}

/// The largest exponent the backoff doubles up to.
pub const MAX_BACKOFF_SHIFT: u32 = 20;

/// Smaller of two integers.
pub open spec fn min_int(a: int, b: int) -> int {
    if a <= b { a } else { b }
}

/// `base * 2^min(attempt, 20)`, saturated at `u64::MAX`, then capped at `cap`.
pub open spec fn backoff_delay_ms(base: u64, cap: u64, attempt: u32) -> int {
    let shift = min_int(attempt as int, MAX_BACKOFF_SHIFT as int) as nat;
    let uncapped = min_int(base * pow2(shift), u64::MAX as int);
    min_int(uncapped, cap as int)
}

/// The `Duration` that `Duration::from_millis` makes of a millisecond count.
pub uninterp spec fn duration_of_millis(ms: u64) -> Duration;

/// Calls `Duration::from_millis`: the result is determined by `ms` alone.
#[verifier::external_body]
fn duration_from_millis(ms: u64) -> (r: Duration)
    ensures
        r == duration_of_millis(ms),
{
    Duration::from_millis(ms)
}

impl RetryPolicy {
    /// The delay in milliseconds before retry number `attempt`.
    pub open spec fn spec_delay_ms(&self, attempt: u32) -> int {
        backoff_delay_ms(self.base_delay_ms, self.max_delay_ms, attempt)
    }

    /// Milliseconds to wait before retry number `attempt`: the base delay
    /// doubled once per attempt (at most twenty times), saturating, then capped.
    pub fn delay_ms_for_attempt(&self, attempt: u32) -> (r: u64)
        ensures
            r == self.spec_delay_ms(attempt),
    {
        let shift = if attempt < MAX_BACKOFF_SHIFT { attempt } else { MAX_BACKOFF_SHIFT };
        let shift64: u64 = shift as u64;
        proof {
            lemma2_to64();
            lemma_pow2_strictly_increases(shift as nat, 21);
            assert(pow2(21) == 0x200000);
            lemma_u64_shl_is_mul(1, shift64);
        }
        let multiplier: u64 = 1u64 << shift64;
        let uncapped: u64 = match self.base_delay_ms.checked_mul(multiplier) {
            Some(v) => v,
            None => u64::MAX,
        };
        if uncapped < self.max_delay_ms { uncapped } else { self.max_delay_ms }
    }

    /// The delay before retry number `attempt`, as a `Duration`.
    pub fn delay_for_attempt(&self, attempt: u32) -> (r: Duration)
        ensures
            r == duration_of_millis(self.spec_delay_ms(attempt) as u64),
    {
        let ms = self.delay_ms_for_attempt(attempt);
        duration_from_millis(ms)
    }
}

/// Backoff never shrinks: a later attempt waits at least as long as an earlier one.
pub proof fn lemma_delay_is_monotonic(policy: RetryPolicy, a: u32, b: u32)
    requires
        a <= b,
    ensures
        policy.spec_delay_ms(a) <= policy.spec_delay_ms(b),
{
    let sa = min_int(a as int, MAX_BACKOFF_SHIFT as int) as nat;
    let sb = min_int(b as int, MAX_BACKOFF_SHIFT as int) as nat;
    if sa < sb {
        lemma_pow2_strictly_increases(sa, sb);
    }
    lemma_mul_inequality(pow2(sa) as int, pow2(sb) as int, policy.base_delay_ms as int);
    assert(policy.base_delay_ms * pow2(sa) <= policy.base_delay_ms * pow2(sb)) by (nonlinear_arith)
        requires
            pow2(sa) <= pow2(sb),
    ;
}

/// Every delay is at most the configured maximum.
pub proof fn lemma_delay_is_capped(policy: RetryPolicy, attempt: u32)
    ensures
        0 <= policy.spec_delay_ms(attempt) <= policy.max_delay_ms,
{
    lemma_pow2_pos(min_int(attempt as int, MAX_BACKOFF_SHIFT as int) as nat);
}

/// The first retry waits the base delay, unless the cap is smaller.
pub proof fn lemma_first_delay_is_base(policy: RetryPolicy)
    ensures
        policy.spec_delay_ms(0) == min_int(policy.base_delay_ms as int, policy.max_delay_ms as int),
{
    lemma2_to64();
    assert(min_int(0, MAX_BACKOFF_SHIFT as int) == 0);
    assert(policy.base_delay_ms * pow2(0) == policy.base_delay_ms);
}

/// Each retry doubles the delay: for the first twenty doublings the delay
/// before retry `attempt + 1` is twice `base * 2^attempt` (saturated at
/// `u64::MAX`), capped; after that it stays at the delay of retry twenty.
pub proof fn lemma_delay_doubles_per_attempt(policy: RetryPolicy, attempt: u32)
    ensures
        attempt < 20 ==> policy.spec_delay_ms((attempt + 1) as u32) == min_int(
            min_int(2 * (policy.base_delay_ms * pow2(attempt as nat)), u64::MAX as int),
            policy.max_delay_ms as int,
        ),
        attempt >= 20 ==> policy.spec_delay_ms(attempt) == policy.spec_delay_ms(20),
{
    if attempt < 20 {
        lemma_pow2_unfold((attempt + 1) as nat);
        assert(policy.base_delay_ms * pow2((attempt + 1) as nat) == 2 * (policy.base_delay_ms * pow2(
            attempt as nat,
        ))) by (nonlinear_arith)
            requires
                pow2((attempt + 1) as nat) == 2 * pow2(attempt as nat),
        ;
    }
}

impl Default for RetryPolicy {
    fn default() -> (r: Self)
        ensures
            r.max_retries == 5,
            r.base_delay_ms == 250,
            r.max_delay_ms == 8_000,
    {
        RetryPolicy { max_retries: 5, base_delay_ms: 250, max_delay_ms: 8_000 }
    }
}

} // verus!
