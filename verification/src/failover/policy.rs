//! What to do about a failed request: retries, rotation, cooldowns and delays.

use vstd::arithmetic::power2::{lemma_pow2_adds, lemma_pow2_strictly_increases, pow2};
use vstd::prelude::*;

use crate::failover::classify::FailoverReason;

verus! {

impl FailoverReason {
    /// The reasons for which the same model is tried again.
    pub open spec fn retryable(self) -> bool {
        self is RateLimit || self is Overloaded || self is Timeout || self is Unknown
    }

    /// The reasons for which the next auth profile of the provider is tried.
    pub open spec fn rotatable(self) -> bool {
        self is RateLimit || self is Overloaded || self is Auth || self is Billing
    }

    /// How long an auth profile rests after a failure for this reason, in seconds.
    pub open spec fn cooldown_secs(self) -> nat {
        match self {
            FailoverReason::Overloaded => 30,
            FailoverReason::RateLimit => 60,
            FailoverReason::Auth => 300,
            FailoverReason::Billing => 600,
            _ => 0,
        }
    }

    /// How often a request that failed for this reason is tried again at most.
    pub open spec fn retries(self, policy_max: u32) -> u32 {
        if self is Unknown && policy_max > 1 {
            1
        } else {
            policy_max
        }
    }

    /// The reasons for which the error surfaces at once: none.
    pub open spec fn terminal(self) -> bool {
        false
    }

    /// The reasons for which the context is compacted.
    pub open spec fn compacting(self) -> bool {
        self is ContextOverflow
    }

    /// Whether a request that failed for this reason is tried again on the same model, with
    /// backoff, before the next model in the chain. `Unknown` counts: many such errors are
    /// transient, and a single retry catches most of them.
    pub fn is_retryable(&self) -> (r: bool)
        ensures
            r == self.retryable(),
    {
        matches!(
            self,
            FailoverReason::RateLimit | FailoverReason::Overloaded | FailoverReason::Timeout
            | FailoverReason::Unknown
        )
    }

    /// How often a request that failed for this reason is tried again at most: once for `Unknown`,
    /// as the policy says for the others.
    pub fn max_retries(&self, policy_max: u32) -> (r: u32)
        ensures
            self is Unknown ==> r == (if policy_max < 1 {
                policy_max
            } else {
                1
            }),
            !(self is Unknown) ==> r == policy_max,
            r == self.retries(policy_max),
    {
        match self {
            FailoverReason::Unknown => if policy_max < 1 {
                policy_max
            } else {
                1
            },
            _ => policy_max,
        }
    }

    /// Whether the error surfaces to the user at once, without any fallback model. None does: a
    /// context overflow leads to compaction first.
    pub fn is_terminal(&self) -> (r: bool)
        ensures
            r == false,
            r == self.terminal(),
    {
        false
    }

    /// Whether the context is compacted before the next attempt.
    pub fn needs_compaction(&self) -> (r: bool)
        ensures
            r == (self is ContextOverflow),
            r == self.compacting(),
    {
        matches!(self, FailoverReason::ContextOverflow)
    }

    /// Whether the next auth profile of the same provider is tried before the next model.
    pub fn is_profile_rotatable(&self) -> (r: bool)
        ensures
            r == self.rotatable(),
    {
        matches!(
            self,
            FailoverReason::RateLimit | FailoverReason::Overloaded | FailoverReason::Auth
            | FailoverReason::Billing
        )
    }

    /// How long an auth profile rests after a failure for this reason, in seconds.
    pub fn profile_cooldown_secs(&self) -> (r: u64)
        ensures
            r == self.cooldown_secs(),
    {
        match self {
            FailoverReason::Overloaded => 30,
            FailoverReason::RateLimit => 60,
            FailoverReason::Auth => 300,
            FailoverReason::Billing => 600,
            _ => 0,
        }
    }
}

/// A profile rests after a failure exactly where the failure makes the next profile take over.
pub proof fn rotation_and_cooldown_agree(reason: FailoverReason)
    ensures
        reason.rotatable() <==> reason.cooldown_secs() > 0,
{
}

/// A context overflow leads to compaction only: neither the same request nor another profile is
/// tried for it.
pub proof fn context_overflow_only_compacts()
    ensures
        !FailoverReason::ContextOverflow.retryable(),
        !FailoverReason::ContextOverflow.rotatable(),
{
}

// ── Retry with backoff ───────────────────────────────────────────

/// The delay of attempt `attempt`, counted from 0, before jitter: `base_ms * 2^attempt`, at most
/// `max_ms`.
pub open spec fn backoff_ms(attempt: nat, base_ms: nat, max_ms: nat) -> nat {
    if base_ms * pow2(attempt) <= max_ms {
        base_ms * pow2(attempt)
    } else {
        max_ms
    }
}

/// The jitter that a random number picks for a delay: between minus and plus a tenth of it.
pub open spec fn jitter_ms(delay: nat, random: nat) -> int {
    let range = delay / 10;
    (random % (2 * range + 1)) - range
}

/// The delay with the jitter that a random number picks for it, within the range of `u64`.
pub open spec fn jittered_ms(delay: nat, random: nat) -> nat {
    let d = delay + jitter_ms(delay, random);
    if d <= u64::MAX {
        d as nat
    } else {
        u64::MAX as nat
    }
}

fn backoff(attempt: u32, base_ms: u64, max_ms: u64) -> (r: u64)
    ensures
        r == backoff_ms(attempt as nat, base_ms as nat, max_ms as nat),
{
    let mut delay: u64 = base_ms;
    let mut k: u32 = 0;
    proof {
        vstd::arithmetic::power2::lemma2_to64();
        assert(base_ms * 1 == base_ms);
    }
    while k < attempt && delay <= max_ms && delay > 0
        invariant
            k <= attempt,
            delay == base_ms * pow2(k as nat),
            base_ms > 0 ==> delay > 0,
        decreases attempt - k,
    {
        proof {
            lemma_pow2_adds(1, k as nat);
            vstd::arithmetic::power2::lemma2_to64();
            assert(base_ms * (2 * pow2(k as nat)) == 2 * (base_ms * pow2(k as nat)))
                by (nonlinear_arith);
        }
        if delay > u64::MAX / 2 {
            proof {
                lemma_backoff_grows((k + 1) as nat, attempt as nat, base_ms as nat);
            }
            return max_ms;
        }
        delay = 2 * delay;
        k += 1;
    }
    proof {
        if delay > max_ms {
            lemma_backoff_grows(k as nat, attempt as nat, base_ms as nat);
        } else if delay == 0 {
            assert(base_ms == 0);
            assert(0 * pow2(attempt as nat) == 0);
        }
    }
    if delay <= max_ms {
        delay
    } else {
        max_ms
    }
}

proof fn lemma_backoff_grows(a: nat, b: nat, base_ms: nat)
    requires
        a <= b,
    ensures
        base_ms * pow2(a) <= base_ms * pow2(b),
{
    if a < b {
        lemma_pow2_strictly_increases(a, b);
    }
    assert(base_ms * pow2(a) <= base_ms * pow2(b)) by (nonlinear_arith)
        requires
            pow2(a) <= pow2(b),
    ;
}

/// The delay in milliseconds before retry attempt `attempt`, counted from 0: exponential backoff,
/// `base_ms * 2^attempt`, clamped to `max_ms`, plus the jitter of up to a tenth either way that
/// `random` picks.
pub fn retry_delay_ms(attempt: u32, base_ms: u64, max_ms: u64, random: u64) -> (r: u64)
    ensures
        r == jittered_ms(
            backoff_ms(attempt as nat, base_ms as nat, max_ms as nat),
            random as nat,
        ),
{
    let clamped = backoff(attempt, base_ms, max_ms);
    let range = clamped / 10;
    if range == 0 {
        return clamped;
    }
    let up = random % (2 * range + 1);
    let delay: u128 = clamped as u128 + up as u128 - range as u128;
    if delay <= u64::MAX as u128 {
        delay as u64
    } else {
        u64::MAX
    }
}

/// A pseudo-random number from the nanoseconds of a clock and a counter that grows with each call,
/// so that two calls in the same nanosecond differ.
pub fn rand_simple(subsec_nanos: u32, count: u64) -> (r: u64)
    ensures
        r == (subsec_nanos as u64) ^ ((count * 6364136223846793005) % 0x1_0000_0000_0000_0000) as u64,
{
    let spread = count.wrapping_mul(6364136223846793005);
    (subsec_nanos as u64) ^ spread
}

/// Whatever the random number, a retry delay is within a tenth of the backoff of its attempt, and
/// the backoff is at most the maximum.
pub proof fn retry_delay_stays_within_a_tenth(
    attempt: nat,
    base_ms: nat,
    max_ms: nat,
    random: nat,
)
    requires
        max_ms <= u64::MAX,
    ensures
        ({
            let delay = backoff_ms(attempt, base_ms, max_ms);
            let r = jittered_ms(delay, random);
            &&& delay <= max_ms
            &&& delay - delay / 10 <= r <= delay + delay / 10
        }),
{
    let delay = backoff_ms(attempt, base_ms, max_ms);
    let m = 2 * (delay / 10) + 1;
    vstd::arithmetic::div_mod::lemma_mod_bound(random as int, m as int);
}

/// The backoff of a later attempt is no shorter.
pub proof fn backoff_never_shrinks(a: nat, b: nat, base_ms: nat, max_ms: nat)
    requires
        a <= b,
    ensures
        backoff_ms(a, base_ms, max_ms) <= backoff_ms(b, base_ms, max_ms),
{
    lemma_backoff_grows(a, b, base_ms);
}

/// Which reasons are worth the same request again: what may pass by itself.
pub proof fn passing_troubles_are_retried(reason: FailoverReason)
    ensures
        reason is RateLimit ==> reason.retryable(),
        reason is Overloaded ==> reason.retryable(),
        reason is Timeout ==> reason.retryable(),
        reason is Unknown ==> reason.retryable(),
        reason is Auth ==> !reason.retryable(),
        reason is Billing ==> !reason.retryable(),
        reason is ModelNotFound ==> !reason.retryable(),
        reason is ContextOverflow ==> !reason.retryable(),
{
}

/// Which reasons are a matter of the key, so that another key may help.
pub proof fn troubles_of_a_key_rotate(reason: FailoverReason)
    ensures
        reason is RateLimit ==> reason.rotatable(),
        reason is Overloaded ==> reason.rotatable(),
        reason is Auth ==> reason.rotatable(),
        reason is Billing ==> reason.rotatable(),
        reason is Timeout ==> !reason.rotatable(),
        reason is ModelNotFound ==> !reason.rotatable(),
        reason is ContextOverflow ==> !reason.rotatable(),
        reason is Unknown ==> !reason.rotatable(),
{
}

/// A key rests the longer, the less its trouble is likely to pass: half a minute, a minute, five
/// minutes and ten minutes.
pub proof fn cooldowns_grow_with_the_trouble(reason: FailoverReason)
    ensures
        reason is Overloaded ==> reason.cooldown_secs() == 30,
        reason is RateLimit ==> reason.cooldown_secs() == 60,
        reason is Auth ==> reason.cooldown_secs() == 5 * 60,
        reason is Billing ==> reason.cooldown_secs() == 10 * 60,
        reason is Timeout ==> reason.cooldown_secs() == 0,
        reason is ModelNotFound ==> reason.cooldown_secs() == 0,
        reason is ContextOverflow ==> reason.cooldown_secs() == 0,
        reason is Unknown ==> reason.cooldown_secs() == 0,
{
}

/// The backoff begins with the base and doubles with each attempt, up to the maximum.
pub proof fn backoff_doubles(attempt: nat, base_ms: nat, max_ms: nat)
    ensures
        backoff_ms(0, base_ms, max_ms) == (if base_ms <= max_ms {
            base_ms
        } else {
            max_ms
        }),
        backoff_ms(attempt + 1, base_ms, max_ms) == (if 2 * backoff_ms(attempt, base_ms, max_ms)
            <= max_ms {
            2 * backoff_ms(attempt, base_ms, max_ms)
        } else {
            max_ms
        }),
{
    vstd::arithmetic::power2::lemma2_to64();
    lemma_pow2_adds(1, attempt);
    assert(base_ms * 1 == base_ms);
    assert(base_ms * (2 * pow2(attempt)) == 2 * (base_ms * pow2(attempt))) by (nonlinear_arith);
}

/// The random numbers run through all delays within a tenth of the backoff, from the shortest to
/// the longest, and begin again.
pub proof fn jitter_runs_through_its_range(delay: nat, step: nat, round: nat)
    requires
        step <= 2 * (delay / 10),
        delay + delay / 10 <= u64::MAX,
    ensures
        jittered_ms(delay, step) == delay - delay / 10 + step,
        jittered_ms(delay, round * (2 * (delay / 10) + 1) + step) == delay - delay / 10 + step,
{
    let m = (2 * (delay / 10) + 1) as int;
    vstd::arithmetic::div_mod::lemma_small_mod(step, m as nat);
    vstd::arithmetic::div_mod::lemma_mod_multiples_vanish(round as int, step as int, m);
    assert(m * round == round * m) by (nonlinear_arith);
}

/// An unknown trouble is retried once at most, any other as often as the policy allows; where the
/// policy allows no retry there is none.
pub proof fn unknown_troubles_are_retried_once(reason: FailoverReason, policy_max: u32)
    ensures
        reason == FailoverReason::Unknown && policy_max >= 1 ==> reason.retries(policy_max) == 1,
        reason != FailoverReason::Unknown ==> reason.retries(policy_max) == policy_max,
        reason.retries(0) == 0,
{
}

/// A context overflow is compacted, no other trouble is, and none surfaces at once.
pub proof fn overflow_alone_is_compacted(reason: FailoverReason)
    ensures
        reason.compacting() <==> reason == FailoverReason::ContextOverflow,
        !reason.terminal(),
{
}

} // verus!
