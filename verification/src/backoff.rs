//! Reconnect delays: exponential backoff with jitter, in whole milliseconds.

use vstd::prelude::*;
use crate::config::AgentConfig;

verus! {

/// Two to the power `n`.
pub open spec fn pow2(n: nat) -> nat
    decreases n,
{
    if n == 0 {
        1
    } else {
        2 * pow2((n - 1) as nat)
    }
}

pub open spec fn min_nat(a: nat, b: nat) -> nat {
    if a <= b {
        a
    } else {
        b
    }
}

pub open spec fn max_nat(a: nat, b: nat) -> nat {
    if a >= b {
        a
    } else {
        b
    }
}

/// The delay before attempt `attempt` without jitter: the base doubled for
/// each earlier failure, capped at the maximum.
pub open spec fn capped_delay_ms(base_ms: nat, max_ms: nat, attempt: nat) -> nat
    recommends
        attempt >= 1,
{
    min_nat(base_ms * pow2((attempt - 1) as nat), max_ms)
}

/// The capped delay scaled by a factor between 75% and 125%, which the sample
/// picks in steps of a twentieth of a percent.
pub open spec fn jittered_ms(delay_ms: nat, sample: nat) -> nat {
    delay_ms * (3000 + 2 * (sample % 1000)) / 4000
}

/// The delay before attempt `attempt`. The first attempt waits for nothing;
/// later ones for the jittered capped delay, kept between base and maximum
/// (the base wins where it is above the maximum).
pub open spec fn backoff_ms(base_ms: nat, max_ms: nat, attempt: nat, sample: nat) -> nat {
    if attempt == 0 {
        0
    } else {
        max_nat(
            base_ms,
            min_nat(jittered_ms(capped_delay_ms(base_ms, max_ms, attempt), sample), max_ms),
        )
    }
}

proof fn lemma_pow2_positive(n: nat)
    ensures
        pow2(n) >= 1,
    decreases n,
{
    if n > 0 {
        lemma_pow2_positive((n - 1) as nat);
    }
}

proof fn lemma_pow2_monotonic(a: nat, b: nat)
    requires
        a <= b,
    ensures
        pow2(a) <= pow2(b),
    decreases b,
{
    if a < b {
        lemma_pow2_monotonic(a, (b - 1) as nat);
    }
}

proof fn lemma_scaled_monotonic(base: nat, a: nat, b: nat)
    requires
        a <= b,
    ensures
        base * pow2(a) <= base * pow2(b),
{
    lemma_pow2_monotonic(a, b);
    assert(base * pow2(a) <= base * pow2(b)) by (nonlinear_arith)
        requires
            pow2(a) <= pow2(b),
    ;
}

proof fn lemma_scaled_double(base: nat, n: nat)
    ensures
        base * pow2(n + 1) == 2 * (base * pow2(n)),
{
    assert(pow2(n + 1) == 2 * pow2(n));
    assert(base * (2 * pow2(n)) == 2 * (base * pow2(n))) by (nonlinear_arith);
}

/// The capped delay lies between nothing and the maximum, and from the base
/// up where the base is not above the maximum.
pub proof fn lemma_capped_delay_bounds(base_ms: nat, max_ms: nat, attempt: nat)
    requires
        attempt >= 1,
    ensures
        capped_delay_ms(base_ms, max_ms, attempt) <= max_ms,
        base_ms <= max_ms ==> base_ms <= capped_delay_ms(base_ms, max_ms, attempt),
        capped_delay_ms(base_ms, max_ms, 1) == min_nat(base_ms, max_ms),
{
    lemma_pow2_positive((attempt - 1) as nat);
    assert(base_ms * pow2((attempt - 1) as nat) >= base_ms) by (nonlinear_arith)
        requires
            pow2((attempt - 1) as nat) >= 1,
    ;
    assert(pow2(0) == 1);
    assert(base_ms * 1 == base_ms);
}

/// The jittered delay stays within 75% and 125% of the delay.
pub proof fn lemma_jitter_bounds(delay_ms: nat, sample: nat)
    ensures
        4 * jittered_ms(delay_ms, sample) <= 5 * delay_ms,
        4 * jittered_ms(delay_ms, sample) + 4 > 3 * delay_ms,
{
    let k = 3000 + 2 * (sample % 1000);
    assert(3000 <= k <= 4998);
    assert(delay_ms * 3000 <= delay_ms * k <= delay_ms * 5000) by (nonlinear_arith)
        requires
            3000 <= k <= 5000,
    ;
    let p = delay_ms * k;
    assert(p == 4000 * (p / 4000) + p % 4000);
}

/// Every delay from the second attempt on lies between the base and the
/// maximum, and the delay of attempt 1 within 75% and 125% of the base.
pub proof fn lemma_backoff_bounds(base_ms: nat, max_ms: nat, attempt: nat, sample: nat)
    requires
        attempt >= 1,
        base_ms <= max_ms,
    ensures
        base_ms <= backoff_ms(base_ms, max_ms, attempt, sample) <= max_ms,
        attempt == 1 ==> 3 * base_ms <= 4 * backoff_ms(base_ms, max_ms, attempt, sample) <= 5
            * base_ms,
{
    lemma_capped_delay_bounds(base_ms, max_ms, attempt);
    lemma_jitter_bounds(capped_delay_ms(base_ms, max_ms, attempt), sample);
}

/// The delay in milliseconds before attempt `attempt`, for a base and a
/// maximum in seconds and a sample that picks the jitter. From the second
/// attempt on it lies between base and maximum where the base is not above
/// the maximum, and for the first of them within 75% and 125% of the base.
pub fn backoff_delay_ms(base_secs: u64, max_secs: u64, attempt: u32, sample: u32) -> (ms: u128)
    ensures
        ms as nat == backoff_ms(
            base_secs as nat * 1000,
            max_secs as nat * 1000,
            attempt as nat,
            sample as nat,
        ),
        attempt == 0 ==> ms == 0,
        attempt >= 1 && base_secs <= max_secs ==> base_secs as nat * 1000 <= ms as nat
            <= max_secs as nat * 1000,
        attempt == 1 && base_secs <= max_secs ==> 3 * (base_secs as nat * 1000) <= 4 * ms as nat
            <= 5 * (base_secs as nat * 1000),
{
    if attempt == 0 {
        return 0;
    }
    let base_ms: u128 = base_secs as u128 * 1000;
    let max_ms: u128 = max_secs as u128 * 1000;
    let ghost target = (attempt - 1) as nat;
    let mut cur: u128 = if base_ms <= max_ms {
        base_ms
    } else {
        max_ms
    };
    let mut i: u32 = 1;
    proof {
        assert(pow2(0) == 1);
        assert(base_ms as nat * 1 == base_ms as nat);
    }
    while i < attempt && cur < max_ms && cur > 0
        invariant
            1 <= i <= attempt,
            base_ms == base_secs as nat * 1000,
            max_ms == max_secs as nat * 1000,
            cur as nat == min_nat(base_ms as nat * pow2((i - 1) as nat), max_ms as nat),
        decreases attempt - i,
    {
        proof {
            lemma_scaled_double(base_ms as nat, (i - 1) as nat);
        }
        let doubled: u128 = cur * 2;
        cur = if doubled <= max_ms {
            doubled
        } else {
            max_ms
        };
        i += 1;
    }
    proof {
        let done = (i - 1) as nat;
        lemma_scaled_monotonic(base_ms as nat, done, target);
        lemma_pow2_positive(done);
        lemma_pow2_positive(target);
        if cur == 0 && i < attempt {
            if base_ms > 0 {
                assert(base_ms as nat * pow2(done) >= 1) by (nonlinear_arith)
                    requires
                        base_ms as nat >= 1,
                        pow2(done) >= 1,
                ;
            } else {
                assert(0 * pow2(target) == 0);
            }
        }
        assert(cur as nat == capped_delay_ms(base_ms as nat, max_ms as nat, attempt as nat));
        lemma_jitter_bounds(cur as nat, sample as nat);
        if base_ms <= max_ms {
            lemma_backoff_bounds(base_ms as nat, max_ms as nat, attempt as nat, sample as nat);
        }
    }
    let factor: u128 = 3000 + 2 * ((sample % 1000) as u128);
    let jittered: u128 = cur * factor / 4000;
    let capped: u128 = if jittered <= max_ms {
        jittered
    } else {
        max_ms
    };
    if capped >= base_ms {
        capped
    } else {
        base_ms
    }
}

/// The delay in milliseconds before the next attempt under `config`, after
/// `attempt` failed attempts in a row.
pub fn reconnect_delay(config: &AgentConfig, attempt: u32, sample: u32) -> (ms: u128)
    ensures
        ms as nat == backoff_ms(
            config.reconnect_base_delay_secs as nat * 1000,
            config.reconnect_max_delay_secs as nat * 1000,
            attempt as nat,
            sample as nat,
        ),
        attempt == 0 ==> ms == 0,
        attempt >= 1 && config.reconnect_base_delay_secs <= config.reconnect_max_delay_secs
            ==> config.reconnect_base_delay_secs as nat * 1000 <= ms as nat
            <= config.reconnect_max_delay_secs as nat * 1000,
        attempt == 1 && config.reconnect_base_delay_secs <= config.reconnect_max_delay_secs ==> 3
            * (config.reconnect_base_delay_secs as nat * 1000) <= 4 * ms as nat <= 5 * (
        config.reconnect_base_delay_secs as nat * 1000),
{
    backoff_delay_ms(
        config.reconnect_base_delay_secs,
        config.reconnect_max_delay_secs,
        attempt,
        sample,
    )
}

} // verus!
