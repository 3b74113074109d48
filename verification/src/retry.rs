//! Retry with exponential backoff and jitter.
//!
//! An operation is attempted up to `max_attempts` times. The first
//! attempt runs at once; after the `i`-th failure the caller sleeps the
//! current delay with a jitter of up to a tenth either way, and the delay
//! grows by `backoff_multiplier`, capped at `max_delay_ms`. This module
//! holds the schedule; the caller performs the attempts and the sleeps.

use vstd::prelude::*;

use vstd::arithmetic::power::pow;

use crate::config::Config;

verus! {

/// The retry envelope's parameters.
#[derive(Clone, Copy, PartialEq, Eq, Structural, Debug)]
pub struct RetryConfig {
    pub max_attempts: u32,
    pub initial_delay_ms: u64,
    pub max_delay_ms: u64,
    pub backoff_multiplier: u64,
}

impl RetryConfig {
    /// The retry parameters of a worker configuration.
    pub fn from_config(config: &Config) -> (r: Self)
        ensures
            r == (RetryConfig {
                max_attempts: config.max_retry_attempts,
                initial_delay_ms: config.initial_retry_delay_ms,
                max_delay_ms: config.max_retry_delay_ms,
                backoff_multiplier: config.retry_backoff_multiplier,
            }),
    {
        Self {
            max_attempts: config.max_retry_attempts,
            initial_delay_ms: config.initial_retry_delay_ms,
            max_delay_ms: config.max_retry_delay_ms,
            backoff_multiplier: config.retry_backoff_multiplier,
        }
    }
}

/// Where a retry loop stands: which attempt is next, and the delay to
/// sleep if it fails.
#[derive(Clone, Copy, PartialEq, Eq, Structural, Debug)]
pub struct RetryState {
    pub attempt: u32,
    pub delay_ms: u64,
}

/// The smaller of two integers.
pub open spec fn min_int(a: int, b: int) -> int {
    if a < b {
        a
    } else {
        b
    }
}

/// The state a retry loop starts in.
pub open spec fn spec_retry_start(config: RetryConfig) -> RetryState {
    RetryState { attempt: 1u32, delay_ms: config.initial_delay_ms }
}

/// The state after one more failure, or `None` when the attempts are
/// exhausted: the next delay is the current one times the multiplier,
/// capped at `max_delay_ms`.
pub open spec fn spec_after_failure(config: RetryConfig, s: RetryState) -> Option<RetryState> {
    if s.attempt >= config.max_attempts {
        Option::None
    } else {
        Option::Some(
            RetryState {
                attempt: (s.attempt + 1) as u32,
                delay_ms: min_int(
                    s.delay_ms * config.backoff_multiplier,
                    config.max_delay_ms as int,
                ) as u64,
            },
        )
    }
}

/// The delay slept after the `i`-th failed attempt.
pub open spec fn nominal_delay(config: RetryConfig, i: nat) -> int
    decreases i,
{
    if i <= 1 {
        config.initial_delay_ms as int
    } else {
        min_int(
            nominal_delay(config, (i - 1) as nat) * config.backoff_multiplier,
            config.max_delay_ms as int,
        )
    }
}

/// Begins a retry loop.
pub fn retry_start(config: &RetryConfig) -> (s: RetryState)
    ensures
        s == spec_retry_start(*config),
{
    RetryState { attempt: 1, delay_ms: config.initial_delay_ms }
}

/// Advances the loop past a failed attempt: `None` means the attempts
/// are exhausted and the operation's error is final.
pub fn retry_after_failure(config: &RetryConfig, s: &RetryState) -> (r: Option<RetryState>)
    ensures
        r == spec_after_failure(*config, *s),
        r.is_some() <==> s.attempt < config.max_attempts,
{
    if s.attempt >= config.max_attempts {
        None
    } else {
        proof {
            let a = s.delay_ms as int;
            let b = config.backoff_multiplier as int;
            assert(a * b <= u64::MAX as int * u64::MAX as int) by (nonlinear_arith)
                requires
                    0 <= a <= u64::MAX as int,
                    0 <= b <= u64::MAX as int,
            ;
        }
        let prod: u128 = (s.delay_ms as u128) * (config.backoff_multiplier as u128);
        let next_delay: u64 = if prod > (config.max_delay_ms as u128) {
            config.max_delay_ms
        } else {
            prod as u64
        };
        proof {
            assert(next_delay as int == min_int(
                s.delay_ms * config.backoff_multiplier,
                config.max_delay_ms as int,
            ));
        }
        Some(RetryState { attempt: s.attempt + 1, delay_ms: next_delay })
    }
}

/// A delay of `d` with a jitter of `j` thousandths applied.
pub open spec fn jittered(d: int, j: int) -> int {
    d * (1000 + j) / 1000
}

/// `x` capped at the largest `u64`.
pub open spec fn cap_u64(x: int) -> int {
    if x > u64::MAX {
        u64::MAX as int
    } else {
        x
    }
}

/// Relies on rand::random_range: the result lies within the given
/// closed range.
#[verifier::external_body]
fn draw_jitter_per_mille() -> (j: i64)
    ensures
        -100 <= j <= 100,
{
    rand::random_range(-100i64..=100i64)
}

/// Applies a jitter of `j` thousandths to a delay.
fn apply_jitter(delay_ms: u64, j: i64) -> (r: u64)
    requires
        -100 <= j <= 100,
    ensures
        r as int == cap_u64(jittered(delay_ms as int, j as int)),
{
    let factor: u128 = (1000 + j) as u128;
    proof {
        let a = delay_ms as int;
        assert(a * (1000 + j as int) <= u64::MAX as int * 1100) by (nonlinear_arith)
            requires
                0 <= a <= u64::MAX as int,
                900 <= 1000 + j as int <= 1100,
        ;
    }
    let prod: u128 = (delay_ms as u128) * factor;
    let q: u128 = prod / 1000;
    if q > u64::MAX as u128 {
        u64::MAX
    } else {
        q as u64
    }
}

/// The duration to sleep before the next attempt: the current delay with
/// a random jitter of up to a tenth either way.
pub fn jittered_sleep_ms(delay_ms: u64) -> (r: u64)
    ensures
        exists|j: int|
            -100 <= j <= 100 && r as int == cap_u64(jittered(delay_ms as int, j)),
{
    let j = draw_jitter_per_mille();
    let r = apply_jitter(delay_ms, j);
    proof {
        assert(-100 <= j as int <= 100 && r as int == cap_u64(jittered(delay_ms as int, j as int)));
    }
    r
}

/// How many times the operation runs, when its `k`-th run succeeds
/// exactly if `outcomes[k]`: the loop stops at the first success, or
/// after the attempt on which the schedule gives up.
pub open spec fn invocations(config: RetryConfig, outcomes: Seq<bool>, s: RetryState) -> int
    decreases outcomes.len(),
{
    if outcomes.len() == 0 {
        0
    } else if outcomes[0] {
        1
    } else {
        match spec_after_failure(config, s) {
            Option::None => 1,
            Option::Some(s2) => 1 + invocations(config, outcomes.skip(1), s2),
        }
    }
}

/// From a state about to make attempt `a`, at most
/// `max_attempts - a + 1` more runs happen, and exactly that many when
/// every run fails and the outcomes do not run out early.
proof fn lemma_invocations_from(config: RetryConfig, outcomes: Seq<bool>, s: RetryState)
    requires
        s.attempt <= config.max_attempts,
    ensures
        invocations(config, outcomes, s) <= config.max_attempts - s.attempt + 1,
        ((forall|k: int| 0 <= k < outcomes.len() ==> !outcomes[k]) && outcomes.len()
            >= config.max_attempts - s.attempt + 1) ==> invocations(config, outcomes, s)
            == config.max_attempts - s.attempt + 1,
    decreases outcomes.len(),
{
    if outcomes.len() == 0 {
    } else if outcomes[0] {
    } else {
        match spec_after_failure(config, s) {
            Option::None => {},
            Option::Some(s2) => {
                lemma_invocations_from(config, outcomes.skip(1), s2);
                assert(forall|k: int| 0 <= k < outcomes.skip(1).len() ==> outcomes.skip(1)[k]
                    == outcomes[k + 1]);
            },
        }
    }
}

/// The retry loop runs its operation at most `max_attempts` times, and
/// exactly `max_attempts` times when every run fails.
pub proof fn lemma_retry_count(config: RetryConfig, outcomes: Seq<bool>)
    requires
        config.max_attempts >= 1,
    ensures
        invocations(config, outcomes, spec_retry_start(config)) <= config.max_attempts,
        ((forall|k: int| 0 <= k < outcomes.len() ==> !outcomes[k]) && outcomes.len()
            >= config.max_attempts) ==> invocations(config, outcomes, spec_retry_start(config))
            == config.max_attempts,
{
    lemma_invocations_from(config, outcomes, spec_retry_start(config));
}

/// The delay after the `i`-th failure is
/// `min(initial * multiplier^(i-1), max_delay)`.
pub proof fn lemma_nominal_delay_closed_form(config: RetryConfig, i: nat)
    requires
        i >= 1,
        config.initial_delay_ms <= config.max_delay_ms,
        config.backoff_multiplier >= 1,
    ensures
        nominal_delay(config, i) == min_int(
            config.initial_delay_ms * pow(config.backoff_multiplier as int, (i - 1) as nat),
            config.max_delay_ms as int,
        ),
    decreases i,
{
    let m = config.backoff_multiplier as int;
    let init = config.initial_delay_ms as int;
    let cap = config.max_delay_ms as int;
    if i == 1 {
        assert(pow(m, 0) == 1) by {
            vstd::arithmetic::power::lemma_pow0(m);
        }
    } else {
        lemma_nominal_delay_closed_form(config, (i - 1) as nat);
        let p = pow(m, (i - 2) as nat);
        assert(pow(m, (i - 1) as nat) == p * m) by {
            vstd::arithmetic::power::lemma_pow1(m);
            vstd::arithmetic::power::lemma_pow_adds(m, (i - 2) as nat, 1);
        }
        assert(p >= 1) by {
            vstd::arithmetic::power::lemma_pow_positive(m, (i - 2) as nat);
        }
        if init * p <= cap {
            assert(nominal_delay(config, i) == min_int(init * p * m, cap));
            assert(init * p * m == init * (p * m)) by (nonlinear_arith);
        } else {
            assert(nominal_delay(config, i) == min_int(cap * m, cap));
            assert(cap * m >= cap) by (nonlinear_arith)
                requires
                    m >= 1,
                    cap >= 0,
            ;
            assert(init * (p * m) >= init * p) by (nonlinear_arith)
                requires
                    m >= 1,
                    init >= 0,
                    p >= 1,
            ;
            assert(nominal_delay(config, i) == cap);
            assert(min_int(init * (p * m), cap) == cap);
        }
    }
}

/// The jittered delay lies within a tenth of the nominal delay, up to
/// one unit of rounding: with `d = min(initial * multiplier^(i-1),
/// max_delay)`, the sleep after the `i`-th failure lies in
/// `[0.9 d - 1, 1.1 d]`.
pub proof fn lemma_backoff_shape(config: RetryConfig, i: nat, j: int)
    requires
        i >= 1,
        config.initial_delay_ms <= config.max_delay_ms,
        config.backoff_multiplier >= 1,
        -100 <= j <= 100,
    ensures
        1000 * jittered(nominal_delay(config, i), j) <= 1100 * min_int(
            config.initial_delay_ms * pow(config.backoff_multiplier as int, (i - 1) as nat),
            config.max_delay_ms as int,
        ),
        1000 * jittered(nominal_delay(config, i), j) + 999 >= 900 * min_int(
            config.initial_delay_ms * pow(config.backoff_multiplier as int, (i - 1) as nat),
            config.max_delay_ms as int,
        ),
{
    lemma_nominal_delay_closed_form(config, i);
    let d = nominal_delay(config, i);
    assert(d >= 0) by {
        lemma_nominal_delay_nonneg(config, i);
    }
    let x = d * (1000 + j);
    vstd::arithmetic::div_mod::lemma_fundamental_div_mod(x, 1000);
    assert(x >= 900 * d && x <= 1100 * d) by (nonlinear_arith)
        requires
            d >= 0,
            -100 <= j <= 100,
            x == d * (1000 + j),
    ;
}

/// Every nominal delay is nonnegative.
proof fn lemma_nominal_delay_nonneg(config: RetryConfig, i: nat)
    ensures
        nominal_delay(config, i) >= 0,
    decreases i,
{
    if i <= 1 {
    } else {
        lemma_nominal_delay_nonneg(config, (i - 1) as nat);
        assert(nominal_delay(config, (i - 1) as nat) * config.backoff_multiplier >= 0) by (
        nonlinear_arith)
            requires
                nominal_delay(config, (i - 1) as nat) >= 0,
                config.backoff_multiplier >= 0,
        ;
    }
}

} // verus!
