//! The retry schedule: attempt counting, the delay ladder, the cap and
//! the jitter bounds.

use push_service::retry::{
    jittered_sleep_ms, retry_after_failure, retry_start, RetryConfig, RetryState,
};

fn config(max_attempts: u32, initial: u64, max_delay: u64, multiplier: u64) -> RetryConfig {
    RetryConfig {
        max_attempts,
        initial_delay_ms: initial,
        max_delay_ms: max_delay,
        backoff_multiplier: multiplier,
    }
}

/// Runs the schedule against an operation failing `failures` times, then
/// succeeding. Returns how often the operation ran and the delays the
/// schedule asked for (before jitter).
fn run_schedule(cfg: &RetryConfig, failures: u32) -> (u32, Vec<u64>) {
    let mut state = retry_start(cfg);
    let mut attempts: u32 = 0;
    let mut delays: Vec<u64> = Vec::new();
    loop {
        attempts += 1;
        let ok = attempts > failures;
        if ok {
            return (attempts, delays);
        }
        match retry_after_failure(cfg, &state) {
            None => return (attempts, delays),
            Some(next) => {
                delays.push(state.delay_ms);
                state = next;
            }
        }
    }
}

#[test]
fn successful_operation_no_retry() {
    let cfg = config(3, 100, 1000, 2);
    let (attempts, delays) = run_schedule(&cfg, 0);
    assert_eq!(attempts, 1, "Should only attempt once");
    assert!(delays.is_empty());
}

#[test]
fn transient_failures_are_retried() {
    let cfg = config(5, 100, 1000, 2);
    let (attempts, _) = run_schedule(&cfg, 2);
    assert_eq!(attempts, 3, "Should retry 2 times then succeed");
}

#[test]
fn permanent_failure_exhausts_retries() {
    let cfg = config(3, 50, 500, 2);
    let (attempts, _) = run_schedule(&cfg, u32::MAX);
    assert_eq!(attempts, 3, "Should attempt exactly max_attempts times");
}

#[test]
fn exponential_backoff_doubles_delays() {
    let cfg = config(4, 100, 1000, 2);
    let (_, delays) = run_schedule(&cfg, u32::MAX);
    assert_eq!(delays, vec![100, 200, 400]);
}

#[test]
fn max_delay_cap_respected() {
    let cfg = config(6, 100, 300, 2);
    let (_, delays) = run_schedule(&cfg, u32::MAX);
    assert_eq!(delays, vec![100, 200, 300, 300, 300]);
}

#[test]
fn jitter_stays_within_a_tenth() {
    for _ in 0..200 {
        let slept = jittered_sleep_ms(1000);
        assert!(
            (900..=1100).contains(&slept),
            "Delay should be between 900 and 1100 (actual: {})",
            slept
        );
    }
}

#[test]
fn jitter_draws_vary() {
    let mut min_seen = u64::MAX;
    let mut max_seen = 0u64;
    for _ in 0..300 {
        let slept = jittered_sleep_ms(100000);
        min_seen = min_seen.min(slept);
        max_seen = max_seen.max(slept);
    }
    assert!(
        max_seen > min_seen,
        "Delays should vary due to jitter (min: {}, max: {})",
        min_seen,
        max_seen
    );
}

#[test]
fn retry_state_independence() {
    let cfg = config(3, 50, 500, 2);
    let (attempts1, _) = run_schedule(&cfg, u32::MAX);
    let (attempts2, _) = run_schedule(&cfg, 2);
    assert_eq!(attempts1, 3, "Operation 1 should exhaust its attempts");
    assert_eq!(attempts2, 3, "Operation 2 should make 3 attempts");
    let fresh: RetryState = retry_start(&cfg);
    assert_eq!(fresh.attempt, 1);
    assert_eq!(fresh.delay_ms, 50);
}

#[test]
fn zero_max_attempts_gives_up_after_first_run() {
    let cfg = config(0, 50, 500, 2);
    let (attempts, _) = run_schedule(&cfg, u32::MAX);
    assert_eq!(attempts, 1);
}
