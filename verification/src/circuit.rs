//! Per-dependency circuit breaker.
//!
//! The breaker's record lives in a shared cache so every worker sees the
//! same state; this module holds the state machine itself. The caller
//! reads a snapshot of the record, asks `on_request` whether the call may
//! proceed, performs it, and writes back the snapshot returned by
//! `on_success` or `on_failure`. Every transition of the table -- Closed
//! counting failures up to a threshold, Open rejecting until a timeout,
//! HalfOpen counting successes back to Closed -- is stated in the
//! contracts and proved below.

use vstd::prelude::*;

verus! {

/// The breaker's position.
#[derive(Clone, Copy, PartialEq, Eq, Structural, Debug)]
pub enum CircuitState {
    Closed,
    Open,
    HalfOpen,
}

impl CircuitState {
    /// Reads a cached label back into a state; anything unknown reads as
    /// `Closed`, as does an absent entry.
    pub fn from_string(s: &str) -> (r: CircuitState)
        ensures
            r == CircuitState::label_state(s@),
    {
        if crate::text::str_eq(s, "open") {
            CircuitState::Open
        } else if crate::text::str_eq(s, "half_open") {
            CircuitState::HalfOpen
        } else {
            CircuitState::Closed
        }
    }

    /// The state a cached label denotes.
    pub open spec fn label_state(s: Seq<char>) -> CircuitState {
        if s == "open"@ {
            CircuitState::Open
        } else if s == "half_open"@ {
            CircuitState::HalfOpen
        } else {
            CircuitState::Closed
        }
    }

    /// The label under which this state is cached.
    pub fn as_str(&self) -> (r: &'static str)
        ensures
            r@ == self.label(),
    {
        match self {
            CircuitState::Closed => "closed",
            CircuitState::Open => "open",
            CircuitState::HalfOpen => "half_open",
        }
    }

    /// The label of each state.
    pub open spec fn label(self) -> Seq<char> {
        match self {
            CircuitState::Closed => "closed"@,
            CircuitState::Open => "open"@,
            CircuitState::HalfOpen => "half_open"@,
        }
    }
}

/// The thresholds and timeout a breaker is configured with.
#[derive(Clone, Copy, PartialEq, Eq, Structural, Debug)]
pub struct CircuitBreakerConfig {
    /// Consecutive failures that open the breaker.
    pub failure_threshold: u32,
    /// Seconds the breaker stays open before a trial call.
    pub timeout_seconds: u64,
    /// Consecutive trial successes that close the breaker again.
    pub success_threshold: u32,
}

/// One dependency's record as read from the shared cache: absence of the
/// state entry reads as `Closed`, absent counters as zero.
#[derive(Clone, Copy, PartialEq, Eq, Structural, Debug)]
pub struct CircuitSnapshot {
    pub state: CircuitState,
    pub failures: u32,
    pub successes: u32,
    pub opened_at: Option<u64>,
}

impl CircuitSnapshot {
    /// The record of a dependency nothing has been recorded for.
    pub fn initial() -> (r: CircuitSnapshot)
        ensures
            r == (CircuitSnapshot {
                state: CircuitState::Closed,
                failures: 0u32,
                successes: 0u32,
                opened_at: None::<u64>,
            }),
    {
        CircuitSnapshot { state: CircuitState::Closed, failures: 0, successes: 0, opened_at: None }
    }
}

/// Whether an open breaker's timeout has elapsed, so that a trial call is
/// due.
pub open spec fn reset_due(snap: CircuitSnapshot, now: u64, config: CircuitBreakerConfig) -> bool {
    match snap.opened_at {
        Option::Some(t) => now >= t + config.timeout_seconds,
        Option::None => false,
    }
}

/// The record after asking to call, and whether the call may proceed.
pub open spec fn spec_on_request(snap: CircuitSnapshot, now: u64, config: CircuitBreakerConfig)
    -> (CircuitSnapshot, bool) {
    if snap.state == CircuitState::Open {
        if reset_due(snap, now, config) {
            (CircuitSnapshot { state: CircuitState::HalfOpen, ..snap }, true)
        } else {
            (snap, false)
        }
    } else {
        (snap, true)
    }
}

/// The record after a successful call.
pub open spec fn spec_on_success(snap: CircuitSnapshot, config: CircuitBreakerConfig)
    -> CircuitSnapshot {
    if snap.state == CircuitState::HalfOpen {
        let bumped = if snap.successes == u32::MAX {
            snap.successes
        } else {
            (snap.successes + 1) as u32
        };
        if bumped >= config.success_threshold {
            CircuitSnapshot {
                state: CircuitState::Closed,
                failures: 0,
                successes: 0,
                opened_at: Option::None,
            }
        } else {
            CircuitSnapshot { successes: bumped, ..snap }
        }
    } else if snap.state == CircuitState::Closed {
        CircuitSnapshot { failures: 0, ..snap }
    } else {
        snap
    }
}

/// The record after a failed call at time `now`.
pub open spec fn spec_on_failure(snap: CircuitSnapshot, now: u64, config: CircuitBreakerConfig)
    -> CircuitSnapshot {
    if snap.state == CircuitState::HalfOpen {
        CircuitSnapshot { state: CircuitState::Open, opened_at: Option::Some(now), ..snap }
    } else {
        let bumped = if snap.failures == u32::MAX {
            snap.failures
        } else {
            (snap.failures + 1) as u32
        };
        if bumped >= config.failure_threshold {
            CircuitSnapshot {
                state: CircuitState::Open,
                failures: bumped,
                opened_at: Option::Some(now),
                ..snap
            }
        } else {
            CircuitSnapshot { failures: bumped, ..snap }
        }
    }
}

/// Decides whether a call may go ahead: an open breaker rejects until its
/// timeout has elapsed, then admits one trial call in the HalfOpen state;
/// otherwise the call proceeds and the record is unchanged.
pub fn circuit_on_request(snap: &CircuitSnapshot, now: u64, config: &CircuitBreakerConfig) -> (r:
    (CircuitSnapshot, bool))
    ensures
        r == spec_on_request(*snap, now, *config),
        !r.1 ==> r.0 == *snap,
{
    match snap.state {
        CircuitState::Open => {
            let due = match snap.opened_at {
                Option::Some(t) => now >= t && now - t >= config.timeout_seconds,
                Option::None => false,
            };
            if due {
                (CircuitSnapshot { state: CircuitState::HalfOpen, ..*snap }, true)
            } else {
                (*snap, false)
            }
        },
        _ => (*snap, true),
    }
}

/// Records a successful call: a HalfOpen breaker counts it and closes,
/// clearing every counter, once the success threshold is reached; a
/// Closed breaker resets its failure counter; an Open breaker is
/// unchanged.
pub fn circuit_on_success(snap: &CircuitSnapshot, config: &CircuitBreakerConfig) -> (r:
    CircuitSnapshot)
    ensures
        r == spec_on_success(*snap, *config),
{
    match snap.state {
        CircuitState::HalfOpen => {
            let bumped = if snap.successes == u32::MAX {
                snap.successes
            } else {
                snap.successes + 1
            };
            if bumped >= config.success_threshold {
                CircuitSnapshot {
                    state: CircuitState::Closed,
                    failures: 0,
                    successes: 0,
                    opened_at: None,
                }
            } else {
                CircuitSnapshot { successes: bumped, ..*snap }
            }
        },
        CircuitState::Closed => CircuitSnapshot { failures: 0, ..*snap },
        CircuitState::Open => *snap,
    }
}

/// Records a failed call: a HalfOpen breaker reopens at once; otherwise
/// the failure counter grows and, reaching the failure threshold, opens
/// the breaker and stamps the opening time.
pub fn circuit_on_failure(snap: &CircuitSnapshot, now: u64, config: &CircuitBreakerConfig) -> (r:
    CircuitSnapshot)
    ensures
        r == spec_on_failure(*snap, now, *config),
{
    match snap.state {
        CircuitState::HalfOpen => CircuitSnapshot {
            state: CircuitState::Open,
            opened_at: Some(now),
            ..*snap
        },
        _ => {
            let bumped = if snap.failures == u32::MAX {
                snap.failures
            } else {
                snap.failures + 1
            };
            if bumped >= config.failure_threshold {
                CircuitSnapshot {
                    state: CircuitState::Open,
                    failures: bumped,
                    opened_at: Some(now),
                    ..*snap
                }
            } else {
                CircuitSnapshot { failures: bumped, ..*snap }
            }
        },
    }
}

/// The record after `n` consecutive failures, the `k`-th at time
/// `times[k]`.
pub open spec fn after_failures(
    snap: CircuitSnapshot,
    times: Seq<u64>,
    config: CircuitBreakerConfig,
) -> CircuitSnapshot
    decreases times.len(),
{
    if times.len() == 0 {
        snap
    } else {
        after_failures(spec_on_failure(snap, times[0], config), times.skip(1), config)
    }
}

/// The record after `n` consecutive successes.
pub open spec fn after_successes(
    snap: CircuitSnapshot,
    n: nat,
    config: CircuitBreakerConfig,
) -> CircuitSnapshot
    decreases n,
{
    if n == 0 {
        snap
    } else {
        after_successes(spec_on_success(snap, config), (n - 1) as nat, config)
    }
}

/// From a Closed record with `f` failures already counted, consecutive
/// failures keep the breaker Closed while the counter stays under the
/// threshold, and the failure that reaches the threshold opens it,
/// stamped with that failure's time.
pub proof fn lemma_failures_open_breaker(
    snap: CircuitSnapshot,
    times: Seq<u64>,
    config: CircuitBreakerConfig,
)
    requires
        snap.state == CircuitState::Closed,
        config.failure_threshold >= 1,
        snap.failures < config.failure_threshold,
        times.len() == config.failure_threshold - snap.failures,
        times.len() >= 1,
    ensures
        after_failures(snap, times, config).state == CircuitState::Open,
        after_failures(snap, times, config).opened_at == Option::Some(times.last()),
        after_failures(snap, times, config).failures == config.failure_threshold,
    decreases times.len(),
{
    let next = spec_on_failure(snap, times[0], config);
    if times.len() == 1 {
        assert(snap.failures + 1 == config.failure_threshold);
        assert(next.state == CircuitState::Open);
        assert(after_failures(next, times.skip(1), config) == next);
    } else {
        assert(snap.failures + 1 < config.failure_threshold);
        assert(next.state == CircuitState::Closed);
        assert(next.failures == snap.failures + 1);
        lemma_failures_open_breaker(next, times.skip(1), config);
        assert(times.skip(1).last() == times.last());
    }
}

/// While the breaker is Open and the timeout has not elapsed, a request
/// is rejected and the record is unchanged.
pub proof fn lemma_open_rejects(
    snap: CircuitSnapshot,
    now: u64,
    opened: u64,
    config: CircuitBreakerConfig,
)
    requires
        snap.state == CircuitState::Open,
        snap.opened_at == Option::Some(opened),
        now < opened + config.timeout_seconds,
    ensures
        spec_on_request(snap, now, config) == (snap, false),
{
}

/// Once the timeout has elapsed, the next request moves the breaker to
/// HalfOpen and the call proceeds as a trial.
pub proof fn lemma_open_admits_trial(
    snap: CircuitSnapshot,
    now: u64,
    opened: u64,
    config: CircuitBreakerConfig,
)
    requires
        snap.state == CircuitState::Open,
        snap.opened_at == Option::Some(opened),
        now >= opened + config.timeout_seconds,
    ensures
        spec_on_request(snap, now, config).1,
        spec_on_request(snap, now, config).0.state == CircuitState::HalfOpen,
{
}

/// From a HalfOpen record with no successes counted, reaching the
/// success threshold with consecutive successes closes the breaker and
/// clears every counter; short of the threshold it stays HalfOpen.
pub proof fn lemma_successes_close_breaker(
    snap: CircuitSnapshot,
    n: nat,
    config: CircuitBreakerConfig,
)
    requires
        snap.state == CircuitState::HalfOpen,
        config.success_threshold >= 1,
        snap.successes < config.success_threshold,
        n == config.success_threshold - snap.successes,
    ensures
        after_successes(snap, n, config) == (CircuitSnapshot {
            state: CircuitState::Closed,
            failures: 0u32,
            successes: 0u32,
            opened_at: None::<u64>,
        }),
    decreases n,
{
    let next = spec_on_success(snap, config);
    if n == 1 {
        assert(snap.successes + 1 == config.success_threshold);
        assert(after_successes(next, 0, config) == next);
    } else {
        assert(snap.successes + 1 < config.success_threshold);
        lemma_successes_close_breaker(next, (n - 1) as nat, config);
    }
}

/// A failed trial call reopens the breaker at once, stamped with the
/// failure's time.
pub proof fn lemma_halfopen_failure_reopens(
    snap: CircuitSnapshot,
    now: u64,
    config: CircuitBreakerConfig,
)
    requires
        snap.state == CircuitState::HalfOpen,
    ensures
        spec_on_failure(snap, now, config).state == CircuitState::Open,
        spec_on_failure(snap, now, config).opened_at == Option::Some(now),
{
}

/// A named breaker with its configuration; the record itself lives in
/// the shared cache under the keys this type derives from its name.
pub struct CircuitBreaker {
    pub service_name: String,
    pub config: CircuitBreakerConfig,
}

impl CircuitBreaker {
    /// A breaker for one dependency.
    pub fn new(service_name: String, config: CircuitBreakerConfig) -> (r: CircuitBreaker)
        ensures
            r.service_name@ == service_name@,
            r.config == config,
    {
        CircuitBreaker { service_name, config }
    }

    /// The cache key of the dependency's state label.
    pub fn state_key(&self) -> (r: String)
        ensures
            r@ == "circuit:"@ + self.service_name@ + ":state"@,
    {
        String::from_str("circuit:").concat(self.service_name.as_str()).concat(":state")
    }

    /// The cache key of the dependency's failure counter.
    pub fn failures_key(&self) -> (r: String)
        ensures
            r@ == "circuit:"@ + self.service_name@ + ":failures"@,
    {
        String::from_str("circuit:").concat(self.service_name.as_str()).concat(":failures")
    }

    /// The cache key of the dependency's success counter.
    pub fn successes_key(&self) -> (r: String)
        ensures
            r@ == "circuit:"@ + self.service_name@ + ":successes"@,
    {
        String::from_str("circuit:").concat(self.service_name.as_str()).concat(":successes")
    }

    /// The cache key of the moment the breaker last opened.
    pub fn opened_at_key(&self) -> (r: String)
        ensures
            r@ == "circuit:"@ + self.service_name@ + ":opened_at"@,
    {
        String::from_str("circuit:").concat(self.service_name.as_str()).concat(":opened_at")
    }
}

} // verus!
