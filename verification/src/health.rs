//! Health reporting: what each dependency's probe found, and how the
//! findings combine into one overall status.

use vstd::prelude::*;

use crate::config::Config;

verus! {

/// How well a dependency, or the whole worker, is doing.
#[derive(Clone, Copy, PartialEq, Eq, Structural, Debug)]
pub enum HealthStatus {
    Healthy,
    Degraded,
    Unhealthy,
}

/// One dependency's probe result.
pub struct ServiceHealth {
    pub status: HealthStatus,
    pub response_time_ms: Option<u64>,
    pub circuit_breaker: Option<String>,
    pub error: Option<String>,
}

impl ServiceHealth {
    /// A healthy probe with its round-trip time.
    pub fn healthy(response_time_ms: u64) -> (r: ServiceHealth)
        ensures
            r.status == HealthStatus::Healthy,
            r.response_time_ms == Some(response_time_ms),
            r.circuit_breaker.is_none(),
            r.error.is_none(),
    {
        ServiceHealth {
            status: HealthStatus::Healthy,
            response_time_ms: Some(response_time_ms),
            circuit_breaker: None,
            error: None,
        }
    }

    /// A failed probe with its error.
    pub fn unhealthy(error: String) -> (r: ServiceHealth)
        ensures
            r.status == HealthStatus::Unhealthy,
            r.response_time_ms.is_none(),
            r.circuit_breaker.is_none(),
            r.error == Some(error),
    {
        ServiceHealth {
            status: HealthStatus::Unhealthy,
            response_time_ms: None,
            circuit_breaker: None,
            error: Some(error),
        }
    }

    /// The same result, annotated with a circuit breaker's state label.
    pub fn with_circuit_breaker(self, state: String) -> (r: ServiceHealth)
        ensures
            r == (ServiceHealth { circuit_breaker: Some(state), ..self }),
    {
        ServiceHealth { circuit_breaker: Some(state), ..self }
    }

    /// A degraded result: the dependency's breaker stands open.
    pub fn degraded_circuit_open(circuit_state: String) -> (r: ServiceHealth)
        ensures
            r.status == HealthStatus::Degraded,
            r.response_time_ms.is_none(),
            r.circuit_breaker == Some(circuit_state),
            r.error.is_none(),
    {
        ServiceHealth {
            status: HealthStatus::Degraded,
            response_time_ms: None,
            circuit_breaker: Some(circuit_state),
            error: None,
        }
    }
}

/// Probes every dependency; the probes themselves run at the process
/// edge, and their findings are combined here.
pub struct HealthChecker {
    pub config: Config,
}

impl HealthChecker {
    /// A checker for the configured dependencies.
    pub fn new(config: Config) -> (r: HealthChecker)
        ensures
            r.config == config,
    {
        HealthChecker { config }
    }

    /// The worker's overall status: unhealthy if any probe is, else
    /// degraded if any probe is, else healthy.
    pub fn determine_overall_status(&self, checks: &Vec<(String, ServiceHealth)>) -> (r:
        HealthStatus)
        ensures
            r == HealthStatus::Unhealthy <==> (exists|i: int|
                0 <= i < checks@.len() && (#[trigger] checks@[i]).1.status
                    == HealthStatus::Unhealthy),
            r == HealthStatus::Degraded <==> ((exists|i: int|
                0 <= i < checks@.len() && (#[trigger] checks@[i]).1.status
                    == HealthStatus::Degraded) && (forall|i: int|
                0 <= i < checks@.len() ==> (#[trigger] checks@[i]).1.status
                    != HealthStatus::Unhealthy)),
    {
        let mut has_unhealthy = false;
        let mut has_degraded = false;
        let mut i: usize = 0;
        while i < checks.len()
            invariant
                i <= checks@.len(),
                has_unhealthy == (exists|k: int|
                    0 <= k < i && (#[trigger] checks@[k]).1.status == HealthStatus::Unhealthy),
                has_degraded == (exists|k: int|
                    0 <= k < i && (#[trigger] checks@[k]).1.status == HealthStatus::Degraded),
            decreases checks@.len() - i,
        {
            let st = checks[i].1.status;
            if st == HealthStatus::Unhealthy {
                has_unhealthy = true;
            }
            if st == HealthStatus::Degraded {
                has_degraded = true;
            }
            i += 1;
        }
        if has_unhealthy {
            HealthStatus::Unhealthy
        } else if has_degraded {
            HealthStatus::Degraded
        } else {
            HealthStatus::Healthy
        }
    }
}

} // verus!
