//! The circuit breaker's state machine, driven through the trip,
//! reject, trial and recovery phases.

use push_service::circuit::{
    circuit_on_failure, circuit_on_request, circuit_on_success, CircuitBreaker,
    CircuitBreakerConfig, CircuitSnapshot, CircuitState,
};

fn config() -> CircuitBreakerConfig {
    CircuitBreakerConfig { failure_threshold: 3, timeout_seconds: 60, success_threshold: 2 }
}

#[test]
fn breaker_trips_after_threshold_failures() {
    let cfg = config();
    let mut snap = CircuitSnapshot::initial();
    // Two failures: still closed, counting.
    snap = circuit_on_failure(&snap, 1000, &cfg);
    assert_eq!(snap.state, CircuitState::Closed);
    assert_eq!(snap.failures, 1);
    snap = circuit_on_failure(&snap, 1001, &cfg);
    assert_eq!(snap.state, CircuitState::Closed);
    assert_eq!(snap.failures, 2);
    // The third failure opens the breaker, stamped with its time.
    snap = circuit_on_failure(&snap, 1002, &cfg);
    assert_eq!(snap.state, CircuitState::Open);
    assert_eq!(snap.opened_at, Some(1002));
}

#[test]
fn open_breaker_rejects_until_timeout() {
    let cfg = config();
    let mut snap = CircuitSnapshot::initial();
    for t in 0..3 {
        snap = circuit_on_failure(&snap, 1000 + t, &cfg);
    }
    assert_eq!(snap.state, CircuitState::Open);
    // Before the timeout: rejected, record unchanged.
    let (same, proceed) = circuit_on_request(&snap, 1030, &cfg);
    assert!(!proceed);
    assert_eq!(same, snap);
    // At the timeout: one trial call is admitted, half-open.
    let (half, proceed2) = circuit_on_request(&snap, 1062, &cfg);
    assert!(proceed2);
    assert_eq!(half.state, CircuitState::HalfOpen);
}

#[test]
fn successes_close_the_breaker_and_clear_counters() {
    let cfg = config();
    let mut snap = CircuitSnapshot::initial();
    for t in 0..3 {
        snap = circuit_on_failure(&snap, 1000 + t, &cfg);
    }
    let (mut snap, proceed) = circuit_on_request(&snap, 1100, &cfg);
    assert!(proceed);
    assert_eq!(snap.state, CircuitState::HalfOpen);
    snap = circuit_on_success(&snap, &cfg);
    assert_eq!(snap.state, CircuitState::HalfOpen);
    assert_eq!(snap.successes, 1);
    snap = circuit_on_success(&snap, &cfg);
    assert_eq!(snap.state, CircuitState::Closed);
    assert_eq!(snap.failures, 0);
    assert_eq!(snap.successes, 0);
    assert_eq!(snap.opened_at, None);
}

#[test]
fn failed_trial_reopens_at_once() {
    let cfg = config();
    let mut snap = CircuitSnapshot::initial();
    for t in 0..3 {
        snap = circuit_on_failure(&snap, 1000 + t, &cfg);
    }
    let (snap, _) = circuit_on_request(&snap, 1100, &cfg);
    assert_eq!(snap.state, CircuitState::HalfOpen);
    let snap = circuit_on_failure(&snap, 1101, &cfg);
    assert_eq!(snap.state, CircuitState::Open);
    assert_eq!(snap.opened_at, Some(1101));
}

#[test]
fn closed_success_resets_failure_count() {
    let cfg = config();
    let mut snap = CircuitSnapshot::initial();
    snap = circuit_on_failure(&snap, 10, &cfg);
    snap = circuit_on_failure(&snap, 11, &cfg);
    assert_eq!(snap.failures, 2);
    snap = circuit_on_success(&snap, &cfg);
    assert_eq!(snap.state, CircuitState::Closed);
    assert_eq!(snap.failures, 0);
}

#[test]
fn state_labels_round_trip() {
    assert_eq!(CircuitState::Closed.as_str(), "closed");
    assert_eq!(CircuitState::Open.as_str(), "open");
    assert_eq!(CircuitState::HalfOpen.as_str(), "half_open");
    assert_eq!(CircuitState::from_string("open"), CircuitState::Open);
    assert_eq!(CircuitState::from_string("half_open"), CircuitState::HalfOpen);
    assert_eq!(CircuitState::from_string("closed"), CircuitState::Closed);
    assert_eq!(CircuitState::from_string("garbage"), CircuitState::Closed);
}

#[test]
fn breaker_cache_keys() {
    let cfg = config();
    let breaker = CircuitBreaker::new("fcm".to_string(), cfg);
    assert_eq!(breaker.state_key(), "circuit:fcm:state");
    assert_eq!(breaker.failures_key(), "circuit:fcm:failures");
    assert_eq!(breaker.successes_key(), "circuit:fcm:successes");
    assert_eq!(breaker.opened_at_key(), "circuit:fcm:opened_at");
}

use push_service::processor::{
    FetchOutcome, ProcAction, ProcEvent, ProcPhase, ProcessError, Processor, SendOutcome,
};
use push_service::idempotency::IdempotencyStore;
use push_service::json::JsonValue;
use push_service::message::NotificationMessage;
use push_service::template::{Template, TemplateContent};

fn trip_message(n: u32) -> NotificationMessage {
    NotificationMessage {
        trace_id: format!("trace_{}", n),
        idempotency_key: format!("trip_{}", n),
        user_id: "user".to_string(),
        notification_type: "push".to_string(),
        template_code: "WELCOME".to_string(),
        variables: vec![],
        metadata: vec![(
            "push_token".to_string(),
            JsonValue::Text("abcdefghij0123456789".to_string()),
        )],
    }
}

fn static_template() -> Template {
    Template {
        id: "tpl".to_string(),
        code: "WELCOME".to_string(),
        template_type: "push".to_string(),
        language: "en".to_string(),
        version: 1,
        content: TemplateContent { title: "Hello".to_string(), body: "There".to_string() },
        variables: vec![],
    }
}

/// Runs one message; the gateway behaves per the breaker snapshot: a
/// rejected call yields `CircuitOpen`, otherwise `gateway_ok` decides,
/// and the snapshot is updated as the worker would.
fn run_with_breaker(
    store: &mut IdempotencyStore,
    snap: &mut CircuitSnapshot,
    cfg: &CircuitBreakerConfig,
    now: u64,
    n: u32,
    gateway_ok: bool,
) -> (Result<push_service::processor::ProcessOutcome, ProcessError>, bool) {
    let mut gateway_called = false;
    let (mut proc_, first) = Processor::start(trip_message(n));
    let mut action = Some(first);
    while let Some(a) = action {
        let event = match a {
            ProcAction::CheckIdempotency { key } => {
                ProcEvent::IdempotencyChecked(Ok(store.check(&key, now)))
            }
            ProcAction::MarkProcessing { key } => {
                store.mark_processing(&key, now);
                ProcEvent::Marked(Ok(()))
            }
            ProcAction::MarkSent { key } => {
                store.mark_sent(&key, now);
                ProcEvent::Marked(Ok(()))
            }
            ProcAction::MarkFailed { key } => {
                store.mark_failed(&key, now);
                ProcEvent::Marked(Ok(()))
            }
            ProcAction::WriteAudit { .. } => ProcEvent::AuditWritten(Ok(())),
            ProcAction::FetchTemplate { .. } => {
                ProcEvent::TemplateFetched(FetchOutcome::Fetched(static_template()))
            }
            ProcAction::SendPush { .. } => {
                let (next, proceed) = circuit_on_request(snap, now, cfg);
                *snap = next;
                if !proceed {
                    ProcEvent::PushSent(SendOutcome::CircuitOpen)
                } else {
                    gateway_called = true;
                    if gateway_ok {
                        *snap = circuit_on_success(snap, cfg);
                        ProcEvent::PushSent(SendOutcome::Sent)
                    } else {
                        *snap = circuit_on_failure(snap, now, cfg);
                        ProcEvent::PushSent(SendOutcome::Failed(
                            "FCM request failed: 500".to_string(),
                        ))
                    }
                }
            }
        };
        action = proc_.step(event);
    }
    let result = match proc_.phase {
        ProcPhase::Done { result } => result,
        _ => panic!("run did not finish"),
    };
    (result, gateway_called)
}

#[test]
fn breaker_trip_across_messages() {
    let cfg = config();
    let mut store = IdempotencyStore::new(3600);
    let mut snap = CircuitSnapshot::initial();
    // F messages fail at the gateway; the F-th opens the breaker.
    for n in 0..3 {
        let (result, called) = run_with_breaker(&mut store, &mut snap, &cfg, 1000, n, false);
        assert!(called);
        assert!(matches!(result, Err(ProcessError::PushFailed(_))));
    }
    assert_eq!(snap.state, CircuitState::Open);
    // The next message is rejected without calling the gateway.
    let (result, called) = run_with_breaker(&mut store, &mut snap, &cfg, 1001, 10, true);
    assert!(!called);
    match &result {
        Err(ProcessError::CircuitOpen(dep)) => assert_eq!(dep, "fcm"),
        _ => panic!("the breaker should have rejected the call"),
    }
    // After the timeout, trial calls succeed and the breaker closes
    // after success_threshold of them.
    let (result, called) = run_with_breaker(&mut store, &mut snap, &cfg, 1100, 11, true);
    assert!(called);
    assert!(result.is_ok());
    assert_eq!(snap.state, CircuitState::HalfOpen);
    let (result, called) = run_with_breaker(&mut store, &mut snap, &cfg, 1101, 12, true);
    assert!(called);
    assert!(result.is_ok());
    assert_eq!(snap.state, CircuitState::Closed);
    assert_eq!(snap.failures, 0);
    assert_eq!(snap.successes, 0);
}

#[test]
fn store_write_failure_ends_the_run() {
    let (mut proc_, first) = Processor::start(trip_message(99));
    let mut action = Some(first);
    let mut steps = 0;
    while let Some(a) = action {
        steps += 1;
        assert!(steps < 10);
        let event = match a {
            ProcAction::CheckIdempotency { .. } => ProcEvent::IdempotencyChecked(Ok(
                push_service::status::IdempotencyStatus::NotFound,
            )),
            ProcAction::MarkProcessing { .. } => {
                ProcEvent::Marked(Err("connection refused".to_string()))
            }
            _ => panic!("no further action expected after a failed mark"),
        };
        action = proc_.step(event);
    }
    match proc_.phase {
        ProcPhase::Done { result: Err(ProcessError::StoreWrite(e)) } => {
            assert_eq!(e, "connection refused")
        }
        _ => panic!("a failed processing mark must end the run"),
    }
}
