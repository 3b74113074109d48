//! Unit checks: token validation, rendering, the idempotency store's
//! TTL, statuses, the gateway envelope, audit rows, configuration and
//! health aggregation.

use push_service::audit::CreateAuditLog;
use push_service::config::Config;
use push_service::fcm::build_fcm_request;
use push_service::health::{HealthChecker, HealthStatus, ServiceHealth};
use push_service::idempotency::{cache_key, IdempotencyStore};
use push_service::json::JsonValue;
use push_service::response::ApiResponse;
use push_service::status::{IdempotencyStatus, NotificationStatus};
use push_service::template::{render_template, replace_variables, RenderError, Template,
    TemplateContent};
use push_service::validation::{validate_fcm_token, TokenError};

fn sample_config() -> Config {
    Config {
        rabbitmq_url: "amqp://localhost".to_string(),
        push_queue_name: "push".to_string(),
        failed_queue_name: "push_failed".to_string(),
        prefetch_count: 10,
        redis_url: "redis://localhost".to_string(),
        idempotency_ttl_seconds: 3600,
        database_url: "postgres://localhost".to_string(),
        template_service_url: "http://templates".to_string(),
        fcm_project_id: "proj".to_string(),
        circuit_breaker_failure_threshold: 5,
        circuit_breaker_timeout_seconds: 60,
        circuit_breaker_success_threshold: 2,
        max_retry_attempts: 3,
        initial_retry_delay_ms: 100,
        max_retry_delay_ms: 1000,
        retry_backoff_multiplier: 2,
        worker_concurrency: 8,
        server_port: 8080,
    }
}

#[test]
fn token_validation_accepts_well_formed() {
    assert!(validate_fcm_token("abcdefghij0123456789").is_ok());
    assert!(validate_fcm_token("abc_def-ghi:jkl.mno12345").is_ok());
}

#[test]
fn token_validation_names_each_rule() {
    assert_eq!(validate_fcm_token(""), Err(TokenError::Empty));
    assert_eq!(validate_fcm_token("short"), Err(TokenError::TooShort));
    assert_eq!(validate_fcm_token(&"a".repeat(201)), Err(TokenError::TooLong));
    assert_eq!(
        validate_fcm_token("abcdefghij01234567 89"),
        Err(TokenError::InvalidCharacters)
    );
    assert_eq!(validate_fcm_token(&"a".repeat(200)), Ok(()));
    assert_eq!(validate_fcm_token(&"a".repeat(20)), Ok(()));
}

#[test]
fn rendering_substitutes_all_occurrences() {
    let vars = vec![
        ("user_name".to_string(), JsonValue::Text("Alice".to_string())),
        ("n".to_string(), JsonValue::Number("3".to_string())),
        ("on".to_string(), JsonValue::Bool(true)),
        ("gone".to_string(), JsonValue::Null),
    ];
    let out = replace_variables("{{user_name}} has {{n}}, {{on}}: {{gone}}{{n}}", &vars);
    match out {
        Ok(s) => assert_eq!(s, "Alice has 3, true: 3"),
        Err(_) => panic!("rendering should succeed"),
    }
}

#[test]
fn rendering_rejects_unsupported_values() {
    let vars = vec![("bag".to_string(), JsonValue::Array(vec![]))];
    match replace_variables("x {{bag}}", &vars) {
        Err(RenderError::UnsupportedType(k)) => assert_eq!(k, "bag"),
        _ => panic!("an array value must be rejected"),
    }
}

#[test]
fn rendering_names_first_unresolved_placeholder() {
    let vars: Vec<(String, JsonValue)> = vec![];
    match replace_variables("Hi {{user_name}} and {{other}}", &vars) {
        Err(RenderError::MissingVariable(p)) => assert_eq!(p, "{{user_name}}"),
        _ => panic!("an unresolved placeholder must be reported"),
    }
}

#[test]
fn rendering_title_error_before_body() {
    let template = Template {
        id: "i".to_string(),
        code: "C".to_string(),
        template_type: "push".to_string(),
        language: "en".to_string(),
        version: 1,
        content: TemplateContent {
            title: "Hi {{a}}".to_string(),
            body: "Bye {{b}}".to_string(),
        },
        variables: vec![],
    };
    let vars: Vec<(String, JsonValue)> = vec![];
    match render_template(&template, &vars) {
        Err(RenderError::MissingVariable(p)) => assert_eq!(p, "{{a}}"),
        _ => panic!("the title's failure comes first"),
    }
}

#[test]
fn idempotency_marks_expire_after_ttl() {
    let mut store = IdempotencyStore::new(3600);
    store.mark_sent("k", 1000);
    assert_eq!(store.check("k", 1000), IdempotencyStatus::Sent);
    assert_eq!(store.check("k", 4600), IdempotencyStatus::Sent);
    assert_eq!(store.check("k", 4601), IdempotencyStatus::NotFound);
}

#[test]
fn idempotency_states_transition() {
    let mut store = IdempotencyStore::new(3600);
    assert_eq!(store.check("k", 0), IdempotencyStatus::NotFound);
    store.mark_processing("k", 0);
    assert_eq!(store.check("k", 1), IdempotencyStatus::Processing);
    store.mark_failed("k", 2);
    assert_eq!(store.check("k", 3), IdempotencyStatus::Failed);
    store.mark_sent("k", 4);
    assert_eq!(store.check("k", 5), IdempotencyStatus::Sent);
    assert_eq!(store.check("other", 5), IdempotencyStatus::NotFound);
}

#[test]
fn idempotency_cache_key_prefix() {
    assert_eq!(cache_key("k1"), "idempotency:k1");
}

#[test]
fn status_labels() {
    assert_eq!(NotificationStatus::Queued.as_str(), "queued");
    assert_eq!(NotificationStatus::Processing.as_str(), "processing");
    assert_eq!(NotificationStatus::Sent.as_str(), "sent");
    assert_eq!(NotificationStatus::Failed.as_str(), "failed");
    assert_eq!(NotificationStatus::Dlq.as_str(), "dlq");
    let cached = "sent".to_string();
    assert_eq!(
        IdempotencyStatus::from_cached(Some(&cached)),
        IdempotencyStatus::Sent
    );
    let odd = "mystery".to_string();
    assert_eq!(
        IdempotencyStatus::from_cached(Some(&odd)),
        IdempotencyStatus::NotFound
    );
    assert_eq!(IdempotencyStatus::from_cached(None), IdempotencyStatus::NotFound);
}

#[test]
fn fcm_request_always_carries_trace_id() {
    let data = vec![
        ("k1".to_string(), "v1".to_string()),
        ("trace_id".to_string(), "stale".to_string()),
    ];
    let req = build_fcm_request(
        "tok".to_string(),
        "Title".to_string(),
        "Body".to_string(),
        "trace-9".to_string(),
        Some(data),
    );
    assert_eq!(req.message.token, "tok");
    assert_eq!(req.message.notification.title, "Title");
    let entries = req.message.data.unwrap();
    assert_eq!(entries.len(), 2);
    assert_eq!(entries[0], ("k1".to_string(), "v1".to_string()));
    assert_eq!(entries[1], ("trace_id".to_string(), "trace-9".to_string()));

    let req2 = build_fcm_request(
        "tok".to_string(),
        "T".to_string(),
        "B".to_string(),
        "trace-1".to_string(),
        None,
    );
    let entries2 = req2.message.data.unwrap();
    assert_eq!(entries2, vec![("trace_id".to_string(), "trace-1".to_string())]);
}

#[test]
fn audit_row_builders() {
    let row = CreateAuditLog::new(
        "t1".to_string(),
        "u1".to_string(),
        "push".to_string(),
        "WELCOME".to_string(),
        NotificationStatus::Failed,
    )
    .with_error("boom".to_string())
    .with_metadata(JsonValue::Object(vec![(
        "k".to_string(),
        JsonValue::Text("v".to_string()),
    )]));
    assert_eq!(row.trace_id, "t1");
    assert_eq!(row.user_id, "u1");
    assert_eq!(row.status.as_str(), "failed");
    assert_eq!(row.error_message.as_deref(), Some("boom"));
    assert!(matches!(row.metadata, JsonValue::Object(_)));
}

#[test]
fn config_derives_component_configs() {
    let config = sample_config();
    let retry = config.retry_config();
    assert_eq!(retry.max_attempts, 3);
    assert_eq!(retry.initial_delay_ms, 100);
    assert_eq!(retry.max_delay_ms, 1000);
    assert_eq!(retry.backoff_multiplier, 2);
    let breaker = config.circuit_breaker_config();
    assert_eq!(breaker.failure_threshold, 5);
    assert_eq!(breaker.timeout_seconds, 60);
    assert_eq!(breaker.success_threshold, 2);
}

#[test]
fn overall_health_aggregation() {
    let checker = HealthChecker::new(sample_config());
    let all_ok = vec![
        ("database".to_string(), ServiceHealth::healthy(3)),
        ("cache_service".to_string(), ServiceHealth::healthy(1)),
    ];
    assert_eq!(checker.determine_overall_status(&all_ok), HealthStatus::Healthy);
    let one_degraded = vec![
        ("database".to_string(), ServiceHealth::healthy(3)),
        (
            "fcm".to_string(),
            ServiceHealth::degraded_circuit_open("open".to_string()),
        ),
    ];
    assert_eq!(checker.determine_overall_status(&one_degraded), HealthStatus::Degraded);
    let one_down = vec![
        (
            "database".to_string(),
            ServiceHealth::unhealthy("Connection failed".to_string()),
        ),
        (
            "fcm".to_string(),
            ServiceHealth::degraded_circuit_open("open".to_string()),
        ),
    ];
    assert_eq!(checker.determine_overall_status(&one_down), HealthStatus::Unhealthy);
    assert_eq!(checker.determine_overall_status(&vec![]), HealthStatus::Healthy);
}

#[test]
fn health_annotations() {
    let h = ServiceHealth::healthy(5).with_circuit_breaker("closed".to_string());
    assert_eq!(h.status, HealthStatus::Healthy);
    assert_eq!(h.response_time_ms, Some(5));
    assert_eq!(h.circuit_breaker.as_deref(), Some("closed"));
    let u = ServiceHealth::unhealthy("down".to_string());
    assert_eq!(u.status, HealthStatus::Unhealthy);
    assert_eq!(u.error.as_deref(), Some("down"));
}

#[test]
fn api_response_builders() {
    let ok: ApiResponse<u32> = ApiResponse::success(7, "fine".to_string());
    assert!(ok.success);
    assert_eq!(ok.data, Some(7));
    assert!(ok.error.is_none());
    let bad: ApiResponse<u32> = ApiResponse::error("no".to_string(), "failed".to_string());
    assert!(!bad.success);
    assert!(bad.data.is_none());
    assert_eq!(bad.error.as_deref(), Some("no"));
}
