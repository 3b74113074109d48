//! End-to-end scenarios: one message driven through the processing
//! machine against an in-memory idempotency store, with the template
//! service and the push gateway played by the test.

use push_service::dispatcher::dispatch_outcome;
use push_service::idempotency::IdempotencyStore;
use push_service::json::JsonValue;
use push_service::message::NotificationMessage;
use push_service::processor::{
    FetchOutcome, ProcAction, ProcEvent, ProcPhase, ProcessError, ProcessOutcome, Processor,
    SendOutcome,
};
use push_service::status::IdempotencyStatus;
use push_service::template::{Template, TemplateContent};

fn sample_message(key: &str, variables: Vec<(String, JsonValue)>, token: &str)
    -> NotificationMessage {
    NotificationMessage {
        trace_id: "t1".to_string(),
        idempotency_key: key.to_string(),
        user_id: "123e4567-e89b-12d3-a456-426614174000".to_string(),
        notification_type: "push".to_string(),
        template_code: "WELCOME".to_string(),
        variables,
        metadata: vec![("push_token".to_string(), JsonValue::Text(token.to_string()))],
    }
}

fn welcome_template(title: &str, body: &str) -> Template {
    Template {
        id: "tpl-1".to_string(),
        code: "WELCOME".to_string(),
        template_type: "push".to_string(),
        language: "en".to_string(),
        version: 1,
        content: TemplateContent { title: title.to_string(), body: body.to_string() },
        variables: vec!["user_name".to_string()],
    }
}

/// Runs one message against the store and the scripted collaborators.
/// Returns the result, how often the gateway was called, the title it
/// saw, and the audit rows written (status label, error text).
fn drive(
    store: &mut IdempotencyStore,
    now: u64,
    msg: NotificationMessage,
    template: Option<Template>,
    send_outcome: Option<SendOutcome>,
) -> (Result<ProcessOutcome, ProcessError>, u32, Option<String>, Vec<(String, Option<String>)>) {
    let mut sends: u32 = 0;
    let mut sent_title: Option<String> = None;
    let mut audits: Vec<(String, Option<String>)> = Vec::new();
    let mut fetches: u32 = 0;
    let (mut proc_, mut action) = {
        let (p, a) = Processor::start(msg);
        (p, Some(a))
    };
    loop {
        let event = match action {
            None => break,
            Some(ProcAction::CheckIdempotency { key }) => {
                ProcEvent::IdempotencyChecked(Ok(store.check(&key, now)))
            }
            Some(ProcAction::MarkProcessing { key }) => {
                store.mark_processing(&key, now);
                ProcEvent::Marked(Ok(()))
            }
            Some(ProcAction::MarkSent { key }) => {
                store.mark_sent(&key, now);
                ProcEvent::Marked(Ok(()))
            }
            Some(ProcAction::MarkFailed { key }) => {
                store.mark_failed(&key, now);
                ProcEvent::Marked(Ok(()))
            }
            Some(ProcAction::WriteAudit { entry }) => {
                audits.push((entry.status.as_str().to_string(), entry.error_message.clone()));
                ProcEvent::AuditWritten(Ok(()))
            }
            Some(ProcAction::FetchTemplate { code, language }) => {
                fetches += 1;
                assert_eq!(language, "en");
                match &template {
                    Some(t) => {
                        assert_eq!(code, t.code);
                        ProcEvent::TemplateFetched(FetchOutcome::Fetched(welcome_template(
                            &t.content.title,
                            &t.content.body,
                        )))
                    }
                    None => ProcEvent::TemplateFetched(FetchOutcome::Failed(
                        "Template Service returned status 500".to_string(),
                    )),
                }
            }
            Some(ProcAction::SendPush { title, .. }) => {
                sends += 1;
                sent_title = Some(title);
                match &send_outcome {
                    Some(SendOutcome::Sent) => ProcEvent::PushSent(SendOutcome::Sent),
                    Some(SendOutcome::Failed(e)) => {
                        ProcEvent::PushSent(SendOutcome::Failed(e.clone()))
                    }
                    Some(SendOutcome::CircuitOpen) => {
                        ProcEvent::PushSent(SendOutcome::CircuitOpen)
                    }
                    None => panic!("gateway should not be called"),
                }
            }
        };
        action = proc_.step(event);
        if let ProcPhase::Done { .. } = proc_.phase {
            assert!(action.is_none());
            break;
        }
    }
    if template.is_none() {
        // the fetch failure path must not have asked again
        assert!(fetches <= 1);
    }
    let result = match proc_.phase {
        ProcPhase::Done { result } => result,
        _ => panic!("run did not finish"),
    };
    (result, sends, sent_title, audits)
}

#[test]
fn happy_path_delivers_once() {
    let mut store = IdempotencyStore::new(3600);
    let msg = sample_message(
        "k1",
        vec![("user_name".to_string(), JsonValue::Text("Alice".to_string()))],
        "abcdefghij0123456789",
    );
    let template = welcome_template("Hi {{user_name}}", "Welcome");
    let (result, sends, title, audits) =
        drive(&mut store, 100, msg, Some(template), Some(SendOutcome::Sent));
    assert!(matches!(result, Ok(ProcessOutcome::Delivered)));
    assert_eq!(sends, 1);
    assert_eq!(title.as_deref(), Some("Hi Alice"));
    assert_eq!(store.check("k1", 100), IdempotencyStatus::Sent);
    assert_eq!(audits.len(), 1);
    assert_eq!(audits[0].0, "sent");
    assert!(audits[0].1.is_none());
    let plan = dispatch_outcome(&result, None, "2024-01-01T00:00:00.000Z".to_string());
    assert!(plan.ack && !plan.reject);
}

#[test]
fn replay_skips_gateway() {
    let mut store = IdempotencyStore::new(3600);
    let msg = sample_message(
        "k1",
        vec![("user_name".to_string(), JsonValue::Text("Alice".to_string()))],
        "abcdefghij0123456789",
    );
    let template = welcome_template("Hi {{user_name}}", "Welcome");
    let (result, sends, _, _) =
        drive(&mut store, 100, msg, Some(template), Some(SendOutcome::Sent));
    assert!(matches!(result, Ok(ProcessOutcome::Delivered)));
    assert_eq!(sends, 1);

    // Same idempotency key again: the gateway must not be called.
    let msg2 = sample_message(
        "k1",
        vec![("user_name".to_string(), JsonValue::Text("Alice".to_string()))],
        "abcdefghij0123456789",
    );
    let template2 = welcome_template("Hi {{user_name}}", "Welcome");
    let (result2, sends2, _, audits2) =
        drive(&mut store, 150, msg2, Some(template2), None);
    assert!(matches!(result2, Ok(ProcessOutcome::DuplicateSkipped)));
    assert_eq!(sends2, 0);
    assert_eq!(audits2.len(), 0);
    assert_eq!(store.check("k1", 150), IdempotencyStatus::Sent);
    let plan = dispatch_outcome(&result2, None, "2024-01-01T00:00:00.000Z".to_string());
    assert!(plan.ack && !plan.reject);
}

#[test]
fn missing_variable_goes_to_dlq() {
    let mut store = IdempotencyStore::new(3600);
    let msg = sample_message("k2", vec![], "abcdefghij0123456789");
    let template = welcome_template("Hi {{user_name}}", "Welcome");
    let (result, sends, _, audits) = drive(&mut store, 100, msg, Some(template), None);
    let err = result.as_ref().err().expect("run should fail");
    match err {
        ProcessError::TemplateRender(text) => assert!(text.contains("{{user_name}}")),
        other => panic!("expected a render failure, got {:?}", other.message()),
    }
    assert_eq!(sends, 0);
    assert_eq!(store.check("k2", 100), IdempotencyStatus::Failed);
    assert_eq!(audits.len(), 1);
    assert_eq!(audits[0].0, "failed");
    assert!(audits[0].1.as_deref().unwrap().contains("user_name"));

    let reparsed = sample_message("k2", vec![], "abcdefghij0123456789");
    let plan = dispatch_outcome(&result, Some(reparsed), "2024-01-01T00:00:00.000Z".to_string());
    assert!(plan.reject && !plan.ack && !plan.requeue);
    let dlq = plan.dlq.expect("failed runs with a parseable payload go to the DLQ");
    assert!(dlq.failure_reason.contains("user_name"));
    assert_eq!(dlq.original_message.idempotency_key, "k2");
}

#[test]
fn invalid_token_skips_template_fetch() {
    let mut store = IdempotencyStore::new(3600);
    let msg = sample_message("k3", vec![], "short");
    // No template is scripted: the fetch must never be requested.
    let mut fetch_requested = false;
    let (mut proc_, mut action) = {
        let (p, a) = Processor::start(msg);
        (p, Some(a))
    };
    let mut result = None;
    while let Some(a) = action {
        let event = match a {
            ProcAction::CheckIdempotency { key } => {
                ProcEvent::IdempotencyChecked(Ok(store.check(&key, 100)))
            }
            ProcAction::MarkProcessing { key } => {
                store.mark_processing(&key, 100);
                ProcEvent::Marked(Ok(()))
            }
            ProcAction::MarkFailed { key } => {
                store.mark_failed(&key, 100);
                ProcEvent::Marked(Ok(()))
            }
            ProcAction::WriteAudit { .. } => ProcEvent::AuditWritten(Ok(())),
            ProcAction::FetchTemplate { .. } => {
                fetch_requested = true;
                ProcEvent::TemplateFetched(FetchOutcome::CircuitOpen)
            }
            other => panic!("unexpected action {:?}", action_name(&other)),
        };
        action = proc_.step(event);
    }
    if let ProcPhase::Done { result: r } = proc_.phase {
        result = Some(r);
    }
    let result = result.expect("run should finish");
    assert!(matches!(result, Err(ProcessError::InvalidToken(_))));
    assert!(!fetch_requested);
    assert_eq!(store.check("k3", 100), IdempotencyStatus::Failed);
    let reparsed = sample_message("k3", vec![], "short");
    let plan = dispatch_outcome(&result, Some(reparsed), "2024-01-01T00:00:00.000Z".to_string());
    assert!(plan.reject && plan.dlq.is_some() && !plan.requeue);
}

fn action_name(a: &ProcAction) -> &'static str {
    match a {
        ProcAction::CheckIdempotency { .. } => "check",
        ProcAction::MarkProcessing { .. } => "mark_processing",
        ProcAction::MarkSent { .. } => "mark_sent",
        ProcAction::MarkFailed { .. } => "mark_failed",
        ProcAction::WriteAudit { .. } => "audit",
        ProcAction::FetchTemplate { .. } => "fetch",
        ProcAction::SendPush { .. } => "send",
    }
}

#[test]
fn malformed_json_is_rejected_without_dlq() {
    let payload = "{ not json";
    let parsed: Result<serde_json::Value, _> = serde_json::from_str(payload);
    assert!(parsed.is_err());
    let result: Result<ProcessOutcome, ProcessError> = Err(ProcessError::MalformedMessage);
    let plan = dispatch_outcome(&result, None, "2024-01-01T00:00:00.000Z".to_string());
    assert!(plan.reject && !plan.ack && !plan.requeue);
    assert!(plan.dlq.is_none());
}
