//! The JSON text of published values, checked exactly and decoded back
//! with an independent JSON parser.

use push_service::codec::{dlq_to_json, message_to_json, to_json};
use push_service::json::JsonValue;
use push_service::message::{DlqMessage, NotificationMessage};

#[test]
fn scalar_json_text() {
    assert_eq!(to_json(&JsonValue::Null), "null");
    assert_eq!(to_json(&JsonValue::Bool(true)), "true");
    assert_eq!(to_json(&JsonValue::Bool(false)), "false");
    assert_eq!(to_json(&JsonValue::Number("3.5".to_string())), "3.5");
    assert_eq!(to_json(&JsonValue::Text("hi".to_string())), "\"hi\"");
}

#[test]
fn string_escaping() {
    let v = JsonValue::Text("a\"b\\c".to_string());
    assert_eq!(to_json(&v), "\"a\\\"b\\\\c\"");
    let parsed: serde_json::Value = serde_json::from_str(&to_json(&v)).unwrap();
    assert_eq!(parsed, serde_json::Value::String("a\"b\\c".to_string()));
}

#[test]
fn composite_json_text() {
    let v = JsonValue::Object(vec![
        (
            "items".to_string(),
            JsonValue::Array(vec![JsonValue::Number("1".to_string()), JsonValue::Null]),
        ),
        ("name".to_string(), JsonValue::Text("x".to_string())),
    ]);
    assert_eq!(to_json(&v), "{\"items\":[1,null],\"name\":\"x\"}");
}

fn sample_dlq() -> DlqMessage {
    DlqMessage {
        original_message: NotificationMessage {
            trace_id: "trace_123".to_string(),
            idempotency_key: "key_1".to_string(),
            user_id: "user_456".to_string(),
            notification_type: "push".to_string(),
            template_code: "WELCOME".to_string(),
            variables: vec![
                ("user_name".to_string(), JsonValue::Text("John Doe".to_string())),
                ("amount".to_string(), JsonValue::Number("100".to_string())),
            ],
            metadata: vec![
                ("push_token".to_string(), JsonValue::Text("device_token_789".to_string())),
                ("priority".to_string(), JsonValue::Text("high".to_string())),
            ],
        },
        failure_reason: "FCM connection timeout".to_string(),
        failed_at: "2024-01-01T00:00:00.000Z".to_string(),
    }
}

#[test]
fn dlq_round_trip_preserves_message() {
    // The published text, decoded by an independent parser, holds the
    // wrapped message unchanged.
    let dlq = sample_dlq();
    let text = dlq_to_json(&dlq);
    let parsed: serde_json::Value = serde_json::from_str(&text).unwrap();
    assert_eq!(parsed["failure_reason"], "FCM connection timeout");
    assert_eq!(parsed["failed_at"], "2024-01-01T00:00:00.000Z");
    let original = &parsed["original_message"];
    assert_eq!(original["trace_id"], "trace_123");
    assert_eq!(original["idempotency_key"], "key_1");
    assert_eq!(original["user_id"], "user_456");
    assert_eq!(original["notification_type"], "push");
    assert_eq!(original["template_code"], "WELCOME");
    assert_eq!(original["variables"]["user_name"], "John Doe");
    assert_eq!(original["variables"]["amount"], serde_json::Value::Number(100.into()));
    assert_eq!(original["metadata"]["push_token"], "device_token_789");
    assert_eq!(original["metadata"]["priority"], "high");
}

#[test]
fn message_json_is_deterministic() {
    let a = sample_dlq().original_message;
    let b = sample_dlq().original_message;
    assert_eq!(message_to_json(&a), message_to_json(&b));
}

use push_service::decode::from_json;

#[test]
fn parser_inverts_printer_on_values() {
    let v = JsonValue::Object(vec![
        ("a".to_string(), JsonValue::Text("x\"y\\z".to_string())),
        (
            "b".to_string(),
            JsonValue::Array(vec![
                JsonValue::Number("-1.5e3".to_string()),
                JsonValue::Bool(false),
                JsonValue::Null,
                JsonValue::Object(vec![]),
            ]),
        ),
        ("c".to_string(), JsonValue::Array(vec![])),
    ]);
    let text = to_json(&v);
    let back = from_json(&text).expect("the printer's output parses");
    // The parser's contract: whatever it accepts re-encodes to the
    // input; so a round trip preserves the text exactly.
    assert_eq!(to_json(&back), text);
    match back {
        JsonValue::Object(fields) => {
            assert_eq!(fields.len(), 3);
            assert_eq!(fields[0].0, "a");
            match &fields[0].1 {
                JsonValue::Text(s) => assert_eq!(s, "x\"y\\z"),
                _ => panic!("member a must be a string"),
            }
            match &fields[1].1 {
                JsonValue::Array(items) => assert_eq!(items.len(), 4),
                _ => panic!("member b must be an array"),
            }
        }
        _ => panic!("an object must parse back as an object"),
    }
}

#[test]
fn parser_accepts_published_dlq_text() {
    let dlq = sample_dlq();
    let text = dlq_to_json(&dlq);
    let back = from_json(&text).expect("the published wrapper parses");
    assert_eq!(to_json(&back), text);
    match back {
        JsonValue::Object(fields) => {
            assert_eq!(fields.len(), 3);
            assert_eq!(fields[0].0, "original_message");
            match &fields[2].1 {
                JsonValue::Text(s) => assert_eq!(s, "2024-01-01T00:00:00.000Z"),
                _ => panic!("failed_at must be a string"),
            }
        }
        _ => panic!("the wrapper must parse back as an object"),
    }
}

#[test]
fn parser_rejects_malformed_text() {
    assert!(from_json("{ not json").is_none());
    assert!(from_json("").is_none());
    assert!(from_json("{\"a\":1").is_none());
    assert!(from_json("[1,]").is_none());
}
