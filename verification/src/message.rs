//! The broker payload and its dead-letter wrapper.

use vstd::prelude::*;

use crate::json::{JsonValue, assoc_get};

verus! {

/// A notification request as the producer enqueues it. Immutable inside
/// the worker; `metadata` must carry a `push_token` string for the
/// notification to be deliverable.
pub struct NotificationMessage {
    pub trace_id: String,
    pub idempotency_key: String,
    pub user_id: String,
    pub notification_type: String,
    pub template_code: String,
    pub variables: Vec<(String, JsonValue)>,
    pub metadata: Vec<(String, JsonValue)>,
}

impl NotificationMessage {
    /// The device token of this message: the `push_token` metadata
    /// entry, when it is a string.
    pub fn push_token(&self) -> (r: Option<&String>)
        ensures
            match r {
                Option::Some(t) => assoc_get(self.metadata@, "push_token"@) == Option::Some(
                    JsonValue::Text(*t),
                ),
                Option::None => match assoc_get(self.metadata@, "push_token"@) {
                    Option::Some(v) => !(v is Text),
                    Option::None => true,
                },
            },
    {
        proof {
            reveal_strlit("push_token");
        }
        match crate::json::lookup(&self.metadata, "push_token") {
            Option::Some(JsonValue::Text(s)) => Option::Some(s),
            _ => Option::None,
        }
    }
}

/// A terminally failed message as republished to the dead-letter queue.
pub struct DlqMessage {
    pub original_message: NotificationMessage,
    pub failure_reason: String,
    /// RFC 3339 with millisecond precision.
    pub failed_at: String,
}

/// The broker envelope around a notification request.
pub struct Envelope {
    pub pattern: String,
    pub data: NotificationMessage,
}

} // verus!
