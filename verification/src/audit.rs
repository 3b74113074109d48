//! Audit ledger entries.
//!
//! Every terminal outcome of a notification is recorded as one row of an
//! append-only ledger; the relational store behind it lives at the
//! process edge.

use vstd::prelude::*;

use crate::json::JsonValue;
use crate::status::NotificationStatus;

verus! {

/// One row to append to the audit ledger.
pub struct CreateAuditLog {
    pub trace_id: String,
    pub user_id: String,
    pub notification_type: String,
    pub template_code: String,
    pub status: NotificationStatus,
    pub error_message: Option<String>,
    pub metadata: JsonValue,
}

impl CreateAuditLog {
    /// A row with no error text and empty metadata.
    pub fn new(
        trace_id: String,
        user_id: String,
        notification_type: String,
        template_code: String,
        status: NotificationStatus,
    ) -> (r: CreateAuditLog)
        ensures
            r.trace_id@ == trace_id@,
            r.user_id@ == user_id@,
            r.notification_type@ == notification_type@,
            r.template_code@ == template_code@,
            r.status == status,
            r.error_message.is_none(),
            r.metadata is Object && r.metadata->Object_0@.len() == 0,
    {
        CreateAuditLog {
            trace_id,
            user_id,
            notification_type,
            template_code,
            status,
            error_message: None,
            metadata: JsonValue::Object(Vec::new()),
        }
    }

    /// The same row with an error text.
    pub fn with_error(self, error: String) -> (r: CreateAuditLog)
        ensures
            r == (CreateAuditLog { error_message: Some(error), ..self }),
    {
        CreateAuditLog { error_message: Some(error), ..self }
    }

    /// The same row with the given metadata.
    pub fn with_metadata(self, metadata: JsonValue) -> (r: CreateAuditLog)
        ensures
            r == (CreateAuditLog { metadata, ..self }),
    {
        CreateAuditLog { metadata, ..self }
    }
}

} // verus!
