//! Outcome and idempotency states of a notification.

use vstd::prelude::*;

verus! {

/// Terminal and intermediate states recorded for a notification in the
/// audit ledger.
#[derive(Clone, Copy, PartialEq, Eq, Structural, Debug)]
pub enum NotificationStatus {
    Queued,
    Processing,
    Sent,
    Failed,
    Dlq,
}

impl NotificationStatus {
    /// The lowercase label under which this status is written to the
    /// audit ledger.
    pub fn as_str(&self) -> (r: &'static str)
        ensures
            r@ == self.label(),
    {
        proof {
            reveal_strlit("queued");
            reveal_strlit("processing");
            reveal_strlit("sent");
            reveal_strlit("failed");
            reveal_strlit("dlq");
        }
        match self {
            NotificationStatus::Queued => "queued",
            NotificationStatus::Processing => "processing",
            NotificationStatus::Sent => "sent",
            NotificationStatus::Failed => "failed",
            NotificationStatus::Dlq => "dlq",
        }
    }

    /// The label of each status, as written to the audit ledger.
    pub open spec fn label(self) -> Seq<char> {
        match self {
            NotificationStatus::Queued => "queued"@,
            NotificationStatus::Processing => "processing"@,
            NotificationStatus::Sent => "sent"@,
            NotificationStatus::Failed => "failed"@,
            NotificationStatus::Dlq => "dlq"@,
        }
    }
}

/// What the idempotency store knows about a key.
#[derive(Clone, Copy, PartialEq, Eq, Structural, Debug)]
pub enum IdempotencyStatus {
    NotFound,
    Processing,
    Sent,
    Failed,
}

/// How a cached string maps to an idempotency status: an absent entry and
/// any unknown value both read as `NotFound`.
pub open spec fn status_of_cached(v: Option<Seq<char>>) -> IdempotencyStatus {
    match v {
        Option::None => IdempotencyStatus::NotFound,
        Option::Some(s) => if s == "processing"@ {
            IdempotencyStatus::Processing
        } else if s == "sent"@ {
            IdempotencyStatus::Sent
        } else if s == "failed"@ {
            IdempotencyStatus::Failed
        } else {
            IdempotencyStatus::NotFound
        },
    }
}

impl IdempotencyStatus {
    /// Reads a cached value back into a status. Unknown values are
    /// reported as `NotFound`, as is an absent entry.
    pub fn from_cached(v: Option<&String>) -> (r: IdempotencyStatus)
        ensures
            r == status_of_cached(match v {
                Option::None => Option::<Seq<char>>::None,
                Option::Some(s) => Option::Some(s@),
            }),
    {
        match v {
            Option::None => IdempotencyStatus::NotFound,
            Option::Some(s) => {
                if crate::text::str_eq(s.as_str(), "processing") {
                    IdempotencyStatus::Processing
                } else if crate::text::str_eq(s.as_str(), "sent") {
                    IdempotencyStatus::Sent
                } else if crate::text::str_eq(s.as_str(), "failed") {
                    IdempotencyStatus::Failed
                } else {
                    IdempotencyStatus::NotFound
                }
            },
        }
    }
}

} // verus!
