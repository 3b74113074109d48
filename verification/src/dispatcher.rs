//! The broker discipline: what happens to a delivery after its run.
//!
//! Every delivery is either acknowledged (the run succeeded) or rejected
//! without requeue (the run failed terminally); none is leaked. A failed
//! delivery whose payload still parses is first wrapped and republished
//! to the dead-letter queue; an unparseable payload skips the queue.

use vstd::prelude::*;

use crate::message::{DlqMessage, NotificationMessage};
use crate::processor::{ProcessOutcome, ProcessError, abs_error_text};

verus! {

/// What the dispatcher does with a delivery.
pub struct DispatchPlan {
    /// Acknowledge the delivery.
    pub ack: bool,
    /// Reject the delivery.
    pub reject: bool,
    /// Ask the broker to requeue on reject; never set.
    pub requeue: bool,
    /// A wrapped copy of the message for the dead-letter queue, when one
    /// is published.
    pub dlq: Option<DlqMessage>,
}

/// Routes a finished run: success is acknowledged; failure is rejected
/// without requeue, publishing the reparsed message to the dead-letter
/// queue first when the payload still parses. Exactly one of `ack` and
/// `reject` holds, so no delivery is leaked.
pub fn dispatch_outcome(
    result: &Result<ProcessOutcome, ProcessError>,
    reparsed: Option<NotificationMessage>,
    failed_at: String,
) -> (r: DispatchPlan)
    ensures
        r.ack <==> result.is_ok(),
        r.reject <==> result.is_err(),
        !(r.ack && r.reject),
        r.ack || r.reject,
        !r.requeue,
        r.dlq.is_some() <==> (result.is_err() && reparsed.is_some()),
        match (r.dlq, result) {
            (Option::Some(d), Err(e)) => d.original_message == reparsed->Some_0
                && d.failure_reason@ == abs_error_text(e.abs()) && d.failed_at@ == failed_at@,
            _ => true,
        },
{
    match result {
        Ok(_) => DispatchPlan { ack: true, reject: false, requeue: false, dlq: None },
        Err(e) => {
            let dlq = match reparsed {
                Option::Some(original_message) => Option::Some(
                    DlqMessage {
                        original_message,
                        failure_reason: e.message(),
                        failed_at,
                    },
                ),
                Option::None => Option::None,
            };
            DispatchPlan { ack: false, reject: true, requeue: false, dlq }
        },
    }
}

} // verus!
