//! The per-message processing state machine.
//!
//! One notification runs through: idempotency check, `processing` mark,
//! token extraction and validation, template fetch, rendering, push
//! delivery, terminal mark and one audit row. The machine decides; the
//! caller performs each emitted action against the outside world and
//! feeds the outcome back as an event. A mirror of the machine over
//! character sequences (`spec_step`) states every transition, and the
//! laws at the end of the module are proved against runs of that mirror:
//! a check that answers `Sent` or `Processing` ends the run at once with
//! no push, and no run writes more than one `Sent` audit row.

use vstd::prelude::*;

use crate::audit::CreateAuditLog;
use crate::json::{JsonValue, assoc_get, same_entries};
use crate::message::NotificationMessage;
use crate::status::{IdempotencyStatus, NotificationStatus};
use crate::template::{Template, RenderError, substitute, unresolved, first_non_scalar};
use crate::validation::{TokenError, token_error_of, validate_fcm_token};

verus! {

/// A successful run's result.
#[derive(Clone, Copy, PartialEq, Eq, Structural, Debug)]
pub enum ProcessOutcome {
    /// The notification was delivered and recorded.
    Delivered,
    /// The idempotency store already held the key as sent or in flight.
    DuplicateSkipped,
}

/// Why a run failed.
pub enum ProcessError {
    /// The payload was not a well-formed notification message.
    MalformedMessage,
    /// The metadata carries no `push_token` string.
    MissingToken,
    /// The device token is malformed.
    InvalidToken(TokenError),
    /// The template service failed; the field holds its error.
    TemplateFetch(String),
    /// Rendering failed; the field holds the description.
    TemplateRender(String),
    /// The push gateway failed; the field holds its error.
    PushFailed(String),
    /// A circuit breaker rejected the call; the field names the
    /// dependency.
    CircuitOpen(String),
    /// A write to the idempotency store failed; the field holds its
    /// error.
    StoreWrite(String),
}

/// The failure, over character sequences.
pub enum AbsError {
    MalformedMessage,
    MissingToken,
    InvalidToken(TokenError),
    TemplateFetch(Seq<char>),
    TemplateRender(Seq<char>),
    PushFailed(Seq<char>),
    CircuitOpen(Seq<char>),
    StoreWrite(Seq<char>),
}

/// What a failure's description says.
pub open spec fn abs_error_text(e: AbsError) -> Seq<char> {
    match e {
        AbsError::MalformedMessage => "Invalid message payload"@,
        AbsError::MissingToken => "Missing push_token in metadata"@,
        AbsError::InvalidToken(te) => "Invalid device token: "@ + te.spec_message(),
        AbsError::TemplateFetch(t) => "Template fetch failed: "@ + t,
        AbsError::TemplateRender(t) => "Template render failed: "@ + t,
        AbsError::PushFailed(t) => "FCM send failed: "@ + t,
        AbsError::CircuitOpen(d) => "Circuit breaker is open for "@ + d,
        AbsError::StoreWrite(t) => "Cache write failed: "@ + t,
    }
}

impl ProcessError {
    /// This failure over character sequences.
    pub open spec fn abs(self) -> AbsError {
        match self {
            ProcessError::MalformedMessage => AbsError::MalformedMessage,
            ProcessError::MissingToken => AbsError::MissingToken,
            ProcessError::InvalidToken(te) => AbsError::InvalidToken(te),
            ProcessError::TemplateFetch(t) => AbsError::TemplateFetch(t@),
            ProcessError::TemplateRender(t) => AbsError::TemplateRender(t@),
            ProcessError::PushFailed(t) => AbsError::PushFailed(t@),
            ProcessError::CircuitOpen(d) => AbsError::CircuitOpen(d@),
            ProcessError::StoreWrite(t) => AbsError::StoreWrite(t@),
        }
    }

    /// A copy of this failure.
    pub fn duplicate(&self) -> (r: ProcessError)
        ensures
            r == *self,
    {
        match self {
            ProcessError::MalformedMessage => ProcessError::MalformedMessage,
            ProcessError::MissingToken => ProcessError::MissingToken,
            ProcessError::InvalidToken(te) => ProcessError::InvalidToken(*te),
            ProcessError::TemplateFetch(t) => ProcessError::TemplateFetch(t.clone()),
            ProcessError::TemplateRender(t) => ProcessError::TemplateRender(t.clone()),
            ProcessError::PushFailed(t) => ProcessError::PushFailed(t.clone()),
            ProcessError::CircuitOpen(d) => ProcessError::CircuitOpen(d.clone()),
            ProcessError::StoreWrite(t) => ProcessError::StoreWrite(t.clone()),
        }
    }

    /// Describes this failure, as the dead-letter wrapper and the audit
    /// ledger record it.
    pub fn message(&self) -> (r: String)
        ensures
            r@ == abs_error_text(self.abs()),
    {
        match self {
            ProcessError::MalformedMessage => String::from_str("Invalid message payload"),
            ProcessError::MissingToken => String::from_str("Missing push_token in metadata"),
            ProcessError::InvalidToken(te) => String::from_str("Invalid device token: ").concat(
                te.message(),
            ),
            ProcessError::TemplateFetch(t) => String::from_str("Template fetch failed: ").concat(
                t.as_str(),
            ),
            ProcessError::TemplateRender(t) => String::from_str("Template render failed: ")
                .concat(t.as_str()),
            ProcessError::PushFailed(t) => String::from_str("FCM send failed: ").concat(
                t.as_str(),
            ),
            ProcessError::CircuitOpen(d) => String::from_str("Circuit breaker is open for ")
                .concat(d.as_str()),
            ProcessError::StoreWrite(t) => String::from_str("Cache write failed: ").concat(
                t.as_str(),
            ),
        }
    }
}

/// What a template fetch came back with.
pub enum FetchOutcome {
    Fetched(Template),
    Failed(String),
    CircuitOpen,
}

/// What a push delivery came back with.
pub enum SendOutcome {
    Sent,
    Failed(String),
    CircuitOpen,
}

/// The outcome of one performed action, fed back to the machine.
pub enum ProcEvent {
    IdempotencyChecked(Result<IdempotencyStatus, String>),
    Marked(Result<(), String>),
    AuditWritten(Result<(), String>),
    TemplateFetched(FetchOutcome),
    PushSent(SendOutcome),
}

/// What the machine asks the caller to do next.
pub enum ProcAction {
    CheckIdempotency { key: String },
    MarkProcessing { key: String },
    MarkSent { key: String },
    MarkFailed { key: String },
    WriteAudit { entry: CreateAuditLog },
    FetchTemplate { code: String, language: String },
    SendPush { token: String, title: String, body: String, trace_id: String },
}

/// Where a run stands.
pub enum ProcPhase {
    AwaitIdempotency,
    AwaitMarkProcessing,
    AwaitMarkFailed { err: ProcessError },
    AwaitAuditFailed { err: ProcessError },
    AwaitTemplate { token: String },
    AwaitPush,
    AwaitMarkSent,
    AwaitAuditSent,
    Done { result: Result<ProcessOutcome, ProcessError> },
}

/// The phase over character sequences.
pub enum AbsPhase {
    AwaitIdempotency,
    AwaitMarkProcessing,
    AwaitMarkFailed(AbsError),
    AwaitAuditFailed(AbsError),
    AwaitTemplate(Seq<char>),
    AwaitPush,
    AwaitMarkSent,
    AwaitAuditSent,
    Done(Result<ProcessOutcome, AbsError>),
}

/// A fetch outcome over character sequences; a fetched template is
/// reduced to its renderable content.
pub enum AbsFetch {
    Fetched { title: Seq<char>, body: Seq<char> },
    Failed(Seq<char>),
    CircuitOpen,
}

/// A send outcome over character sequences.
pub enum AbsSend {
    Sent,
    Failed(Seq<char>),
    CircuitOpen,
}

/// An event over character sequences.
pub enum AbsEvent {
    IdempotencyChecked(Result<IdempotencyStatus, Seq<char>>),
    Marked(Result<(), Seq<char>>),
    AuditWritten(Result<(), Seq<char>>),
    TemplateFetched(AbsFetch),
    PushSent(AbsSend),
}

/// An action over character sequences; an audit row is reduced to its
/// scalar columns.
pub enum AbsAction {
    CheckIdempotency(Seq<char>),
    MarkProcessing(Seq<char>),
    MarkSent(Seq<char>),
    MarkFailed(Seq<char>),
    WriteAudit {
        trace_id: Seq<char>,
        user_id: Seq<char>,
        notification_type: Seq<char>,
        template_code: Seq<char>,
        status: NotificationStatus,
        error: Option<Seq<char>>,
    },
    FetchTemplate { code: Seq<char>, language: Seq<char> },
    SendPush { token: Seq<char>, title: Seq<char>, body: Seq<char>, trace_id: Seq<char> },
}

impl ProcPhase {
    /// This phase over character sequences.
    pub open spec fn abs(self) -> AbsPhase {
        match self {
            ProcPhase::AwaitIdempotency => AbsPhase::AwaitIdempotency,
            ProcPhase::AwaitMarkProcessing => AbsPhase::AwaitMarkProcessing,
            ProcPhase::AwaitMarkFailed { err } => AbsPhase::AwaitMarkFailed(err.abs()),
            ProcPhase::AwaitAuditFailed { err } => AbsPhase::AwaitAuditFailed(err.abs()),
            ProcPhase::AwaitTemplate { token } => AbsPhase::AwaitTemplate(token@),
            ProcPhase::AwaitPush => AbsPhase::AwaitPush,
            ProcPhase::AwaitMarkSent => AbsPhase::AwaitMarkSent,
            ProcPhase::AwaitAuditSent => AbsPhase::AwaitAuditSent,
            ProcPhase::Done { result } => AbsPhase::Done(
                match result {
                    Ok(o) => Ok(o),
                    Err(e) => Err(e.abs()),
                },
            ),
        }
    }
}

impl ProcEvent {
    /// This event over character sequences.
    pub open spec fn abs(self) -> AbsEvent {
        match self {
            ProcEvent::IdempotencyChecked(r) => AbsEvent::IdempotencyChecked(
                match r {
                    Ok(s) => Ok(s),
                    Err(e) => Err(e@),
                },
            ),
            ProcEvent::Marked(r) => AbsEvent::Marked(
                match r {
                    Ok(u) => Ok(u),
                    Err(e) => Err(e@),
                },
            ),
            ProcEvent::AuditWritten(r) => AbsEvent::AuditWritten(
                match r {
                    Ok(u) => Ok(u),
                    Err(e) => Err(e@),
                },
            ),
            ProcEvent::TemplateFetched(f) => AbsEvent::TemplateFetched(
                match f {
                    FetchOutcome::Fetched(t) => AbsFetch::Fetched {
                        title: t.content.title@,
                        body: t.content.body@,
                    },
                    FetchOutcome::Failed(e) => AbsFetch::Failed(e@),
                    FetchOutcome::CircuitOpen => AbsFetch::CircuitOpen,
                },
            ),
            ProcEvent::PushSent(s) => AbsEvent::PushSent(
                match s {
                    SendOutcome::Sent => AbsSend::Sent,
                    SendOutcome::Failed(e) => AbsSend::Failed(e@),
                    SendOutcome::CircuitOpen => AbsSend::CircuitOpen,
                },
            ),
        }
    }
}

impl ProcAction {
    /// This action over character sequences.
    pub open spec fn abs(self) -> AbsAction {
        match self {
            ProcAction::CheckIdempotency { key } => AbsAction::CheckIdempotency(key@),
            ProcAction::MarkProcessing { key } => AbsAction::MarkProcessing(key@),
            ProcAction::MarkSent { key } => AbsAction::MarkSent(key@),
            ProcAction::MarkFailed { key } => AbsAction::MarkFailed(key@),
            ProcAction::WriteAudit { entry } => AbsAction::WriteAudit {
                trace_id: entry.trace_id@,
                user_id: entry.user_id@,
                notification_type: entry.notification_type@,
                template_code: entry.template_code@,
                status: entry.status,
                error: match entry.error_message {
                    Option::Some(e) => Option::Some(e@),
                    Option::None => Option::None,
                },
            },
            ProcAction::FetchTemplate { code, language } => AbsAction::FetchTemplate {
                code: code@,
                language: language@,
            },
            ProcAction::SendPush { token, title, body, trace_id } => AbsAction::SendPush {
                token: token@,
                title: title@,
                body: body@,
                trace_id: trace_id@,
            },
        }
    }
}

/// An emitted action, over character sequences.
pub open spec fn abs_of_action(r: Option<ProcAction>) -> Option<AbsAction> {
    match r {
        Option::Some(a) => Option::Some(a.abs()),
        Option::None => Option::None,
    }
}

/// One transition's result: the next phase and the emitted action.
pub struct AbsStep {
    pub phase: AbsPhase,
    pub action: Option<AbsAction>,
}

/// The transition into the failure path: mark the key failed, carrying
/// the error toward the audit row and the final result.
pub open spec fn fail_step(msg: NotificationMessage, e: AbsError) -> AbsStep {
    AbsStep {
        phase: AbsPhase::AwaitMarkFailed(e),
        action: Option::Some(AbsAction::MarkFailed(msg.idempotency_key@)),
    }
}

/// The audit row written on the failure path.
pub open spec fn failed_audit(msg: NotificationMessage, e: AbsError) -> AbsAction {
    AbsAction::WriteAudit {
        trace_id: msg.trace_id@,
        user_id: msg.user_id@,
        notification_type: msg.notification_type@,
        template_code: msg.template_code@,
        status: NotificationStatus::Failed,
        error: Option::Some(abs_error_text(e)),
    }
}

/// The audit row written after a delivery.
pub open spec fn sent_audit(msg: NotificationMessage) -> AbsAction {
    AbsAction::WriteAudit {
        trace_id: msg.trace_id@,
        user_id: msg.user_id@,
        notification_type: msg.notification_type@,
        template_code: msg.template_code@,
        status: NotificationStatus::Sent,
        error: Option::None,
    }
}

/// A phase left as it stands, with nothing emitted: the answer to an
/// event the phase does not wait for.
pub open spec fn stay(phase: AbsPhase) -> AbsStep {
    AbsStep { phase, action: Option::None }
}

/// The machine's transition table. Every decision of a run is here: how
/// the idempotency answer is read, when the token is rejected, what
/// rendering yields, which mark and audit writes follow, and what the
/// run's result is.
pub open spec fn spec_step(msg: NotificationMessage, phase: AbsPhase, ev: AbsEvent) -> AbsStep {
    match (phase, ev) {
        (AbsPhase::AwaitIdempotency, AbsEvent::IdempotencyChecked(res)) => match res {
            Ok(IdempotencyStatus::Sent) | Ok(IdempotencyStatus::Processing) => AbsStep {
                phase: AbsPhase::Done(Ok(ProcessOutcome::DuplicateSkipped)),
                action: Option::None,
            },
            _ => AbsStep {
                phase: AbsPhase::AwaitMarkProcessing,
                action: Option::Some(AbsAction::MarkProcessing(msg.idempotency_key@)),
            },
        },
        (AbsPhase::AwaitMarkProcessing, AbsEvent::Marked(res)) => match res {
            Err(e) => AbsStep {
                phase: AbsPhase::Done(Err(AbsError::StoreWrite(e))),
                action: Option::None,
            },
            Ok(_) => match assoc_get(msg.metadata@, "push_token"@) {
                Option::Some(JsonValue::Text(t)) => match token_error_of(t@) {
                    Option::Some(te) => fail_step(msg, AbsError::InvalidToken(te)),
                    Option::None => AbsStep {
                        phase: AbsPhase::AwaitTemplate(t@),
                        action: Option::Some(
                            AbsAction::FetchTemplate {
                                code: msg.template_code@,
                                language: "en"@,
                            },
                        ),
                    },
                },
                _ => fail_step(msg, AbsError::MissingToken),
            },
        },
        (AbsPhase::AwaitMarkFailed(e), AbsEvent::Marked(res)) => match res {
            Err(we) => AbsStep {
                phase: AbsPhase::Done(Err(AbsError::StoreWrite(we))),
                action: Option::None,
            },
            Ok(_) => AbsStep {
                phase: AbsPhase::AwaitAuditFailed(e),
                action: Option::Some(failed_audit(msg, e)),
            },
        },
        (AbsPhase::AwaitAuditFailed(e), AbsEvent::AuditWritten(_)) => AbsStep {
            phase: AbsPhase::Done(Err(e)),
            action: Option::None,
        },
        (AbsPhase::AwaitTemplate(token), AbsEvent::TemplateFetched(f)) => match f {
            AbsFetch::Failed(e) => fail_step(msg, AbsError::TemplateFetch(e)),
            AbsFetch::CircuitOpen => fail_step(
                msg,
                AbsError::CircuitOpen("template_service"@),
            ),
            AbsFetch::Fetched { title, body } => {
                let vars = msg.variables@;
                if first_non_scalar(vars) is Some {
                    let k = vars[first_non_scalar(vars)->Some_0].0@;
                    fail_step(
                        msg,
                        AbsError::TemplateRender(
                            "Unsupported variable type for key '"@ + k + "'"@,
                        ),
                    )
                } else {
                    let title2 = substitute(title, vars);
                    let body2 = substitute(body, vars);
                    if unresolved(title2) is Some {
                        fail_step(
                            msg,
                            AbsError::TemplateRender(
                                "Missing variable in template: "@ + unresolved(title2)->Some_0,
                            ),
                        )
                    } else if unresolved(body2) is Some {
                        fail_step(
                            msg,
                            AbsError::TemplateRender(
                                "Missing variable in template: "@ + unresolved(body2)->Some_0,
                            ),
                        )
                    } else {
                        AbsStep {
                            phase: AbsPhase::AwaitPush,
                            action: Option::Some(
                                AbsAction::SendPush {
                                    token,
                                    title: title2,
                                    body: body2,
                                    trace_id: msg.trace_id@,
                                },
                            ),
                        }
                    }
                }
            },
        },
        (AbsPhase::AwaitPush, AbsEvent::PushSent(s)) => match s {
            AbsSend::Sent => AbsStep {
                phase: AbsPhase::AwaitMarkSent,
                action: Option::Some(AbsAction::MarkSent(msg.idempotency_key@)),
            },
            AbsSend::Failed(e) => fail_step(msg, AbsError::PushFailed(e)),
            AbsSend::CircuitOpen => fail_step(msg, AbsError::CircuitOpen("fcm"@)),
        },
        (AbsPhase::AwaitMarkSent, AbsEvent::Marked(res)) => match res {
            Err(e) => AbsStep {
                phase: AbsPhase::Done(Err(AbsError::StoreWrite(e))),
                action: Option::None,
            },
            Ok(_) => AbsStep {
                phase: AbsPhase::AwaitAuditSent,
                action: Option::Some(sent_audit(msg)),
            },
        },
        (AbsPhase::AwaitAuditSent, AbsEvent::AuditWritten(_)) => AbsStep {
            phase: AbsPhase::Done(Ok(ProcessOutcome::Delivered)),
            action: Option::None,
        },
        (p, _) => stay(p),
    }
}

/// Whether an emitted audit row's metadata mirrors the message's.
pub open spec fn audit_metadata_ok(r: Option<ProcAction>, msg: NotificationMessage) -> bool {
    match r {
        Option::Some(ProcAction::WriteAudit { entry }) => entry.metadata is Object
            && same_entries(entry.metadata->Object_0@, msg.metadata@),
        _ => true,
    }
}

/// One message's run through the pipeline.
pub struct Processor {
    pub msg: NotificationMessage,
    pub phase: ProcPhase,
}

impl Processor {
    /// Begins a run: the first action is the idempotency check.
    pub fn start(msg: NotificationMessage) -> (r: (Processor, ProcAction))
        ensures
            r.0.msg == msg,
            r.0.phase.abs() == AbsPhase::AwaitIdempotency,
            r.1.abs() == AbsAction::CheckIdempotency(msg.idempotency_key@),
    {
        let key = msg.idempotency_key.clone();
        (Processor { msg, phase: ProcPhase::AwaitIdempotency }, ProcAction::CheckIdempotency {
            key,
        })
    }

    /// Feeds the outcome of the last action back and takes the
    /// machine's next decision, as `spec_step` states it. An event a
    /// phase does not wait for changes nothing.
    pub fn step(&mut self, event: ProcEvent) -> (r: Option<ProcAction>)
        ensures
            final(self).msg == old(self).msg,
            (AbsStep { phase: final(self).phase.abs(), action: abs_of_action(r) }) == spec_step(
                old(self).msg,
                old(self).phase.abs(),
                event.abs(),
            ),
            audit_metadata_ok(r, old(self).msg),
    {
        proof {
            reveal_strlit("push_token");
            reveal_strlit("en");
            reveal_strlit("template_service");
            reveal_strlit("fcm");
        }
        match (&self.phase, event) {
            (ProcPhase::AwaitIdempotency, ProcEvent::IdempotencyChecked(res)) => match res {
                Ok(IdempotencyStatus::Sent) | Ok(IdempotencyStatus::Processing) => {
                    self.phase = ProcPhase::Done {
                        result: Ok(ProcessOutcome::DuplicateSkipped),
                    };
                    None
                },
                _ => {
                    let key = self.msg.idempotency_key.clone();
                    self.phase = ProcPhase::AwaitMarkProcessing;
                    Some(ProcAction::MarkProcessing { key })
                },
            },
            (ProcPhase::AwaitMarkProcessing, ProcEvent::Marked(res)) => match res {
                Err(e) => {
                    self.phase = ProcPhase::Done { result: Err(ProcessError::StoreWrite(e)) };
                    None
                },
                Ok(_) => {
                    let token: Option<String> = match self.msg.push_token() {
                        Some(t) => Some(t.clone()),
                        None => None,
                    };
                    match token {
                        None => self.fail(ProcessError::MissingToken),
                        Some(t) => match validate_fcm_token(t.as_str()) {
                            Err(te) => self.fail(ProcessError::InvalidToken(te)),
                            Ok(_) => {
                                let code = self.msg.template_code.clone();
                                self.phase = ProcPhase::AwaitTemplate { token: t };
                                Some(ProcAction::FetchTemplate {
                                    code,
                                    language: String::from_str("en"),
                                })
                            },
                        },
                    }
                },
            },
            (ProcPhase::AwaitMarkFailed { err }, ProcEvent::Marked(res)) => match res {
                Err(we) => {
                    self.phase = ProcPhase::Done { result: Err(ProcessError::StoreWrite(we)) };
                    None
                },
                Ok(_) => {
                    let e = err.duplicate();
                    let entry = CreateAuditLog::new(
                        self.msg.trace_id.clone(),
                        self.msg.user_id.clone(),
                        self.msg.notification_type.clone(),
                        self.msg.template_code.clone(),
                        NotificationStatus::Failed,
                    ).with_error(e.message()).with_metadata(
                        JsonValue::Object(crate::json::duplicate_entries(&self.msg.metadata)),
                    );
                    self.phase = ProcPhase::AwaitAuditFailed { err: e };
                    Some(ProcAction::WriteAudit { entry })
                },
            },
            (ProcPhase::AwaitAuditFailed { err }, ProcEvent::AuditWritten(_)) => {
                let e = err.duplicate();
                self.phase = ProcPhase::Done { result: Err(e) };
                None
            },
            (ProcPhase::AwaitTemplate { token }, ProcEvent::TemplateFetched(f)) => match f {
                FetchOutcome::Failed(e) => self.fail(ProcessError::TemplateFetch(e)),
                FetchOutcome::CircuitOpen => self.fail(
                    ProcessError::CircuitOpen(String::from_str("template_service")),
                ),
                FetchOutcome::Fetched(template) => {
                    match crate::template::render_template(&template, &self.msg.variables) {
                        Err(re) => self.fail(ProcessError::TemplateRender(re.message())),
                        Ok(content) => {
                            let t = token.clone();
                            let trace_id = self.msg.trace_id.clone();
                            self.phase = ProcPhase::AwaitPush;
                            Some(ProcAction::SendPush {
                                token: t,
                                title: content.title,
                                body: content.body,
                                trace_id,
                            })
                        },
                    }
                },
            },
            (ProcPhase::AwaitPush, ProcEvent::PushSent(s)) => match s {
                SendOutcome::Sent => {
                    let key = self.msg.idempotency_key.clone();
                    self.phase = ProcPhase::AwaitMarkSent;
                    Some(ProcAction::MarkSent { key })
                },
                SendOutcome::Failed(e) => self.fail(ProcessError::PushFailed(e)),
                SendOutcome::CircuitOpen => self.fail(
                    ProcessError::CircuitOpen(String::from_str("fcm")),
                ),
            },
            (ProcPhase::AwaitMarkSent, ProcEvent::Marked(res)) => match res {
                Err(e) => {
                    self.phase = ProcPhase::Done { result: Err(ProcessError::StoreWrite(e)) };
                    None
                },
                Ok(_) => {
                    let entry = CreateAuditLog::new(
                        self.msg.trace_id.clone(),
                        self.msg.user_id.clone(),
                        self.msg.notification_type.clone(),
                        self.msg.template_code.clone(),
                        NotificationStatus::Sent,
                    ).with_metadata(
                        JsonValue::Object(crate::json::duplicate_entries(&self.msg.metadata)),
                    );
                    self.phase = ProcPhase::AwaitAuditSent;
                    Some(ProcAction::WriteAudit { entry })
                },
            },
            (ProcPhase::AwaitAuditSent, ProcEvent::AuditWritten(_)) => {
                self.phase = ProcPhase::Done { result: Ok(ProcessOutcome::Delivered) };
                None
            },
            (_, _) => None,
        }
    }

    /// Enters the failure path for `e`: the key is marked failed, then
    /// the audit row is written, then the run ends with `e`.
    fn fail(&mut self, e: ProcessError) -> (r: Option<ProcAction>)
        ensures
            final(self).msg == old(self).msg,
            final(self).phase.abs() == AbsPhase::AwaitMarkFailed(e.abs()),
            abs_of_action(r) == Option::Some(
                AbsAction::MarkFailed(old(self).msg.idempotency_key@),
            ),
            audit_metadata_ok(r, old(self).msg),
    {
        let key = self.msg.idempotency_key.clone();
        self.phase = ProcPhase::AwaitMarkFailed { err: e };
        Some(ProcAction::MarkFailed { key })
    }
}

/// The actions a run emits: from `phase`, under the events of `events`
/// in order.
pub open spec fn run_actions(
    msg: NotificationMessage,
    phase: AbsPhase,
    events: Seq<AbsEvent>,
) -> Seq<AbsAction>
    decreases events.len(),
{
    if events.len() == 0 {
        Seq::empty()
    } else {
        let st = spec_step(msg, phase, events[0]);
        (match st.action {
            Option::Some(a) => seq![a],
            Option::None => Seq::<AbsAction>::empty(),
        }) + run_actions(msg, st.phase, events.skip(1))
    }
}

/// The phase a run ends in.
pub open spec fn run_phase(
    msg: NotificationMessage,
    phase: AbsPhase,
    events: Seq<AbsEvent>,
) -> AbsPhase
    decreases events.len(),
{
    if events.len() == 0 {
        phase
    } else {
        run_phase(msg, spec_step(msg, phase, events[0]).phase, events.skip(1))
    }
}

/// A finished run takes no further step: no event moves it, and nothing
/// more is emitted.
pub proof fn lemma_done_emits_nothing(
    msg: NotificationMessage,
    result: Result<ProcessOutcome, AbsError>,
    events: Seq<AbsEvent>,
)
    ensures
        run_actions(msg, AbsPhase::Done(result), events) == Seq::<AbsAction>::empty(),
        run_phase(msg, AbsPhase::Done(result), events) == AbsPhase::Done(result),
    decreases events.len(),
{
    if events.len() == 0 {
    } else {
        assert(spec_step(msg, AbsPhase::Done(result), events[0]) == stay(
            AbsPhase::Done(result),
        ));
        lemma_done_emits_nothing(msg, result, events.skip(1));
        assert(Seq::<AbsAction>::empty() + Seq::<AbsAction>::empty() =~= Seq::<
            AbsAction,
        >::empty());
    }
}

/// Once the idempotency check answers `Sent` (or `Processing`), the run
/// ends at once as a skipped duplicate, and in particular the push
/// gateway is never called.
pub proof fn lemma_idempotency_monotonic(
    msg: NotificationMessage,
    events: Seq<AbsEvent>,
    status: IdempotencyStatus,
)
    requires
        events.len() >= 1,
        events[0] == AbsEvent::IdempotencyChecked(Ok::<IdempotencyStatus, Seq<char>>(status)),
        status == IdempotencyStatus::Sent || status == IdempotencyStatus::Processing,
    ensures
        run_phase(msg, AbsPhase::AwaitIdempotency, events) == AbsPhase::Done(
            Ok::<ProcessOutcome, AbsError>(ProcessOutcome::DuplicateSkipped),
        ),
        forall|k: int|
            0 <= k < run_actions(msg, AbsPhase::AwaitIdempotency, events).len()
                ==> !(#[trigger] run_actions(msg, AbsPhase::AwaitIdempotency, events)[k]
                is SendPush),
{
    let done = AbsPhase::Done(Ok::<ProcessOutcome, AbsError>(ProcessOutcome::DuplicateSkipped));
    assert(spec_step(msg, AbsPhase::AwaitIdempotency, events[0]) == (AbsStep {
        phase: done,
        action: Option::<AbsAction>::None,
    }));
    lemma_done_emits_nothing(
        msg,
        Ok::<ProcessOutcome, AbsError>(ProcessOutcome::DuplicateSkipped),
        events.skip(1),
    );
    assert(run_actions(msg, AbsPhase::AwaitIdempotency, events) =~= Seq::<AbsAction>::empty());
}

/// Whether an action is a `Sent` audit row.
pub open spec fn is_sent_audit(a: AbsAction) -> bool {
    match a {
        AbsAction::WriteAudit { status, .. } => status == NotificationStatus::Sent,
        _ => false,
    }
}

/// How many `Sent` audit rows a sequence of actions holds.
pub open spec fn count_sent_audits(actions: Seq<AbsAction>) -> int
    decreases actions.len(),
{
    if actions.len() == 0 {
        0
    } else {
        (if is_sent_audit(actions[0]) {
            1int
        } else {
            0int
        }) + count_sent_audits(actions.skip(1))
    }
}

/// The phases at or past the `Sent` audit write.
pub open spec fn past_sent_audit(phase: AbsPhase) -> bool {
    phase == AbsPhase::AwaitAuditSent || phase == AbsPhase::Done(
        Ok::<ProcessOutcome, AbsError>(ProcessOutcome::Delivered),
    )
}

/// Counting is additive over the one-step decomposition of a run.
proof fn lemma_count_step(head: Option<AbsAction>, rest: Seq<AbsAction>)
    ensures
        count_sent_audits(
            (match head {
                Option::Some(a) => seq![a],
                Option::None => Seq::<AbsAction>::empty(),
            }) + rest,
        ) == (match head {
            Option::Some(a) => if is_sent_audit(a) {
                1int
            } else {
                0int
            },
            Option::None => 0int,
        }) + count_sent_audits(rest),
{
    match head {
        Option::Some(a) => {
            let s = seq![a] + rest;
            assert(s[0] == a);
            assert(s.skip(1) =~= rest);
        },
        Option::None => {
            assert(Seq::<AbsAction>::empty() + rest =~= rest);
        },
    }
}

/// A run writes the `Sent` audit row exactly once if it reaches the
/// `Sent` write, and never otherwise; a run already past it writes no
/// further one.
proof fn lemma_sent_audit_count(msg: NotificationMessage, phase: AbsPhase, events: Seq<AbsEvent>)
    ensures
        !past_sent_audit(phase) ==> count_sent_audits(run_actions(msg, phase, events)) == (
        if past_sent_audit(run_phase(msg, phase, events)) {
            1int
        } else {
            0int
        }),
        past_sent_audit(phase) ==> count_sent_audits(run_actions(msg, phase, events)) == 0,
        past_sent_audit(phase) ==> past_sent_audit(run_phase(msg, phase, events)),
    decreases events.len(),
{
    if events.len() == 0 {
    } else {
        let st = spec_step(msg, phase, events[0]);
        lemma_sent_audit_count(msg, st.phase, events.skip(1));
        lemma_count_step(st.action, run_actions(msg, st.phase, events.skip(1)));
        assert(match st.action {
            Option::Some(a) => is_sent_audit(a) <==> (!past_sent_audit(phase) && past_sent_audit(
                st.phase,
            )),
            Option::None => !(!past_sent_audit(phase) && past_sent_audit(st.phase)),
        });
    }
}

/// No run writes more than one `Sent` audit row, and a run writes one
/// exactly when it ends delivered (or is about to).
pub proof fn lemma_single_sent_audit(msg: NotificationMessage, events: Seq<AbsEvent>)
    ensures
        count_sent_audits(run_actions(msg, AbsPhase::AwaitIdempotency, events)) <= 1,
        count_sent_audits(run_actions(msg, AbsPhase::AwaitIdempotency, events)) == 1
            <==> past_sent_audit(run_phase(msg, AbsPhase::AwaitIdempotency, events)),
{
    lemma_sent_audit_count(msg, AbsPhase::AwaitIdempotency, events);
}

} // verus!
