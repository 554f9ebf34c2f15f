//! The rules of the model registry and of inference.

use vstd::prelude::*;

use crate::answers::{
    Answer, AuditNote, Conclusion, StoreErrorKind, store_failure, store_failure_code,
};
use crate::protocol::{Failure, FailureCode, OperationTruth, truth_label, truth_name};
use crate::split::{just, lemma_span_before, lemma_span_is, span_before};
use crate::text::{
    chars_of, concat2, concat3, concat4, concat5, decimal, decimal_text, same_text, text_of,
};

verus! {

// Identities

/// The vendor and name in a model identity: what is before and after its first
/// slash.
pub open spec fn identity_parts(model: Seq<char>) -> Option<(Seq<char>, Seq<char>)> {
    let at = span_before(model, just('/'));
    if at < model.len() {
        Some((model.take(at as int), model.skip(at as int + 1)))
    } else {
        None
    }
}

/// Splits a model identity into vendor and name.
pub fn split_model_identity(model: &str) -> (parts: Option<(String, String)>)
    ensures
        match (parts, identity_parts(model@)) {
            (Some((vendor, name)), Some(expected)) => vendor@ == expected.0 && name@ == expected.1,
            (None, None) => true,
            _ => false,
        },
{
    let characters = chars_of(model);
    let mut at: usize = 0;
    while at < characters.len() && characters[at] != '/'
        invariant
            at <= characters@.len(),
            forall|i: int| 0 <= i < at ==> !just('/')(#[trigger] characters@[i]),
        decreases characters@.len() - at,
    {
        at = at + 1;
    }
    proof {
        lemma_span_is(model@, just('/'), at as int);
    }
    if at == characters.len() {
        return None;
    }
    let vendor = text_of(&characters, 0, at);
    let name = text_of(&characters, at + 1, characters.len());
    assert(vendor@ =~= model@.take(at as int));
    assert(name@ =~= model@.skip(at + 1));
    Some((vendor, name))
}

// Deadlines

/// How long an inference may take when the caller sets no deadline: five
/// minutes.
pub const DEFAULT_MODEL_DEADLINE_MS: u64 = 300_000;

/// The longest that an inference may take: ten minutes.
pub const MAX_MODEL_DEADLINE_MS: u64 = 600_000;

/// Why an inference has no usable deadline.
#[derive(Clone, Copy, Debug, PartialEq, Eq, Structural)]
pub enum DeadlineRefusal {
    Elapsed,
    TooFar,
    /// The host's clock cannot represent it.
    Unrepresentable,
}

/// The time that a deadline leaves, counted from `now`.
pub open spec fn remaining_of(deadline: Option<u64>, now: u64) -> Result<u64, DeadlineRefusal> {
    let due: int = match deadline {
        Some(at) => at as int,
        None => if now + DEFAULT_MODEL_DEADLINE_MS > u64::MAX {
            u64::MAX as int
        } else {
            now + DEFAULT_MODEL_DEADLINE_MS
        },
    };
    if due <= now {
        Err(DeadlineRefusal::Elapsed)
    } else if due - now > MAX_MODEL_DEADLINE_MS {
        Err(DeadlineRefusal::TooFar)
    } else {
        Ok((due - now) as u64)
    }
}

/// The milliseconds that a request's deadline leaves for inference.
pub fn model_deadline(deadline_unix_ms: Option<u64>, now_unix_ms: u64) -> (remaining: Result<
    u64,
    DeadlineRefusal,
>)
    ensures
        remaining == remaining_of(deadline_unix_ms, now_unix_ms),
        remaining matches Ok(ms) ==> 0 < ms <= MAX_MODEL_DEADLINE_MS,
{
    let due = match deadline_unix_ms {
        Some(at) => at,
        None => now_unix_ms.saturating_add(DEFAULT_MODEL_DEADLINE_MS),
    };
    if due <= now_unix_ms {
        return Err(DeadlineRefusal::Elapsed);
    }
    let remaining = due - now_unix_ms;
    if remaining > MAX_MODEL_DEADLINE_MS {
        return Err(DeadlineRefusal::TooFar);
    }
    Ok(remaining)
}

// Inference

/// How generation stopped.
#[derive(Clone, Copy, Debug, PartialEq, Eq, Structural)]
pub enum ModelFinishReason {
    Stop,
    Length,
}

pub open spec fn finish_name(reason: ModelFinishReason) -> Seq<char> {
    match reason {
        ModelFinishReason::Stop => "stop"@,
        ModelFinishReason::Length => "length"@,
    }
}

pub fn model_finish_label(reason: ModelFinishReason) -> (label: &'static str)
    ensures
        label@ == finish_name(reason),
{
    match reason {
        ModelFinishReason::Stop => "stop",
        ModelFinishReason::Length => "length",
    }
}

/// The tokens that an inference used.
#[derive(Clone, Copy, Debug, PartialEq, Eq, Structural)]
pub struct ModelUsage {
    pub input_tokens: u64,
    pub sampled_output_tokens: u64,
    pub emitted_output_tokens: u64,
}

/// Why the model service gave no answer.
#[derive(Clone, Copy, Debug, PartialEq, Eq, Structural)]
pub enum ModelServiceError {
    Busy,
    RuntimeBusy,
    DeadlineExceeded,
    RuntimeCancelled,
    RuntimeInvalidRequest,
    RuntimeFailed,
    Unavailable,
}

/// The code, message and audit outcome of a service error.
pub open spec fn service_failure_of(error: ModelServiceError) -> (
    FailureCode,
    Seq<char>,
    Seq<char>,
) {
    match error {
        ModelServiceError::Busy | ModelServiceError::RuntimeBusy => (
            FailureCode::Busy,
            "the embedded model worker is busy"@,
            "busy"@,
        ),
        ModelServiceError::DeadlineExceeded => (
            FailureCode::Cancelled,
            "model request deadline elapsed"@,
            "deadline_exceeded"@,
        ),
        ModelServiceError::RuntimeCancelled => (
            FailureCode::Cancelled,
            "model inference was cancelled"@,
            "cancelled"@,
        ),
        ModelServiceError::RuntimeInvalidRequest => (
            FailureCode::InvalidRequest,
            "model request is invalid"@,
            "invalid_request"@,
        ),
        ModelServiceError::RuntimeFailed | ModelServiceError::Unavailable => (
            FailureCode::Internal,
            "embedded model inference failed"@,
            "failed"@,
        ),
    }
}

pub fn model_service_failure(error: ModelServiceError) -> (parts: (
    FailureCode,
    &'static str,
    &'static str,
))
    ensures
        parts.0 == service_failure_of(error).0,
        parts.1@ == service_failure_of(error).1,
        parts.2@ == service_failure_of(error).2,
{
    match error {
        ModelServiceError::Busy | ModelServiceError::RuntimeBusy => (
            FailureCode::Busy,
            "the embedded model worker is busy",
            "busy",
        ),
        ModelServiceError::DeadlineExceeded => (
            FailureCode::Cancelled,
            "model request deadline elapsed",
            "deadline_exceeded",
        ),
        ModelServiceError::RuntimeCancelled => (
            FailureCode::Cancelled,
            "model inference was cancelled",
            "cancelled",
        ),
        ModelServiceError::RuntimeInvalidRequest => (
            FailureCode::InvalidRequest,
            "model request is invalid",
            "invalid_request",
        ),
        ModelServiceError::RuntimeFailed | ModelServiceError::Unavailable => (
            FailureCode::Internal,
            "embedded model inference failed",
            "failed",
        ),
    }
}

/// Why an inference is refused before the model sees it.
#[derive(Clone, Copy, Debug, PartialEq, Eq, Structural)]
pub enum InferRefusal {
    NotLoaded,
    Deadline(DeadlineRefusal),
    MessagesInvalid,
    RequestInvalid,
}

/// What came of the last action.
#[derive(Clone, Copy, Debug, PartialEq, Eq, Structural)]
pub enum InferEvent {
    /// The host's clock can represent the deadline.
    DeadlineSet(bool),
    MessagesConverted(bool),
    RequestBuilt(bool),
    Answered,
    Audited,
    AuditFailed,
}

/// Work to perform before the next event.
#[derive(Clone, Copy, Debug, PartialEq, Eq, Structural)]
pub enum InferAction {
    SetDeadline { remaining_ms: u64 },
    ConvertMessages,
    BuildRequest,
    Infer,
    /// Put the inference on record.
    Audit,
    /// Answer with what the model or its service gave.
    Reply,
    Refuse(InferRefusal),
    Fail,
    Ignore,
}

/// What the handler is waiting for.
#[derive(Clone, Copy, Debug, PartialEq, Eq, Structural)]
pub enum InferPhase {
    SettingDeadline,
    Converting,
    Building,
    Inferring,
    Auditing,
    Done,
}

/// The checks before anything else: the model is the loaded one, and the
/// deadline leaves time.
pub open spec fn infer_start_of(is_loaded: bool, deadline: Option<u64>, now: u64) -> (
    InferPhase,
    InferAction,
) {
    if !is_loaded {
        (InferPhase::Done, InferAction::Refuse(InferRefusal::NotLoaded))
    } else {
        match remaining_of(deadline, now) {
            Err(refusal) => (
                InferPhase::Done,
                InferAction::Refuse(InferRefusal::Deadline(refusal)),
            ),
            Ok(remaining_ms) => (
                InferPhase::SettingDeadline,
                InferAction::SetDeadline { remaining_ms },
            ),
        }
    }
}

/// The rule of an inference.
pub open spec fn spec_infer_step(phase: InferPhase, event: InferEvent) -> (InferPhase, InferAction) {
    match (phase, event) {
        (InferPhase::SettingDeadline, InferEvent::DeadlineSet(set)) => if set {
            (InferPhase::Converting, InferAction::ConvertMessages)
        } else {
            (
                InferPhase::Done,
                InferAction::Refuse(InferRefusal::Deadline(DeadlineRefusal::Unrepresentable)),
            )
        },
        (InferPhase::Converting, InferEvent::MessagesConverted(valid)) => if valid {
            (InferPhase::Building, InferAction::BuildRequest)
        } else {
            (InferPhase::Done, InferAction::Refuse(InferRefusal::MessagesInvalid))
        },
        (InferPhase::Building, InferEvent::RequestBuilt(valid)) => if valid {
            (InferPhase::Inferring, InferAction::Infer)
        } else {
            (InferPhase::Done, InferAction::Refuse(InferRefusal::RequestInvalid))
        },
        (InferPhase::Inferring, InferEvent::Answered) => (InferPhase::Auditing, InferAction::Audit),
        (InferPhase::Auditing, InferEvent::Audited) => (InferPhase::Done, InferAction::Reply),
        (InferPhase::Auditing, InferEvent::AuditFailed) => (InferPhase::Done, InferAction::Fail),
        _ => (phase, InferAction::Ignore),
    }
}

/// Makes the checks that come before anything else.
pub fn infer_start(
    model: &str,
    loaded: Option<&str>,
    deadline_unix_ms: Option<u64>,
    now_unix_ms: u64,
) -> (next: (InferPhase, InferAction))
    ensures
        next == infer_start_of(
            (loaded matches Some(id) && id@ == model@),
            deadline_unix_ms,
            now_unix_ms,
        ),
{
    let is_loaded = match loaded {
        Some(id) => same_text(id, model),
        None => false,
    };
    if !is_loaded {
        return (InferPhase::Done, InferAction::Refuse(InferRefusal::NotLoaded));
    }
    match model_deadline(deadline_unix_ms, now_unix_ms) {
        Err(refusal) => (
            InferPhase::Done,
            InferAction::Refuse(InferRefusal::Deadline(refusal)),
        ),
        Ok(remaining_ms) => (
            InferPhase::SettingDeadline,
            InferAction::SetDeadline { remaining_ms },
        ),
    }
}

/// Decides what follows `event` in an inference.
pub fn infer_step(phase: InferPhase, event: InferEvent) -> (next: (InferPhase, InferAction))
    ensures
        next == spec_infer_step(phase, event),
{
    match (phase, event) {
        (InferPhase::SettingDeadline, InferEvent::DeadlineSet(set)) => {
            if set {
                (InferPhase::Converting, InferAction::ConvertMessages)
            } else {
                (
                    InferPhase::Done,
                    InferAction::Refuse(InferRefusal::Deadline(DeadlineRefusal::Unrepresentable)),
                )
            }
        },
        (InferPhase::Converting, InferEvent::MessagesConverted(valid)) => {
            if valid {
                (InferPhase::Building, InferAction::BuildRequest)
            } else {
                (InferPhase::Done, InferAction::Refuse(InferRefusal::MessagesInvalid))
            }
        },
        (InferPhase::Building, InferEvent::RequestBuilt(valid)) => {
            if valid {
                (InferPhase::Inferring, InferAction::Infer)
            } else {
                (InferPhase::Done, InferAction::Refuse(InferRefusal::RequestInvalid))
            }
        },
        (InferPhase::Inferring, InferEvent::Answered) => (InferPhase::Auditing, InferAction::Audit),
        (InferPhase::Auditing, InferEvent::Audited) => (InferPhase::Done, InferAction::Reply),
        (InferPhase::Auditing, InferEvent::AuditFailed) => (InferPhase::Done, InferAction::Fail),
        _ => (phase, InferAction::Ignore),
    }
}

/// Phase and action after `events` of an inference.
pub open spec fn infer_run(
    is_loaded: bool,
    deadline: Option<u64>,
    now: u64,
    events: Seq<InferEvent>,
) -> (InferPhase, InferAction)
    decreases events.len(),
{
    if events.len() == 0 {
        infer_start_of(is_loaded, deadline, now)
    } else {
        spec_infer_step(infer_run(is_loaded, deadline, now, events.drop_last()).0, events.last())
    }
}

proof fn lemma_infer_admitted(
    is_loaded: bool,
    deadline: Option<u64>,
    now: u64,
    events: Seq<InferEvent>,
)
    ensures
        !(infer_run(is_loaded, deadline, now, events).0 is Done) ==> is_loaded && remaining_of(
            deadline,
            now,
        ) is Ok,
        infer_run(is_loaded, deadline, now, events).1 == InferAction::Infer ==> is_loaded
            && remaining_of(deadline, now) is Ok,
        infer_run(is_loaded, deadline, now, events).1 == InferAction::Reply ==> events.len() > 0
            && events.last() == InferEvent::Audited,
    decreases events.len(),
{
    if events.len() > 0 {
        lemma_infer_admitted(is_loaded, deadline, now, events.drop_last());
    }
}

/// The runtime works only for the model that is loaded, and only under a
/// deadline that leaves some time and no more than the limit.
pub proof fn law_inference_is_bounded(
    is_loaded: bool,
    deadline: Option<u64>,
    now: u64,
    events: Seq<InferEvent>,
)
    requires
        infer_run(is_loaded, deadline, now, events).1 == InferAction::Infer,
    ensures
        is_loaded,
        remaining_of(deadline, now) matches Ok(ms) && 0 < ms <= MAX_MODEL_DEADLINE_MS,
{
    lemma_infer_admitted(is_loaded, deadline, now, events);
}

/// No inference is answered before it is on record.
pub proof fn law_inference_is_audited(
    is_loaded: bool,
    deadline: Option<u64>,
    now: u64,
    events: Seq<InferEvent>,
)
    requires
        infer_run(is_loaded, deadline, now, events).1 == InferAction::Reply,
    ensures
        events.len() > 0,
        events.last() == InferEvent::Audited,
{
    lemma_infer_admitted(is_loaded, deadline, now, events);
}

/// `failure` reports `refusal` of an inference on `model`.
pub open spec fn reports_infer_refusal(
    failure: Failure,
    refusal: InferRefusal,
    model: Seq<char>,
) -> bool {
    match refusal {
        InferRefusal::NotLoaded => failure.says(
            FailureCode::NotFound,
            "the requested model is not loaded in this daemon"@,
            Some("restart PAM with `pam daemon --model "@ + model + "`"@),
        ),
        InferRefusal::Deadline(DeadlineRefusal::Elapsed) => failure.says(
            FailureCode::Cancelled,
            "model request deadline has elapsed"@,
            None,
        ),
        InferRefusal::Deadline(DeadlineRefusal::TooFar) => failure.says(
            FailureCode::InvalidRequest,
            "model request deadline exceeds the 10 minute limit"@,
            None,
        ),
        InferRefusal::Deadline(DeadlineRefusal::Unrepresentable) => failure.says(
            FailureCode::InvalidRequest,
            "model request deadline is invalid"@,
            None,
        ),
        InferRefusal::MessagesInvalid => failure.says(
            FailureCode::InvalidRequest,
            "model messages are invalid"@,
            None,
        ),
        InferRefusal::RequestInvalid => failure.says(
            FailureCode::InvalidRequest,
            "model request is invalid"@,
            None,
        ),
    }
}

/// The answer to a refused inference.
pub fn infer_refusal_failure(refusal: InferRefusal, model: &str) -> (failure: Failure)
    ensures
        reports_infer_refusal(failure, refusal, model@),
{
    match refusal {
        InferRefusal::NotLoaded => {
            let recovery = concat3("restart PAM with `pam daemon --model ", model, "`");
            Failure::recoverable(
                FailureCode::NotFound,
                "the requested model is not loaded in this daemon",
                recovery.as_str(),
            )
        },
        InferRefusal::Deadline(DeadlineRefusal::Elapsed) => Failure::new(
            FailureCode::Cancelled,
            "model request deadline has elapsed",
        ),
        InferRefusal::Deadline(DeadlineRefusal::TooFar) => Failure::new(
            FailureCode::InvalidRequest,
            "model request deadline exceeds the 10 minute limit",
        ),
        InferRefusal::Deadline(DeadlineRefusal::Unrepresentable) => Failure::new(
            FailureCode::InvalidRequest,
            "model request deadline is invalid",
        ),
        InferRefusal::MessagesInvalid => Failure::new(
            FailureCode::InvalidRequest,
            "model messages are invalid",
        ),
        InferRefusal::RequestInvalid => Failure::new(
            FailureCode::InvalidRequest,
            "model request is invalid",
        ),
    }
}

/// What the model gave.
pub struct RuntimeResponse {
    pub text: String,
    pub finish_reason: ModelFinishReason,
    pub usage: ModelUsage,
}

/// A generated text as the caller gets it.
pub struct ModelGeneration {
    pub model: String,
    pub text: String,
    pub finish_reason: ModelFinishReason,
    pub usage: ModelUsage,
}

/// The audit detail of a generation.
pub open spec fn generation_detail(
    model: Seq<char>,
    finish: ModelFinishReason,
    usage: ModelUsage,
) -> Seq<char> {
    "model="@ + model + " finish="@ + finish_name(finish) + " input_tokens="@ + decimal(
        usage.input_tokens as nat,
    ) + " sampled_output_tokens="@ + decimal(usage.sampled_output_tokens as nat)
        + " emitted_output_tokens="@ + decimal(usage.emitted_output_tokens as nat)
}

/// `conclusion` reports what the model gave. `accepted` tells whether the
/// protocol can carry it.
pub open spec fn reports_response(
    conclusion: Conclusion<ModelGeneration>,
    model: Seq<char>,
    response: RuntimeResponse,
    accepted: bool,
) -> bool {
    if accepted {
        &&& conclusion.answer matches Answer::Success { truth, payload } && truth
            == OperationTruth::Observed && payload.model@ == model && payload.text == response.text
            && payload.finish_reason == response.finish_reason && payload.usage == response.usage
        &&& conclusion.audit.says(
            "model-inference"@,
            "model.infer"@,
            "execute"@,
            "observed"@,
            generation_detail(model, response.finish_reason, response.usage),
        )
    } else {
        &&& conclusion.answer.fails(
            FailureCode::Internal,
            "embedded model returned an invalid result"@,
            None,
        )
        &&& conclusion.audit.says(
            "model-inference"@,
            "model.infer"@,
            "execute"@,
            "failed"@,
            "model="@ + model + " outcome=invalid_result"@,
        )
    }
}

/// Concludes an inference that the model answered.
pub fn model_runtime_result(model: &str, response: RuntimeResponse, accepted: bool) -> (conclusion:
    Conclusion<ModelGeneration>)
    ensures
        reports_response(conclusion, model@, response, accepted),
{
    if !accepted {
        return Conclusion {
            answer: Answer::Failure(
                Failure::new(FailureCode::Internal, "embedded model returned an invalid result"),
            ),
            audit: AuditNote {
                purpose: "model-inference".to_owned(),
                action: "model.infer".to_owned(),
                decision: "execute".to_owned(),
                outcome: "failed".to_owned(),
                detail: concat3("model=", model, " outcome=invalid_result"),
            },
        };
    }
    let input = decimal_text(response.usage.input_tokens);
    let sampled = decimal_text(response.usage.sampled_output_tokens);
    let emitted = decimal_text(response.usage.emitted_output_tokens);
    let mut detail = concat4(
        "model=",
        model,
        " finish=",
        model_finish_label(response.finish_reason),
    );
    detail.append(" input_tokens=");
    detail.append(input.as_str());
    detail.append(" sampled_output_tokens=");
    detail.append(sampled.as_str());
    detail.append(" emitted_output_tokens=");
    detail.append(emitted.as_str());
    Conclusion {
        answer: Answer::Success {
            truth: OperationTruth::Observed,
            payload: ModelGeneration {
                model: model.to_owned(),
                text: response.text,
                finish_reason: response.finish_reason,
                usage: response.usage,
            },
        },
        audit: AuditNote {
            purpose: "model-inference".to_owned(),
            action: "model.infer".to_owned(),
            decision: "execute".to_owned(),
            outcome: "observed".to_owned(),
            detail,
        },
    }
}

/// Concludes an inference that the service did not answer.
pub fn model_service_result(model: &str, error: ModelServiceError) -> (conclusion: Conclusion<ModelGeneration>)
    ensures
        conclusion.answer.fails(service_failure_of(error).0, service_failure_of(error).1, None),
        conclusion.audit.says(
            "model-inference"@,
            "model.infer"@,
            "execute"@,
            service_failure_of(error).2,
            "model="@ + model@ + " outcome="@ + service_failure_of(error).2,
        ),
{
    let (code, message, outcome) = model_service_failure(error);
    Conclusion {
        answer: Answer::Failure(Failure::new(code, message)),
        audit: AuditNote {
            purpose: "model-inference".to_owned(),
            action: "model.infer".to_owned(),
            decision: "execute".to_owned(),
            outcome: outcome.to_owned(),
            detail: concat4("model=", model, " outcome=", outcome),
        },
    }
}

// Removal

/// What a caller wants removed.
#[derive(Clone, Copy, Debug, PartialEq, Eq, Structural)]
pub enum RemovalKind {
    /// The registry row alone.
    Registration,
    /// The downloaded weights, and the row with them.
    Weights,
}

/// Why the weights of a model are not PAM's to delete.
#[derive(Clone, Copy, Debug, PartialEq, Eq, Structural)]
pub enum WeightsRefusal {
    NotDownloadedByPam,
    OutsideModelsDirectory,
    Unsafe,
}

/// Why a removal is refused.
#[derive(Clone, Copy, Debug, PartialEq, Eq, Structural)]
pub enum RemovalRefusal {
    InvalidIdentity,
    Loaded,
    NotRegistered,
    ModelsDirectoryUnresolved,
    Weights(WeightsRefusal),
    /// The deletion did not finish.
    Interrupted,
    /// The store failed, in its own words.
    Store(StoreErrorKind),
}

/// What came of the last action.
#[derive(Clone, Copy, Debug, PartialEq, Eq, Structural)]
pub enum RemovalEvent {
    Record,
    NoRecord,
    ModelsDirectory(bool),
    WeightsDeleted,
    WeightsKept(WeightsRefusal),
    WeightsInterrupted,
    RowDeleted,
    StoreFailed(StoreErrorKind),
    Audited,
    AuditFailed,
}

/// Work to perform before the next event.
#[derive(Clone, Copy, Debug, PartialEq, Eq, Structural)]
pub enum RemovalAction {
    LoadRecord,
    ResolveModelsDirectory,
    DeleteWeights,
    DeleteRow,
    Audit,
    Reply,
    Refuse(RemovalRefusal),
    Fail,
    Ignore,
}

/// What the handler is waiting for.
#[derive(Clone, Copy, Debug, PartialEq, Eq, Structural)]
pub enum RemovalPhase {
    LoadingRecord,
    ResolvingDirectory,
    DeletingWeights,
    DeletingRow,
    Auditing,
    Done,
}

pub open spec fn removal_refused(refusal: RemovalRefusal) -> (RemovalPhase, RemovalAction) {
    (RemovalPhase::Done, RemovalAction::Refuse(refusal))
}

/// The checks before anything is looked up: the identity is one, and it is not
/// the model that the daemon serves.
pub open spec fn removal_start_of(
    kind: RemovalKind,
    identity_valid: bool,
    is_loaded: bool,
) -> (RemovalPhase, RemovalAction) {
    if !identity_valid {
        removal_refused(RemovalRefusal::InvalidIdentity)
    } else if is_loaded {
        removal_refused(RemovalRefusal::Loaded)
    } else {
        match kind {
            RemovalKind::Registration => (RemovalPhase::DeletingRow, RemovalAction::DeleteRow),
            RemovalKind::Weights => (RemovalPhase::LoadingRecord, RemovalAction::LoadRecord),
        }
    }
}

/// The rule of a removal.
pub open spec fn spec_removal_step(
    kind: RemovalKind,
    phase: RemovalPhase,
    event: RemovalEvent,
) -> (RemovalPhase, RemovalAction) {
    match (phase, event) {
        (RemovalPhase::LoadingRecord, RemovalEvent::Record) => (
            RemovalPhase::ResolvingDirectory,
            RemovalAction::ResolveModelsDirectory,
        ),
        (RemovalPhase::LoadingRecord, RemovalEvent::NoRecord) => removal_refused(
            RemovalRefusal::NotRegistered,
        ),
        (RemovalPhase::LoadingRecord, RemovalEvent::StoreFailed(error)) => removal_refused(
            RemovalRefusal::Store(error),
        ),
        (RemovalPhase::ResolvingDirectory, RemovalEvent::ModelsDirectory(resolved)) => {
            if resolved {
                (RemovalPhase::DeletingWeights, RemovalAction::DeleteWeights)
            } else {
                removal_refused(RemovalRefusal::ModelsDirectoryUnresolved)
            }
        },
        (RemovalPhase::DeletingWeights, RemovalEvent::WeightsDeleted) => (
            RemovalPhase::DeletingRow,
            RemovalAction::DeleteRow,
        ),
        (RemovalPhase::DeletingWeights, RemovalEvent::WeightsKept(refusal)) => removal_refused(
            RemovalRefusal::Weights(refusal),
        ),
        (RemovalPhase::DeletingWeights, RemovalEvent::WeightsInterrupted) => removal_refused(
            RemovalRefusal::Interrupted,
        ),
        (RemovalPhase::DeletingRow, RemovalEvent::RowDeleted) => (
            RemovalPhase::Auditing,
            RemovalAction::Audit,
        ),
        (RemovalPhase::DeletingRow, RemovalEvent::NoRecord) => if kind
            == RemovalKind::Registration {
            removal_refused(RemovalRefusal::NotRegistered)
        } else {
            removal_refused(RemovalRefusal::Store(StoreErrorKind::ModelNotFound))
        },
        (RemovalPhase::DeletingRow, RemovalEvent::StoreFailed(error)) => removal_refused(
            RemovalRefusal::Store(error),
        ),
        (RemovalPhase::Auditing, RemovalEvent::Audited) => (
            RemovalPhase::Done,
            RemovalAction::Reply,
        ),
        (RemovalPhase::Auditing, RemovalEvent::AuditFailed) => (
            RemovalPhase::Done,
            RemovalAction::Fail,
        ),
        _ => (phase, RemovalAction::Ignore),
    }
}

fn refuse_removal(refusal: RemovalRefusal) -> (next: (RemovalPhase, RemovalAction))
    ensures
        next == removal_refused(refusal),
{
    (RemovalPhase::Done, RemovalAction::Refuse(refusal))
}

/// Makes the checks before anything is looked up. `key` is the identity that
/// the registry makes of the requested one, if it accepts it.
pub fn removal_start(kind: RemovalKind, key: Option<&str>, loaded: Option<&str>) -> (next: (
    RemovalPhase,
    RemovalAction,
))
    ensures
        next == removal_start_of(
            kind,
            key is Some,
            (match (key, loaded) {
                (Some(requested), Some(id)) => requested@ == id@,
                _ => false,
            }),
        ),
{
    let requested = match key {
        Some(requested) => requested,
        None => return refuse_removal(RemovalRefusal::InvalidIdentity),
    };
    let is_loaded = match loaded {
        Some(id) => same_text(requested, id),
        None => false,
    };
    if is_loaded {
        return refuse_removal(RemovalRefusal::Loaded);
    }
    match kind {
        RemovalKind::Registration => (RemovalPhase::DeletingRow, RemovalAction::DeleteRow),
        RemovalKind::Weights => (RemovalPhase::LoadingRecord, RemovalAction::LoadRecord),
    }
}

/// Decides what follows `event` in a removal.
pub fn removal_step(kind: RemovalKind, phase: RemovalPhase, event: RemovalEvent) -> (next: (
    RemovalPhase,
    RemovalAction,
))
    ensures
        next == spec_removal_step(kind, phase, event),
{
    match (phase, event) {
        (RemovalPhase::LoadingRecord, RemovalEvent::Record) => (
            RemovalPhase::ResolvingDirectory,
            RemovalAction::ResolveModelsDirectory,
        ),
        (RemovalPhase::LoadingRecord, RemovalEvent::NoRecord) => refuse_removal(
            RemovalRefusal::NotRegistered,
        ),
        (RemovalPhase::LoadingRecord, RemovalEvent::StoreFailed(error)) => refuse_removal(
            RemovalRefusal::Store(error),
        ),
        (RemovalPhase::ResolvingDirectory, RemovalEvent::ModelsDirectory(resolved)) => {
            if resolved {
                (RemovalPhase::DeletingWeights, RemovalAction::DeleteWeights)
            } else {
                refuse_removal(RemovalRefusal::ModelsDirectoryUnresolved)
            }
        },
        (RemovalPhase::DeletingWeights, RemovalEvent::WeightsDeleted) => (
            RemovalPhase::DeletingRow,
            RemovalAction::DeleteRow,
        ),
        (RemovalPhase::DeletingWeights, RemovalEvent::WeightsKept(refusal)) => refuse_removal(
            RemovalRefusal::Weights(refusal),
        ),
        (RemovalPhase::DeletingWeights, RemovalEvent::WeightsInterrupted) => refuse_removal(
            RemovalRefusal::Interrupted,
        ),
        (RemovalPhase::DeletingRow, RemovalEvent::RowDeleted) => (
            RemovalPhase::Auditing,
            RemovalAction::Audit,
        ),
        (RemovalPhase::DeletingRow, RemovalEvent::NoRecord) => {
            if kind == RemovalKind::Registration {
                refuse_removal(RemovalRefusal::NotRegistered)
            } else {
                refuse_removal(RemovalRefusal::Store(StoreErrorKind::ModelNotFound))
            }
        },
        (RemovalPhase::DeletingRow, RemovalEvent::StoreFailed(error)) => refuse_removal(
            RemovalRefusal::Store(error),
        ),
        (RemovalPhase::Auditing, RemovalEvent::Audited) => (
            RemovalPhase::Done,
            RemovalAction::Reply,
        ),
        (RemovalPhase::Auditing, RemovalEvent::AuditFailed) => (
            RemovalPhase::Done,
            RemovalAction::Fail,
        ),
        _ => (phase, RemovalAction::Ignore),
    }
}

/// Phase and action after `events` of a removal.
pub open spec fn removal_run(
    kind: RemovalKind,
    identity_valid: bool,
    is_loaded: bool,
    events: Seq<RemovalEvent>,
) -> (RemovalPhase, RemovalAction)
    decreases events.len(),
{
    if events.len() == 0 {
        removal_start_of(kind, identity_valid, is_loaded)
    } else {
        spec_removal_step(
            kind,
            removal_run(kind, identity_valid, is_loaded, events.drop_last()).0,
            events.last(),
        )
    }
}

proof fn lemma_removal_invariant(
    kind: RemovalKind,
    identity_valid: bool,
    is_loaded: bool,
    events: Seq<RemovalEvent>,
)
    ensures
        ({
            let (phase, action) = removal_run(kind, identity_valid, is_loaded, events);
            &&& !(phase is Done) ==> identity_valid && !is_loaded
            &&& phase is LoadingRecord || phase is ResolvingDirectory || phase is DeletingWeights
                ==> kind == RemovalKind::Weights
            &&& phase is DeletingRow || phase is Auditing ==> kind == RemovalKind::Registration
                || events.contains(RemovalEvent::WeightsDeleted)
            &&& action == RemovalAction::DeleteWeights || action == RemovalAction::DeleteRow
                ==> identity_valid && !is_loaded
            &&& action == RemovalAction::DeleteWeights ==> kind == RemovalKind::Weights
        }),
    decreases events.len(),
{
    if events.len() > 0 {
        let before = events.drop_last();
        lemma_removal_invariant(kind, identity_valid, is_loaded, before);
        if before.contains(RemovalEvent::WeightsDeleted) {
            let i = choose|i: int|
                0 <= i < before.len() && before[i] == RemovalEvent::WeightsDeleted;
            assert(events[i] == RemovalEvent::WeightsDeleted);
        }
        if events.last() == RemovalEvent::WeightsDeleted {
            assert(events[events.len() - 1] == RemovalEvent::WeightsDeleted);
        }
    }
}

/// Neither the row nor the weights of the model that the daemon serves are
/// touched, and unregistering a model touches no weights.
pub proof fn law_removal_spares_the_loaded_model(
    kind: RemovalKind,
    identity_valid: bool,
    is_loaded: bool,
    events: Seq<RemovalEvent>,
)
    ensures
        ({
            let action = removal_run(kind, identity_valid, is_loaded, events).1;
            &&& action == RemovalAction::DeleteRow || action == RemovalAction::DeleteWeights
                ==> !is_loaded
            &&& action == RemovalAction::DeleteWeights ==> kind == RemovalKind::Weights
        }),
{
    lemma_removal_invariant(kind, identity_valid, is_loaded, events);
}

/// The bytes go before the row: when weights are deleted, the row goes only
/// once they are gone.
pub proof fn law_weights_go_before_the_row(
    identity_valid: bool,
    is_loaded: bool,
    events: Seq<RemovalEvent>,
)
    requires
        removal_run(RemovalKind::Weights, identity_valid, is_loaded, events).1
            == RemovalAction::DeleteRow,
    ensures
        events.contains(RemovalEvent::WeightsDeleted),
{
    lemma_removal_invariant(RemovalKind::Weights, identity_valid, is_loaded, events);
}

/// What a removal is about, in words.
pub struct RemovalTexts<'a> {
    pub model: &'a str,
    /// The path of the weights, where it is known.
    pub path: &'a str,
    pub models_dir: &'a str,
    /// The store's or the registry's own words, where it refused.
    pub reason: &'a str,
}

/// The recovery for weights that are not PAM's to delete.
pub open spec fn weights_recovery(
    refusal: WeightsRefusal,
    model: Seq<char>,
    path: Seq<char>,
    models_dir: Seq<char>,
) -> Seq<char> {
    match refusal {
        WeightsRefusal::NotDownloadedByPam => "Run `pam model unregister "@ + model
            + " --yes` to drop the registry entry, then delete "@ + path + " yourself."@,
        WeightsRefusal::OutsideModelsDirectory => "Move the file back under "@ + models_dir
            + ", or run `pam model unregister "@ + model + " --yes` and delete "@ + path
            + " yourself."@,
        WeightsRefusal::Unsafe => "Inspect "@ + path
            + ", then run `pam model sweep` to see what the registry and the models directory disagree about."@,
    }
}

/// Explains why weights are not deleted, and what the owner can do instead.
/// `reason` is the registry's own sentence for the refusal.
pub fn weights_refusal_failure(
    refusal: WeightsRefusal,
    reason: &str,
    model: &str,
    path: &str,
    models_dir: &str,
) -> (failure: Failure)
    ensures
        failure.says(
            FailureCode::InvalidRequest,
            reason@ + " at "@ + path@,
            Some(weights_recovery(refusal, model@, path@, models_dir@)),
        ),
{
    let message = concat3(reason, " at ", path);
    let recovery = match refusal {
        WeightsRefusal::NotDownloadedByPam => concat5(
            "Run `pam model unregister ",
            model,
            " --yes` to drop the registry entry, then delete ",
            path,
            " yourself.",
        ),
        WeightsRefusal::OutsideModelsDirectory => {
            let mut text = concat5(
                "Move the file back under ",
                models_dir,
                ", or run `pam model unregister ",
                model,
                " --yes` and delete ",
            );
            text.append(path);
            text.append(" yourself.");
            text
        },
        WeightsRefusal::Unsafe => concat3(
            "Inspect ",
            path,
            ", then run `pam model sweep` to see what the registry and the models directory disagree about.",
        ),
    };
    Failure::recoverable(FailureCode::InvalidRequest, message.as_str(), recovery.as_str())
}

/// The message for a model that the daemon serves.
pub const MODEL_UNREGISTER_LOADED_MESSAGE: &'static str =
    "the requested model is loaded in this daemon and cannot be unregistered";

/// The message for weights that the daemon has mapped.
pub const MODEL_DELETE_WEIGHTS_LOADED_MESSAGE: &'static str =
    "the requested model is loaded in this daemon and its weights cannot be deleted";

/// The message for a models directory that nobody can name.
pub const MODELS_DIR_UNRESOLVED_MESSAGE: &'static str =
    "PAM could not resolve the models directory to reconcile against";

/// `failure` reports that the served model is not removed.
pub open spec fn reports_loaded(failure: Failure, kind: RemovalKind, model: Seq<char>) -> bool {
    match kind {
        RemovalKind::Registration => failure.says(
            FailureCode::LeaseConflict,
            MODEL_UNREGISTER_LOADED_MESSAGE@,
            Some(
                "restart PAM without this model using `pam daemon`, then unregister "@ + model,
            ),
        ),
        RemovalKind::Weights => failure.says(
            FailureCode::LeaseConflict,
            MODEL_DELETE_WEIGHTS_LOADED_MESSAGE@,
            Some(
                "restart PAM without this model using `pam daemon`, then delete the weights for "@
                    + model,
            ),
        ),
    }
}

/// Explains that the served model is not removed.
pub fn loaded_refusal(kind: RemovalKind, model: &str) -> (failure: Failure)
    ensures
        reports_loaded(failure, kind, model@),
{
    match kind {
        RemovalKind::Registration => {
            let recovery = concat2(
                "restart PAM without this model using `pam daemon`, then unregister ",
                model,
            );
            Failure::recoverable(
                FailureCode::LeaseConflict,
                MODEL_UNREGISTER_LOADED_MESSAGE,
                recovery.as_str(),
            )
        },
        RemovalKind::Weights => {
            let recovery = concat2(
                "restart PAM without this model using `pam daemon`, then delete the weights for ",
                model,
            );
            Failure::recoverable(
                FailureCode::LeaseConflict,
                MODEL_DELETE_WEIGHTS_LOADED_MESSAGE,
                recovery.as_str(),
            )
        },
    }
}

/// The failure of a request that needs the models directory.
pub fn models_dir_unresolved() -> (failure: Failure)
    ensures
        failure.says(
            FailureCode::Internal,
            MODELS_DIR_UNRESOLVED_MESSAGE@,
            Some("Verify the operating system user profile and PAM's Settings, then retry."@),
        ),
{
    Failure::recoverable(
        FailureCode::Internal,
        MODELS_DIR_UNRESOLVED_MESSAGE,
        "Verify the operating system user profile and PAM's Settings, then retry.",
    )
}

/// The failure of a request about a model that is not registered.
pub fn not_registered(model_id: &str) -> (failure: Failure)
    ensures
        failure.says(
            FailureCode::NotFound,
            "model "@ + model_id@ + " is not registered"@,
            None,
        ),
{
    let message = concat3("model ", model_id, " is not registered");
    Failure::new(FailureCode::NotFound, message.as_str())
}

/// The failure of a request whose model identity is none.
pub fn invalid_identity() -> (failure: Failure)
    ensures
        failure.says(
            FailureCode::InvalidRequest,
            "model identity is not a valid registry identity"@,
            None,
        ),
{
    Failure::new(
        FailureCode::InvalidRequest,
        "model identity is not a valid registry identity",
    )
}

/// `failure` reports `refusal` of a removal.
pub open spec fn reports_removal_refusal(
    failure: Failure,
    kind: RemovalKind,
    refusal: RemovalRefusal,
    texts: RemovalTexts,
) -> bool {
    match refusal {
        RemovalRefusal::InvalidIdentity => failure.says(
            FailureCode::InvalidRequest,
            "model identity is not a valid registry identity"@,
            None,
        ),
        RemovalRefusal::Loaded => reports_loaded(failure, kind, texts.model@),
        RemovalRefusal::NotRegistered => failure.says(
            FailureCode::NotFound,
            "model "@ + texts.model@ + " is not registered"@,
            None,
        ),
        RemovalRefusal::ModelsDirectoryUnresolved => failure.says(
            FailureCode::Internal,
            MODELS_DIR_UNRESOLVED_MESSAGE@,
            Some("Verify the operating system user profile and PAM's Settings, then retry."@),
        ),
        RemovalRefusal::Weights(weights) => failure.says(
            FailureCode::InvalidRequest,
            texts.reason@ + " at "@ + texts.path@,
            Some(weights_recovery(weights, texts.model@, texts.path@, texts.models_dir@)),
        ),
        RemovalRefusal::Interrupted => failure.says(
            FailureCode::Internal,
            "the weights deletion did not finish"@,
            None,
        ),
        RemovalRefusal::Store(error) => failure.says(
            store_failure_code(error),
            texts.reason@,
            None,
        ),
    }
}

/// The answer to a refused removal.
pub fn removal_refusal_failure(
    kind: RemovalKind,
    refusal: RemovalRefusal,
    texts: &RemovalTexts,
) -> (failure: Failure)
    ensures
        reports_removal_refusal(failure, kind, refusal, *texts),
{
    match refusal {
        RemovalRefusal::InvalidIdentity => invalid_identity(),
        RemovalRefusal::Loaded => loaded_refusal(kind, texts.model),
        RemovalRefusal::NotRegistered => not_registered(texts.model),
        RemovalRefusal::ModelsDirectoryUnresolved => models_dir_unresolved(),
        RemovalRefusal::Weights(weights) => weights_refusal_failure(
            weights,
            texts.reason,
            texts.model,
            texts.path,
            texts.models_dir,
        ),
        RemovalRefusal::Interrupted => Failure::new(
            FailureCode::Internal,
            "the weights deletion did not finish",
        ),
        RemovalRefusal::Store(error) => store_failure(error, texts.reason),
    }
}

/// A row of the model registry.
pub struct RegistryRow {
    pub model: String,
    pub size_bytes: u64,
    pub digest: String,
}

/// What is told of a model whose weights are gone.
pub struct DeletedWeights {
    pub model: String,
    pub path: String,
    pub bytes_reclaimed: u64,
}

/// What is told of a model that was put on the registry.
pub struct ModelRegistered {
    pub model: String,
    pub registered_at_ms: u64,
}

/// The audit detail of a registry row.
pub open spec fn row_detail(model: Seq<char>, size_bytes: u64, digest: Seq<char>) -> Seq<char> {
    "model="@ + model + " size_bytes="@ + decimal(size_bytes as nat) + " digest="@ + digest
}

fn row_detail_text(model: &str, size_bytes: u64, digest: &str) -> (detail: String)
    ensures
        detail@ == row_detail(model@, size_bytes, digest@),
{
    let size = decimal_text(size_bytes);
    let mut detail = concat4("model=", model, " size_bytes=", size.as_str());
    detail.append(" digest=");
    detail.append(digest);
    detail
}

/// Concludes the removal of a registry row.
pub fn model_unregistered(removed: RegistryRow) -> (conclusion: Conclusion<RegistryRow>)
    ensures
        conclusion.audit.says_change(
            "model.unregister"@,
            "unregistered"@,
            row_detail(removed.model@, removed.size_bytes, removed.digest@),
        ),
        conclusion.answer == (Answer::Success {
            truth: OperationTruth::Changed,
            payload: removed,
        }),
{
    let detail = row_detail_text(
        removed.model.as_str(),
        removed.size_bytes,
        removed.digest.as_str(),
    );
    Conclusion {
        audit: AuditNote::change("model.unregister", "unregistered", detail),
        answer: Answer::Success { truth: OperationTruth::Changed, payload: removed },
    }
}

/// Concludes the deletion of weights.
pub fn weights_deleted(deleted: DeletedWeights) -> (conclusion: Conclusion<DeletedWeights>)
    ensures
        conclusion.audit.says_change(
            "model.delete-weights"@,
            "deleted"@,
            "model="@ + deleted.model@ + " path="@ + deleted.path@ + " bytes_reclaimed="@
                + decimal(deleted.bytes_reclaimed as nat),
        ),
        conclusion.answer == (Answer::Success {
            truth: OperationTruth::Changed,
            payload: deleted,
        }),
{
    let bytes = decimal_text(deleted.bytes_reclaimed);
    let mut detail = concat4(
        "model=",
        deleted.model.as_str(),
        " path=",
        deleted.path.as_str(),
    );
    detail.append(" bytes_reclaimed=");
    detail.append(bytes.as_str());
    Conclusion {
        audit: AuditNote::change("model.delete-weights", "deleted", detail),
        answer: Answer::Success { truth: OperationTruth::Changed, payload: deleted },
    }
}

/// Concludes the registration of a model, from the row that the store wrote.
pub fn model_registered(row: RegistryRow, registered_at_ms: u64) -> (conclusion: Conclusion<
    ModelRegistered,
>)
    ensures
        conclusion.audit.says_change(
            "model.register"@,
            "registered"@,
            row_detail(row.model@, row.size_bytes, row.digest@),
        ),
        conclusion.answer == (Answer::Success {
            truth: OperationTruth::Changed,
            payload: ModelRegistered { model: row.model, registered_at_ms },
        }),
{
    let detail = row_detail_text(row.model.as_str(), row.size_bytes, row.digest.as_str());
    Conclusion {
        audit: AuditNote::change("model.register", "registered", detail),
        answer: Answer::Success {
            truth: OperationTruth::Changed,
            payload: ModelRegistered { model: row.model, registered_at_ms },
        },
    }
}

/// The failure of a registration that the registry would not accept.
pub fn invalid_registration() -> (failure: Failure)
    ensures
        failure.says(
            FailureCode::InvalidRequest,
            "model registration is not a valid registry record"@,
            None,
        ),
{
    Failure::new(
        FailureCode::InvalidRequest,
        "model registration is not a valid registry record",
    )
}

// Verification

/// How one registered model fared when its weights were read again.
pub struct ModelVerification {
    pub model: String,
    pub path: String,
    pub size_bytes: u64,
    /// `ok`, or the name of the check that no longer holds.
    pub health: String,
    pub detail: Option<String>,
    pub source: String,
    pub weights_deletable: bool,
}

/// A check that no longer holds, by its name and in its own words.
pub struct HealthProblem {
    pub label: String,
    pub text: String,
}

/// Reports how a registered model fared.
pub fn model_verification(
    model: &str,
    path: &str,
    size_bytes: u64,
    source: &str,
    problem: Option<HealthProblem>,
    deletable: bool,
) -> (line: ModelVerification)
    ensures
        line.model@ == model@,
        line.path@ == path@,
        line.size_bytes == size_bytes,
        line.source@ == source@,
        line.weights_deletable == deletable,
        match problem {
            None => line.health@ == "ok"@ && line.detail is None,
            Some(found) => line.health == found.label && line.detail == Some(found.text),
        },
{
    let (health, detail) = match problem {
        None => ("ok".to_owned(), None),
        Some(found) => (found.label, Some(found.text)),
    };
    ModelVerification {
        model: model.to_owned(),
        path: path.to_owned(),
        size_bytes,
        health,
        detail,
        source: source.to_owned(),
        weights_deletable: deletable,
    }
}

/// Every model of `models` is intact.
pub open spec fn all_intact(models: Seq<ModelVerification>) -> bool {
    forall|i: int| 0 <= i < models.len() ==> (#[trigger] models[i]).health@ == "ok"@
}

/// The number of models that are not intact.
pub open spec fn broken_count(models: Seq<ModelVerification>) -> nat
    decreases models.len(),
{
    if models.len() == 0 {
        0
    } else {
        broken_count(models.drop_last()) + (if models.last().health@ == "ok"@ {
            0nat
        } else {
            1nat
        })
    }
}

/// The truth of a verification pass: only one that looked at some model, and
/// found all intact, verified anything.
pub open spec fn verify_truth(models: Seq<ModelVerification>) -> OperationTruth {
    if models.len() == 0 {
        OperationTruth::Observed
    } else if all_intact(models) {
        OperationTruth::Verified
    } else {
        OperationTruth::Unresolved
    }
}

fn count_broken(models: &[ModelVerification]) -> (count: usize)
    ensures
        count == broken_count(models@),
        count <= models@.len(),
        count == 0 <==> all_intact(models@),
{
    let mut count: usize = 0;
    let mut index: usize = 0;
    while index < models.len()
        invariant
            index <= models@.len(),
            count <= index,
            count == broken_count(models@.take(index as int)),
            count == 0 <==> forall|i: int|
                0 <= i < index ==> (#[trigger] models@[i]).health@ == "ok"@,
        decreases models@.len() - index,
    {
        proof {
            assert(models@.take(index + 1).drop_last() =~= models@.take(index as int));
            assert(models@.take(index + 1).last() == models@[index as int]);
        }
        if !same_text(models[index].health.as_str(), "ok") {
            count = count + 1;
        }
        index = index + 1;
    }
    assert(models@.take(models@.len() as int) =~= models@);
    count
}

/// What a verification pass may claim.
pub fn model_verify_truth(models: &[ModelVerification]) -> (truth: OperationTruth)
    ensures
        truth == verify_truth(models@),
{
    if models.len() == 0 {
        OperationTruth::Observed
    } else if count_broken(models) == 0 {
        OperationTruth::Verified
    } else {
        OperationTruth::Unresolved
    }
}

/// The rows that a verification request covers.
#[derive(Clone, Copy, Debug, PartialEq, Eq, Structural)]
pub enum VerificationScope {
    All,
    One,
}

/// Chooses the rows to verify: the named model, or every one when none is
/// named. `key` is the identity that the registry makes of the requested one,
/// if it accepts it.
pub fn verification_scope(model: Option<&str>, key: Option<&str>) -> (scope: Result<
    VerificationScope,
    Failure,
>)
    ensures
        match scope {
            Ok(rows) => rows == (if model is None {
                VerificationScope::All
            } else {
                VerificationScope::One
            }) && (model is None || key is Some),
            Err(failure) => model is Some && key is None && failure.says(
                FailureCode::InvalidRequest,
                "model identity is not a valid registry identity"@,
                None,
            ),
        },
{
    if model.is_none() {
        return Ok(VerificationScope::All);
    }
    match key {
        Some(_) => Ok(VerificationScope::One),
        None => Err(invalid_identity()),
    }
}

/// The failure of a lookup of one registered model. An unknown model is not
/// found; any other error is the store's.
pub fn registered_record_failure(kind: StoreErrorKind, text: &str, model_id: &str) -> (failure:
    Failure)
    ensures
        if kind == StoreErrorKind::ModelNotFound {
            failure.says(
                FailureCode::NotFound,
                "model "@ + model_id@ + " is not registered"@,
                None,
            )
        } else {
            failure.says(store_failure_code(kind), text@, None)
        },
{
    if kind == StoreErrorKind::ModelNotFound {
        not_registered(model_id)
    } else {
        store_failure(kind, text)
    }
}

/// Concludes a verification pass.
pub fn models_verified(models: Vec<ModelVerification>) -> (conclusion: Conclusion<
    Vec<ModelVerification>,
>)
    ensures
        conclusion.audit.says_change(
            "model.verify"@,
            truth_name(verify_truth(models@)),
            "models="@ + decimal(models@.len()) + " failed="@ + decimal(broken_count(models@)),
        ),
        conclusion.answer == (Answer::Success { truth: verify_truth(models@), payload: models }),
{
    let truth = model_verify_truth(models.as_slice());
    let total = decimal_text(models.len() as u64);
    let failed = decimal_text(count_broken(models.as_slice()) as u64);
    let detail = concat4("models=", total.as_str(), " failed=", failed.as_str());
    Conclusion {
        audit: AuditNote::change("model.verify", truth_label(truth), detail),
        answer: Answer::Success { truth, payload: models },
    }
}

/// A pass claims that models are verified only where it looked at some, and
/// each was intact; one broken model is enough to leave the pass unresolved.
pub proof fn law_verified_means_every_model_is_intact(models: Seq<ModelVerification>)
    ensures
        verify_truth(models) == OperationTruth::Verified <==> models.len() > 0 && all_intact(models),
        all_intact(models) <==> broken_count(models) == 0,
        verify_truth(models) == OperationTruth::Unresolved <==> broken_count(models) > 0,
{
    lemma_broken_count(models);
}

proof fn lemma_broken_count(models: Seq<ModelVerification>)
    ensures
        all_intact(models) <==> broken_count(models) == 0,
    decreases models.len(),
{
    if models.len() > 0 {
        lemma_broken_count(models.drop_last());
        if all_intact(models) {
            assert forall|i: int| 0 <= i < models.len() - 1 implies (
            #[trigger] models.drop_last()[i]).health@ == "ok"@ by {
                assert(models.drop_last()[i] == models[i]);
            }
        }
        if broken_count(models) == 0 {
            assert forall|i: int| 0 <= i < models.len() implies (#[trigger] models[i]).health@
                == "ok"@ by {
                if i < models.len() - 1 {
                    assert(models.drop_last()[i] == models[i]);
                }
            }
        }
    }
}

/// Work on models that did not come to a result.
#[derive(Clone, Copy, Debug, PartialEq, Eq, Structural)]
pub enum ModelWork {
    Verification,
    Sweep,
    /// A known model has an identity that the answer cannot carry.
    Status,
}

pub open spec fn work_message(work: ModelWork) -> Seq<char> {
    match work {
        ModelWork::Verification => "model verification did not finish"@,
        ModelWork::Sweep => "the models directory sweep did not finish"@,
        ModelWork::Status => {
            "a known model identity cannot be represented in the status contract"@
        },
    }
}

/// The failure of work that did not come to a result.
pub fn model_work_failure(work: ModelWork) -> (failure: Failure)
    ensures
        failure.says(FailureCode::Internal, work_message(work), None),
{
    let message = match work {
        ModelWork::Verification => "model verification did not finish",
        ModelWork::Sweep => "the models directory sweep did not finish",
        ModelWork::Status => "a known model identity cannot be represented in the status contract",
    };
    Failure::new(FailureCode::Internal, message)
}

// Status

/// A known model.
pub struct ModelSummary {
    pub model_id: String,
    pub size_bytes: u64,
}

/// The models that the daemon knows and serves.
pub struct ModelStatus {
    pub registered: Vec<ModelSummary>,
    pub loaded: Option<ModelSummary>,
    pub load_failure: Option<String>,
}

/// `models` lists a model of this identity.
pub open spec fn lists(models: Seq<ModelSummary>, model_id: Seq<char>) -> bool {
    exists|i: int| 0 <= i < models.len() && (#[trigger] models[i]).model_id@ == model_id
}

/// Reports the registered models and the served one. A served model that the
/// registry does not list is listed all the same, at the end.
pub fn model_status_result(
    loaded: Option<ModelSummary>,
    registered: Vec<ModelSummary>,
    load_failure: Option<String>,
) -> (status: ModelStatus)
    ensures
        status.loaded == loaded,
        status.load_failure == load_failure,
        match loaded {
            Some(model) => if lists(registered@, model.model_id@) {
                status.registered@ == registered@
            } else {
                &&& status.registered@.len() == registered@.len() + 1
                &&& status.registered@.drop_last() == registered@
                &&& status.registered@.last().model_id@ == model.model_id@
                &&& status.registered@.last().size_bytes == model.size_bytes
            },
            None => status.registered@ == registered@,
        },
        loaded matches Some(model) ==> lists(status.registered@, model.model_id@),
{
    let mut registered = registered;
    let ghost given = registered@;
    if let Some(model) = &loaded {
        let mut index: usize = 0;
        let mut found = false;
        while index < registered.len()
            invariant
                registered@ == given,
                index <= registered@.len(),
                found <==> exists|i: int|
                    0 <= i < index && (#[trigger] registered@[i]).model_id@ == model.model_id@,
            decreases registered@.len() - index,
        {
            if same_text(registered[index].model_id.as_str(), model.model_id.as_str()) {
                found = true;
            }
            index = index + 1;
        }
        if !found {
            registered.push(
                ModelSummary { model_id: model.model_id.clone(), size_bytes: model.size_bytes },
            );
            proof {
                assert(registered@.drop_last() =~= given);
                assert(registered@[given.len() as int].model_id@ == model.model_id@);
            }
        }
    }
    ModelStatus { registered, loaded, load_failure }
}

// Models, told by inputs and events alone

/// An identity is its vendor, a slash and its name, and is split into these. The
/// name may hold slashes; the vendor holds none.
pub proof fn law_identities_are_vendor_and_name(
    model: Seq<char>,
    vendor: Seq<char>,
    name: Seq<char>,
)
    ensures
        identity_parts(model) is None <==> !model.contains('/'),
        identity_parts(model) == Some((vendor, name)) <==> model == vendor + seq!['/'] + name
            && !vendor.contains('/'),
{
    let at = span_before(model, just('/')) as int;
    lemma_span_before(model, just('/'));
    assert forall|i: int| 0 <= i < at implies model[i] != '/' by {
        assert(!just('/')(model[i]));
    }
    if at < model.len() {
        assert(just('/')(model[at]));
        assert(model =~= model.take(at) + seq!['/'] + model.skip(at + 1));
        assert(!model.take(at).contains('/'));
        if model == vendor + seq!['/'] + name && !vendor.contains('/') {
            assert(model[vendor.len() as int] == '/');
            if at < vendor.len() {
                assert(vendor[at] == '/');
            }
            assert(at == vendor.len());
            assert(model.take(at) =~= vendor);
            assert(model.skip(at + 1) =~= name);
        }
    } else if model == vendor + seq!['/'] + name {
        assert(model[vendor.len() as int] == '/');
    }
}

/// A deadline leaves the time until it comes, of at most ten minutes. One that is
/// not in the future has elapsed, and one that is further away is refused.
/// Without one there are five minutes, or what the clock still holds.
pub proof fn law_deadlines_leave_the_time_until_they_come(at: u64, now: u64)
    ensures
        remaining_of(Some(at), now) == Err::<u64, DeadlineRefusal>(DeadlineRefusal::Elapsed) <==> at
            <= now,
        remaining_of(Some(at), now) == Err::<u64, DeadlineRefusal>(DeadlineRefusal::TooFar) <==> at
            > now + 600_000,
        remaining_of(Some(at), now) is Ok <==> now < at <= now + 600_000,
        remaining_of(Some(at), now) matches Ok(ms) ==> now + ms == at,
        now + 300_000 <= u64::MAX ==> remaining_of(None, now) == Ok::<u64, DeadlineRefusal>(
            300_000,
        ),
        now < u64::MAX < now + 300_000 ==> (remaining_of(None, now) matches Ok(ms) && now + ms
            == u64::MAX),
        now == u64::MAX ==> remaining_of(None, now) == Err::<u64, DeadlineRefusal>(
            DeadlineRefusal::Elapsed,
        ),
{
}

/// The event can come of the action.
pub open spec fn infer_fits(action: InferAction, event: InferEvent) -> bool {
    match action {
        InferAction::SetDeadline { .. } => event is DeadlineSet,
        InferAction::ConvertMessages => event is MessagesConverted,
        InferAction::BuildRequest => event is RequestBuilt,
        InferAction::Infer => event is Answered,
        InferAction::Audit => event is Audited || event is AuditFailed,
        _ => false,
    }
}

/// Every one of `events` came of the action before it.
pub open spec fn infer_told(
    is_loaded: bool,
    deadline: Option<u64>,
    now: u64,
    events: Seq<InferEvent>,
) -> bool
    decreases events.len(),
{
    events.len() == 0 || {
        &&& infer_told(is_loaded, deadline, now, events.drop_last())
        &&& infer_fits(infer_run(is_loaded, deadline, now, events.drop_last()).1, events.last())
    }
}

spec fn infer_waits(phase: InferPhase, action: InferAction) -> bool {
    match phase {
        InferPhase::SettingDeadline => action is SetDeadline,
        InferPhase::Converting => action is ConvertMessages,
        InferPhase::Building => action is BuildRequest,
        InferPhase::Inferring => action is Infer,
        InferPhase::Auditing => action is Audit,
        InferPhase::Done => action is Reply || action is Refuse || action is Fail,
    }
}

proof fn lemma_infer_told(
    is_loaded: bool,
    deadline: Option<u64>,
    now: u64,
    events: Seq<InferEvent>,
)
    requires
        infer_told(is_loaded, deadline, now, events),
    ensures
        infer_waits(
            infer_run(is_loaded, deadline, now, events).0,
            infer_run(is_loaded, deadline, now, events).1,
        ),
    decreases events.len(),
{
    if events.len() > 0 {
        lemma_infer_told(is_loaded, deadline, now, events.drop_last());
    }
}

/// An inference starts only for the loaded model and under a usable deadline, and
/// says first that the model is not loaded. Each check that holds leads to the
/// next, each that does not to its own refusal; the model works once all hold,
/// and what it gave is put on record before the caller gets it. Without the
/// record the request fails.
pub proof fn law_inferences_pass_every_check(
    is_loaded: bool,
    deadline: Option<u64>,
    now: u64,
    events: Seq<InferEvent>,
)
    requires
        infer_told(is_loaded, deadline, now, events),
    ensures
        events.len() == 0 ==> {
            let first = infer_run(is_loaded, deadline, now, events).1;
            &&& first == InferAction::Refuse(InferRefusal::NotLoaded) <==> !is_loaded
            &&& first is SetDeadline <==> is_loaded && remaining_of(deadline, now) is Ok
            &&& first matches InferAction::SetDeadline { remaining_ms } ==> remaining_of(
                deadline,
                now,
            ) == Ok::<u64, DeadlineRefusal>(remaining_ms)
            &&& is_loaded ==> (remaining_of(deadline, now) matches Err(refusal) ==> first
                == InferAction::Refuse(InferRefusal::Deadline(refusal)))
        },
        events.len() > 0 ==> {
            let next = infer_run(is_loaded, deadline, now, events).1;
            let last = events.last();
            &&& next == InferAction::ConvertMessages <==> last == InferEvent::DeadlineSet(true)
            &&& next == InferAction::BuildRequest <==> last == InferEvent::MessagesConverted(true)
            &&& next == InferAction::Infer <==> last == InferEvent::RequestBuilt(true)
            &&& next == InferAction::Audit <==> last == InferEvent::Answered
            &&& next == InferAction::Reply <==> last == InferEvent::Audited
            &&& next == InferAction::Fail <==> last == InferEvent::AuditFailed
            &&& next == InferAction::Refuse(
                InferRefusal::Deadline(DeadlineRefusal::Unrepresentable),
            ) <==> last == InferEvent::DeadlineSet(false)
            &&& next == InferAction::Refuse(InferRefusal::MessagesInvalid) <==> last
                == InferEvent::MessagesConverted(false)
            &&& next == InferAction::Refuse(InferRefusal::RequestInvalid) <==> last
                == InferEvent::RequestBuilt(false)
            &&& next != InferAction::Ignore
        },
{
    lemma_infer_told(is_loaded, deadline, now, events);
    if events.len() > 0 {
        lemma_infer_told(is_loaded, deadline, now, events.drop_last());
    }
}

/// A caller can tell by the code why nothing was generated: the model is not
/// loaded, the time is over, or the request is at fault. How to get the model
/// loaded is told where that is what is missing, and nowhere else.
pub proof fn law_refused_inferences_are_told_apart(
    failure: Failure,
    refusal: InferRefusal,
    model: Seq<char>,
)
    requires
        reports_infer_refusal(failure, refusal, model),
    ensures
        failure.code == FailureCode::NotFound <==> refusal == InferRefusal::NotLoaded,
        failure.code == FailureCode::Cancelled <==> refusal == InferRefusal::Deadline(
            DeadlineRefusal::Elapsed,
        ),
        failure.code == FailureCode::InvalidRequest <==> failure.code != FailureCode::NotFound
            && failure.code != FailureCode::Cancelled,
        failure.recovery is Some <==> refusal == InferRefusal::NotLoaded,
        failure.recovery matches Some(recovery) ==> recovery@
            == "restart PAM with `pam daemon --model "@ + model + "`"@,
{
}

/// A service that is busy says so, whichever part of it is; one that ran out of
/// time or was cancelled counts as cancelled, a request that it refused as
/// invalid, and all else as an internal failure. The record tells them apart.
pub proof fn law_service_errors_are_told_apart(error: ModelServiceError)
    ensures
        ({
            let (code, message, outcome) = service_failure_of(error);
            &&& code == FailureCode::Busy <==> error == ModelServiceError::Busy || error
                == ModelServiceError::RuntimeBusy
            &&& code == FailureCode::Cancelled <==> error == ModelServiceError::DeadlineExceeded
                || error == ModelServiceError::RuntimeCancelled
            &&& code == FailureCode::InvalidRequest <==> error
                == ModelServiceError::RuntimeInvalidRequest
            &&& code == FailureCode::Internal <==> error == ModelServiceError::RuntimeFailed
                || error == ModelServiceError::Unavailable
            &&& outcome == "busy"@ <==> code == FailureCode::Busy
            &&& outcome == "deadline_exceeded"@ <==> error == ModelServiceError::DeadlineExceeded
            &&& outcome == "cancelled"@ <==> error == ModelServiceError::RuntimeCancelled
            &&& outcome == "invalid_request"@ <==> code == FailureCode::InvalidRequest
            &&& outcome == "failed"@ <==> code == FailureCode::Internal
            &&& message == "the embedded model worker is busy"@ <==> code == FailureCode::Busy
            &&& message == "model request deadline elapsed"@ <==> error
                == ModelServiceError::DeadlineExceeded
            &&& message == "model inference was cancelled"@ <==> error
                == ModelServiceError::RuntimeCancelled
            &&& message == "model request is invalid"@ <==> code == FailureCode::InvalidRequest
            &&& message == "embedded model inference failed"@ <==> code == FailureCode::Internal
        }),
{
    reveal_strlit("busy");
    reveal_strlit("deadline_exceeded");
    reveal_strlit("cancelled");
    reveal_strlit("invalid_request");
    reveal_strlit("failed");
    reveal_strlit("the embedded model worker is busy");
    reveal_strlit("model request deadline elapsed");
    reveal_strlit("model inference was cancelled");
    reveal_strlit("model request is invalid");
    reveal_strlit("embedded model inference failed");
    assert("model request deadline elapsed"@.len() == 30);
    assert("model inference was cancelled"@.len() == 29);
    assert("model request is invalid"@.len() == 24);
    assert("embedded model inference failed"@.len() == 31);
    assert("the embedded model worker is busy"@.len() == 33);
    assert("busy"@.len() == 4);
    assert("deadline_exceeded"@.len() == 17);
    assert("cancelled"@.len() == 9);
    assert("invalid_request"@.len() == 15);
    assert("failed"@.len() == 6);
}

/// Generation stopped by itself or at its length, and the two words differ.
pub proof fn law_finishes_have_their_own_words(reason: ModelFinishReason)
    ensures
        finish_name(reason) == "stop"@ <==> reason == ModelFinishReason::Stop,
        finish_name(reason) == "length"@ <==> reason == ModelFinishReason::Length,
{
    reveal_strlit("stop");
    reveal_strlit("length");
    assert("stop"@.len() == 4);
    assert("length"@.len() == 6);
}

/// What the model gave reaches the caller exactly where the protocol can carry
/// it, and as a plain observation; the record says which it was.
pub proof fn law_only_what_can_be_carried_is_answered(
    conclusion: Conclusion<ModelGeneration>,
    model: Seq<char>,
    response: RuntimeResponse,
    accepted: bool,
)
    requires
        reports_response(conclusion, model, response, accepted),
    ensures
        conclusion.answer is Success <==> accepted,
        conclusion.answer matches Answer::Success { truth, payload } ==> truth
            == OperationTruth::Observed && payload.text@ == response.text@
            && payload.finish_reason == response.finish_reason && payload.usage == response.usage
            && payload.model@ == model,
        conclusion.audit.outcome@ == "observed"@ <==> accepted,
        conclusion.audit.outcome@ == "failed"@ <==> !accepted,
{
    reveal_strlit("observed");
    reveal_strlit("failed");
    assert("observed"@.len() == 8);
    assert("failed"@.len() == 6);
}

/// The event can come of the action.
pub open spec fn removal_fits(action: RemovalAction, event: RemovalEvent) -> bool {
    match action {
        RemovalAction::LoadRecord => event is Record || event is NoRecord || event is StoreFailed,
        RemovalAction::ResolveModelsDirectory => event is ModelsDirectory,
        RemovalAction::DeleteWeights => event is WeightsDeleted || event is WeightsKept
            || event is WeightsInterrupted,
        RemovalAction::DeleteRow => event is RowDeleted || event is NoRecord
            || event is StoreFailed,
        RemovalAction::Audit => event is Audited || event is AuditFailed,
        _ => false,
    }
}

/// Every one of `events` came of the action before it.
pub open spec fn removal_told(
    kind: RemovalKind,
    identity_valid: bool,
    is_loaded: bool,
    events: Seq<RemovalEvent>,
) -> bool
    decreases events.len(),
{
    events.len() == 0 || {
        &&& removal_told(kind, identity_valid, is_loaded, events.drop_last())
        &&& removal_fits(
            removal_run(kind, identity_valid, is_loaded, events.drop_last()).1,
            events.last(),
        )
    }
}

spec fn removal_waits(phase: RemovalPhase, action: RemovalAction) -> bool {
    match phase {
        RemovalPhase::LoadingRecord => action is LoadRecord,
        RemovalPhase::ResolvingDirectory => action is ResolveModelsDirectory,
        RemovalPhase::DeletingWeights => action is DeleteWeights,
        RemovalPhase::DeletingRow => action is DeleteRow,
        RemovalPhase::Auditing => action is Audit,
        RemovalPhase::Done => action is Reply || action is Refuse || action is Fail,
    }
}

proof fn lemma_removal_told(
    kind: RemovalKind,
    identity_valid: bool,
    is_loaded: bool,
    events: Seq<RemovalEvent>,
)
    requires
        removal_told(kind, identity_valid, is_loaded, events),
    ensures
        removal_waits(
            removal_run(kind, identity_valid, is_loaded, events).0,
            removal_run(kind, identity_valid, is_loaded, events).1,
        ),
    decreases events.len(),
{
    if events.len() > 0 {
        lemma_removal_told(kind, identity_valid, is_loaded, events.drop_last());
    }
}

/// A removal goes on exactly as long as everything goes well: an identity that is
/// one and is not served; for weights, a record of them and a directory to
/// find them in; the weights, where they are wanted gone, and then the row; and
/// the record of it all. Only what was removed and put on record is answered.
pub proof fn law_removals_go_on_while_all_goes_well(
    kind: RemovalKind,
    identity_valid: bool,
    is_loaded: bool,
    events: Seq<RemovalEvent>,
)
    requires
        removal_told(kind, identity_valid, is_loaded, events),
    ensures
        events.len() == 0 ==> {
            let first = removal_run(kind, identity_valid, is_loaded, events).1;
            &&& first == RemovalAction::Refuse(RemovalRefusal::InvalidIdentity) <==> !identity_valid
            &&& first == RemovalAction::Refuse(RemovalRefusal::Loaded) <==> identity_valid
                && is_loaded
            &&& first == RemovalAction::DeleteRow <==> identity_valid && !is_loaded && kind
                == RemovalKind::Registration
            &&& first == RemovalAction::LoadRecord <==> identity_valid && !is_loaded && kind
                == RemovalKind::Weights
        },
        events.len() > 0 ==> {
            let next = removal_run(kind, identity_valid, is_loaded, events).1;
            let last = events.last();
            &&& next == RemovalAction::ResolveModelsDirectory <==> last == RemovalEvent::Record
            &&& next == RemovalAction::DeleteWeights <==> last == RemovalEvent::ModelsDirectory(
                true,
            )
            &&& next == RemovalAction::DeleteRow <==> last == RemovalEvent::WeightsDeleted
            &&& next == RemovalAction::Audit <==> last == RemovalEvent::RowDeleted
            &&& next == RemovalAction::Reply <==> last == RemovalEvent::Audited
            &&& next == RemovalAction::Fail <==> last == RemovalEvent::AuditFailed
            &&& next != RemovalAction::Ignore
        },
{
    lemma_removal_told(kind, identity_valid, is_loaded, events);
    if events.len() > 0 {
        lemma_removal_told(kind, identity_valid, is_loaded, events.drop_last());
    }
}

/// Whatever stops a removal is what the caller is told. That a row is gone before
/// its turn is no missing registration where weights were deleted for it, but
/// an error of the store.
pub proof fn law_removals_are_refused_for_what_stopped_them(
    kind: RemovalKind,
    identity_valid: bool,
    is_loaded: bool,
    events: Seq<RemovalEvent>,
)
    requires
        events.len() > 0,
        removal_told(kind, identity_valid, is_loaded, events),
    ensures
        ({
            let asked = removal_run(kind, identity_valid, is_loaded, events.drop_last()).1;
            let next = removal_run(kind, identity_valid, is_loaded, events).1;
            let last = events.last();
            &&& next == RemovalAction::Refuse(RemovalRefusal::ModelsDirectoryUnresolved) <==> last
                == RemovalEvent::ModelsDirectory(false)
            &&& next == RemovalAction::Refuse(RemovalRefusal::Interrupted) <==> last
                == RemovalEvent::WeightsInterrupted
            &&& last matches RemovalEvent::WeightsKept(refusal) ==> next == RemovalAction::Refuse(
                RemovalRefusal::Weights(refusal),
            )
            &&& last matches RemovalEvent::StoreFailed(error) ==> next == RemovalAction::Refuse(
                RemovalRefusal::Store(error),
            )
            &&& next == RemovalAction::Refuse(RemovalRefusal::NotRegistered) <==> last
                == RemovalEvent::NoRecord && (asked == RemovalAction::LoadRecord || kind
                == RemovalKind::Registration)
            &&& last == RemovalEvent::NoRecord && asked == RemovalAction::DeleteRow && kind
                == RemovalKind::Weights ==> next == RemovalAction::Refuse(
                RemovalRefusal::Store(StoreErrorKind::ModelNotFound),
            )
        }),
{
    lemma_removal_told(kind, identity_valid, is_loaded, events.drop_last());
}

/// A caller can tell by the code why nothing was removed, and is told how to go on
/// where there is a way: without the served model, with the directory in place,
/// or by the owner's own hand.
pub proof fn law_refused_removals_are_told_apart(
    failure: Failure,
    kind: RemovalKind,
    refusal: RemovalRefusal,
    texts: RemovalTexts,
)
    requires
        reports_removal_refusal(failure, kind, refusal, texts),
        !(refusal is Store),
    ensures
        failure.code == FailureCode::LeaseConflict <==> refusal == RemovalRefusal::Loaded,
        failure.code == FailureCode::NotFound <==> refusal == RemovalRefusal::NotRegistered,
        failure.code == FailureCode::InvalidRequest <==> refusal == RemovalRefusal::InvalidIdentity
            || refusal is Weights,
        failure.code == FailureCode::Internal <==> refusal
            == RemovalRefusal::ModelsDirectoryUnresolved || refusal == RemovalRefusal::Interrupted,
        failure.recovery is Some <==> refusal == RemovalRefusal::Loaded || refusal
            == RemovalRefusal::ModelsDirectoryUnresolved || refusal is Weights,
{
}

/// What did not come of what was asked is passed over and changes nothing, and
/// once an inference is over it is not taken up again.
pub proof fn law_stray_answers_are_passed_over(
    is_loaded: bool,
    deadline: Option<u64>,
    now: u64,
    events: Seq<InferEvent>,
    event: InferEvent,
)
    requires
        infer_told(is_loaded, deadline, now, events),
        !infer_fits(infer_run(is_loaded, deadline, now, events).1, event),
    ensures
        infer_run(is_loaded, deadline, now, events.push(event)).1 == InferAction::Ignore,
        infer_run(is_loaded, deadline, now, events.push(event)).0 == infer_run(is_loaded, deadline, now, events).0,
{
    lemma_infer_told(is_loaded, deadline, now, events);
    assert(events.push(event).drop_last() =~= events);
}

/// What did not come of what was asked is passed over and changes nothing, and
/// once a removal is over it is not taken up again.
pub proof fn law_stray_outcomes_are_passed_over(
    kind: RemovalKind,
    identity_valid: bool,
    is_loaded: bool,
    events: Seq<RemovalEvent>,
    event: RemovalEvent,
)
    requires
        removal_told(kind, identity_valid, is_loaded, events),
        !removal_fits(removal_run(kind, identity_valid, is_loaded, events).1, event),
    ensures
        removal_run(kind, identity_valid, is_loaded, events.push(event)).1 == RemovalAction::Ignore,
        removal_run(kind, identity_valid, is_loaded, events.push(event)).0 == removal_run(kind, identity_valid, is_loaded, events).0,
{
    lemma_removal_told(kind, identity_valid, is_loaded, events);
    assert(events.push(event).drop_last() =~= events);
}

/// Each work on models that did not finish has its own words.
pub proof fn law_unfinished_work_has_its_own_words(work: ModelWork)
    ensures
        work_message(work) == "model verification did not finish"@ <==> work == ModelWork::Verification,
        work_message(work) == "the models directory sweep did not finish"@ <==> work == ModelWork::Sweep,
        work_message(work) == "a known model identity cannot be represented in the status contract"@ <==> work == ModelWork::Status,
{
    reveal_strlit("model verification did not finish");
    reveal_strlit("the models directory sweep did not finish");
    reveal_strlit("a known model identity cannot be represented in the status contract");
    assert("model verification did not finish"@.len() == 33);
    assert("the models directory sweep did not finish"@.len() == 41);
    assert("a known model identity cannot be represented in the status contract"@.len() == 67);
}

} // verus!
