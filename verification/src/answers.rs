//! What a handler answers, and what it puts on record.

use vstd::prelude::*;

use crate::protocol::{Failure, FailureCode, OperationTruth, RequestEnvelope};
use crate::messages::ResultEnvelope;

verus! {

/// The body of an answer: a result with what it claims, or a failure.
pub enum Answer<P> {
    Success { truth: OperationTruth, payload: P },
    Failure(Failure),
}

impl<P> Answer<P> {
    /// The answer is this failure.
    pub open spec fn fails(
        self,
        code: FailureCode,
        message: Seq<char>,
        recovery: Option<Seq<char>>,
    ) -> bool {
        self matches Answer::Failure(failure) && failure.says(code, message, recovery)
    }
}

/// An audit record, without its identity and times.
pub struct AuditNote {
    /// What tells its identity from those of other records of one request.
    pub purpose: String,
    pub action: String,
    pub decision: String,
    pub outcome: String,
    pub detail: String,
}

impl AuditNote {
    /// The record says this.
    pub open spec fn says(
        self,
        purpose: Seq<char>,
        action: Seq<char>,
        decision: Seq<char>,
        outcome: Seq<char>,
        detail: Seq<char>,
    ) -> bool {
        &&& self.purpose@ == purpose
        &&& self.action@ == action
        &&& self.decision@ == decision
        &&& self.outcome@ == outcome
        &&& self.detail@ == detail
    }

    /// The record is of a change that policy allowed.
    pub open spec fn says_change(
        self,
        action: Seq<char>,
        outcome: Seq<char>,
        detail: Seq<char>,
    ) -> bool {
        self.says(action, action, "allow"@, outcome, detail)
    }

    /// The record of a change that policy allowed.
    pub fn change(action: &str, outcome: &str, detail: String) -> (note: AuditNote)
        ensures
            note.says_change(action@, outcome@, detail@),
    {
        AuditNote {
            purpose: action.to_owned(),
            action: action.to_owned(),
            decision: "allow".to_owned(),
            outcome: outcome.to_owned(),
            detail,
        }
    }
}

/// How a handler ends: what goes on record, and then the answer.
pub struct Conclusion<P> {
    pub audit: AuditNote,
    pub answer: Answer<P>,
}

/// The envelope of an answer to `request`.
pub fn envelop<P>(request: &RequestEnvelope, version: u16, body: Answer<P>) -> (envelope:
    ResultEnvelope<Answer<P>>)
    ensures
        envelope.protocol_version == version,
        envelope.request_id@ == request.request_id@,
        envelope.project_id@ == request.project_id@,
        envelope.body == body,
{
    ResultEnvelope {
        protocol_version: version,
        request_id: request.request_id.clone(),
        project_id: request.project_id.clone(),
        body,
    }
}

// Store failures

/// The store errors that callers can tell apart.
#[derive(Clone, Copy, Debug, PartialEq, Eq, Structural)]
pub enum StoreErrorKind {
    IdempotencyConflict,
    RequestIdConflict,
    RequestNotFound,
    ApprovalNotFound,
    InvalidApprovalState,
    ModelNotFound,
    EvidenceNotFound,
    EvidenceRangeTooLarge,
    EvidenceRangeOutOfBounds,
    EvidenceBlobMissing,
    EvidenceBlobCorrupt,
    UnsafeEvidencePath,
    Other,
}

pub open spec fn store_failure_code(kind: StoreErrorKind) -> FailureCode {
    match kind {
        StoreErrorKind::IdempotencyConflict => FailureCode::IdempotencyConflict,
        StoreErrorKind::RequestIdConflict => FailureCode::InvalidRequest,
        _ => FailureCode::Internal,
    }
}

/// A store error as the failure that the caller sees, in the store's words.
pub fn store_failure(kind: StoreErrorKind, text: &str) -> (failure: Failure)
    ensures
        failure.says(store_failure_code(kind), text@, None),
{
    let code = match kind {
        StoreErrorKind::IdempotencyConflict => FailureCode::IdempotencyConflict,
        StoreErrorKind::RequestIdConflict => FailureCode::InvalidRequest,
        _ => FailureCode::Internal,
    };
    Failure::new(code, text)
}

/// `failure` reports a failed access to evidence, without the store's words.
pub open spec fn reports_evidence_error(failure: Failure, kind: StoreErrorKind) -> bool {
    match kind {
        StoreErrorKind::EvidenceNotFound => failure.says(
            FailureCode::NotFound,
            "evidence was not found in this project"@,
            None,
        ),
        StoreErrorKind::EvidenceRangeTooLarge | StoreErrorKind::EvidenceRangeOutOfBounds => {
            failure.says(FailureCode::InvalidRequest, "evidence range is invalid"@, None)
        },
        StoreErrorKind::EvidenceBlobMissing
        | StoreErrorKind::EvidenceBlobCorrupt
        | StoreErrorKind::UnsafeEvidencePath => failure.says(
            FailureCode::Internal,
            "evidence is unavailable or failed integrity verification"@,
            None,
        ),
        _ => failure.says(FailureCode::Internal, "evidence storage is unavailable"@, None),
    }
}

/// The failure of an access to evidence.
pub fn evidence_failure(kind: StoreErrorKind) -> (failure: Failure)
    ensures
        reports_evidence_error(failure, kind),
{
    match kind {
        StoreErrorKind::EvidenceNotFound => Failure::new(
            FailureCode::NotFound,
            "evidence was not found in this project",
        ),
        StoreErrorKind::EvidenceRangeTooLarge | StoreErrorKind::EvidenceRangeOutOfBounds => {
            Failure::new(FailureCode::InvalidRequest, "evidence range is invalid")
        },
        StoreErrorKind::EvidenceBlobMissing
        | StoreErrorKind::EvidenceBlobCorrupt
        | StoreErrorKind::UnsafeEvidencePath => Failure::new(
            FailureCode::Internal,
            "evidence is unavailable or failed integrity verification",
        ),
        _ => Failure::new(FailureCode::Internal, "evidence storage is unavailable"),
    }
}

/// Whether a chunk of evidence is its last, if its end can be named at all.
pub fn evidence_chunk_is_last(offset: u64, length: usize, size_bytes: u64) -> (last: Option<bool>)
    ensures
        match last {
            Some(found) => offset + length <= u64::MAX && found == (offset + length == size_bytes),
            None => offset + length > u64::MAX,
        },
{
    match offset.checked_add(length as u64) {
        Some(end) => Some(end == size_bytes),
        None => None,
    }
}

/// A caller learns by its code that it used one key for two requests or one
/// identity for two; every other error of the store is internal.
pub proof fn law_store_errors_are_told_by_code(kind: StoreErrorKind)
    ensures
        store_failure_code(kind) == FailureCode::IdempotencyConflict <==> kind
            == StoreErrorKind::IdempotencyConflict,
        store_failure_code(kind) == FailureCode::InvalidRequest <==> kind
            == StoreErrorKind::RequestIdConflict,
        store_failure_code(kind) == FailureCode::Internal <==> kind
            != StoreErrorKind::IdempotencyConflict && kind != StoreErrorKind::RequestIdConflict,
{
}

/// Evidence is not found only where there is none in the project, and the request
/// is at fault only where its range is; what cannot be trusted is never told
/// apart from what is damaged.
pub proof fn law_evidence_errors_are_told_by_code(failure: Failure, kind: StoreErrorKind)
    requires
        reports_evidence_error(failure, kind),
    ensures
        failure.code == FailureCode::NotFound <==> kind == StoreErrorKind::EvidenceNotFound,
        failure.code == FailureCode::InvalidRequest <==> kind
            == StoreErrorKind::EvidenceRangeTooLarge || kind
            == StoreErrorKind::EvidenceRangeOutOfBounds,
        failure.code == FailureCode::Internal <==> failure.code != FailureCode::NotFound
            && failure.code != FailureCode::InvalidRequest,
        failure.message@ == "evidence is unavailable or failed integrity verification"@ <==> kind
            == StoreErrorKind::EvidenceBlobMissing || kind == StoreErrorKind::EvidenceBlobCorrupt
            || kind == StoreErrorKind::UnsafeEvidencePath,
        failure.recovery is None,
{
    reveal_strlit("evidence is unavailable or failed integrity verification");
    reveal_strlit("evidence was not found in this project");
    reveal_strlit("evidence range is invalid");
    reveal_strlit("evidence storage is unavailable");
    assert("evidence is unavailable or failed integrity verification"@.len() == 56);
    assert("evidence was not found in this project"@.len() == 38);
    assert("evidence range is invalid"@.len() == 25);
    assert("evidence storage is unavailable"@.len() == 31);
}

} // verus!
