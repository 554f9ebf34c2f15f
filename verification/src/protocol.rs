//! Requests, results and failures as the daemon's rules read them.

use vstd::prelude::*;

verus! {

// Results

/// How much a result claims.
#[derive(Clone, Copy, Debug, PartialEq, Eq, Structural)]
pub enum OperationTruth {
    Observed,
    Changed,
    Verified,
    Unresolved,
    Blocked,
}

pub open spec fn truth_name(truth: OperationTruth) -> Seq<char> {
    match truth {
        OperationTruth::Observed => "observed"@,
        OperationTruth::Changed => "changed"@,
        OperationTruth::Verified => "verified"@,
        OperationTruth::Unresolved => "unresolved"@,
        OperationTruth::Blocked => "blocked"@,
    }
}

/// The word for a truth in audit records.
pub fn truth_label(truth: OperationTruth) -> (label: &'static str)
    ensures
        label@ == truth_name(truth),
{
    match truth {
        OperationTruth::Observed => "observed",
        OperationTruth::Changed => "changed",
        OperationTruth::Verified => "verified",
        OperationTruth::Unresolved => "unresolved",
        OperationTruth::Blocked => "blocked",
    }
}

/// Why a request failed.
#[derive(Clone, Copy, Debug, PartialEq, Eq, Structural)]
pub enum FailureCode {
    InvalidRequest,
    Unauthenticated,
    Forbidden,
    ApprovalRequired,
    ApprovalDenied,
    ApprovalExpired,
    NotFound,
    Pending,
    Busy,
    Cancelled,
    LeaseConflict,
    IdempotencyConflict,
    FrameTooLarge,
    Internal,
}

/// The approval that a refused request asks for.
pub struct ApprovalChallenge {
    pub approval_id: String,
    pub expires_at_unix_ms: u64,
}

/// A failure as the caller sees it.
pub struct Failure {
    pub code: FailureCode,
    pub message: String,
    /// The next step that would clear the failure, if there is one.
    pub recovery: Option<String>,
    pub approval: Option<ApprovalChallenge>,
}

/// The text of an optional string.
pub open spec fn optional_text(text: Option<String>) -> Option<Seq<char>> {
    match text {
        Some(t) => Some(t@),
        None => None,
    }
}

impl Failure {
    /// The failure has this code, message and recovery, and asks for nothing.
    pub open spec fn says(
        self,
        code: FailureCode,
        message: Seq<char>,
        recovery: Option<Seq<char>>,
    ) -> bool {
        &&& self.code == code
        &&& self.message@ == message
        &&& optional_text(self.recovery) == recovery
        &&& self.approval is None
    }

    /// A failure without a next step.
    pub fn new(code: FailureCode, message: &str) -> (failure: Failure)
        ensures
            failure.says(code, message@, None),
    {
        Failure { code, message: message.to_owned(), recovery: None, approval: None }
    }

    /// A failure with its next step.
    pub fn recoverable(code: FailureCode, message: &str, recovery: &str) -> (failure: Failure)
        ensures
            failure.says(code, message@, Some(recovery@)),
    {
        Failure {
            code,
            message: message.to_owned(),
            recovery: Some(recovery.to_owned()),
            approval: None,
        }
    }
}

// Capabilities

/// What a request asks the daemon to do.
#[derive(Clone, Copy, Debug, PartialEq, Eq, Structural)]
pub enum Capability {
    DaemonStatus,
    DaemonStop,
    DaemonActivity,
    DaemonLogs,
    DaemonStats,
    CallerList,
    ProjectCurrent,
    ApprovalDecide,
    CancelRequest,
    ReplayEvents,
    Brief,
    NetworkDiagnostics,
    WaitForResult,
    GetResult,
    InspectEvidence,
    ReadEvidence,
    ModelInfer,
    ModelStatus,
    ModelRegister,
    ModelUnregister,
    ModelVerify,
    ModelSweep,
    ModelDeleteWeights,
    GrantRevoke,
    FlowRun,
    ConnectorList,
    ConnectorConfigure,
    ConnectorTest,
    ResetAccess,
    ResetIdentity,
    ResetHistory,
    ResetRegistry,
}

/// Capabilities that operate on the daemon itself rather than any project.
pub open spec fn is_daemon_scoped(capability: Capability) -> bool {
    match capability {
        Capability::DaemonStatus
        | Capability::DaemonStop
        | Capability::DaemonActivity
        | Capability::DaemonLogs
        | Capability::DaemonStats
        | Capability::CallerList
        | Capability::ModelStatus
        | Capability::ModelInfer
        | Capability::ModelRegister
        | Capability::ModelUnregister
        | Capability::ModelVerify
        | Capability::ModelSweep
        | Capability::ModelDeleteWeights
        | Capability::GrantRevoke
        | Capability::NetworkDiagnostics
        | Capability::ConnectorList
        | Capability::ConnectorConfigure
        | Capability::ConnectorTest
        | Capability::ResetAccess
        | Capability::ResetIdentity
        | Capability::ResetHistory
        | Capability::ResetRegistry => true,
        Capability::ProjectCurrent
        | Capability::ApprovalDecide
        | Capability::CancelRequest
        | Capability::ReplayEvents
        | Capability::Brief
        | Capability::WaitForResult
        | Capability::GetResult
        | Capability::InspectEvidence
        | Capability::ReadEvidence
        | Capability::FlowRun => false,
    }
}

/// Whether a capability accepts the reserved daemon scope in place of a
/// project.
pub fn capability_is_daemon_scoped(capability: Capability) -> (scoped: bool)
    ensures
        scoped == is_daemon_scoped(capability),
{
    match capability {
        Capability::ProjectCurrent
        | Capability::ApprovalDecide
        | Capability::CancelRequest
        | Capability::ReplayEvents
        | Capability::Brief
        | Capability::WaitForResult
        | Capability::GetResult
        | Capability::InspectEvidence
        | Capability::ReadEvidence
        | Capability::FlowRun => false,
        _ => true,
    }
}

// Requests

/// The kind of operation that a caller expects its target to be. Flow runs are
/// the only kind.
pub struct ExpectedTargetKind {
    /// How the kind is written in policy resources.
    pub policy_label: String,
}

/// How an approval is decided.
#[derive(Clone, Copy, Debug, PartialEq, Eq, Structural)]
pub enum ApprovalDecision {
    Approve,
    Deny,
}

/// What a configuration request does to the stored credential.
pub enum CredentialAction {
    Store(String),
    Clear,
}

/// The particulars of a request.
#[allow(inconsistent_fields)]
pub enum RequestPayload {
    Status,
    Stop,
    DaemonActivity { limit: u32 },
    DaemonLogs { limit: u32 },
    DaemonStats { days: u32 },
    CallerList,
    ProjectCurrent,
    ApprovalDecide { approval_id: String, decision: ApprovalDecision },
    Cancel { target_request_id: String, expected_target_kind: Option<ExpectedTargetKind> },
    Replay {
        target_request_id: String,
        after_sequence: u64,
        expected_target_kind: Option<ExpectedTargetKind>,
    },
    Brief,
    NetworkDiagnostics,
    WaitForResult {
        target_request_id: String,
        after_sequence: u64,
        expected_target_kind: Option<ExpectedTargetKind>,
    },
    GetResult { target_request_id: String, expected_target_kind: Option<ExpectedTargetKind> },
    InspectEvidence { handle: String },
    ReadEvidence { handle: String, offset: u64, length: u64 },
    ModelInfer { model: String },
    ModelStatus,
    ModelRegister { model: String },
    ModelUnregister { model: String },
    ModelVerify { model: Option<String> },
    ModelSweep,
    ModelDeleteWeights { model: String },
    GrantRevoke { capability: String },
    FlowRun { project_root: String },
    ConnectorList,
    ConnectorConfigure {
        connector: String,
        enabled: Option<bool>,
        base_url: Option<String>,
        credential: Option<CredentialAction>,
    },
    ConnectorTest { connector: String },
    ResetAccess { dry_run: bool },
    ResetIdentity { dry_run: bool },
    ResetHistory { dry_run: bool },
    ResetRegistry { dry_run: bool },
}

/// A decoded request.
pub struct RequestEnvelope {
    pub request_id: String,
    pub caller_id: String,
    pub project_id: String,
    pub idempotency_key: String,
    pub approval_id: Option<String>,
    pub capability: Capability,
    /// How policy calls the capability.
    pub policy_name: String,
    pub payload: RequestPayload,
    /// The project is the reserved daemon scope.
    pub daemon_scope: bool,
    /// The fields of the payload meet the protocol's own limits.
    pub fields_valid: bool,
    /// The caller attached a credential.
    pub has_credential: bool,
}

/// The one capability that a payload belongs to.
pub open spec fn payload_capability(payload: RequestPayload) -> Capability {
    match payload {
        RequestPayload::Status => Capability::DaemonStatus,
        RequestPayload::Stop => Capability::DaemonStop,
        RequestPayload::DaemonActivity { .. } => Capability::DaemonActivity,
        RequestPayload::DaemonLogs { .. } => Capability::DaemonLogs,
        RequestPayload::DaemonStats { .. } => Capability::DaemonStats,
        RequestPayload::CallerList => Capability::CallerList,
        RequestPayload::ProjectCurrent => Capability::ProjectCurrent,
        RequestPayload::ApprovalDecide { .. } => Capability::ApprovalDecide,
        RequestPayload::Cancel { .. } => Capability::CancelRequest,
        RequestPayload::Replay { .. } => Capability::ReplayEvents,
        RequestPayload::Brief => Capability::Brief,
        RequestPayload::NetworkDiagnostics => Capability::NetworkDiagnostics,
        RequestPayload::WaitForResult { .. } => Capability::WaitForResult,
        RequestPayload::GetResult { .. } => Capability::GetResult,
        RequestPayload::InspectEvidence { .. } => Capability::InspectEvidence,
        RequestPayload::ReadEvidence { .. } => Capability::ReadEvidence,
        RequestPayload::ModelInfer { .. } => Capability::ModelInfer,
        RequestPayload::ModelStatus => Capability::ModelStatus,
        RequestPayload::ModelRegister { .. } => Capability::ModelRegister,
        RequestPayload::ModelUnregister { .. } => Capability::ModelUnregister,
        RequestPayload::ModelVerify { .. } => Capability::ModelVerify,
        RequestPayload::ModelSweep => Capability::ModelSweep,
        RequestPayload::ModelDeleteWeights { .. } => Capability::ModelDeleteWeights,
        RequestPayload::GrantRevoke { .. } => Capability::GrantRevoke,
        RequestPayload::FlowRun { .. } => Capability::FlowRun,
        RequestPayload::ConnectorList => Capability::ConnectorList,
        RequestPayload::ConnectorConfigure { .. } => Capability::ConnectorConfigure,
        RequestPayload::ConnectorTest { .. } => Capability::ConnectorTest,
        RequestPayload::ResetAccess { .. } => Capability::ResetAccess,
        RequestPayload::ResetIdentity { .. } => Capability::ResetIdentity,
        RequestPayload::ResetHistory { .. } => Capability::ResetHistory,
        RequestPayload::ResetRegistry { .. } => Capability::ResetRegistry,
    }
}

impl RequestPayload {
    /// The capability that this payload belongs to.
    pub fn capability(&self) -> (capability: Capability)
        ensures
            capability == payload_capability(*self),
    {
        match self {
            RequestPayload::Status => Capability::DaemonStatus,
            RequestPayload::Stop => Capability::DaemonStop,
            RequestPayload::DaemonActivity { .. } => Capability::DaemonActivity,
            RequestPayload::DaemonLogs { .. } => Capability::DaemonLogs,
            RequestPayload::DaemonStats { .. } => Capability::DaemonStats,
            RequestPayload::CallerList => Capability::CallerList,
            RequestPayload::ProjectCurrent => Capability::ProjectCurrent,
            RequestPayload::ApprovalDecide { .. } => Capability::ApprovalDecide,
            RequestPayload::Cancel { .. } => Capability::CancelRequest,
            RequestPayload::Replay { .. } => Capability::ReplayEvents,
            RequestPayload::Brief => Capability::Brief,
            RequestPayload::NetworkDiagnostics => Capability::NetworkDiagnostics,
            RequestPayload::WaitForResult { .. } => Capability::WaitForResult,
            RequestPayload::GetResult { .. } => Capability::GetResult,
            RequestPayload::InspectEvidence { .. } => Capability::InspectEvidence,
            RequestPayload::ReadEvidence { .. } => Capability::ReadEvidence,
            RequestPayload::ModelInfer { .. } => Capability::ModelInfer,
            RequestPayload::ModelStatus => Capability::ModelStatus,
            RequestPayload::ModelRegister { .. } => Capability::ModelRegister,
            RequestPayload::ModelUnregister { .. } => Capability::ModelUnregister,
            RequestPayload::ModelVerify { .. } => Capability::ModelVerify,
            RequestPayload::ModelSweep => Capability::ModelSweep,
            RequestPayload::ModelDeleteWeights { .. } => Capability::ModelDeleteWeights,
            RequestPayload::GrantRevoke { .. } => Capability::GrantRevoke,
            RequestPayload::FlowRun { .. } => Capability::FlowRun,
            RequestPayload::ConnectorList => Capability::ConnectorList,
            RequestPayload::ConnectorConfigure { .. } => Capability::ConnectorConfigure,
            RequestPayload::ConnectorTest { .. } => Capability::ConnectorTest,
            RequestPayload::ResetAccess { .. } => Capability::ResetAccess,
            RequestPayload::ResetIdentity { .. } => Capability::ResetIdentity,
            RequestPayload::ResetHistory { .. } => Capability::ResetHistory,
            RequestPayload::ResetRegistry { .. } => Capability::ResetRegistry,
        }
    }
}

/// The request asks for what its payload describes, its fields are valid, and
/// an approval decision is not itself made under an approval.
pub open spec fn is_well_shaped(request: RequestEnvelope) -> bool {
    &&& request.capability == payload_capability(request.payload)
    &&& request.capability == Capability::ApprovalDecide ==> request.approval_id is None
    &&& request.fields_valid
}

/// Whether capability and payload belong together and are valid.
pub fn request_shape_is_valid(request: &RequestEnvelope) -> (valid: bool)
    ensures
        valid == is_well_shaped(*request),
{
    request.capability == request.payload.capability() && (request.capability
        != Capability::ApprovalDecide || request.approval_id.is_none()) && request.fields_valid
}

/// The request that a payload is about, if it is about another request.
pub open spec fn target_of_payload(payload: RequestPayload) -> Option<Seq<char>> {
    match payload {
        RequestPayload::Cancel { target_request_id, .. } => Some(target_request_id@),
        RequestPayload::Replay { target_request_id, .. } => Some(target_request_id@),
        RequestPayload::WaitForResult { target_request_id, .. } => Some(target_request_id@),
        RequestPayload::GetResult { target_request_id, .. } => Some(target_request_id@),
        _ => None,
    }
}

/// The request that this request is about, if it is about another one.
pub fn target_request_id(request: &RequestEnvelope) -> (target: Option<&str>)
    ensures
        match (target, target_of_payload(request.payload)) {
            (Some(id), Some(expected)) => id@ == expected,
            (None, None) => true,
            _ => false,
        },
{
    match &request.payload {
        RequestPayload::Cancel { target_request_id, .. } => Some(target_request_id.as_str()),
        RequestPayload::Replay { target_request_id, .. } => Some(target_request_id.as_str()),
        RequestPayload::WaitForResult { target_request_id, .. } => {
            Some(target_request_id.as_str())
        },
        RequestPayload::GetResult { target_request_id, .. } => Some(target_request_id.as_str()),
        _ => None,
    }
}

/// A payload belongs to the capability of its own name, and to no other: who is
/// allowed one thing cannot have another thing done under it.
pub proof fn law_capabilities_fit_their_payloads(payload: RequestPayload)
    ensures
        payload_capability(payload) == Capability::DaemonStatus <==> payload is Status,
        payload_capability(payload) == Capability::DaemonStop <==> payload is Stop,
        payload_capability(payload) == Capability::DaemonActivity <==> payload is DaemonActivity,
        payload_capability(payload) == Capability::DaemonLogs <==> payload is DaemonLogs,
        payload_capability(payload) == Capability::DaemonStats <==> payload is DaemonStats,
        payload_capability(payload) == Capability::CallerList <==> payload is CallerList,
        payload_capability(payload) == Capability::ProjectCurrent <==> payload is ProjectCurrent,
        payload_capability(payload) == Capability::ApprovalDecide <==> payload is ApprovalDecide,
        payload_capability(payload) == Capability::CancelRequest <==> payload is Cancel,
        payload_capability(payload) == Capability::ReplayEvents <==> payload is Replay,
        payload_capability(payload) == Capability::Brief <==> payload is Brief,
        payload_capability(payload) == Capability::NetworkDiagnostics <==> payload is NetworkDiagnostics,
        payload_capability(payload) == Capability::WaitForResult <==> payload is WaitForResult,
        payload_capability(payload) == Capability::GetResult <==> payload is GetResult,
        payload_capability(payload) == Capability::InspectEvidence <==> payload is InspectEvidence,
        payload_capability(payload) == Capability::ReadEvidence <==> payload is ReadEvidence,
        payload_capability(payload) == Capability::ModelInfer <==> payload is ModelInfer,
        payload_capability(payload) == Capability::ModelStatus <==> payload is ModelStatus,
        payload_capability(payload) == Capability::ModelRegister <==> payload is ModelRegister,
        payload_capability(payload) == Capability::ModelUnregister <==> payload is ModelUnregister,
        payload_capability(payload) == Capability::ModelVerify <==> payload is ModelVerify,
        payload_capability(payload) == Capability::ModelSweep <==> payload is ModelSweep,
        payload_capability(payload) == Capability::ModelDeleteWeights <==> payload is ModelDeleteWeights,
        payload_capability(payload) == Capability::GrantRevoke <==> payload is GrantRevoke,
        payload_capability(payload) == Capability::FlowRun <==> payload is FlowRun,
        payload_capability(payload) == Capability::ConnectorList <==> payload is ConnectorList,
        payload_capability(payload) == Capability::ConnectorConfigure <==> payload is ConnectorConfigure,
        payload_capability(payload) == Capability::ConnectorTest <==> payload is ConnectorTest,
        payload_capability(payload) == Capability::ResetAccess <==> payload is ResetAccess,
        payload_capability(payload) == Capability::ResetIdentity <==> payload is ResetIdentity,
        payload_capability(payload) == Capability::ResetHistory <==> payload is ResetHistory,
        payload_capability(payload) == Capability::ResetRegistry <==> payload is ResetRegistry,
{
}

/// What touches a project, its requests, its evidence or its flows is bound to
/// that project. Everything else is about the daemon itself.
pub proof fn law_project_work_is_bound_to_its_project(capability: Capability)
    ensures
        !is_daemon_scoped(capability) <==> {
            ||| capability == Capability::ProjectCurrent
            ||| capability == Capability::ApprovalDecide
            ||| capability == Capability::CancelRequest
            ||| capability == Capability::ReplayEvents
            ||| capability == Capability::Brief
            ||| capability == Capability::WaitForResult
            ||| capability == Capability::GetResult
            ||| capability == Capability::InspectEvidence
            ||| capability == Capability::ReadEvidence
            ||| capability == Capability::FlowRun
        },
{
}

/// A request is well shaped only with the one payload that its capability has,
/// with valid fields, and, where it decides an approval, without an approval of
/// its own; and with these it is well shaped.
pub proof fn law_shapes_are_checked(request: RequestEnvelope, other: RequestEnvelope)
    ensures
        is_well_shaped(request) ==> request.fields_valid && !(request.payload is ApprovalDecide
            && request.approval_id is Some),
        is_well_shaped(request) && is_well_shaped(other) && request.capability == other.capability
            ==> (request.payload is ResetIdentity <==> other.payload is ResetIdentity) && (
        request.payload is ModelDeleteWeights <==> other.payload is ModelDeleteWeights) && (
        request.payload is FlowRun <==> other.payload is FlowRun) && (request.payload is Stop
            <==> other.payload is Stop),
        request.fields_valid && request.capability == payload_capability(request.payload)
            && request.approval_id is None ==> is_well_shaped(request),
        request.fields_valid && request.capability == payload_capability(request.payload) && !(
        request.payload is ApprovalDecide) ==> is_well_shaped(request),
{
}

/// A request is about another request exactly where it cancels, replays, waits
/// for or fetches one, and then about the one that it names.
pub proof fn law_targets_are_the_named_requests(payload: RequestPayload)
    ensures
        target_of_payload(payload) is Some <==> payload is Cancel || payload is Replay
            || payload is WaitForResult || payload is GetResult,
        payload matches RequestPayload::Cancel { target_request_id, .. } ==> target_of_payload(
            payload,
        ) == Some(target_request_id@),
        payload matches RequestPayload::Replay { target_request_id, .. } ==> target_of_payload(
            payload,
        ) == Some(target_request_id@),
        payload matches RequestPayload::WaitForResult { target_request_id, .. }
            ==> target_of_payload(payload) == Some(target_request_id@),
        payload matches RequestPayload::GetResult { target_request_id, .. } ==> target_of_payload(
            payload,
        ) == Some(target_request_id@),
{
}

/// Each truth is called by its own word.
pub proof fn law_truths_have_their_own_words(truth: OperationTruth)
    ensures
        truth_name(truth) == "observed"@ <==> truth == OperationTruth::Observed,
        truth_name(truth) == "changed"@ <==> truth == OperationTruth::Changed,
        truth_name(truth) == "verified"@ <==> truth == OperationTruth::Verified,
        truth_name(truth) == "unresolved"@ <==> truth == OperationTruth::Unresolved,
        truth_name(truth) == "blocked"@ <==> truth == OperationTruth::Blocked,
{
    reveal_strlit("observed");
    reveal_strlit("changed");
    reveal_strlit("verified");
    reveal_strlit("unresolved");
    reveal_strlit("blocked");
    assert("observed"@[0] == 'o' && "changed"@[0] == 'c' && "verified"@[0] == 'v' && "unresolved"@[0]
        == 'u' && "blocked"@[0] == 'b');
}

} // verus!
