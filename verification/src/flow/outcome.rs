//! What a flow run claims, how its saves are reconciled with a cancellation,
//! and when a stored result still counts.

use vstd::prelude::*;

use super::machine::{
    EffectBoundaryAuthorization, FlowEnd, LeaseWait, StoreFault,
};
use crate::bytes::same_bytes;
use crate::leased::TerminalState;
use crate::messages::FIRST_FLOW_PROTOCOL;
use crate::protocol::{Failure, FailureCode, OperationTruth, optional_text};
use crate::text::same_text;

verus! {

/// How a flow run ended.
#[derive(Clone, Copy, Debug, PartialEq, Eq, Structural)]
pub enum RunOutcome {
    Solved,
    Unresolved,
    Blocked,
    Cancelled,
}

/// The durable state of a request whose flow ended this way.
pub open spec fn state_of_outcome(outcome: RunOutcome) -> TerminalState {
    match outcome {
        RunOutcome::Solved => TerminalState::Succeeded,
        RunOutcome::Unresolved | RunOutcome::Blocked => TerminalState::Failed,
        RunOutcome::Cancelled => TerminalState::Cancelled,
    }
}

pub fn terminal_state(outcome: RunOutcome) -> (state: TerminalState)
    ensures
        state == state_of_outcome(outcome),
{
    match outcome {
        RunOutcome::Solved => TerminalState::Succeeded,
        RunOutcome::Unresolved | RunOutcome::Blocked => TerminalState::Failed,
        RunOutcome::Cancelled => TerminalState::Cancelled,
    }
}

/// One recorded step of a flow run.
pub struct StepRecord {
    pub step_id: String,
    pub kind: String,
    /// The effect's result, if the step had one, in canonical form.
    pub result: Option<String>,
    /// Why the step was blocked, if it was, in canonical form.
    pub blocked_report: Option<String>,
}

/// The result of a flow run.
pub struct FlowRunResult {
    pub run_id: String,
    pub definition_digest: String,
    pub outcome: RunOutcome,
    pub steps: Vec<StepRecord>,
    /// The report's claims are satisfied.
    pub changed: bool,
    pub verified: bool,
}

/// The truth that a flow result supports: only a solved flow claims more than
/// that it is open.
pub open spec fn truth_of_result(outcome: RunOutcome, changed: bool, verified: bool) -> OperationTruth {
    match outcome {
        RunOutcome::Solved => if verified {
            OperationTruth::Verified
        } else if changed {
            OperationTruth::Changed
        } else {
            OperationTruth::Observed
        },
        RunOutcome::Unresolved | RunOutcome::Cancelled => OperationTruth::Unresolved,
        RunOutcome::Blocked => OperationTruth::Blocked,
    }
}

pub fn flow_result_truth(result: &FlowRunResult) -> (truth: OperationTruth)
    ensures
        truth == truth_of_result(result.outcome, result.changed, result.verified),
{
    match result.outcome {
        RunOutcome::Solved => {
            if result.verified {
                OperationTruth::Verified
            } else if result.changed {
                OperationTruth::Changed
            } else {
                OperationTruth::Observed
            }
        },
        RunOutcome::Unresolved | RunOutcome::Cancelled => OperationTruth::Unresolved,
        RunOutcome::Blocked => OperationTruth::Blocked,
    }
}

/// A claim of success or verification needs a solved flow.
pub proof fn law_only_solved_flows_claim(outcome: RunOutcome, changed: bool, verified: bool)
    ensures
        truth_of_result(outcome, changed, verified) == OperationTruth::Verified ==> outcome
            == RunOutcome::Solved && verified && state_of_outcome(outcome)
            == TerminalState::Succeeded,
        truth_of_result(outcome, changed, verified) == OperationTruth::Changed ==> outcome
            == RunOutcome::Solved && changed,
{
}

// Stored results

pub open spec fn same_optional(left: Option<String>, right: Option<String>) -> bool {
    match (left, right) {
        (Some(a), Some(b)) => a@ == b@,
        (None, None) => true,
        _ => false,
    }
}

pub open spec fn same_step(left: StepRecord, right: StepRecord) -> bool {
    &&& left.step_id@ == right.step_id@
    &&& left.kind@ == right.kind@
    &&& same_optional(left.result, right.result)
    &&& same_optional(left.blocked_report, right.blocked_report)
}

/// Two results of the same run, with the same steps. What they claim in their
/// reports is not compared.
pub open spec fn same_run(stored: FlowRunResult, expected: FlowRunResult) -> bool {
    &&& stored.run_id@ == expected.run_id@
    &&& stored.definition_digest@ == expected.definition_digest@
    &&& stored.outcome == expected.outcome
    &&& stored.steps@.len() == expected.steps@.len()
    &&& forall|i: int|
        0 <= i < stored.steps@.len() ==> same_step(#[trigger] stored.steps@[i], expected.steps@[i])
}

fn optional_matches(left: &Option<String>, right: &Option<String>) -> (same: bool)
    ensures
        same == same_optional(*left, *right),
{
    match (left, right) {
        (Some(a), Some(b)) => same_text(a.as_str(), b.as_str()),
        (None, None) => true,
        _ => false,
    }
}

/// Whether a stored result is one of the same run, step for step.
pub fn legacy_flow_result_matches(stored: &FlowRunResult, expected: &FlowRunResult) -> (same: bool)
    ensures
        same == same_run(*stored, *expected),
{
    if !same_text(stored.run_id.as_str(), expected.run_id.as_str()) || !same_text(
        stored.definition_digest.as_str(),
        expected.definition_digest.as_str(),
    ) || stored.outcome != expected.outcome || stored.steps.len() != expected.steps.len() {
        return false;
    }
    let mut index: usize = 0;
    while index < stored.steps.len()
        invariant
            stored.steps@.len() == expected.steps@.len(),
            index <= stored.steps@.len(),
            forall|i: int|
                0 <= i < index ==> same_step(#[trigger] stored.steps@[i], expected.steps@[i]),
        decreases stored.steps@.len() - index,
    {
        let left = &stored.steps[index];
        let right = &expected.steps[index];
        if !same_text(left.step_id.as_str(), right.step_id.as_str()) || !same_text(
            left.kind.as_str(),
            right.kind.as_str(),
        ) || !optional_matches(&left.result, &right.result) || !optional_matches(
            &left.blocked_report,
            &right.blocked_report,
        ) {
            assert(!same_step(stored.steps@[index as int], expected.steps@[index as int]));
            return false;
        }
        index = index + 1;
    }
    true
}

/// The same result of the same run, with the same claims.
pub open spec fn same_result(stored: FlowRunResult, expected: FlowRunResult) -> bool {
    &&& same_run(stored, expected)
    &&& stored.changed == expected.changed
    &&& stored.verified == expected.verified
}

fn flow_results_match(stored: &FlowRunResult, expected: &FlowRunResult) -> (same: bool)
    ensures
        same == same_result(*stored, *expected),
{
    legacy_flow_result_matches(stored, expected) && stored.changed == expected.changed
        && stored.verified == expected.verified
}

/// A result that was stored with a terminal checkpoint.
pub struct CachedResult {
    /// The outcome that the checkpoint records.
    pub outcome: RunOutcome,
    /// The bytes that were stored.
    pub encoded: Vec<u8>,
    /// What the bytes decode to, if that is a result envelope at all.
    pub envelope: Option<CachedEnvelope>,
}

/// A decoded result envelope.
pub struct CachedEnvelope {
    pub protocol_version: u16,
    pub request_id: String,
    pub project_id: String,
    /// The flow result inside, if it is a success with one.
    pub flow: Option<FlowRunResult>,
}

/// The stored bytes hold a flow result of this request, with the outcome that
/// the checkpoint tells.
pub open spec fn cached_is_addressed(
    request_id: Seq<char>,
    project_id: Seq<char>,
    expected: FlowRunResult,
    cached: CachedResult,
) -> bool {
    &&& cached.outcome == expected.outcome
    &&& cached.envelope matches Some(envelope)
    &&& envelope.request_id@ == request_id
    &&& envelope.project_id@ == project_id
    &&& envelope.flow is Some
}

/// The stored result is of the current protocol and tells what is expected, so
/// that it remains to compare the bytes.
pub open spec fn cached_is_current(
    request_id: Seq<char>,
    project_id: Seq<char>,
    expected: FlowRunResult,
    cached: CachedResult,
    current_version: u16,
) -> bool {
    &&& cached_is_addressed(request_id, project_id, expected, cached)
    &&& cached.envelope->0.protocol_version == current_version
    &&& same_result(cached.envelope->0.flow->0, expected)
}

/// The stored result is of the first protocol that had flows, and of the run
/// that the checkpoint describes.
pub open spec fn cached_is_legacy(
    request_id: Seq<char>,
    project_id: Seq<char>,
    expected: FlowRunResult,
    cached: CachedResult,
    current_version: u16,
) -> bool {
    &&& cached_is_addressed(request_id, project_id, expected, cached)
    &&& cached.envelope->0.protocol_version != current_version
    &&& cached.envelope->0.protocol_version == FIRST_FLOW_PROTOCOL
    &&& same_run(cached.envelope->0.flow->0, expected)
}

/// What is reported for a stored result.
pub struct CachedTerminal {
    pub state: TerminalState,
    pub truth: OperationTruth,
    pub version: u16,
    /// The stored result.
    pub flow: FlowRunResult,
    /// The stored bytes.
    pub encoded: Vec<u8>,
}

/// Why a stored result is not reported.
#[derive(Clone, Copy, Debug, PartialEq, Eq, Structural)]
pub enum CachedRefusal {
    /// It does not match the checkpoint.
    Corrupt,
    /// The expected result does not fit the protocol, so that there are no
    /// bytes to compare with.
    Unencodable,
}

impl CachedRefusal {
    pub fn text(self) -> (text: &'static str)
        ensures
            text@ == (match self {
                CachedRefusal::Corrupt => {
                    "terminal flow checkpoint result does not match its snapshot"@
                },
                CachedRefusal::Unencodable => {
                    "terminal flow result exceeded the protocol frame"@
                },
            }),
    {
        match self {
            CachedRefusal::Corrupt => "terminal flow checkpoint result does not match its snapshot",
            CachedRefusal::Unencodable => "terminal flow result exceeded the protocol frame",
        }
    }
}

/// The rule for a result that was stored with a terminal checkpoint. `encoding`
/// holds the bytes of the expected result, if it can be encoded. What is
/// accepted is the stored result with the stored bytes.
pub open spec fn judges_cached(
    request_id: Seq<char>,
    project_id: Seq<char>,
    expected: FlowRunResult,
    cached: CachedResult,
    current_version: u16,
    encoding: Option<Seq<u8>>,
    result: Result<CachedTerminal, CachedRefusal>,
) -> bool {
    let current = cached_is_current(request_id, project_id, expected, cached, current_version);
    let legacy = cached_is_legacy(request_id, project_id, expected, cached, current_version);
    match result {
        Ok(terminal) => {
            let flow = cached.envelope->0.flow->0;
            &&& legacy || (current && encoding == Some(cached.encoded@))
            &&& terminal.version == current_version
            &&& terminal.state == state_of_outcome(flow.outcome)
            &&& terminal.truth == truth_of_result(flow.outcome, flow.changed, flow.verified)
            &&& terminal.flow == flow
            &&& terminal.encoded == cached.encoded
        },
        Err(CachedRefusal::Unencodable) => current && encoding is None,
        Err(CachedRefusal::Corrupt) => {
            &&& !legacy
            &&& current ==> encoding is Some && encoding != Some(cached.encoded@)
        },
    }
}

/// Judges the result that was stored with a terminal checkpoint. One that does
/// not match the checkpoint is refused; one that does is reported as it is
/// stored, with the truth that it supports and under the current protocol.
pub fn cached_terminal_result(
    request_id: &str,
    project_id: &str,
    expected: &FlowRunResult,
    cached: CachedResult,
    current_version: u16,
    encoding: Option<&[u8]>,
) -> (result: Result<CachedTerminal, CachedRefusal>)
    ensures
        judges_cached(
            request_id@,
            project_id@,
            *expected,
            cached,
            current_version,
            match encoding {
                Some(bytes) => Some(bytes@),
                None => None,
            },
            result,
        ),
{
    if cached.outcome != expected.outcome {
        return Err(CachedRefusal::Corrupt);
    }
    let envelope = match cached.envelope {
        Some(envelope) => envelope,
        None => return Err(CachedRefusal::Corrupt),
    };
    if !same_text(envelope.request_id.as_str(), request_id) || !same_text(
        envelope.project_id.as_str(),
        project_id,
    ) {
        return Err(CachedRefusal::Corrupt);
    }
    let flow = match envelope.flow {
        Some(flow) => flow,
        None => return Err(CachedRefusal::Corrupt),
    };
    let matches = if envelope.protocol_version == current_version {
        flow_results_match(&flow, expected) && match encoding {
            Some(bytes) => same_bytes(cached.encoded.as_slice(), bytes),
            None => return Err(CachedRefusal::Unencodable),
        }
    } else {
        envelope.protocol_version == FIRST_FLOW_PROTOCOL && legacy_flow_result_matches(
            &flow,
            expected,
        )
    };
    if !matches {
        return Err(CachedRefusal::Corrupt);
    }
    Ok(
        CachedTerminal {
            state: terminal_state(flow.outcome),
            truth: flow_result_truth(&flow),
            version: current_version,
            flow,
            encoded: cached.encoded,
        },
    )
}

/// The result that a run saved with its terminal checkpoint comes back however
/// often it is asked for: byte for byte, with the same outcome and state, and
/// under the current protocol.
pub proof fn law_saved_results_come_back(
    request_id: Seq<char>,
    project_id: Seq<char>,
    expected: FlowRunResult,
    cached: CachedResult,
    current_version: u16,
    result: Result<CachedTerminal, CachedRefusal>,
)
    requires
        cached_is_current(request_id, project_id, expected, cached, current_version),
        judges_cached(
            request_id,
            project_id,
            expected,
            cached,
            current_version,
            Some(cached.encoded@),
            result,
        ),
    ensures
        result matches Ok(terminal) && terminal.encoded@ == cached.encoded@ && terminal.version
            == current_version && terminal.state == state_of_outcome(expected.outcome)
            && terminal.truth == truth_of_result(
            expected.outcome,
            expected.changed,
            expected.verified,
        ) && same_result(terminal.flow, expected),
{
}

/// The failure that a flow ends with when it cannot run at all.
pub open spec fn answers_end(failure: Failure, end: FlowEnd) -> bool {
    match end {
        FlowEnd::AuthorizationMismatch => failure.says(
            FailureCode::Internal,
            "stored flow operation does not match its authorization"@,
            None,
        ),
        FlowEnd::ProjectRootUnavailable => failure.says(
            FailureCode::InvalidRequest,
            "stored flow project root is unavailable or does not match its project"@,
            None,
        ),
        _ => false,
    }
}

/// The failure behind an end that is neither a result nor an error.
pub fn end_failure(end: FlowEnd) -> (failure: Option<Failure>)
    ensures
        match failure {
            Some(f) => answers_end(f, end),
            None => end != FlowEnd::AuthorizationMismatch && end
                != FlowEnd::ProjectRootUnavailable,
        },
{
    match end {
        FlowEnd::AuthorizationMismatch => Some(
            Failure::new(
                FailureCode::Internal,
                "stored flow operation does not match its authorization",
            ),
        ),
        FlowEnd::ProjectRootUnavailable => Some(
            Failure::new(
                FailureCode::InvalidRequest,
                "stored flow project root is unavailable or does not match its project",
            ),
        ),
        _ => None,
    }
}

/// A flow request that ends without having run.
pub struct FailedFlow {
    pub failure: Failure,
    pub state: TerminalState,
    /// Whether a checkpoint already holds the encoded result.
    pub saved: bool,
}

impl FailedFlow {
    /// The request failed, and no result of it is stored yet.
    pub open spec fn is_unsaved(self) -> bool {
        self.state == TerminalState::Failed && !self.saved
    }
}

fn failed_unsaved(failure: Failure) -> (failed: FailedFlow)
    ensures
        failed.is_unsaved(),
        failed.failure == failure,
{
    FailedFlow { failure, state: TerminalState::Failed, saved: false }
}

/// Concludes a flow whose authorization or project root does not match. It
/// fails, and it has no saved result.
pub fn end_conclusion(end: FlowEnd) -> (failed: Option<FailedFlow>)
    ensures
        match failed {
            Some(conclusion) => conclusion.is_unsaved() && answers_end(conclusion.failure, end),
            None => end != FlowEnd::AuthorizationMismatch && end
                != FlowEnd::ProjectRootUnavailable,
        },
{
    match end_failure(end) {
        Some(failure) => Some(failed_unsaved(failure)),
        None => None,
    }
}

/// Why a claimed flow request cannot even start.
#[derive(Clone, Copy, Debug, PartialEq, Eq, Structural)]
pub enum FlowStartError {
    /// The stored operation, its definition or its resource is invalid.
    InvalidOperation,
    /// The request cannot name a run.
    InvalidRunIdentity,
}

/// Why a claimed flow request cannot start, if it cannot.
pub open spec fn start_error_of(
    operation_accepted: bool,
    resource_accepted: bool,
    run_identity_accepted: bool,
) -> Option<FlowStartError> {
    if !operation_accepted || !resource_accepted {
        Some(FlowStartError::InvalidOperation)
    } else if !run_identity_accepted {
        Some(FlowStartError::InvalidRunIdentity)
    } else {
        None
    }
}

/// Decides whether a claimed flow request can start: its operation decodes, its
/// definition is accepted, its resource is a policy resource, and its identity
/// names a run.
pub fn flow_start_error(
    operation_accepted: bool,
    resource_accepted: bool,
    run_identity_accepted: bool,
) -> (error: Option<FlowStartError>)
    ensures
        error == start_error_of(operation_accepted, resource_accepted, run_identity_accepted),
{
    if !operation_accepted || !resource_accepted {
        Some(FlowStartError::InvalidOperation)
    } else if !run_identity_accepted {
        Some(FlowStartError::InvalidRunIdentity)
    } else {
        None
    }
}

/// The failure is that of a flow request that cannot start.
pub open spec fn answers_start(failure: Failure, error: FlowStartError) -> bool {
    failure.says(
        FailureCode::Internal,
        match error {
            FlowStartError::InvalidOperation => "stored flow operation is invalid"@,
            FlowStartError::InvalidRunIdentity => "flow run identity is invalid"@,
        },
        None,
    )
}

/// Concludes a flow request that cannot start. It fails, and it has no saved
/// result.
pub fn start_conclusion(error: FlowStartError) -> (failed: FailedFlow)
    ensures
        failed.is_unsaved(),
        answers_start(failed.failure, error),
{
    failed_unsaved(start_failure(error))
}

/// The failure of a flow request that cannot start.
pub fn start_failure(error: FlowStartError) -> (failure: Failure)
    ensures
        answers_start(failure, error),
{
    match error {
        FlowStartError::InvalidOperation => Failure::new(
            FailureCode::Internal,
            "stored flow operation is invalid",
        ),
        FlowStartError::InvalidRunIdentity => Failure::new(
            FailureCode::Internal,
            "flow run identity is invalid",
        ),
    }
}

// Saving

/// What an engine update would make durable.
#[derive(Clone, Copy, Debug, PartialEq, Eq, Structural)]
pub struct UpdateFacts {
    /// The outcome, if the update ends the run.
    pub terminal: Option<RunOutcome>,
    /// The update starts an effect.
    pub starts_effect: bool,
}

/// The store refused the update because a cancellation came first.
pub open spec fn lost_to_cancellation(update: UpdateFacts, fault: StoreFault) -> bool {
    ||| (update.terminal matches Some(outcome) && outcome != RunOutcome::Cancelled) && fault
        == StoreFault::FlowTerminalOutcomeConflict
    ||| update.starts_effect && fault == StoreFault::FlowEffectStartConflict
}

/// What follows a save of an engine update that failed.
#[derive(Clone, Copy, Debug, PartialEq, Eq, Structural)]
pub enum SaveRecovery {
    /// Ask whether the request was cancelled in between.
    PollCancellation,
    /// Give up with the save's own error.
    Fail,
    /// Resume the last durable snapshot and save its cancellation instead.
    SaveCancellation,
}

/// What is done about an update that could not be saved.
pub open spec fn save_recovery_of(update: UpdateFacts, fault: StoreFault) -> SaveRecovery {
    if lost_to_cancellation(update, fault) {
        SaveRecovery::PollCancellation
    } else {
        SaveRecovery::Fail
    }
}

/// Decides what follows a failed save.
pub fn after_failed_save(update: UpdateFacts, fault: StoreFault) -> (recovery: SaveRecovery)
    ensures
        recovery == save_recovery_of(update, fault),
{
    let ends_otherwise = match update.terminal {
        Some(outcome) => outcome != RunOutcome::Cancelled,
        None => false,
    };
    if (ends_otherwise && fault == StoreFault::FlowTerminalOutcomeConflict) || (
    update.starts_effect && fault == StoreFault::FlowEffectStartConflict) {
        SaveRecovery::PollCancellation
    } else {
        SaveRecovery::Fail
    }
}

/// What is done once it is known whether the request was cancelled.
pub open spec fn poll_recovery_of(cancelled: bool) -> SaveRecovery {
    if cancelled {
        SaveRecovery::SaveCancellation
    } else {
        SaveRecovery::Fail
    }
}

/// Decides what follows once it is known whether a cancellation came first.
pub fn after_cancellation_poll(cancelled: bool) -> (recovery: SaveRecovery)
    ensures
        recovery == poll_recovery_of(cancelled),
{
    if cancelled {
        SaveRecovery::SaveCancellation
    } else {
        SaveRecovery::Fail
    }
}

// Boundaries

/// What the store says about an effect's authorization.
#[derive(Clone, Copy, Debug, PartialEq, Eq, Structural)]
pub enum AuthorizationReport {
    Allowed,
    Denied,
    Failed(StoreFault),
}

/// What is known of an effect's authorization.
#[derive(Clone, Copy, Debug, PartialEq, Eq, Structural)]
pub enum BoundaryStep {
    Decided(EffectBoundaryAuthorization),
    /// The lease is gone: ask whether the request was cancelled.
    PollCancellation,
    Fail(StoreFault),
}

pub open spec fn boundary_after_report(report: AuthorizationReport) -> BoundaryStep {
    match report {
        AuthorizationReport::Allowed => BoundaryStep::Decided(EffectBoundaryAuthorization::Allowed),
        AuthorizationReport::Denied => BoundaryStep::Decided(EffectBoundaryAuthorization::Denied),
        AuthorizationReport::Failed(fault) => if fault == StoreFault::StaleLease {
            BoundaryStep::PollCancellation
        } else {
            BoundaryStep::Fail(fault)
        },
    }
}

/// Judges the store's report on an effect's authorization.
pub fn effect_boundary_authorization(report: AuthorizationReport) -> (step: BoundaryStep)
    ensures
        step == boundary_after_report(report),
{
    match report {
        AuthorizationReport::Allowed => BoundaryStep::Decided(EffectBoundaryAuthorization::Allowed),
        AuthorizationReport::Denied => BoundaryStep::Decided(EffectBoundaryAuthorization::Denied),
        AuthorizationReport::Failed(fault) => {
            if fault == StoreFault::StaleLease {
                BoundaryStep::PollCancellation
            } else {
                BoundaryStep::Fail(fault)
            }
        },
    }
}

/// What becomes of an effect whose lease was lost at its boundary.
pub open spec fn boundary_of_poll(cancelled: bool) -> BoundaryStep {
    if cancelled {
        BoundaryStep::Decided(EffectBoundaryAuthorization::Cancelled)
    } else {
        BoundaryStep::Fail(StoreFault::StaleLease)
    }
}

/// Judges a lost lease at an effect boundary: a cancelled request is cancelled,
/// any other has lost its lease.
pub fn boundary_after_poll(cancelled: bool) -> (step: BoundaryStep)
    ensures
        step == boundary_of_poll(cancelled),
{
    if cancelled {
        BoundaryStep::Decided(EffectBoundaryAuthorization::Cancelled)
    } else {
        BoundaryStep::Fail(StoreFault::StaleLease)
    }
}

/// What is known after a lease renewal.
#[derive(Clone, Copy, Debug, PartialEq, Eq, Structural)]
pub enum RenewalStep {
    /// The lease is live: ask whether the request was cancelled.
    PollCancellation,
    Ended(LeaseWait),
    Fail(StoreFault),
}

/// What is done about a lease that could not be renewed.
pub open spec fn renewal_step_of(fault: StoreFault) -> RenewalStep {
    if fault == StoreFault::StaleLease {
        RenewalStep::Ended(LeaseWait::StaleLease)
    } else {
        RenewalStep::Fail(fault)
    }
}

/// Judges a lease renewal that failed.
pub fn after_failed_renewal(fault: StoreFault) -> (step: RenewalStep)
    ensures
        step == renewal_step_of(fault),
{
    if fault == StoreFault::StaleLease {
        RenewalStep::Ended(LeaseWait::StaleLease)
    } else {
        RenewalStep::Fail(fault)
    }
}

/// What a renewed lease leads to.
pub open spec fn wait_of_poll(cancelled: bool) -> LeaseWait {
    if cancelled {
        LeaseWait::Cancelled
    } else {
        LeaseWait::Ready
    }
}

/// Judges a live lease by whether its request was cancelled.
pub fn after_renewal_poll(cancelled: bool) -> (wait: LeaseWait)
    ensures
        wait == wait_of_poll(cancelled),
{
    if cancelled {
        LeaseWait::Cancelled
    } else {
        LeaseWait::Ready
    }
}

/// The time that is left until a retry may start.
pub open spec fn delay_of(not_before_ms: u64, now_ms: u64) -> int {
    if not_before_ms > now_ms {
        not_before_ms - now_ms
    } else {
        0
    }
}

/// How long a retry still has to wait.
pub fn retry_delay_ms(not_before_ms: u64, now_ms: u64) -> (delay: u64)
    ensures
        delay == delay_of(not_before_ms, now_ms),
{
    not_before_ms.saturating_sub(now_ms)
}

// What ends, saves and boundaries mean

/// A request succeeded exactly where its flow was solved, was cancelled exactly
/// where its flow was, and failed otherwise.
pub proof fn law_states_follow_outcomes(outcome: RunOutcome)
    ensures
        state_of_outcome(outcome) == TerminalState::Succeeded <==> outcome == RunOutcome::Solved,
        state_of_outcome(outcome) == TerminalState::Cancelled <==> outcome == RunOutcome::Cancelled,
        state_of_outcome(outcome) == TerminalState::Failed <==> outcome == RunOutcome::Unresolved
            || outcome == RunOutcome::Blocked,
{
}

/// A flow claims as much as it can show and no more: a solved one that it
/// verified, else that it changed something, else that it observed; a blocked
/// one that it is blocked; any other that it is open.
pub proof fn law_claims_follow_what_was_shown(outcome: RunOutcome, changed: bool, verified: bool)
    ensures
        ({
            let truth = truth_of_result(outcome, changed, verified);
            let solved = outcome == RunOutcome::Solved;
            &&& truth == OperationTruth::Verified <==> solved && verified
            &&& truth == OperationTruth::Changed <==> solved && !verified && changed
            &&& truth == OperationTruth::Observed <==> solved && !verified && !changed
            &&& truth == OperationTruth::Blocked <==> outcome == RunOutcome::Blocked
            &&& truth == OperationTruth::Unresolved <==> outcome == RunOutcome::Unresolved || outcome
                == RunOutcome::Cancelled
        }),
{
}

/// An effect is allowed or denied only by the store's own word. A lost lease
/// leaves open whether the request was cancelled, and any other failure is
/// passed on.
pub proof fn law_boundaries_follow_the_store(report: AuthorizationReport)
    ensures
        boundary_after_report(report) == BoundaryStep::Decided(EffectBoundaryAuthorization::Allowed)
            <==> report == AuthorizationReport::Allowed,
        boundary_after_report(report) == BoundaryStep::Decided(EffectBoundaryAuthorization::Denied)
            <==> report == AuthorizationReport::Denied,
        boundary_after_report(report) == BoundaryStep::PollCancellation <==> report
            == AuthorizationReport::Failed(StoreFault::StaleLease),
        report matches AuthorizationReport::Failed(fault) ==> fault != StoreFault::StaleLease
            ==> boundary_after_report(report) == BoundaryStep::Fail(fault),
        boundary_after_report(report) != BoundaryStep::Decided(
            EffectBoundaryAuthorization::Cancelled,
        ),
{
}

/// A save is lost to a cancellation only where the store says so of what was
/// saved: an end that was no cancellation, or the start of an effect.
pub proof fn law_saves_are_lost_to_conflicts_alone(update: UpdateFacts, fault: StoreFault)
    ensures
        lost_to_cancellation(update, fault) ==> fault == StoreFault::FlowTerminalOutcomeConflict
            || fault == StoreFault::FlowEffectStartConflict,
        fault == StoreFault::FlowEffectStartConflict ==> (lost_to_cancellation(update, fault)
            <==> update.starts_effect),
        fault == StoreFault::FlowTerminalOutcomeConflict ==> (lost_to_cancellation(update, fault)
            <==> update.terminal is Some && update.terminal != Some(RunOutcome::Cancelled)),
{
}

/// A stored result is reported only where it is this request's own and tells of
/// the very run that the checkpoint describes. Under the current protocol the
/// bytes are the ones that the expected result has; an older result is of the
/// fourth version.
pub proof fn law_stored_results_are_their_own(
    request_id: Seq<char>,
    project_id: Seq<char>,
    expected: FlowRunResult,
    cached: CachedResult,
    current_version: u16,
    encoding: Option<Seq<u8>>,
    terminal: CachedTerminal,
)
    requires
        judges_cached(
            request_id,
            project_id,
            expected,
            cached,
            current_version,
            encoding,
            Ok(terminal),
        ),
    ensures
        cached.outcome == expected.outcome,
        cached.envelope->0.request_id@ == request_id,
        cached.envelope->0.project_id@ == project_id,
        terminal.flow.run_id@ == expected.run_id@,
        terminal.flow.definition_digest@ == expected.definition_digest@,
        terminal.flow.outcome == expected.outcome,
        terminal.flow.steps@.len() == expected.steps@.len(),
        forall|i: int|
            0 <= i < expected.steps@.len() ==> {
                let left = #[trigger] terminal.flow.steps@[i];
                let right = expected.steps@[i];
                &&& left.step_id@ == right.step_id@
                &&& left.kind@ == right.kind@
                &&& left.result is Some <==> right.result is Some
                &&& left.result is Some ==> left.result->0@ == right.result->0@
                &&& left.blocked_report is Some <==> right.blocked_report is Some
                &&& left.blocked_report is Some ==> left.blocked_report->0@
                    == right.blocked_report->0@
            },
        cached.envelope->0.protocol_version == current_version ==> encoding == Some(
            cached.encoded@,
        ) && terminal.flow.changed == expected.changed && terminal.flow.verified
            == expected.verified,
        cached.envelope->0.protocol_version != current_version
            ==> cached.envelope->0.protocol_version == 4,
        terminal.encoded@ == cached.encoded@,
        terminal.version == current_version,
        terminal.state == TerminalState::Succeeded <==> expected.outcome == RunOutcome::Solved,
{
    assert forall|i: int| 0 <= i < expected.steps@.len() implies {
        let left = #[trigger] terminal.flow.steps@[i];
        let right = expected.steps@[i];
        &&& left.step_id@ == right.step_id@
        &&& left.kind@ == right.kind@
        &&& left.result is Some <==> right.result is Some
        &&& left.result is Some ==> left.result->0@ == right.result->0@
        &&& left.blocked_report is Some <==> right.blocked_report is Some
        &&& left.blocked_report is Some ==> left.blocked_report->0@ == right.blocked_report->0@
    } by {
        assert(same_step(terminal.flow.steps@[i], expected.steps@[i]));
    }
}

/// A flow whose authorization does not match is an internal failure; one whose
/// root is gone is an invalid request; and no other end is answered like this.
pub proof fn law_mismatches_have_their_own_codes(failure: Failure, end: FlowEnd)
    requires
        answers_end(failure, end),
    ensures
        end == FlowEnd::AuthorizationMismatch || end == FlowEnd::ProjectRootUnavailable,
        failure.code == FailureCode::Internal <==> end == FlowEnd::AuthorizationMismatch,
        failure.code == FailureCode::InvalidRequest <==> end == FlowEnd::ProjectRootUnavailable,
        failure.recovery is None,
        failure.approval is None,
{
}

/// Two optional texts are the same where both are missing or both say the same;
/// so every record is the same as itself, and a missing text never passes for
/// one that is there.
pub proof fn law_records_are_their_own(left: Option<String>, right: Option<String>)
    ensures
        same_optional(left, left),
        same_optional(left, right) <==> optional_text(left) == optional_text(right),
        same_optional(left, right) <==> same_optional(right, left),
{
}

/// A stored result is the same run as itself; two are the same run only with the
/// same identity, definition and outcome, and with the same steps in the same
/// order, each with the same result.
pub proof fn law_runs_are_told_apart(stored: FlowRunResult, expected: FlowRunResult, i: int)
    ensures
        same_run(stored, stored),
        same_run(stored, expected) <==> same_run(expected, stored),
        same_run(stored, expected) ==> {
            &&& stored.run_id@ == expected.run_id@
            &&& stored.definition_digest@ == expected.definition_digest@
            &&& stored.outcome == expected.outcome
            &&& stored.steps@.len() == expected.steps@.len()
            &&& 0 <= i < stored.steps@.len() ==> {
                &&& stored.steps@[i].step_id@ == expected.steps@[i].step_id@
                &&& stored.steps@[i].kind@ == expected.steps@[i].kind@
                &&& optional_text(stored.steps@[i].result) == optional_text(
                    expected.steps@[i].result,
                )
                &&& optional_text(stored.steps@[i].blocked_report) == optional_text(
                    expected.steps@[i].blocked_report,
                )
            }
        },
{
    if same_run(stored, expected) {
        assert forall|k: int| 0 <= k < expected.steps@.len() implies same_step(
            #[trigger] expected.steps@[k],
            stored.steps@[k],
        ) by {
            assert(same_step(stored.steps@[k], expected.steps@[k]));
        }
    }
    if same_run(expected, stored) {
        assert forall|k: int| 0 <= k < stored.steps@.len() implies same_step(
            #[trigger] stored.steps@[k],
            expected.steps@[k],
        ) by {
            assert(same_step(expected.steps@[k], stored.steps@[k]));
        }
    }
}

/// A claimed flow starts exactly where its operation, its resource and its
/// identity are all accepted; what is stored is judged before the identity.
pub proof fn law_flows_start_when_all_is_accepted(operation: bool, resource: bool, identity: bool)
    ensures
        start_error_of(operation, resource, identity) is None <==> operation && resource
            && identity,
        start_error_of(operation, resource, identity) == Some(FlowStartError::InvalidOperation)
            <==> !operation || !resource,
        start_error_of(operation, resource, identity) == Some(FlowStartError::InvalidRunIdentity)
            <==> operation && resource && !identity,
{
}

/// A flow that cannot start says what is wrong with it, as an internal failure
/// that the caller can do nothing about.
pub proof fn law_flows_that_cannot_start_say_why(failure: Failure, error: FlowStartError)
    requires
        answers_start(failure, error),
    ensures
        failure.code == FailureCode::Internal,
        failure.recovery is None,
        failure.message@ == "stored flow operation is invalid"@ <==> error
            == FlowStartError::InvalidOperation,
        failure.message@ == "flow run identity is invalid"@ <==> error
            == FlowStartError::InvalidRunIdentity,
{
    reveal_strlit("stored flow operation is invalid");
    reveal_strlit("flow run identity is invalid");
    assert("stored flow operation is invalid"@.len() == 32);
    assert("flow run identity is invalid"@.len() == 28);
}

/// A save that was lost to a cancellation is looked into, and the cancellation
/// saved in its place exactly where there is one. Every other failure of a save
/// fails the run.
pub proof fn law_lost_saves_are_looked_into(update: UpdateFacts, fault: StoreFault, cancelled: bool)
    ensures
        save_recovery_of(update, fault) == SaveRecovery::PollCancellation <==> lost_to_cancellation(
            update,
            fault,
        ),
        save_recovery_of(update, fault) == SaveRecovery::Fail <==> !lost_to_cancellation(
            update,
            fault,
        ),
        poll_recovery_of(cancelled) == SaveRecovery::SaveCancellation <==> cancelled,
        poll_recovery_of(cancelled) == SaveRecovery::Fail <==> !cancelled,
{
}

/// An effect at its boundary is cancelled where the request is, and else fails with
/// the lost lease: it never runs. A lease that is lost in a wait ends the wait
/// as such, any other fault fails it, and a renewed one goes on unless the
/// request is cancelled.
pub proof fn law_lost_leases_stop_the_work(fault: StoreFault, cancelled: bool)
    ensures
        boundary_of_poll(cancelled) == BoundaryStep::Decided(EffectBoundaryAuthorization::Cancelled)
            <==> cancelled,
        boundary_of_poll(cancelled) == BoundaryStep::Fail(StoreFault::StaleLease) <==> !cancelled,
        boundary_of_poll(cancelled) != BoundaryStep::Decided(EffectBoundaryAuthorization::Allowed),
        renewal_step_of(fault) == RenewalStep::Ended(LeaseWait::StaleLease) <==> fault
            == StoreFault::StaleLease,
        fault != StoreFault::StaleLease ==> renewal_step_of(fault) == RenewalStep::Fail(fault),
        wait_of_poll(cancelled) == LeaseWait::Cancelled <==> cancelled,
        wait_of_poll(cancelled) == LeaseWait::Ready <==> !cancelled,
{
}

/// A retry waits until its time and no longer: the delay ends when the retry may
/// start, and a retry that may start already does not wait.
pub proof fn law_retries_wait_until_their_time(not_before_ms: u64, now_ms: u64)
    ensures
        now_ms <= not_before_ms ==> now_ms + delay_of(not_before_ms, now_ms) == not_before_ms,
        not_before_ms <= now_ms ==> delay_of(not_before_ms, now_ms) == 0,
{
}

} // verus!
