//! What a request passes through before a handler sees it.
//!
//! Every check of [`intake_start`] and [`intake_step`] comes before the handler, and
//! each refusal is answered without touching what the handler would touch.

use vstd::prelude::*;

use crate::flow::operation::FlowSubmissionError;
use crate::identifiers::{identifiers_bounded, request_identifiers_are_bounded};
use crate::policy::{law_resources_tell_what_is_touched, policy_resource, resource_text};
use crate::protocol::{
    Capability, Failure, FailureCode, RequestEnvelope, capability_is_daemon_scoped,
    is_daemon_scoped, is_well_shaped, payload_capability, request_shape_is_valid,
};

verus! {

/// The facts about a request that the intake decides by.
#[derive(Clone, Copy, Debug, PartialEq, Eq, Structural)]
pub struct RequestFacts {
    pub identifiers_bounded: bool,
    /// The protocol version of the request is one that the daemon speaks.
    pub version_supported: bool,
    pub daemon_scope: bool,
    pub capability: Capability,
    /// The capability that the payload belongs to.
    pub payload: Capability,
    pub well_shaped: bool,
    /// The request can be written as a policy resource.
    pub has_resource: bool,
    pub has_credential: bool,
}

/// What the daemon demands of every request.
#[derive(Clone, Copy, Debug, PartialEq, Eq, Structural)]
pub struct IntakeRules {
    pub authentication_required: bool,
    pub policy_required: bool,
    /// Status requests are queued instead of answered at once.
    pub durable_status: bool,
}

/// The facts about `request`, given what the protocol and policy say of it.
pub open spec fn facts_of(
    request: RequestEnvelope,
    version_supported: bool,
    resource_accepted: bool,
) -> RequestFacts {
    RequestFacts {
        identifiers_bounded: identifiers_bounded(request),
        version_supported,
        daemon_scope: request.daemon_scope,
        capability: request.capability,
        payload: payload_capability(request.payload),
        well_shaped: is_well_shaped(request),
        has_resource: resource_text(request) is Some && resource_accepted,
        has_credential: request.has_credential,
    }
}

/// Gathers the facts about a request. `resource_accepted` tells whether policy
/// accepts the name of its resource.
pub fn request_facts(
    request: &RequestEnvelope,
    version_supported: bool,
    resource_accepted: bool,
) -> (facts: RequestFacts)
    ensures
        facts == facts_of(*request, version_supported, resource_accepted),
{
    RequestFacts {
        identifiers_bounded: request_identifiers_are_bounded(request),
        version_supported,
        daemon_scope: request.daemon_scope,
        capability: request.capability,
        payload: request.payload.capability(),
        well_shaped: request_shape_is_valid(request),
        has_resource: policy_resource(request).is_some() && resource_accepted,
        has_credential: request.has_credential,
    }
}

/// Why a request is answered without reaching its handler.
#[derive(Clone, Copy, Debug, PartialEq, Eq, Structural)]
pub enum IntakeRefusal {
    UnboundedIdentifiers,
    UnsupportedVersion,
    NeedsProject,
    ShapeMismatch,
    NoResource,
    Unauthenticated,
    Busy,
    Submission(FlowSubmissionError),
    NoFlowAuthority,
    /// Policy refused the request.
    Policy,
}

/// The handler that a request is handed to.
#[derive(Clone, Copy, Debug, PartialEq, Eq, Structural)]
pub enum Handler {
    Status,
    DurableStatus,
    ApprovalDecision,
    FlowRun,
    /// The handler of this capability.
    Of(Capability),
}

/// Work to perform before the next event.
#[derive(Clone, Copy, Debug, PartialEq, Eq, Structural)]
pub enum IntakeAction {
    /// Remember where the project lives, if the request tells.
    LearnProjectRoot,
    Authenticate,
    /// Record the failed authentication.
    AuditUnauthenticated,
    /// Record that only authentication was asked for.
    AuditAuthenticated,
    AcquirePreflightPermit,
    VerifyProjectRoot,
    PrepareFlow,
    Authorize,
    Dispatch(Handler),
    Refuse(IntakeRefusal),
    /// Give up with the store's error.
    Fail,
    Ignore,
}

/// What came of the last action.
#[derive(Clone, Copy, Debug, PartialEq, Eq, Structural)]
pub enum IntakeEvent {
    Learned,
    Authenticated(bool),
    Audited,
    PreflightPermit(bool),
    RootVerified(bool),
    FlowPrepared { resource_accepted: bool },
    FlowRefused(FlowSubmissionError),
    Authorized(bool),
    StoreFailed,
}

/// What the intake is waiting for.
#[derive(Clone, Copy, Debug, PartialEq, Eq, Structural)]
pub enum IntakePhase {
    Learning,
    Authenticating,
    AuditingRefusal,
    AuditingAdmission,
    Admitting,
    VerifyingRoot,
    Preparing,
    Authorizing,
    Done,
}

pub open spec fn refused(refusal: IntakeRefusal) -> (IntakePhase, IntakeAction) {
    (IntakePhase::Done, IntakeAction::Refuse(refusal))
}

pub open spec fn is_flow_run(facts: RequestFacts) -> bool {
    facts.capability == Capability::FlowRun && facts.payload == Capability::FlowRun
}

pub open spec fn is_approval_decision(facts: RequestFacts) -> bool {
    facts.capability == Capability::ApprovalDecide && facts.payload == Capability::ApprovalDecide
}

/// The checks that need nothing but the request.
pub open spec fn spec_intake_start(facts: RequestFacts) -> (IntakePhase, IntakeAction) {
    if !facts.identifiers_bounded {
        refused(IntakeRefusal::UnboundedIdentifiers)
    } else if !facts.version_supported {
        refused(IntakeRefusal::UnsupportedVersion)
    } else if facts.daemon_scope && !is_daemon_scoped(facts.capability) {
        refused(IntakeRefusal::NeedsProject)
    } else {
        (IntakePhase::Learning, IntakeAction::LearnProjectRoot)
    }
}

/// The handler of an admitted request that is neither a flow run nor an
/// approval decision.
pub open spec fn handler_of(facts: RequestFacts, rules: IntakeRules) -> Handler {
    if facts.capability == Capability::DaemonStatus {
        if rules.durable_status {
            Handler::DurableStatus
        } else {
            Handler::Status
        }
    } else {
        Handler::Of(facts.capability)
    }
}

/// What follows for a request that counts as authenticated.
pub open spec fn after_authentication(facts: RequestFacts, rules: IntakeRules) -> (
    IntakePhase,
    IntakeAction,
) {
    if is_approval_decision(facts) {
        (IntakePhase::Done, IntakeAction::Dispatch(Handler::ApprovalDecision))
    } else if is_flow_run(facts) {
        (IntakePhase::Admitting, IntakeAction::AcquirePreflightPermit)
    } else if rules.policy_required {
        (IntakePhase::Authorizing, IntakeAction::Authorize)
    } else if rules.authentication_required {
        (IntakePhase::AuditingAdmission, IntakeAction::AuditAuthenticated)
    } else {
        (IntakePhase::Done, IntakeAction::Dispatch(handler_of(facts, rules)))
    }
}

/// What follows once the project root was looked at.
pub open spec fn after_learning(facts: RequestFacts, rules: IntakeRules) -> (IntakePhase, IntakeAction) {
    if !facts.well_shaped {
        refused(IntakeRefusal::ShapeMismatch)
    } else if !is_flow_run(facts) && !is_approval_decision(facts) && !facts.has_resource {
        refused(IntakeRefusal::NoResource)
    } else if !rules.authentication_required {
        after_authentication(facts, rules)
    } else if facts.has_credential {
        (IntakePhase::Authenticating, IntakeAction::Authenticate)
    } else {
        (IntakePhase::AuditingRefusal, IntakeAction::AuditUnauthenticated)
    }
}

/// The rule of the intake.
pub open spec fn spec_intake_step(
    facts: RequestFacts,
    rules: IntakeRules,
    phase: IntakePhase,
    event: IntakeEvent,
) -> (IntakePhase, IntakeAction) {
    match (phase, event) {
        (IntakePhase::Done, _) => (phase, IntakeAction::Ignore),
        (_, IntakeEvent::StoreFailed) => (IntakePhase::Done, IntakeAction::Fail),
        (IntakePhase::Learning, IntakeEvent::Learned) => after_learning(facts, rules),
        (IntakePhase::Authenticating, IntakeEvent::Authenticated(authenticated)) => {
            if authenticated {
                after_authentication(facts, rules)
            } else {
                (IntakePhase::AuditingRefusal, IntakeAction::AuditUnauthenticated)
            }
        },
        (IntakePhase::AuditingRefusal, IntakeEvent::Audited) => refused(IntakeRefusal::Unauthenticated),
        (IntakePhase::AuditingAdmission, IntakeEvent::Audited) => (
            IntakePhase::Done,
            IntakeAction::Dispatch(handler_of(facts, rules)),
        ),
        (IntakePhase::Admitting, IntakeEvent::PreflightPermit(granted)) => if granted {
            (IntakePhase::VerifyingRoot, IntakeAction::VerifyProjectRoot)
        } else {
            refused(IntakeRefusal::Busy)
        },
        (IntakePhase::VerifyingRoot, IntakeEvent::RootVerified(verified)) => if verified {
            (IntakePhase::Preparing, IntakeAction::PrepareFlow)
        } else {
            refused(IntakeRefusal::Submission(FlowSubmissionError::WorkspaceUnavailable))
        },
        (IntakePhase::Preparing, IntakeEvent::FlowPrepared { resource_accepted }) => {
            if resource_accepted {
                (IntakePhase::Done, IntakeAction::Dispatch(Handler::FlowRun))
            } else {
                refused(IntakeRefusal::NoFlowAuthority)
            }
        },
        (IntakePhase::Preparing, IntakeEvent::FlowRefused(error)) => refused(
            IntakeRefusal::Submission(error),
        ),
        (IntakePhase::Authorizing, IntakeEvent::Authorized(allowed)) => if allowed {
            (IntakePhase::Done, IntakeAction::Dispatch(handler_of(facts, rules)))
        } else {
            refused(IntakeRefusal::Policy)
        },
        _ => (phase, IntakeAction::Ignore),
    }
}

fn refuse(refusal: IntakeRefusal) -> (next: (IntakePhase, IntakeAction))
    ensures
        next == refused(refusal),
{
    (IntakePhase::Done, IntakeAction::Refuse(refusal))
}

/// Makes the checks that need nothing but the request.
pub fn intake_start(facts: RequestFacts) -> (next: (IntakePhase, IntakeAction))
    ensures
        next == spec_intake_start(facts),
{
    if !facts.identifiers_bounded {
        refuse(IntakeRefusal::UnboundedIdentifiers)
    } else if !facts.version_supported {
        refuse(IntakeRefusal::UnsupportedVersion)
    } else if facts.daemon_scope && !capability_is_daemon_scoped(facts.capability) {
        refuse(IntakeRefusal::NeedsProject)
    } else {
        (IntakePhase::Learning, IntakeAction::LearnProjectRoot)
    }
}

fn dispatch(facts: RequestFacts, rules: IntakeRules) -> (next: (IntakePhase, IntakeAction))
    ensures
        next == (IntakePhase::Done, IntakeAction::Dispatch(handler_of(facts, rules))),
{
    let handler = if facts.capability == Capability::DaemonStatus {
        if rules.durable_status {
            Handler::DurableStatus
        } else {
            Handler::Status
        }
    } else {
        Handler::Of(facts.capability)
    };
    (IntakePhase::Done, IntakeAction::Dispatch(handler))
}

fn step_after_authentication(facts: RequestFacts, rules: IntakeRules) -> (next: (
    IntakePhase,
    IntakeAction,
))
    ensures
        next == after_authentication(facts, rules),
{
    if facts.capability == Capability::ApprovalDecide && facts.payload
        == Capability::ApprovalDecide {
        (IntakePhase::Done, IntakeAction::Dispatch(Handler::ApprovalDecision))
    } else if facts.capability == Capability::FlowRun && facts.payload == Capability::FlowRun {
        (IntakePhase::Admitting, IntakeAction::AcquirePreflightPermit)
    } else if rules.policy_required {
        (IntakePhase::Authorizing, IntakeAction::Authorize)
    } else if rules.authentication_required {
        (IntakePhase::AuditingAdmission, IntakeAction::AuditAuthenticated)
    } else {
        dispatch(facts, rules)
    }
}

fn step_after_learning(facts: RequestFacts, rules: IntakeRules) -> (next: (IntakePhase, IntakeAction))
    ensures
        next == after_learning(facts, rules),
{
    let own_resource = (facts.capability == Capability::FlowRun && facts.payload
        == Capability::FlowRun) || (facts.capability == Capability::ApprovalDecide && facts.payload
        == Capability::ApprovalDecide);
    if !facts.well_shaped {
        refuse(IntakeRefusal::ShapeMismatch)
    } else if !own_resource && !facts.has_resource {
        refuse(IntakeRefusal::NoResource)
    } else if !rules.authentication_required {
        step_after_authentication(facts, rules)
    } else if facts.has_credential {
        (IntakePhase::Authenticating, IntakeAction::Authenticate)
    } else {
        (IntakePhase::AuditingRefusal, IntakeAction::AuditUnauthenticated)
    }
}

/// Decides what follows `event` for a request at the intake.
pub fn intake_step(facts: RequestFacts, rules: IntakeRules, phase: IntakePhase, event: IntakeEvent) -> (
next: (IntakePhase, IntakeAction))
    ensures
        next == spec_intake_step(facts, rules, phase, event),
{
    match (phase, event) {
        (IntakePhase::Done, _) => (phase, IntakeAction::Ignore),
        (_, IntakeEvent::StoreFailed) => (IntakePhase::Done, IntakeAction::Fail),
        (IntakePhase::Learning, IntakeEvent::Learned) => step_after_learning(facts, rules),
        (IntakePhase::Authenticating, IntakeEvent::Authenticated(authenticated)) => {
            if authenticated {
                step_after_authentication(facts, rules)
            } else {
                (IntakePhase::AuditingRefusal, IntakeAction::AuditUnauthenticated)
            }
        },
        (IntakePhase::AuditingRefusal, IntakeEvent::Audited) => refuse(IntakeRefusal::Unauthenticated),
        (IntakePhase::AuditingAdmission, IntakeEvent::Audited) => dispatch(facts, rules),
        (IntakePhase::Admitting, IntakeEvent::PreflightPermit(granted)) => {
            if granted {
                (IntakePhase::VerifyingRoot, IntakeAction::VerifyProjectRoot)
            } else {
                refuse(IntakeRefusal::Busy)
            }
        },
        (IntakePhase::VerifyingRoot, IntakeEvent::RootVerified(verified)) => {
            if verified {
                (IntakePhase::Preparing, IntakeAction::PrepareFlow)
            } else {
                refuse(IntakeRefusal::Submission(FlowSubmissionError::WorkspaceUnavailable))
            }
        },
        (IntakePhase::Preparing, IntakeEvent::FlowPrepared { resource_accepted }) => {
            if resource_accepted {
                (IntakePhase::Done, IntakeAction::Dispatch(Handler::FlowRun))
            } else {
                refuse(IntakeRefusal::NoFlowAuthority)
            }
        },
        (IntakePhase::Preparing, IntakeEvent::FlowRefused(error)) => refuse(
            IntakeRefusal::Submission(error),
        ),
        (IntakePhase::Authorizing, IntakeEvent::Authorized(allowed)) => {
            if allowed {
                dispatch(facts, rules)
            } else {
                refuse(IntakeRefusal::Policy)
            }
        },
        _ => (phase, IntakeAction::Ignore),
    }
}

// Refusals

pub open spec fn submission_error_text(error: FlowSubmissionError) -> Seq<char> {
    match error {
        FlowSubmissionError::InvalidDefinition => "flow definition is invalid"@,
        FlowSubmissionError::UnsupportedDefinition => {
            "flow contains an action, classification, or approval unsupported by this daemon"@
        },
        FlowSubmissionError::WorkspaceUnavailable => {
            "the exact workspace authority could not be established"@
        },
    }
}

/// Why a flow submission is refused, in words.
pub fn flow_submission_error_message(error: FlowSubmissionError) -> (message: &'static str)
    ensures
        message@ == submission_error_text(error),
{
    match error {
        FlowSubmissionError::InvalidDefinition => "flow definition is invalid",
        FlowSubmissionError::UnsupportedDefinition => {
            "flow contains an action, classification, or approval unsupported by this daemon"
        },
        FlowSubmissionError::WorkspaceUnavailable => {
            "the exact workspace authority could not be established"
        },
    }
}

/// `failure` reports `refusal`. The refusals of the protocol version and of
/// policy have answers of their own.
pub open spec fn answers(failure: Failure, refusal: IntakeRefusal) -> bool {
    match refusal {
        IntakeRefusal::UnboundedIdentifiers => failure.says(
            FailureCode::InvalidRequest,
            "request identifiers must contain 1 to 256 UTF-8 bytes without control characters"@,
            None,
        ),
        IntakeRefusal::NeedsProject => failure.says(
            FailureCode::InvalidRequest,
            "this operation needs a project; the reserved daemon scope cannot satisfy it"@,
            None,
        ),
        IntakeRefusal::ShapeMismatch => failure.says(
            FailureCode::InvalidRequest,
            "capability and payload do not match"@,
            None,
        ),
        IntakeRefusal::NoResource => failure.says(
            FailureCode::InvalidRequest,
            "request cannot be represented as a policy resource"@,
            None,
        ),
        IntakeRefusal::Unauthenticated => failure.says(
            FailureCode::Unauthenticated,
            "caller authentication failed"@,
            Some("pam caller register"@),
        ),
        IntakeRefusal::Busy => failure.says(
            FailureCode::Busy,
            "flow preflight capacity is busy"@,
            Some("retry the exact flow run after another preflight finishes"@),
        ),
        IntakeRefusal::Submission(error) => failure.says(
            FailureCode::InvalidRequest,
            submission_error_text(error),
            None,
        ),
        IntakeRefusal::NoFlowAuthority => failure.says(
            FailureCode::InvalidRequest,
            "flow policy authority is invalid"@,
            None,
        ),
        IntakeRefusal::UnsupportedVersion | IntakeRefusal::Policy => false,
    }
}

/// The answer to a refused request, where the intake itself has one.
pub fn refusal_failure(refusal: IntakeRefusal) -> (failure: Option<Failure>)
    ensures
        match failure {
            Some(f) => answers(f, refusal),
            None => refusal == IntakeRefusal::UnsupportedVersion || refusal == IntakeRefusal::Policy,
        },
{
    match refusal {
        IntakeRefusal::UnboundedIdentifiers => Some(
            Failure::new(
                FailureCode::InvalidRequest,
                "request identifiers must contain 1 to 256 UTF-8 bytes without control characters",
            ),
        ),
        IntakeRefusal::NeedsProject => Some(
            Failure::new(
                FailureCode::InvalidRequest,
                "this operation needs a project; the reserved daemon scope cannot satisfy it",
            ),
        ),
        IntakeRefusal::ShapeMismatch => Some(
            Failure::new(FailureCode::InvalidRequest, "capability and payload do not match"),
        ),
        IntakeRefusal::NoResource => Some(
            Failure::new(
                FailureCode::InvalidRequest,
                "request cannot be represented as a policy resource",
            ),
        ),
        IntakeRefusal::Unauthenticated => Some(
            Failure::recoverable(
                FailureCode::Unauthenticated,
                "caller authentication failed",
                "pam caller register",
            ),
        ),
        IntakeRefusal::Busy => Some(
            Failure::recoverable(
                FailureCode::Busy,
                "flow preflight capacity is busy",
                "retry the exact flow run after another preflight finishes",
            ),
        ),
        IntakeRefusal::Submission(error) => Some(
            Failure::new(FailureCode::InvalidRequest, flow_submission_error_message(error)),
        ),
        IntakeRefusal::NoFlowAuthority => Some(
            Failure::new(FailureCode::InvalidRequest, "flow policy authority is invalid"),
        ),
        IntakeRefusal::UnsupportedVersion | IntakeRefusal::Policy => None,
    }
}

// Laws

/// Phase and action after `events` for one request.
pub open spec fn intake_run(facts: RequestFacts, rules: IntakeRules, events: Seq<IntakeEvent>) -> (
    IntakePhase,
    IntakeAction,
)
    decreases events.len(),
{
    if events.len() == 0 {
        spec_intake_start(facts)
    } else {
        spec_intake_step(facts, rules, intake_run(facts, rules, events.drop_last()).0, events.last())
    }
}

/// The caller's credential was accepted at some point.
pub open spec fn was_authenticated(events: Seq<IntakeEvent>) -> bool {
    exists|i: int| 0 <= i < events.len() && #[trigger] events[i] == IntakeEvent::Authenticated(true)
}

spec fn beyond_authentication(phase: IntakePhase) -> bool {
    match phase {
        IntakePhase::AuditingAdmission
        | IntakePhase::Admitting
        | IntakePhase::VerifyingRoot
        | IntakePhase::Preparing
        | IntakePhase::Authorizing => true,
        _ => false,
    }
}

spec fn is_flow_phase(phase: IntakePhase) -> bool {
    phase is Admitting || phase is VerifyingRoot || phase is Preparing
}

#[verifier::spinoff_prover]
proof fn lemma_intake_invariant(facts: RequestFacts, rules: IntakeRules, events: Seq<IntakeEvent>)
    ensures
        ({
            let (phase, action) = intake_run(facts, rules, events);
            &&& !(phase is Done) ==> facts.identifiers_bounded && facts.version_supported && (
            facts.daemon_scope ==> is_daemon_scoped(facts.capability))
            &&& !(phase is Done) && !(phase is Learning) ==> facts.well_shaped
            &&& beyond_authentication(phase) && rules.authentication_required
                ==> was_authenticated(events)
            &&& is_flow_phase(phase) ==> is_flow_run(facts)
            &&& phase is AuditingAdmission ==> !rules.policy_required
            &&& phase is AuditingAdmission || phase is Authorizing ==> !is_flow_run(facts)
                && !is_approval_decision(facts)
            &&& action is Dispatch ==> facts.identifiers_bounded && facts.version_supported && (
            facts.daemon_scope ==> is_daemon_scoped(facts.capability)) && facts.well_shaped
            &&& action is Dispatch && rules.authentication_required ==> was_authenticated(events)
            &&& action is Dispatch && rules.policy_required && !is_flow_run(facts)
                && !is_approval_decision(facts) ==> events.len() > 0 && events.last()
                == IntakeEvent::Authorized(true)
            &&& action == IntakeAction::Dispatch(Handler::FlowRun) ==> is_flow_run(facts)
                && events.len() > 0 && events.last() == (IntakeEvent::FlowPrepared {
                resource_accepted: true,
            })
            &&& action is Dispatch && is_flow_run(facts) ==> action == IntakeAction::Dispatch(
                Handler::FlowRun,
            )
        }),
    decreases events.len(),
{
    if events.len() > 0 {
        let before = events.drop_last();
        lemma_intake_invariant(facts, rules, before);
        if was_authenticated(before) {
            let i = choose|i: int|
                0 <= i < before.len() && #[trigger] before[i] == IntakeEvent::Authenticated(true);
            assert(events[i] == before[i]);
        }
        if events.last() == IntakeEvent::Authenticated(true) {
            assert(events[events.len() - 1] == IntakeEvent::Authenticated(true));
        }
    }
}

/// No handler sees a request that fails a check: its identifiers are bounded,
/// its version is known, its payload belongs to its capability, the daemon
/// scope is used only where it may be, and the caller is authenticated where
/// that is required.
pub proof fn law_handlers_see_checked_requests(
    facts: RequestFacts,
    rules: IntakeRules,
    events: Seq<IntakeEvent>,
)
    requires
        intake_run(facts, rules, events).1 is Dispatch,
    ensures
        facts.identifiers_bounded,
        facts.version_supported,
        facts.well_shaped,
        facts.daemon_scope ==> is_daemon_scoped(facts.capability),
        rules.authentication_required ==> was_authenticated(events),
{
    lemma_intake_invariant(facts, rules, events);
}

/// Where policy is required, a handler runs only right after policy allowed the
/// request. Flow runs are authorized when they are accepted, and approval
/// decisions by the approval itself.
pub proof fn law_handlers_run_authorized(
    facts: RequestFacts,
    rules: IntakeRules,
    events: Seq<IntakeEvent>,
)
    requires
        intake_run(facts, rules, events).1 is Dispatch,
        rules.policy_required,
        !is_flow_run(facts),
        !is_approval_decision(facts),
    ensures
        events.len() > 0,
        events.last() == IntakeEvent::Authorized(true),
{
    lemma_intake_invariant(facts, rules, events);
}

/// No workspace is looked at for a caller that is not authenticated, nor for a
/// request that is no flow run.
pub proof fn law_workspaces_are_inspected_for_callers(
    facts: RequestFacts,
    rules: IntakeRules,
    events: Seq<IntakeEvent>,
)
    requires
        intake_run(facts, rules, events).1 == IntakeAction::VerifyProjectRoot || intake_run(
            facts,
            rules,
            events,
        ).1 == IntakeAction::PrepareFlow,
    ensures
        is_flow_run(facts),
        rules.authentication_required ==> was_authenticated(events),
{
    lemma_intake_invariant(facts, rules, events);
}

/// A flow run reaches its handler only with a prepared submission whose
/// resource policy accepts.
pub proof fn law_flows_are_prepared(facts: RequestFacts, rules: IntakeRules, events: Seq<IntakeEvent>)
    requires
        is_flow_run(facts),
        intake_run(facts, rules, events).1 is Dispatch,
    ensures
        intake_run(facts, rules, events).1 == IntakeAction::Dispatch(Handler::FlowRun),
        events.len() > 0,
        events.last() == (IntakeEvent::FlowPrepared { resource_accepted: true }),
{
    lemma_intake_invariant(facts, rules, events);
}

// What a request comes to

/// The event is an answer to the action. The store can fail at any work.
pub open spec fn intake_fits(action: IntakeAction, event: IntakeEvent) -> bool {
    match event {
        IntakeEvent::Learned => action == IntakeAction::LearnProjectRoot,
        IntakeEvent::Authenticated(_) => action == IntakeAction::Authenticate,
        IntakeEvent::Audited => action == IntakeAction::AuditUnauthenticated || action
            == IntakeAction::AuditAuthenticated,
        IntakeEvent::PreflightPermit(_) => action == IntakeAction::AcquirePreflightPermit,
        IntakeEvent::RootVerified(_) => action == IntakeAction::VerifyProjectRoot,
        IntakeEvent::FlowPrepared { .. } | IntakeEvent::FlowRefused(_) => action
            == IntakeAction::PrepareFlow,
        IntakeEvent::Authorized(_) => action == IntakeAction::Authorize,
        IntakeEvent::StoreFailed => !(action is Dispatch) && !(action is Refuse) && action
            != IntakeAction::Fail && action != IntakeAction::Ignore,
    }
}

/// Every event answers what was asked before it.
pub open spec fn intake_told(facts: RequestFacts, rules: IntakeRules, events: Seq<IntakeEvent>) -> bool
    decreases events.len(),
{
    events.len() == 0 || (intake_told(facts, rules, events.drop_last()) && intake_fits(
        intake_run(facts, rules, events.drop_last()).1,
        events.last(),
    ))
}

spec fn intake_waits(phase: IntakePhase, action: IntakeAction) -> bool {
    match phase {
        IntakePhase::Learning => action == IntakeAction::LearnProjectRoot,
        IntakePhase::Authenticating => action == IntakeAction::Authenticate,
        IntakePhase::AuditingRefusal => action == IntakeAction::AuditUnauthenticated,
        IntakePhase::AuditingAdmission => action == IntakeAction::AuditAuthenticated,
        IntakePhase::Admitting => action == IntakeAction::AcquirePreflightPermit,
        IntakePhase::VerifyingRoot => action == IntakeAction::VerifyProjectRoot,
        IntakePhase::Preparing => action == IntakeAction::PrepareFlow,
        IntakePhase::Authorizing => action == IntakeAction::Authorize,
        IntakePhase::Done => action is Dispatch || action is Refuse || action == IntakeAction::Fail,
    }
}

#[verifier::spinoff_prover]
proof fn lemma_intake_told(facts: RequestFacts, rules: IntakeRules, events: Seq<IntakeEvent>)
    requires
        intake_told(facts, rules, events),
    ensures
        ({
            let (phase, action) = intake_run(facts, rules, events);
            let last = events.last();
            &&& intake_waits(phase, action)
            &&& phase is Learning ==> events.len() == 0
            &&& phase is Authenticating ==> events.len() == 1 && rules.authentication_required
                && facts.has_credential && events[0] == IntakeEvent::Learned
            &&& events.len() == 1 && !(phase is Done) ==> events[0] == IntakeEvent::Learned
            &&& phase is AuditingRefusal ==> rules.authentication_required && (last
                == IntakeEvent::Authenticated(false) || (events.len() == 1
                && !facts.has_credential))
        }),
    decreases events.len(),
{
    if events.len() > 0 {
        lemma_intake_told(facts, rules, events.drop_last());
    }
}

/// What can be told from the request alone is told first, and in this order:
/// identifiers that are not bounded, a version that the daemon does not speak, a
/// project that is missing. A request with none of these is looked into.
pub proof fn law_requests_are_first_checked_by_themselves(facts: RequestFacts, rules: IntakeRules)
    ensures
        ({
            let first = intake_run(facts, rules, Seq::empty()).1;
            let needs_project = facts.daemon_scope && {
                ||| facts.capability == Capability::ProjectCurrent
                ||| facts.capability == Capability::ApprovalDecide
                ||| facts.capability == Capability::CancelRequest
                ||| facts.capability == Capability::ReplayEvents
                ||| facts.capability == Capability::Brief
                ||| facts.capability == Capability::WaitForResult
                ||| facts.capability == Capability::GetResult
                ||| facts.capability == Capability::InspectEvidence
                ||| facts.capability == Capability::ReadEvidence
                ||| facts.capability == Capability::FlowRun
            };
            &&& first == IntakeAction::Refuse(IntakeRefusal::UnboundedIdentifiers)
                <==> !facts.identifiers_bounded
            &&& first == IntakeAction::Refuse(IntakeRefusal::UnsupportedVersion)
                <==> facts.identifiers_bounded && !facts.version_supported
            &&& first == IntakeAction::Refuse(IntakeRefusal::NeedsProject)
                <==> facts.identifiers_bounded && facts.version_supported && needs_project
            &&& first == IntakeAction::LearnProjectRoot <==> facts.identifiers_bounded
                && facts.version_supported && !needs_project
        }),
{
}

/// Then the request is held against itself: its payload must belong to its
/// capability, and it must have a resource, unless it is a flow run or decides an
/// approval. Where callers are to be known, one without a credential is put on
/// record and one with a credential is authenticated.
pub proof fn law_learned_requests_are_held_against_themselves(
    facts: RequestFacts,
    rules: IntakeRules,
)
    requires
        intake_told(facts, rules, seq![IntakeEvent::Learned]),
    ensures
        ({
            let next = intake_run(facts, rules, seq![IntakeEvent::Learned]).1;
            let own = (facts.capability == Capability::FlowRun && facts.payload
                == Capability::FlowRun) || (facts.capability == Capability::ApprovalDecide
                && facts.payload == Capability::ApprovalDecide);
            let accepted = facts.well_shaped && (own || facts.has_resource);
            &&& next == IntakeAction::Refuse(IntakeRefusal::ShapeMismatch) <==> !facts.well_shaped
            &&& next == IntakeAction::Refuse(IntakeRefusal::NoResource) <==> facts.well_shaped
                && !accepted
            &&& next == IntakeAction::Authenticate <==> accepted && rules.authentication_required
                && facts.has_credential
            &&& next == IntakeAction::AuditUnauthenticated <==> accepted
                && rules.authentication_required && !facts.has_credential
            &&& next is Dispatch ==> accepted && !rules.authentication_required
        }),
{
    let events = seq![IntakeEvent::Learned];
    assert(events.drop_last() =~= Seq::<IntakeEvent>::empty());
    lemma_intake_told(facts, rules, events);
    lemma_intake_told(facts, rules, Seq::empty());
}

/// A caller is refused as unauthenticated exactly where callers are to be known
/// and this one had no credential or was not accepted, and only once that is on
/// record.
pub proof fn law_unknown_callers_are_refused(
    facts: RequestFacts,
    rules: IntakeRules,
    events: Seq<IntakeEvent>,
)
    requires
        intake_told(facts, rules, events),
        events.len() > 0,
    ensures
        ({
            let next = intake_run(facts, rules, events).1;
            &&& events.last() == IntakeEvent::Authenticated(false) ==> next
                == IntakeAction::AuditUnauthenticated
            &&& next == IntakeAction::Refuse(IntakeRefusal::Unauthenticated) ==> {
                &&& rules.authentication_required
                &&& events.last() == IntakeEvent::Audited
                &&& events.len() > 1
                &&& events[events.len() - 2] == IntakeEvent::Authenticated(false)
                    || !facts.has_credential
            }
            &&& events.last() == IntakeEvent::Audited && events.len() > 1 && events[events.len() - 2]
                == IntakeEvent::Authenticated(false) ==> next == IntakeAction::Refuse(
                IntakeRefusal::Unauthenticated,
            )
            &&& next == IntakeAction::AuditUnauthenticated ==> rules.authentication_required
        }),
{
    reveal_with_fuel(intake_run, 3);
    reveal_with_fuel(intake_told, 3);
    let before = events.drop_last();
    lemma_intake_told(facts, rules, events);
    lemma_intake_told(facts, rules, before);
    if before.len() > 0 {
        assert(before.last() == events[events.len() - 2]);
        lemma_intake_told(facts, rules, before.drop_last());
    }
}

/// What is found out about a request decides it: policy lets it through or
/// refuses it; a flow run gets a permit or is told that the daemon is busy, its
/// root is the project's or it is refused, and it is prepared with a resource
/// that policy accepts or refused for what is wrong with it. A failing store
/// fails the request.
pub proof fn law_findings_decide_the_request(
    facts: RequestFacts,
    rules: IntakeRules,
    events: Seq<IntakeEvent>,
)
    requires
        intake_told(facts, rules, events),
        events.len() > 0,
    ensures
        ({
            let next = intake_run(facts, rules, events).1;
            let last = events.last();
            &&& next == IntakeAction::Refuse(IntakeRefusal::Policy) <==> last
                == IntakeEvent::Authorized(false)
            &&& last == IntakeEvent::Authorized(true) ==> next is Dispatch
            &&& next == IntakeAction::Refuse(IntakeRefusal::Busy) <==> last
                == IntakeEvent::PreflightPermit(false)
            &&& next == IntakeAction::VerifyProjectRoot <==> last == IntakeEvent::PreflightPermit(
                true,
            )
            &&& next == IntakeAction::PrepareFlow <==> last == IntakeEvent::RootVerified(true)
            &&& last == IntakeEvent::RootVerified(false) ==> next == IntakeAction::Refuse(
                IntakeRefusal::Submission(FlowSubmissionError::WorkspaceUnavailable),
            )
            &&& last matches IntakeEvent::FlowRefused(error) ==> next == IntakeAction::Refuse(
                IntakeRefusal::Submission(error),
            )
            &&& next == IntakeAction::Refuse(IntakeRefusal::NoFlowAuthority) <==> last == (
            IntakeEvent::FlowPrepared { resource_accepted: false })
            &&& next == IntakeAction::Dispatch(Handler::FlowRun) <==> last == (
            IntakeEvent::FlowPrepared { resource_accepted: true })
            &&& next == IntakeAction::Fail <==> last == IntakeEvent::StoreFailed
            &&& next != IntakeAction::Ignore
        }),
{
    lemma_intake_told(facts, rules, events.drop_last());
    lemma_intake_told(facts, rules, events);
}

/// An accepted caller's request goes on as what it is: an approval decision to
/// its handler, a flow run to the preparation, and any other one to policy, where
/// policy is to be asked. Where it is not, the admission is put on record first.
pub proof fn law_accepted_callers_go_on(
    facts: RequestFacts,
    rules: IntakeRules,
    events: Seq<IntakeEvent>,
)
    requires
        intake_told(facts, rules, events),
        events.len() > 0,
        events.last() == IntakeEvent::Authenticated(true),
    ensures
        ({
            let next = intake_run(facts, rules, events).1;
            let decides = facts.capability == Capability::ApprovalDecide && facts.payload
                == Capability::ApprovalDecide;
            let runs = facts.capability == Capability::FlowRun && facts.payload
                == Capability::FlowRun;
            &&& next == IntakeAction::Dispatch(Handler::ApprovalDecision) <==> decides
            &&& next == IntakeAction::AcquirePreflightPermit <==> runs
            &&& next == IntakeAction::Authorize <==> !decides && !runs && rules.policy_required
            &&& next == IntakeAction::AuditAuthenticated <==> !decides && !runs
                && !rules.policy_required
        }),
{
    lemma_intake_told(facts, rules, events.drop_last());
}

spec fn dispatches_rightly(facts: RequestFacts, rules: IntakeRules, action: IntakeAction) -> bool {
    action matches IntakeAction::Dispatch(handler) ==> match handler {
        Handler::Status => facts.capability == Capability::DaemonStatus && !rules.durable_status,
        Handler::DurableStatus => facts.capability == Capability::DaemonStatus
            && rules.durable_status,
        Handler::ApprovalDecision => facts.capability == Capability::ApprovalDecide,
        Handler::FlowRun => facts.capability == Capability::FlowRun,
        Handler::Of(capability) => facts.capability == capability && capability
            != Capability::DaemonStatus,
    }
}

/// A request reaches the handler of its own capability and no other; a status
/// request goes through the queue exactly where the daemon is set up so.
pub proof fn law_handlers_get_their_own_requests(
    facts: RequestFacts,
    rules: IntakeRules,
    events: Seq<IntakeEvent>,
    handler: Handler,
)
    requires
        intake_run(facts, rules, events).1 == IntakeAction::Dispatch(handler),
    ensures
        match handler {
            Handler::Status => facts.capability == Capability::DaemonStatus
                && !rules.durable_status,
            Handler::DurableStatus => facts.capability == Capability::DaemonStatus
                && rules.durable_status,
            Handler::ApprovalDecision => facts.capability == Capability::ApprovalDecide,
            Handler::FlowRun => facts.capability == Capability::FlowRun,
            Handler::Of(capability) => facts.capability == capability && capability
                != Capability::DaemonStatus,
        },
{
    lemma_intake_invariant(facts, rules, events);
    if events.len() > 0 {
        lemma_intake_invariant(facts, rules, events.drop_last());
    }
    assert(dispatches_rightly(facts, rules, intake_run(facts, rules, events).1));
}

/// The facts that a request is judged by are its own: bounded names, the scope
/// and the capability that it states, the capability that its payload has, and a
/// resource that both it and policy know.
pub proof fn law_facts_are_the_requests_own(
    request: RequestEnvelope,
    version_supported: bool,
    resource_accepted: bool,
)
    ensures
        ({
            let facts = facts_of(request, version_supported, resource_accepted);
            &&& facts.version_supported == version_supported
            &&& facts.daemon_scope == request.daemon_scope
            &&& facts.capability == request.capability
            &&& facts.has_credential == request.has_credential
            &&& facts.has_resource ==> resource_accepted && !(request.payload is FlowRun)
            &&& !resource_accepted ==> !facts.has_resource
            &&& resource_accepted && !(request.payload is FlowRun) ==> facts.has_resource
            &&& facts.well_shaped ==> facts.payload == facts.capability && request.fields_valid
            &&& facts.payload == Capability::FlowRun <==> request.payload is FlowRun
            &&& facts.payload == Capability::ApprovalDecide <==> request.payload is ApprovalDecide
        }),
{
    law_resources_tell_what_is_touched(request, request);
}

/// A refusal is answered with the code of its kind: who is not known is told so,
/// who comes while the daemon is busy is told so, and everything else is an
/// invalid request. Only the first two can be cleared by the caller.
pub proof fn law_refusals_are_answered_by_kind(failure: Failure, refusal: IntakeRefusal)
    requires
        answers(failure, refusal),
    ensures
        failure.code == FailureCode::Unauthenticated <==> refusal == IntakeRefusal::Unauthenticated,
        failure.code == FailureCode::Busy <==> refusal == IntakeRefusal::Busy,
        failure.code == FailureCode::InvalidRequest <==> refusal != IntakeRefusal::Unauthenticated
            && refusal != IntakeRefusal::Busy,
        failure.recovery is Some <==> refusal == IntakeRefusal::Unauthenticated || refusal
            == IntakeRefusal::Busy,
        failure.approval is None,
{
}

/// What did not come of what was asked is passed over and changes nothing, and
/// once an intake is over it is not taken up again.
pub proof fn law_stray_findings_are_passed_over(
    facts: RequestFacts,
    rules: IntakeRules,
    events: Seq<IntakeEvent>,
    event: IntakeEvent,
)
    requires
        intake_told(facts, rules, events),
        !intake_fits(intake_run(facts, rules, events).1, event),
    ensures
        intake_run(facts, rules, events.push(event)).1 == IntakeAction::Ignore,
        intake_run(facts, rules, events.push(event)).0 == intake_run(facts, rules, events).0,
{
    lemma_intake_told(facts, rules, events);
    assert(events.push(event).drop_last() =~= events);
}

/// Each reason why a flow is not accepted has its own words.
pub proof fn law_submission_errors_have_their_own_words(error: FlowSubmissionError)
    ensures
        submission_error_text(error) == "flow definition is invalid"@ <==> error == FlowSubmissionError::InvalidDefinition,
        submission_error_text(error) == "flow contains an action, classification, or approval unsupported by this daemon"@ <==> error == FlowSubmissionError::UnsupportedDefinition,
        submission_error_text(error) == "the exact workspace authority could not be established"@ <==> error == FlowSubmissionError::WorkspaceUnavailable,
{
    reveal_strlit("flow definition is invalid");
    reveal_strlit("flow contains an action, classification, or approval unsupported by this daemon");
    reveal_strlit("the exact workspace authority could not be established");
    assert("flow definition is invalid"@.len() == 26);
    assert("flow contains an action, classification, or approval unsupported by this daemon"@.len() == 79);
    assert("the exact workspace authority could not be established"@.len() == 54);
}

/// A refused caller reads why, and what to do about it where something can be
/// done: register, or come again.
pub proof fn law_refused_callers_read_why(failure: Failure, refusal: IntakeRefusal)
    requires
        answers(failure, refusal),
    ensures
        refusal == IntakeRefusal::UnboundedIdentifiers ==> failure.message@
            == "request identifiers must contain 1 to 256 UTF-8 bytes without control characters"@,
        refusal == IntakeRefusal::NeedsProject ==> failure.message@
            == "this operation needs a project; the reserved daemon scope cannot satisfy it"@,
        refusal == IntakeRefusal::ShapeMismatch ==> failure.message@
            == "capability and payload do not match"@,
        refusal == IntakeRefusal::NoResource ==> failure.message@
            == "request cannot be represented as a policy resource"@,
        refusal == IntakeRefusal::Unauthenticated ==> failure.message@
            == "caller authentication failed"@,
        refusal == IntakeRefusal::Busy ==> failure.message@
            == "flow preflight capacity is busy"@,
        refusal == IntakeRefusal::NoFlowAuthority ==> failure.message@
            == "flow policy authority is invalid"@,
        refusal matches IntakeRefusal::Submission(error) ==> failure.message@
            == submission_error_text(error),
        refusal == IntakeRefusal::Unauthenticated ==> failure.recovery is Some
            && failure.recovery->0@ == "pam caller register"@,
        refusal == IntakeRefusal::Busy ==> failure.recovery is Some && failure.recovery->0@
            == "retry the exact flow run after another preflight finishes"@,
        refusal != IntakeRefusal::Unauthenticated && refusal != IntakeRefusal::Busy
            ==> failure.recovery is None,
{
}

} // verus!
