//! The decisions of one flow run, from the durable checkpoint to the terminal
//! result.
//!
//! The run itself alternates durable saves, engine calls and child processes.
//! Each of those is a [`FlowAction`]; what came of it is a [`FlowEvent`]; and
//! [`flow_step`] is the whole rule for what happens next.

use vstd::prelude::*;

verus! {

/// Whether an effect only observes or also changes the world.
#[derive(Clone, Copy, Debug, PartialEq, Eq, Structural)]
pub enum EffectKind {
    ReadOnly,
    Stateful,
}

/// The attempt of one step that the engine wants evaluated.
#[derive(Clone, Copy, Debug, PartialEq, Eq, Structural)]
pub struct Effect {
    pub step_index: usize,
    pub kind: EffectKind,
    pub timeout_seconds: u32,
    pub attempt: u16,
}

/// What the flow engine decided after one transition.
#[derive(Clone, Copy, Debug, PartialEq, Eq, Structural)]
pub enum Decision {
    Continue,
    AwaitApproval,
    EvaluateEffect(Effect),
    Execute,
    AwaitResult,
    Reconcile(Effect),
    WaitRetry { not_before_ms: u64 },
    Terminal,
}

/// The kinds of store failure the flow executor tells apart.
#[derive(Clone, Copy, Debug, PartialEq, Eq, Structural)]
pub enum StoreFault {
    StaleLease,
    CorruptFlowAuthorization,
    FlowTerminalOutcomeConflict,
    FlowEffectStartConflict,
    Other,
}

/// Why a command step cannot be executed.
#[derive(Clone, Copy, Debug, PartialEq, Eq, Structural)]
pub enum CommandRejection {
    Unsupported,
    UnsafeWorkingDirectory,
    WorkspaceChanged,
    StatefulConnector,
}

/// Whether the effect may run at this boundary.
#[derive(Clone, Copy, Debug, PartialEq, Eq, Structural)]
pub enum EffectBoundaryAuthorization {
    Allowed,
    Denied,
    Cancelled,
}

/// What classifying the effect gave.
#[derive(Clone, Copy, Debug, PartialEq, Eq, Structural)]
pub enum Preparation {
    Command,
    Connector,
    Rejected(CommandRejection),
}

/// How the pinned workspace compared with the accepted one.
#[derive(Clone, Copy, Debug, PartialEq, Eq, Structural)]
pub enum FingerprintCheck {
    Accepted,
    Changed,
    Cancelled,
    StaleLease,
}

/// How a spawned command ended.
#[derive(Clone, Copy, Debug, PartialEq, Eq, Structural)]
pub enum CommandEnd {
    Completed { success: bool },
    LaunchFailed,
    TimedOut,
    OutputLimit,
    CaptureFailed,
    WorkspaceChanged,
    Cancelled,
    StaleLease,
}

/// How a connector call ended.
#[derive(Clone, Copy, Debug, PartialEq, Eq, Structural)]
pub enum ConnectorEnd {
    Result,
    Cancelled,
    StaleLease,
}

/// What a wait under a live lease ended with.
#[derive(Clone, Copy, Debug, PartialEq, Eq, Structural)]
pub enum LeaseWait {
    Ready,
    Cancelled,
    StaleLease,
}

/// The sentence recorded with an effect result.
#[derive(Clone, Copy, Debug, PartialEq, Eq, Structural)]
pub enum EffectSummary {
    CommandCompleted,
    CommandExited,
    CommandNotStarted,
    WorkspaceChanged,
    CommandTimedOut,
    OutputLimit,
    OutputNotCaptured,
    StatefulConnector,
    UnsupportedCommand,
    UnknownAfterTimeout,
    UnknownAfterCapture,
    UnknownAfterInterruption,
}

/// The result of an effect that the executor itself judges.
#[derive(Clone, Copy, Debug, PartialEq, Eq, Structural)]
pub struct EffectVerdict {
    pub succeeded: bool,
    pub retryable: bool,
    /// The retained command output is attached as evidence.
    pub with_output: bool,
    pub summary: EffectSummary,
}

/// The checkpoint save that is due before the loop starts.
#[derive(Clone, Copy, Debug, PartialEq, Eq, Structural)]
pub enum PendingSave {
    NotDue,
    Initial,
    Upgrade,
}

/// What a flow state that must not occur is called.
#[derive(Clone, Copy, Debug, PartialEq, Eq, Structural)]
pub enum InvalidFlowState {
    OmittedTerminalResult,
    UnexpectedTerminalResult,
    ApprovalInReadOnlyExecutor,
    PreparationWithoutExecution,
    UnownedEffect,
}

/// How the processing of one flow request ends.
#[derive(Clone, Copy, Debug, PartialEq, Eq, Structural)]
pub enum FlowEnd {
    /// The engine's terminal result, with the bytes saved beside it.
    Terminal,
    /// The terminal result that an earlier process already saved.
    CachedTerminal,
    /// The stored operation disagrees with what was authorized.
    AuthorizationMismatch,
    /// The project root is gone or belongs to another project.
    ProjectRootUnavailable,
    /// Another worker owns the request now.
    StaleLease,
    /// The store or the engine failed with this error.
    Fault(StoreFault),
    /// A state that the durable protocol rules out.
    Invalid(InvalidFlowState),
}

/// Work to perform before the next event.
#[derive(Clone, Copy, Debug, PartialEq, Eq, Structural)]
pub enum FlowAction {
    LoadCheckpoint,
    ResumeRun,
    StartRun,
    ValidateResource,
    VerifyProjectRoot,
    SaveSnapshot { expected_revision: u64 },
    PollCancellation,
    /// Ask the engine for its next decision and save the update.
    NextDecision { revision: u64 },
    /// Cancel the run and save the update.
    CancelRun { revision: u64 },
    AuthorizeEffect,
    PrepareEffect { effect: Effect },
    /// Record that the effect starts and save the update.
    StartEffect { revision: u64, effect: Effect },
    /// Record that the effect is denied and save the update.
    DenyEffect { revision: u64, effect: Effect },
    FingerprintWorkspace,
    RunCommand { effect: Effect },
    RunConnector { effect: Effect },
    RetainOutput,
    /// Record this verdict and save the update.
    RecordVerdict { revision: u64, effect: Effect, verdict: EffectVerdict },
    /// Record what the connector call returned and save the update.
    RecordConnectorResult { revision: u64, effect: Effect },
    /// Record that the outcome is unknown and save the update.
    ReconcileUnknown { revision: u64, effect: Effect, summary: EffectSummary, with_output: bool },
    WaitRetry { not_before_ms: u64 },
    Finish(FlowEnd),
    /// Nothing to do: the event does not belong to the current phase.
    Ignore,
}

/// What came of the last action.
#[derive(Clone, Copy, Debug, PartialEq, Eq, Structural)]
pub enum FlowEvent {
    Checkpoint { revision: u64, legacy: bool, cached: bool },
    NoCheckpoint,
    Resumed { terminal: bool },
    Started,
    ResourceValid,
    RootVerified(bool),
    Saved { revision: u64 },
    CancellationPolled(bool),
    /// The update was saved; `encoded` tells whether terminal bytes went with it.
    Persisted { decision: Decision, revision: u64, encoded: bool },
    Authorization(EffectBoundaryAuthorization),
    Prepared(Preparation),
    Fingerprinted(FingerprintCheck),
    CommandEnded(CommandEnd),
    ConnectorEnded(ConnectorEnd),
    OutputRetained,
    RetryWaited(LeaseWait),
    /// The action failed in the store or in the engine.
    Failed(StoreFault),
}

/// What the executor is waiting for.
#[derive(Clone, Copy, Debug, PartialEq, Eq, Structural)]
pub enum FlowPhase {
    Loading,
    Resuming { revision: u64, legacy: bool, cached: bool },
    Starting,
    ValidatingResource { revision: u64, save: PendingSave },
    VerifyingRoot { revision: u64, save: PendingSave },
    Saving,
    Polling { revision: u64 },
    /// An engine update is being saved; its decision comes next.
    Committing,
    Authorizing { revision: u64, effect: Effect },
    Preparing { revision: u64, effect: Effect },
    StartingEffect { effect: Effect, preparation: Preparation },
    Fingerprinting { revision: u64, effect: Effect },
    AuthorizingSpawn { revision: u64, effect: Effect, command: bool },
    RunningCommand { revision: u64, effect: Effect },
    RunningConnector { revision: u64, effect: Effect },
    RetainingVerdict { revision: u64, effect: Effect, verdict: EffectVerdict },
    RetainingUnknown { revision: u64, effect: Effect },
    WaitingRetry { revision: u64 },
    Done,
}

/// The message behind an effect summary.
pub open spec fn effect_summary_text(summary: EffectSummary) -> Seq<char> {
    match summary {
        EffectSummary::CommandCompleted => "command completed successfully"@,
        EffectSummary::CommandExited => "command exited unsuccessfully"@,
        EffectSummary::CommandNotStarted => "command could not be started"@,
        EffectSummary::WorkspaceChanged => "workspace changed while the command was running"@,
        EffectSummary::CommandTimedOut => "command timed out"@,
        EffectSummary::OutputLimit => "command output exceeded the limit"@,
        EffectSummary::OutputNotCaptured => "command output could not be captured exactly"@,
        EffectSummary::StatefulConnector => "stateful connector steps are not yet executable"@,
        EffectSummary::UnsupportedCommand => "command action is unsupported by this daemon"@,
        EffectSummary::UnknownAfterTimeout => {
            "stateful command outcome is unknown after timeout"@
        },
        EffectSummary::UnknownAfterCapture => {
            "stateful command outcome is unknown after output capture failed"@
        },
        EffectSummary::UnknownAfterInterruption => {
            "stateful command outcome is unknown after execution was interrupted"@
        },
    }
}

impl EffectSummary {
    /// The message recorded with the effect.
    pub fn text(self) -> (text: &'static str)
        ensures
            text@ == effect_summary_text(self),
    {
        match self {
            EffectSummary::CommandCompleted => "command completed successfully",
            EffectSummary::CommandExited => "command exited unsuccessfully",
            EffectSummary::CommandNotStarted => "command could not be started",
            EffectSummary::WorkspaceChanged => "workspace changed while the command was running",
            EffectSummary::CommandTimedOut => "command timed out",
            EffectSummary::OutputLimit => "command output exceeded the limit",
            EffectSummary::OutputNotCaptured => "command output could not be captured exactly",
            EffectSummary::StatefulConnector => "stateful connector steps are not yet executable",
            EffectSummary::UnsupportedCommand => "command action is unsupported by this daemon",
            EffectSummary::UnknownAfterTimeout => {
                "stateful command outcome is unknown after timeout"
            },
            EffectSummary::UnknownAfterCapture => {
                "stateful command outcome is unknown after output capture failed"
            },
            EffectSummary::UnknownAfterInterruption => {
                "stateful command outcome is unknown after execution was interrupted"
            },
        }
    }
}

/// The message behind an invalid flow state.
pub open spec fn invalid_flow_state_text(state: InvalidFlowState) -> Seq<char> {
    match state {
        InvalidFlowState::OmittedTerminalResult => {
            "terminal flow checkpoint omitted its encoded result"@
        },
        InvalidFlowState::UnexpectedTerminalResult => {
            "non-terminal flow checkpoint contains a terminal result"@
        },
        InvalidFlowState::ApprovalInReadOnlyExecutor => {
            "approval-required flow reached a read-only executor"@
        },
        InvalidFlowState::PreparationWithoutExecution => {
            "flow effect preparation did not yield execution"@
        },
        InvalidFlowState::UnownedEffect => {
            "flow executor observed an unowned in-flight effect"@
        },
    }
}

impl InvalidFlowState {
    pub fn text(self) -> (text: &'static str)
        ensures
            text@ == invalid_flow_state_text(self),
    {
        match self {
            InvalidFlowState::OmittedTerminalResult => {
                "terminal flow checkpoint omitted its encoded result"
            },
            InvalidFlowState::UnexpectedTerminalResult => {
                "non-terminal flow checkpoint contains a terminal result"
            },
            InvalidFlowState::ApprovalInReadOnlyExecutor => {
                "approval-required flow reached a read-only executor"
            },
            InvalidFlowState::PreparationWithoutExecution => {
                "flow effect preparation did not yield execution"
            },
            InvalidFlowState::UnownedEffect => {
                "flow executor observed an unowned in-flight effect"
            },
        }
    }
}

pub open spec fn finished(end: FlowEnd) -> (FlowPhase, FlowAction) {
    (FlowPhase::Done, FlowAction::Finish(end))
}

/// Recording a verdict that carries no command output.
pub open spec fn recorded(
    revision: u64,
    effect: Effect,
    succeeded: bool,
    summary: EffectSummary,
) -> (FlowPhase, FlowAction) {
    (
        FlowPhase::Committing,
        FlowAction::RecordVerdict {
            revision,
            effect,
            verdict: EffectVerdict { succeeded, retryable: false, with_output: false, summary },
        },
    )
}

pub open spec fn cancelling(revision: u64) -> (FlowPhase, FlowAction) {
    (FlowPhase::Committing, FlowAction::CancelRun { revision })
}

/// What follows once the project root is verified.
pub open spec fn after_root(revision: u64, save: PendingSave) -> (FlowPhase, FlowAction) {
    match save {
        PendingSave::NotDue => (FlowPhase::Polling { revision }, FlowAction::PollCancellation),
        PendingSave::Initial => (
            FlowPhase::Saving,
            FlowAction::SaveSnapshot { expected_revision: 0 },
        ),
        PendingSave::Upgrade => (
            FlowPhase::Saving,
            FlowAction::SaveSnapshot { expected_revision: revision },
        ),
    }
}

/// What follows a saved engine decision.
pub open spec fn after_decision(decision: Decision, revision: u64, encoded: bool) -> (
    FlowPhase,
    FlowAction,
) {
    match decision {
        Decision::Continue => (FlowPhase::Polling { revision }, FlowAction::PollCancellation),
        Decision::AwaitApproval => finished(
            FlowEnd::Invalid(InvalidFlowState::ApprovalInReadOnlyExecutor),
        ),
        Decision::EvaluateEffect(effect) => (
            FlowPhase::Authorizing { revision, effect },
            FlowAction::AuthorizeEffect,
        ),
        Decision::Execute | Decision::AwaitResult => finished(
            FlowEnd::Invalid(InvalidFlowState::UnownedEffect),
        ),
        Decision::Reconcile(effect) => (
            FlowPhase::Committing,
            FlowAction::ReconcileUnknown {
                revision,
                effect,
                summary: EffectSummary::UnknownAfterInterruption,
                with_output: false,
            },
        ),
        Decision::WaitRetry { not_before_ms } => (
            FlowPhase::WaitingRetry { revision },
            FlowAction::WaitRetry { not_before_ms },
        ),
        Decision::Terminal => if encoded {
            finished(FlowEnd::Terminal)
        } else {
            finished(FlowEnd::Invalid(InvalidFlowState::OmittedTerminalResult))
        },
    }
}

/// What follows once the start of the effect is durable.
pub open spec fn after_start(
    effect: Effect,
    preparation: Preparation,
    decision: Decision,
    revision: u64,
    encoded: bool,
) -> (FlowPhase, FlowAction) {
    if decision == Decision::Execute {
        match preparation {
            Preparation::Command => (
                FlowPhase::Fingerprinting { revision, effect },
                FlowAction::FingerprintWorkspace,
            ),
            Preparation::Connector => (
                FlowPhase::AuthorizingSpawn { revision, effect, command: false },
                FlowAction::AuthorizeEffect,
            ),
            Preparation::Rejected(CommandRejection::StatefulConnector) => recorded(
                revision,
                effect,
                false,
                EffectSummary::StatefulConnector,
            ),
            Preparation::Rejected(_) => recorded(
                revision,
                effect,
                false,
                EffectSummary::UnsupportedCommand,
            ),
        }
    } else if decision == Decision::Terminal && encoded {
        finished(FlowEnd::Terminal)
    } else {
        finished(FlowEnd::Invalid(InvalidFlowState::PreparationWithoutExecution))
    }
}

/// What follows a command that ended.
pub open spec fn after_command(revision: u64, effect: Effect, end: CommandEnd) -> (
    FlowPhase,
    FlowAction,
) {
    let stateful = effect.kind == EffectKind::Stateful;
    match end {
        CommandEnd::Completed { success } => (
            FlowPhase::RetainingVerdict {
                revision,
                effect,
                verdict: EffectVerdict {
                    succeeded: success,
                    retryable: !success && !stateful,
                    with_output: true,
                    summary: if success {
                        EffectSummary::CommandCompleted
                    } else {
                        EffectSummary::CommandExited
                    },
                },
            },
            FlowAction::RetainOutput,
        ),
        CommandEnd::LaunchFailed => recorded(
            revision,
            effect,
            false,
            EffectSummary::CommandNotStarted,
        ),
        CommandEnd::WorkspaceChanged => recorded(
            revision,
            effect,
            false,
            EffectSummary::WorkspaceChanged,
        ),
        CommandEnd::Cancelled => cancelling(revision),
        CommandEnd::StaleLease => finished(FlowEnd::StaleLease),
        CommandEnd::TimedOut => if stateful {
            (FlowPhase::RetainingUnknown { revision, effect }, FlowAction::RetainOutput)
        } else {
            (
                FlowPhase::RetainingVerdict {
                    revision,
                    effect,
                    verdict: EffectVerdict {
                        succeeded: false,
                        retryable: true,
                        with_output: true,
                        summary: EffectSummary::CommandTimedOut,
                    },
                },
                FlowAction::RetainOutput,
            )
        },
        CommandEnd::OutputLimit | CommandEnd::CaptureFailed => if stateful {
            (
                FlowPhase::Committing,
                FlowAction::ReconcileUnknown {
                    revision,
                    effect,
                    summary: EffectSummary::UnknownAfterCapture,
                    with_output: false,
                },
            )
        } else if end == CommandEnd::OutputLimit {
            recorded(revision, effect, false, EffectSummary::OutputLimit)
        } else {
            recorded(revision, effect, false, EffectSummary::OutputNotCaptured)
        },
    }
}

/// The failures that end a run quietly instead of as an error.
pub open spec fn after_failure(phase: FlowPhase, fault: StoreFault) -> FlowEnd {
    match (phase, fault) {
        (FlowPhase::Loading, StoreFault::StaleLease) => FlowEnd::StaleLease,
        (FlowPhase::ValidatingResource { .. }, StoreFault::StaleLease) => FlowEnd::StaleLease,
        (FlowPhase::Saving, StoreFault::StaleLease) => FlowEnd::StaleLease,
        (FlowPhase::ValidatingResource { .. }, StoreFault::CorruptFlowAuthorization) => {
            FlowEnd::AuthorizationMismatch
        },
        _ => FlowEnd::Fault(fault),
    }
}

/// The rule of the flow executor: from phase and event to next phase and action.
pub open spec fn spec_flow_step(phase: FlowPhase, event: FlowEvent) -> (FlowPhase, FlowAction) {
    match (phase, event) {
        (FlowPhase::Done, _) => (phase, FlowAction::Ignore),
        (_, FlowEvent::Failed(fault)) => finished(after_failure(phase, fault)),
        (FlowPhase::Loading, FlowEvent::Checkpoint { revision, legacy, cached }) => (
            FlowPhase::Resuming { revision, legacy, cached },
            FlowAction::ResumeRun,
        ),
        (FlowPhase::Loading, FlowEvent::NoCheckpoint) => (
            FlowPhase::Starting,
            FlowAction::StartRun,
        ),
        (FlowPhase::Resuming { revision, legacy, cached }, FlowEvent::Resumed { terminal }) => {
            if terminal {
                if cached {
                    finished(FlowEnd::CachedTerminal)
                } else {
                    finished(FlowEnd::Invalid(InvalidFlowState::OmittedTerminalResult))
                }
            } else if cached {
                finished(FlowEnd::Invalid(InvalidFlowState::UnexpectedTerminalResult))
            } else {
                (
                    FlowPhase::ValidatingResource {
                        revision,
                        save: if legacy {
                            PendingSave::Upgrade
                        } else {
                            PendingSave::NotDue
                        },
                    },
                    FlowAction::ValidateResource,
                )
            }
        },
        (FlowPhase::Starting, FlowEvent::Started) => (
            FlowPhase::ValidatingResource { revision: 0, save: PendingSave::Initial },
            FlowAction::ValidateResource,
        ),
        (FlowPhase::ValidatingResource { revision, save }, FlowEvent::ResourceValid) => (
            FlowPhase::VerifyingRoot { revision, save },
            FlowAction::VerifyProjectRoot,
        ),
        (FlowPhase::VerifyingRoot { revision, save }, FlowEvent::RootVerified(verified)) => {
            if verified {
                after_root(revision, save)
            } else {
                finished(FlowEnd::ProjectRootUnavailable)
            }
        },
        (FlowPhase::Saving, FlowEvent::Saved { revision }) => (
            FlowPhase::Polling { revision },
            FlowAction::PollCancellation,
        ),
        (FlowPhase::Polling { revision }, FlowEvent::CancellationPolled(cancelled)) => {
            if cancelled {
                cancelling(revision)
            } else {
                (FlowPhase::Committing, FlowAction::NextDecision { revision })
            }
        },
        (FlowPhase::Committing, FlowEvent::Persisted { decision, revision, encoded }) => {
            after_decision(decision, revision, encoded)
        },
        (FlowPhase::Authorizing { revision, effect }, FlowEvent::Authorization(authorization)) => {
            match authorization {
                EffectBoundaryAuthorization::Allowed => (
                    FlowPhase::Preparing { revision, effect },
                    FlowAction::PrepareEffect { effect },
                ),
                EffectBoundaryAuthorization::Denied => (
                    FlowPhase::Committing,
                    FlowAction::DenyEffect { revision, effect },
                ),
                EffectBoundaryAuthorization::Cancelled => cancelling(revision),
            }
        },
        (FlowPhase::Preparing { revision, effect }, FlowEvent::Prepared(preparation)) => (
            FlowPhase::StartingEffect { effect, preparation },
            FlowAction::StartEffect { revision, effect },
        ),
        (
            FlowPhase::StartingEffect { effect, preparation },
            FlowEvent::Persisted { decision, revision, encoded },
        ) => after_start(effect, preparation, decision, revision, encoded),
        (FlowPhase::Fingerprinting { revision, effect }, FlowEvent::Fingerprinted(check)) => {
            match check {
                FingerprintCheck::Accepted => (
                    FlowPhase::AuthorizingSpawn { revision, effect, command: true },
                    FlowAction::AuthorizeEffect,
                ),
                FingerprintCheck::Changed => recorded(
                    revision,
                    effect,
                    false,
                    EffectSummary::UnsupportedCommand,
                ),
                FingerprintCheck::Cancelled => cancelling(revision),
                FingerprintCheck::StaleLease => finished(FlowEnd::StaleLease),
            }
        },
        (
            FlowPhase::AuthorizingSpawn { revision, effect, command },
            FlowEvent::Authorization(authorization),
        ) => match authorization {
            EffectBoundaryAuthorization::Allowed => if command {
                (
                    FlowPhase::RunningCommand { revision, effect },
                    FlowAction::RunCommand { effect },
                )
            } else {
                (
                    FlowPhase::RunningConnector { revision, effect },
                    FlowAction::RunConnector { effect },
                )
            },
            EffectBoundaryAuthorization::Denied => (
                FlowPhase::Committing,
                FlowAction::DenyEffect { revision, effect },
            ),
            EffectBoundaryAuthorization::Cancelled => cancelling(revision),
        },
        (FlowPhase::RunningCommand { revision, effect }, FlowEvent::CommandEnded(end)) => {
            after_command(revision, effect, end)
        },
        (FlowPhase::RunningConnector { revision, effect }, FlowEvent::ConnectorEnded(end)) => {
            match end {
                ConnectorEnd::Result => (
                    FlowPhase::Committing,
                    FlowAction::RecordConnectorResult { revision, effect },
                ),
                ConnectorEnd::Cancelled => cancelling(revision),
                ConnectorEnd::StaleLease => finished(FlowEnd::StaleLease),
            }
        },
        (
            FlowPhase::RetainingVerdict { revision, effect, verdict },
            FlowEvent::OutputRetained,
        ) => (FlowPhase::Committing, FlowAction::RecordVerdict { revision, effect, verdict }),
        (FlowPhase::RetainingUnknown { revision, effect }, FlowEvent::OutputRetained) => (
            FlowPhase::Committing,
            FlowAction::ReconcileUnknown {
                revision,
                effect,
                summary: EffectSummary::UnknownAfterTimeout,
                with_output: true,
            },
        ),
        (FlowPhase::WaitingRetry { revision }, FlowEvent::RetryWaited(wait)) => match wait {
            LeaseWait::Ready => (FlowPhase::Polling { revision }, FlowAction::PollCancellation),
            LeaseWait::Cancelled => cancelling(revision),
            LeaseWait::StaleLease => finished(FlowEnd::StaleLease),
        },
        _ => (phase, FlowAction::Ignore),
    }
}


fn finish(end: FlowEnd) -> (next: (FlowPhase, FlowAction))
    ensures
        next == finished(end),
{
    (FlowPhase::Done, FlowAction::Finish(end))
}

fn record(revision: u64, effect: Effect, summary: EffectSummary) -> (next: (FlowPhase, FlowAction))
    ensures
        next == recorded(revision, effect, false, summary),
{
    (
        FlowPhase::Committing,
        FlowAction::RecordVerdict {
            revision,
            effect,
            verdict: EffectVerdict {
                succeeded: false,
                retryable: false,
                with_output: false,
                summary,
            },
        },
    )
}

fn cancel(revision: u64) -> (next: (FlowPhase, FlowAction))
    ensures
        next == cancelling(revision),
{
    (FlowPhase::Committing, FlowAction::CancelRun { revision })
}

fn poll(revision: u64) -> (next: (FlowPhase, FlowAction))
    ensures
        next == (FlowPhase::Polling { revision }, FlowAction::PollCancellation),
{
    (FlowPhase::Polling { revision }, FlowAction::PollCancellation)
}

fn step_after_decision(decision: Decision, revision: u64, encoded: bool) -> (next: (
    FlowPhase,
    FlowAction,
))
    ensures
        next == after_decision(decision, revision, encoded),
{
    match decision {
        Decision::Continue => poll(revision),
        Decision::AwaitApproval => finish(
            FlowEnd::Invalid(InvalidFlowState::ApprovalInReadOnlyExecutor),
        ),
        Decision::EvaluateEffect(effect) => (
            FlowPhase::Authorizing { revision, effect },
            FlowAction::AuthorizeEffect,
        ),
        Decision::Execute | Decision::AwaitResult => finish(
            FlowEnd::Invalid(InvalidFlowState::UnownedEffect),
        ),
        Decision::Reconcile(effect) => (
            FlowPhase::Committing,
            FlowAction::ReconcileUnknown {
                revision,
                effect,
                summary: EffectSummary::UnknownAfterInterruption,
                with_output: false,
            },
        ),
        Decision::WaitRetry { not_before_ms } => (
            FlowPhase::WaitingRetry { revision },
            FlowAction::WaitRetry { not_before_ms },
        ),
        Decision::Terminal => {
            if encoded {
                finish(FlowEnd::Terminal)
            } else {
                finish(FlowEnd::Invalid(InvalidFlowState::OmittedTerminalResult))
            }
        },
    }
}

fn step_after_start(
    effect: Effect,
    preparation: Preparation,
    decision: Decision,
    revision: u64,
    encoded: bool,
) -> (next: (FlowPhase, FlowAction))
    ensures
        next == after_start(effect, preparation, decision, revision, encoded),
{
    match decision {
        Decision::Execute => match preparation {
            Preparation::Command => (
                FlowPhase::Fingerprinting { revision, effect },
                FlowAction::FingerprintWorkspace,
            ),
            Preparation::Connector => (
                FlowPhase::AuthorizingSpawn { revision, effect, command: false },
                FlowAction::AuthorizeEffect,
            ),
            Preparation::Rejected(rejection) => {
                if rejection == CommandRejection::StatefulConnector {
                    record(revision, effect, EffectSummary::StatefulConnector)
                } else {
                    record(revision, effect, EffectSummary::UnsupportedCommand)
                }
            },
        },
        Decision::Terminal if encoded => finish(FlowEnd::Terminal),
        _ => finish(FlowEnd::Invalid(InvalidFlowState::PreparationWithoutExecution)),
    }
}

fn step_after_command(revision: u64, effect: Effect, end: CommandEnd) -> (next: (
    FlowPhase,
    FlowAction,
))
    ensures
        next == after_command(revision, effect, end),
{
    let stateful = effect.kind == EffectKind::Stateful;
    match end {
        CommandEnd::Completed { success } => {
            let verdict = EffectVerdict {
                succeeded: success,
                retryable: !success && !stateful,
                with_output: true,
                summary: if success {
                    EffectSummary::CommandCompleted
                } else {
                    EffectSummary::CommandExited
                },
            };
            (
                FlowPhase::RetainingVerdict { revision, effect, verdict },
                FlowAction::RetainOutput,
            )
        },
        CommandEnd::LaunchFailed => record(revision, effect, EffectSummary::CommandNotStarted),
        CommandEnd::WorkspaceChanged => record(revision, effect, EffectSummary::WorkspaceChanged),
        CommandEnd::Cancelled => cancel(revision),
        CommandEnd::StaleLease => finish(FlowEnd::StaleLease),
        CommandEnd::TimedOut => {
            if stateful {
                (FlowPhase::RetainingUnknown { revision, effect }, FlowAction::RetainOutput)
            } else {
                let verdict = EffectVerdict {
                    succeeded: false,
                    retryable: true,
                    with_output: true,
                    summary: EffectSummary::CommandTimedOut,
                };
                (
                    FlowPhase::RetainingVerdict { revision, effect, verdict },
                    FlowAction::RetainOutput,
                )
            }
        },
        CommandEnd::OutputLimit | CommandEnd::CaptureFailed => {
            if stateful {
                (
                    FlowPhase::Committing,
                    FlowAction::ReconcileUnknown {
                        revision,
                        effect,
                        summary: EffectSummary::UnknownAfterCapture,
                        with_output: false,
                    },
                )
            } else if end == CommandEnd::OutputLimit {
                record(revision, effect, EffectSummary::OutputLimit)
            } else {
                record(revision, effect, EffectSummary::OutputNotCaptured)
            }
        },
    }
}

fn step_after_failure(phase: FlowPhase, fault: StoreFault) -> (end: FlowEnd)
    ensures
        end == after_failure(phase, fault),
{
    match (phase, fault) {
        (FlowPhase::Loading, StoreFault::StaleLease) => FlowEnd::StaleLease,
        (FlowPhase::ValidatingResource { .. }, StoreFault::StaleLease) => FlowEnd::StaleLease,
        (FlowPhase::Saving, StoreFault::StaleLease) => FlowEnd::StaleLease,
        (FlowPhase::ValidatingResource { .. }, StoreFault::CorruptFlowAuthorization) => {
            FlowEnd::AuthorizationMismatch
        },
        _ => FlowEnd::Fault(fault),
    }
}

/// The first phase of a flow run and the action that it starts with.
pub fn flow_start() -> (next: (FlowPhase, FlowAction))
    ensures
        next == (FlowPhase::Loading, FlowAction::LoadCheckpoint),
{
    (FlowPhase::Loading, FlowAction::LoadCheckpoint)
}

/// Decides what follows `event` in `phase`.
pub fn flow_step(phase: FlowPhase, event: FlowEvent) -> (next: (FlowPhase, FlowAction))
    ensures
        next == spec_flow_step(phase, event),
{
    match (phase, event) {
        (FlowPhase::Done, _) => (phase, FlowAction::Ignore),
        (_, FlowEvent::Failed(fault)) => finish(step_after_failure(phase, fault)),
        (FlowPhase::Loading, FlowEvent::Checkpoint { revision, legacy, cached }) => (
            FlowPhase::Resuming { revision, legacy, cached },
            FlowAction::ResumeRun,
        ),
        (FlowPhase::Loading, FlowEvent::NoCheckpoint) => (
            FlowPhase::Starting,
            FlowAction::StartRun,
        ),
        (FlowPhase::Resuming { revision, legacy, cached }, FlowEvent::Resumed { terminal }) => {
            if terminal && cached {
                finish(FlowEnd::CachedTerminal)
            } else if terminal {
                finish(FlowEnd::Invalid(InvalidFlowState::OmittedTerminalResult))
            } else if cached {
                finish(FlowEnd::Invalid(InvalidFlowState::UnexpectedTerminalResult))
            } else {
                let save = if legacy {
                    PendingSave::Upgrade
                } else {
                    PendingSave::NotDue
                };
                (FlowPhase::ValidatingResource { revision, save }, FlowAction::ValidateResource)
            }
        },
        (FlowPhase::Starting, FlowEvent::Started) => (
            FlowPhase::ValidatingResource { revision: 0, save: PendingSave::Initial },
            FlowAction::ValidateResource,
        ),
        (FlowPhase::ValidatingResource { revision, save }, FlowEvent::ResourceValid) => (
            FlowPhase::VerifyingRoot { revision, save },
            FlowAction::VerifyProjectRoot,
        ),
        (FlowPhase::VerifyingRoot { revision, save }, FlowEvent::RootVerified(verified)) => {
            if !verified {
                finish(FlowEnd::ProjectRootUnavailable)
            } else {
                match save {
                    PendingSave::NotDue => poll(revision),
                    PendingSave::Initial => (
                        FlowPhase::Saving,
                        FlowAction::SaveSnapshot { expected_revision: 0 },
                    ),
                    PendingSave::Upgrade => (
                        FlowPhase::Saving,
                        FlowAction::SaveSnapshot { expected_revision: revision },
                    ),
                }
            }
        },
        (FlowPhase::Saving, FlowEvent::Saved { revision }) => poll(revision),
        (FlowPhase::Polling { revision }, FlowEvent::CancellationPolled(cancelled)) => {
            if cancelled {
                cancel(revision)
            } else {
                (FlowPhase::Committing, FlowAction::NextDecision { revision })
            }
        },
        (FlowPhase::Committing, FlowEvent::Persisted { decision, revision, encoded }) => {
            step_after_decision(decision, revision, encoded)
        },
        (FlowPhase::Authorizing { revision, effect }, FlowEvent::Authorization(authorization)) => {
            match authorization {
                EffectBoundaryAuthorization::Allowed => (
                    FlowPhase::Preparing { revision, effect },
                    FlowAction::PrepareEffect { effect },
                ),
                EffectBoundaryAuthorization::Denied => (
                    FlowPhase::Committing,
                    FlowAction::DenyEffect { revision, effect },
                ),
                EffectBoundaryAuthorization::Cancelled => cancel(revision),
            }
        },
        (FlowPhase::Preparing { revision, effect }, FlowEvent::Prepared(preparation)) => (
            FlowPhase::StartingEffect { effect, preparation },
            FlowAction::StartEffect { revision, effect },
        ),
        (
            FlowPhase::StartingEffect { effect, preparation },
            FlowEvent::Persisted { decision, revision, encoded },
        ) => step_after_start(effect, preparation, decision, revision, encoded),
        (FlowPhase::Fingerprinting { revision, effect }, FlowEvent::Fingerprinted(check)) => {
            match check {
                FingerprintCheck::Accepted => (
                    FlowPhase::AuthorizingSpawn { revision, effect, command: true },
                    FlowAction::AuthorizeEffect,
                ),
                FingerprintCheck::Changed => record(
                    revision,
                    effect,
                    EffectSummary::UnsupportedCommand,
                ),
                FingerprintCheck::Cancelled => cancel(revision),
                FingerprintCheck::StaleLease => finish(FlowEnd::StaleLease),
            }
        },
        (
            FlowPhase::AuthorizingSpawn { revision, effect, command },
            FlowEvent::Authorization(authorization),
        ) => match authorization {
            EffectBoundaryAuthorization::Allowed => {
                if command {
                    (
                        FlowPhase::RunningCommand { revision, effect },
                        FlowAction::RunCommand { effect },
                    )
                } else {
                    (
                        FlowPhase::RunningConnector { revision, effect },
                        FlowAction::RunConnector { effect },
                    )
                }
            },
            EffectBoundaryAuthorization::Denied => (
                FlowPhase::Committing,
                FlowAction::DenyEffect { revision, effect },
            ),
            EffectBoundaryAuthorization::Cancelled => cancel(revision),
        },
        (FlowPhase::RunningCommand { revision, effect }, FlowEvent::CommandEnded(end)) => {
            step_after_command(revision, effect, end)
        },
        (FlowPhase::RunningConnector { revision, effect }, FlowEvent::ConnectorEnded(end)) => {
            match end {
                ConnectorEnd::Result => (
                    FlowPhase::Committing,
                    FlowAction::RecordConnectorResult { revision, effect },
                ),
                ConnectorEnd::Cancelled => cancel(revision),
                ConnectorEnd::StaleLease => finish(FlowEnd::StaleLease),
            }
        },
        (
            FlowPhase::RetainingVerdict { revision, effect, verdict },
            FlowEvent::OutputRetained,
        ) => (FlowPhase::Committing, FlowAction::RecordVerdict { revision, effect, verdict }),
        (FlowPhase::RetainingUnknown { revision, effect }, FlowEvent::OutputRetained) => (
            FlowPhase::Committing,
            FlowAction::ReconcileUnknown {
                revision,
                effect,
                summary: EffectSummary::UnknownAfterTimeout,
                with_output: true,
            },
        ),
        (FlowPhase::WaitingRetry { revision }, FlowEvent::RetryWaited(wait)) => match wait {
            LeaseWait::Ready => poll(revision),
            LeaseWait::Cancelled => cancel(revision),
            LeaseWait::StaleLease => finish(FlowEnd::StaleLease),
        },
        _ => (phase, FlowAction::Ignore),
    }
}

/// Each way in which an effect can end has its own words.
pub proof fn law_summaries_have_their_own_words(summary: EffectSummary)
    ensures
        effect_summary_text(summary) == "command completed successfully"@ <==> summary == EffectSummary::CommandCompleted,
        effect_summary_text(summary) == "command exited unsuccessfully"@ <==> summary == EffectSummary::CommandExited,
        effect_summary_text(summary) == "command could not be started"@ <==> summary == EffectSummary::CommandNotStarted,
        effect_summary_text(summary) == "workspace changed while the command was running"@ <==> summary == EffectSummary::WorkspaceChanged,
        effect_summary_text(summary) == "command timed out"@ <==> summary == EffectSummary::CommandTimedOut,
        effect_summary_text(summary) == "command output exceeded the limit"@ <==> summary == EffectSummary::OutputLimit,
        effect_summary_text(summary) == "command output could not be captured exactly"@ <==> summary == EffectSummary::OutputNotCaptured,
        effect_summary_text(summary) == "stateful connector steps are not yet executable"@ <==> summary == EffectSummary::StatefulConnector,
        effect_summary_text(summary) == "command action is unsupported by this daemon"@ <==> summary == EffectSummary::UnsupportedCommand,
        effect_summary_text(summary) == "stateful command outcome is unknown after timeout"@ <==> summary == EffectSummary::UnknownAfterTimeout,
        effect_summary_text(summary) == "stateful command outcome is unknown after output capture failed"@ <==> summary == EffectSummary::UnknownAfterCapture,
        effect_summary_text(summary) == "stateful command outcome is unknown after execution was interrupted"@ <==> summary == EffectSummary::UnknownAfterInterruption,
{
    reveal_strlit("command completed successfully");
    reveal_strlit("command exited unsuccessfully");
    reveal_strlit("command could not be started");
    reveal_strlit("workspace changed while the command was running");
    reveal_strlit("command timed out");
    reveal_strlit("command output exceeded the limit");
    reveal_strlit("command output could not be captured exactly");
    reveal_strlit("stateful connector steps are not yet executable");
    reveal_strlit("command action is unsupported by this daemon");
    reveal_strlit("stateful command outcome is unknown after timeout");
    reveal_strlit("stateful command outcome is unknown after output capture failed");
    reveal_strlit("stateful command outcome is unknown after execution was interrupted");
    assert("command completed successfully"@.len() == 30);
    assert("command exited unsuccessfully"@.len() == 29);
    assert("command could not be started"@.len() == 28);
    assert("workspace changed while the command was running"@.len() == 47);
    assert("command timed out"@.len() == 17);
    assert("command output exceeded the limit"@.len() == 33);
    assert("command output could not be captured exactly"@.len() == 44);
    assert("stateful connector steps are not yet executable"@.len() == 47);
    assert("command action is unsupported by this daemon"@.len() == 44);
    assert("stateful command outcome is unknown after timeout"@.len() == 49);
    assert("stateful command outcome is unknown after output capture failed"@.len() == 63);
    assert("stateful command outcome is unknown after execution was interrupted"@.len() == 67);
    assert("workspace changed while the command was running"@[0] == 'w' && "stateful connector steps are not yet executable"@[0] == 's');
    assert("command output could not be captured exactly"@[8] == 'o' && "command action is unsupported by this daemon"@[8] == 'a');
}

/// Each state that a flow cannot be in has its own words.
pub proof fn law_invalid_states_have_their_own_words(state: InvalidFlowState)
    ensures
        invalid_flow_state_text(state) == "terminal flow checkpoint omitted its encoded result"@ <==> state == InvalidFlowState::OmittedTerminalResult,
        invalid_flow_state_text(state) == "non-terminal flow checkpoint contains a terminal result"@ <==> state == InvalidFlowState::UnexpectedTerminalResult,
        invalid_flow_state_text(state) == "approval-required flow reached a read-only executor"@ <==> state == InvalidFlowState::ApprovalInReadOnlyExecutor,
        invalid_flow_state_text(state) == "flow effect preparation did not yield execution"@ <==> state == InvalidFlowState::PreparationWithoutExecution,
        invalid_flow_state_text(state) == "flow executor observed an unowned in-flight effect"@ <==> state == InvalidFlowState::UnownedEffect,
{
    reveal_strlit("terminal flow checkpoint omitted its encoded result");
    reveal_strlit("non-terminal flow checkpoint contains a terminal result");
    reveal_strlit("approval-required flow reached a read-only executor");
    reveal_strlit("flow effect preparation did not yield execution");
    reveal_strlit("flow executor observed an unowned in-flight effect");
    assert("terminal flow checkpoint omitted its encoded result"@.len() == 51);
    assert("non-terminal flow checkpoint contains a terminal result"@.len() == 55);
    assert("approval-required flow reached a read-only executor"@.len() == 51);
    assert("flow effect preparation did not yield execution"@.len() == 47);
    assert("flow executor observed an unowned in-flight effect"@.len() == 50);
    assert("terminal flow checkpoint omitted its encoded result"@[0] == 't' && "approval-required flow reached a read-only executor"@[0] == 'a');
}

} // verus!
