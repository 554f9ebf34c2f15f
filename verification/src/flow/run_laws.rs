//! What the executor does about each answer that it gets.
//!
//! The laws speak of what was asked, what came back and what is done next; none
//! of them speaks of the executor's phases.

use vstd::prelude::*;

use super::laws::{flow_run, reported_revision, reports_cancellation};
use super::machine::{
    CommandEnd, CommandRejection, ConnectorEnd, Decision, Effect, EffectBoundaryAuthorization,
    EffectKind, EffectSummary, FingerprintCheck, FlowAction, FlowEnd, FlowEvent, FlowPhase,
    InvalidFlowState, LeaseWait, Preparation, StoreFault, spec_flow_step,
};

verus! {

/// The action hands an update of the engine to the store.
pub open spec fn commits(action: FlowAction) -> bool {
    ||| action is NextDecision
    ||| action is CancelRun
    ||| action is DenyEffect
    ||| action is RecordVerdict
    ||| action is RecordConnectorResult
    ||| action is ReconcileUnknown
}

/// The event is an answer to the action. Everything but the end can fail.
pub open spec fn fits(action: FlowAction, event: FlowEvent) -> bool {
    match event {
        FlowEvent::Checkpoint { .. } => action == FlowAction::LoadCheckpoint,
        FlowEvent::NoCheckpoint => action == FlowAction::LoadCheckpoint,
        FlowEvent::Resumed { .. } => action == FlowAction::ResumeRun,
        FlowEvent::Started => action == FlowAction::StartRun,
        FlowEvent::ResourceValid => action == FlowAction::ValidateResource,
        FlowEvent::RootVerified(_) => action == FlowAction::VerifyProjectRoot,
        FlowEvent::Saved { .. } => action is SaveSnapshot,
        FlowEvent::CancellationPolled(_) => action == FlowAction::PollCancellation,
        FlowEvent::Persisted { .. } => commits(action) || action is StartEffect,
        FlowEvent::Authorization(_) => action == FlowAction::AuthorizeEffect,
        FlowEvent::Prepared(_) => action is PrepareEffect,
        FlowEvent::Fingerprinted(_) => action == FlowAction::FingerprintWorkspace,
        FlowEvent::CommandEnded(_) => action is RunCommand,
        FlowEvent::ConnectorEnded(_) => action is RunConnector,
        FlowEvent::OutputRetained => action == FlowAction::RetainOutput,
        FlowEvent::RetryWaited(_) => action is WaitRetry,
        FlowEvent::Failed(_) => !(action is Finish) && action != FlowAction::Ignore,
    }
}

/// Every event answers what was asked before it.
pub open spec fn told(events: Seq<FlowEvent>) -> bool
    decreases events.len(),
{
    events.len() == 0 || (told(events.drop_last()) && fits(
        flow_run(events.drop_last()).1,
        events.last(),
    ))
}

/// The effect that the engine last wanted evaluated.
pub open spec fn effect_at(events: Seq<FlowEvent>) -> Option<Effect>
    decreases events.len(),
{
    if events.len() == 0 {
        None
    } else {
        match events.last() {
            FlowEvent::Persisted { decision: Decision::EvaluateEffect(effect), .. } => Some(effect),
            _ => effect_at(events.drop_last()),
        }
    }
}

/// What was asked before the last event.
pub open spec fn asked(events: Seq<FlowEvent>) -> FlowAction {
    flow_run(events.drop_last()).1
}

/// The event before the last one.
pub open spec fn previous(events: Seq<FlowEvent>) -> FlowEvent {
    events[events.len() - 2]
}

spec fn waits_for(phase: FlowPhase, action: FlowAction) -> bool {
    match phase {
        FlowPhase::Loading => action == FlowAction::LoadCheckpoint,
        FlowPhase::Resuming { .. } => action == FlowAction::ResumeRun,
        FlowPhase::Starting => action == FlowAction::StartRun,
        FlowPhase::ValidatingResource { .. } => action == FlowAction::ValidateResource,
        FlowPhase::VerifyingRoot { .. } => action == FlowAction::VerifyProjectRoot,
        FlowPhase::Saving => action is SaveSnapshot,
        FlowPhase::Polling { .. } => action == FlowAction::PollCancellation,
        FlowPhase::Committing => commits(action),
        FlowPhase::Authorizing { .. } => action == FlowAction::AuthorizeEffect,
        FlowPhase::Preparing { .. } => action is PrepareEffect,
        FlowPhase::StartingEffect { .. } => action is StartEffect,
        FlowPhase::Fingerprinting { .. } => action == FlowAction::FingerprintWorkspace,
        FlowPhase::AuthorizingSpawn { .. } => action == FlowAction::AuthorizeEffect,
        FlowPhase::RunningCommand { .. } => action is RunCommand,
        FlowPhase::RunningConnector { .. } => action is RunConnector,
        FlowPhase::RetainingVerdict { .. } => action == FlowAction::RetainOutput,
        FlowPhase::RetainingUnknown { .. } => action == FlowAction::RetainOutput,
        FlowPhase::WaitingRetry { .. } => action is WaitRetry,
        FlowPhase::Done => action is Finish,
    }
}

spec fn effect_of(phase: FlowPhase) -> Option<Effect> {
    match phase {
        FlowPhase::Authorizing { effect, .. } => Some(effect),
        FlowPhase::Preparing { effect, .. } => Some(effect),
        FlowPhase::StartingEffect { effect, .. } => Some(effect),
        FlowPhase::Fingerprinting { effect, .. } => Some(effect),
        FlowPhase::AuthorizingSpawn { effect, .. } => Some(effect),
        FlowPhase::RunningCommand { effect, .. } => Some(effect),
        FlowPhase::RunningConnector { effect, .. } => Some(effect),
        FlowPhase::RetainingVerdict { effect, .. } => Some(effect),
        FlowPhase::RetainingUnknown { effect, .. } => Some(effect),
        _ => None,
    }
}

#[verifier::rlimit(60)]
#[verifier::spinoff_prover]
proof fn lemma_step_goes_on(
    phase: FlowPhase,
    action: FlowAction,
    event: FlowEvent,
    effect: Option<Effect>,
)
    requires
        waits_for(phase, action),
        effect_of(phase) is Some ==> effect_of(phase) == effect,
        fits(action, event),
    ensures
        ({
            let next = spec_flow_step(phase, event);
            let now = match event {
                FlowEvent::Persisted { decision: Decision::EvaluateEffect(e), .. } => Some(e),
                _ => effect,
            };
            &&& waits_for(next.0, next.1)
            &&& next.1 != FlowAction::Ignore
            &&& effect_of(next.0) is Some ==> effect_of(next.0) == now
        }),
{
}

proof fn lemma_told(events: Seq<FlowEvent>)
    requires
        told(events),
    ensures
        waits_for(flow_run(events).0, flow_run(events).1),
        flow_run(events).1 != FlowAction::Ignore,
        effect_of(flow_run(events).0) is Some ==> effect_of(flow_run(events).0) == effect_at(
            events,
        ),
    decreases events.len(),
{
    if events.len() > 0 {
        let before = events.drop_last();
        lemma_told(before);
        lemma_step_goes_on(
            flow_run(before).0,
            flow_run(before).1,
            events.last(),
            effect_at(before),
        );
    }
}

/// No answer is passed over: whatever fits the question is acted upon.
#[verifier::spinoff_prover]
#[verifier::rlimit(60)]
pub proof fn law_every_answer_is_acted_upon(events: Seq<FlowEvent>)
    requires
        told(events),
    ensures
        flow_run(events).1 != FlowAction::Ignore,
{
    lemma_told(events);
}

/// A run opens by loading its checkpoint. Without one it starts, with one it
/// resumes; either way its resource and then its project root are checked before
/// anything else.
#[verifier::spinoff_prover]
#[verifier::rlimit(60)]
pub proof fn law_runs_open_with_checks(events: Seq<FlowEvent>)
    requires
        told(events),
    ensures
        events.len() == 0 ==> flow_run(events).1 == FlowAction::LoadCheckpoint,
        events.len() > 0 ==> {
            let next = flow_run(events).1;
            match events.last() {
                FlowEvent::NoCheckpoint => next == FlowAction::StartRun,
                FlowEvent::Checkpoint { .. } => next == FlowAction::ResumeRun,
                FlowEvent::Started => next == FlowAction::ValidateResource,
                FlowEvent::ResourceValid => next == FlowAction::VerifyProjectRoot,
                FlowEvent::RootVerified(false) => next == FlowAction::Finish(
                    FlowEnd::ProjectRootUnavailable,
                ),
                FlowEvent::Saved { .. } => next == FlowAction::PollCancellation,
                _ => true,
            }
        },
        events.len() > 1 && events.last() is Resumed ==> {
            let next = flow_run(events).1;
            let terminal = events.last() == (FlowEvent::Resumed { terminal: true });
            match previous(events) {
                FlowEvent::Checkpoint { cached, .. } => if terminal && cached {
                    next == FlowAction::Finish(FlowEnd::CachedTerminal)
                } else if terminal {
                    next == FlowAction::Finish(
                        FlowEnd::Invalid(InvalidFlowState::OmittedTerminalResult),
                    )
                } else if cached {
                    next == FlowAction::Finish(
                        FlowEnd::Invalid(InvalidFlowState::UnexpectedTerminalResult),
                    )
                } else {
                    next == FlowAction::ValidateResource
                },
                _ => false,
            }
        },
{
    reveal_with_fuel(flow_run, 3);
    reveal_with_fuel(told, 3);
    if events.len() > 0 {
        let before = events.drop_last();
        lemma_told(before);
        if before.len() > 0 {
            lemma_told(before.drop_last());
            assert(previous(events) == before.last());
        }
    }
}

/// A project root that holds lets the run go on: a new run is saved at revision
/// zero, one that was saved in an older form is saved again over the revision
/// that was loaded, and any other goes straight to its loop.
#[verifier::spinoff_prover]
#[verifier::rlimit(60)]
pub proof fn law_verified_runs_are_saved_when_due(events: Seq<FlowEvent>)
    requires
        told(events),
        events.len() > 0,
        events.last() == FlowEvent::RootVerified(true),
    ensures
        match events[0] {
            FlowEvent::NoCheckpoint => flow_run(events).1 == (FlowAction::SaveSnapshot {
                expected_revision: 0,
            }),
            FlowEvent::Checkpoint { revision, legacy, .. } => flow_run(events).1 == if legacy {
                FlowAction::SaveSnapshot { expected_revision: revision }
            } else {
                FlowAction::PollCancellation
            },
            _ => false,
        },
{
    let rooted = events.drop_last();
    lemma_told(rooted);
    lemma_rooted(rooted);
}

spec fn save_for(first: FlowEvent, revision: u64, save: super::machine::PendingSave) -> bool {
    match first {
        FlowEvent::NoCheckpoint => save == super::machine::PendingSave::Initial,
        FlowEvent::Checkpoint { revision: loaded, legacy, .. } => revision == loaded && save
            == if legacy {
            super::machine::PendingSave::Upgrade
        } else {
            super::machine::PendingSave::NotDue
        },
        _ => false,
    }
}

proof fn lemma_rooted(events: Seq<FlowEvent>)
    requires
        told(events),
    ensures
        match flow_run(events).0 {
            FlowPhase::Loading => events.len() == 0,
            FlowPhase::Starting => events.len() == 1 && events[0] == FlowEvent::NoCheckpoint,
            FlowPhase::Resuming { revision, legacy, cached } => events.len() == 1 && events[0]
                == (FlowEvent::Checkpoint { revision, legacy, cached }),
            FlowPhase::ValidatingResource { revision, save } => events.len() > 0 && save_for(
                events[0],
                revision,
                save,
            ),
            FlowPhase::VerifyingRoot { revision, save } => events.len() > 0 && save_for(
                events[0],
                revision,
                save,
            ),
            _ => true,
        },
    decreases events.len(),
{
    if events.len() > 0 {
        let before = events.drop_last();
        lemma_told(before);
        lemma_rooted(before);
    }
}

/// The engine decides: a saved decision is carried out as it is. Where the start
/// of an effect was saved, see below.
#[verifier::spinoff_prover]
#[verifier::rlimit(60)]
pub proof fn law_decisions_are_carried_out(events: Seq<FlowEvent>)
    requires
        told(events),
        events.len() > 0,
        events.last() is Persisted,
        !(asked(events) is StartEffect),
    ensures
        ({
            let next = flow_run(events).1;
            match events.last() {
                FlowEvent::Persisted { decision, encoded, .. } => match decision {
                    Decision::Continue => next == FlowAction::PollCancellation,
                    Decision::EvaluateEffect(_) => next == FlowAction::AuthorizeEffect,
                    Decision::WaitRetry { not_before_ms } => next == (FlowAction::WaitRetry {
                        not_before_ms,
                    }),
                    Decision::Reconcile(effect) => next == (FlowAction::ReconcileUnknown {
                        revision: reported_revision(events),
                        effect,
                        summary: EffectSummary::UnknownAfterInterruption,
                        with_output: false,
                    }),
                    Decision::Terminal => next == FlowAction::Finish(
                        if encoded {
                            FlowEnd::Terminal
                        } else {
                            FlowEnd::Invalid(InvalidFlowState::OmittedTerminalResult)
                        },
                    ),
                    Decision::AwaitApproval => next == FlowAction::Finish(
                        FlowEnd::Invalid(InvalidFlowState::ApprovalInReadOnlyExecutor),
                    ),
                    Decision::Execute | Decision::AwaitResult => next == FlowAction::Finish(
                        FlowEnd::Invalid(InvalidFlowState::UnownedEffect),
                    ),
                },
                _ => true,
            }
        }),
{
    lemma_told(events.drop_last());
}

/// The loop asks for a cancellation before every decision, and cancels exactly
/// where one is reported.
#[verifier::spinoff_prover]
#[verifier::rlimit(60)]
pub proof fn law_runs_are_cancelled_when_told(events: Seq<FlowEvent>)
    requires
        told(events),
        events.len() > 0,
    ensures
        flow_run(events).1 is CancelRun <==> reports_cancellation(events.last()),
        flow_run(events).1 is NextDecision <==> events.last() == FlowEvent::CancellationPolled(
            false,
        ),
        events.last() == FlowEvent::RetryWaited(LeaseWait::Ready) ==> flow_run(events).1
            == FlowAction::PollCancellation,
        flow_run(events).1 is Finish && flow_run(events).1 == FlowAction::Finish(
            FlowEnd::StaleLease,
        ) ==> {
            ||| events.last() == FlowEvent::Failed(StoreFault::StaleLease)
            ||| events.last() == FlowEvent::Fingerprinted(FingerprintCheck::StaleLease)
            ||| events.last() == FlowEvent::CommandEnded(CommandEnd::StaleLease)
            ||| events.last() == FlowEvent::ConnectorEnded(ConnectorEnd::StaleLease)
            ||| events.last() == FlowEvent::RetryWaited(LeaseWait::StaleLease)
        },
{
    lemma_told(events.drop_last());
}

/// An effect is prepared when it is allowed for the first time and executed when
/// it is allowed for the second time. One that is denied is recorded as denied,
/// and no other is.
#[verifier::spinoff_prover]
#[verifier::rlimit(60)]
pub proof fn law_effects_run_only_when_allowed(events: Seq<FlowEvent>)
    requires
        told(events),
        events.len() > 0,
    ensures
        ({
            let next = flow_run(events).1;
            let allowed = events.last() == FlowEvent::Authorization(
                EffectBoundaryAuthorization::Allowed,
            );
            let denied = events.last() == FlowEvent::Authorization(
                EffectBoundaryAuthorization::Denied,
            );
            &&& next is DenyEffect <==> denied
            &&& next matches FlowAction::DenyEffect { effect, .. } ==> effect_at(events) == Some(
                effect,
            )
            &&& next is PrepareEffect || next is RunCommand || next is RunConnector <==> allowed
            &&& next matches FlowAction::PrepareEffect { effect } ==> effect_at(events) == Some(
                effect,
            ) && (previous(events) matches FlowEvent::Persisted {
                decision: Decision::EvaluateEffect(wanted),
                ..
            } && wanted == effect)
            &&& next matches FlowAction::RunCommand { effect } ==> effect_at(events) == Some(effect)
                && previous(events) == FlowEvent::Fingerprinted(FingerprintCheck::Accepted)
            &&& next matches FlowAction::RunConnector { effect } ==> effect_at(events) == Some(
                effect,
            ) && previous(events) matches FlowEvent::Persisted { decision: Decision::Execute, .. }
        }),
{
    reveal_with_fuel(flow_run, 3);
    reveal_with_fuel(told, 3);
    let before = events.drop_last();
    lemma_told(before);
    if before.len() > 0 {
        lemma_told(before.drop_last());
        assert(previous(events) == before.last());
    }
}

proof fn lemma_asked_to_start(events: Seq<FlowEvent>)
    requires
        told(events),
        flow_run(events).1 is StartEffect,
    ensures
        events.len() > 0,
        flow_run(events).0 matches FlowPhase::StartingEffect { preparation, .. } && events.last()
            == FlowEvent::Prepared(preparation),
{
    lemma_told(events);
    if events.len() > 0 {
        lemma_told(events.drop_last());
    }
}

/// What was prepared is put on record as started, and only then does it go on: a
/// command is fingerprinted, a connector is authorized again, and what cannot be
/// executed is recorded as failed.
#[verifier::spinoff_prover]
#[verifier::rlimit(40)]
pub proof fn law_prepared_effects_start_on_record(events: Seq<FlowEvent>)
    requires
        told(events),
        events.len() > 0,
    ensures
        flow_run(events).1 is StartEffect <==> events.last() is Prepared,
        flow_run(events).1 matches FlowAction::StartEffect { effect, .. } ==> effect_at(events)
            == Some(effect),
        events.last() is Persisted && asked(events) is StartEffect ==> {
            let next = flow_run(events).1;
            match (previous(events), events.last()) {
                (
                    FlowEvent::Prepared(preparation),
                    FlowEvent::Persisted { decision, encoded, .. },
                ) => if decision != Decision::Execute {
                    next is Finish && (next == FlowAction::Finish(FlowEnd::Terminal) <==> decision
                        == Decision::Terminal && encoded)
                } else {
                    match preparation {
                        Preparation::Command => next == FlowAction::FingerprintWorkspace,
                        Preparation::Connector => next == FlowAction::AuthorizeEffect,
                        Preparation::Rejected(why) => next matches FlowAction::RecordVerdict {
                            verdict,
                            ..
                        } && !verdict.succeeded && verdict.summary == if why
                            == CommandRejection::StatefulConnector {
                            EffectSummary::StatefulConnector
                        } else {
                            EffectSummary::UnsupportedCommand
                        },
                    }
                },
                _ => false,
            }
        },
        events.last() == FlowEvent::Fingerprinted(FingerprintCheck::Accepted) ==> flow_run(events).1
            == FlowAction::AuthorizeEffect,
{
    let before = events.drop_last();
    lemma_told(before);
    if asked(events) is StartEffect {
        lemma_asked_to_start(before);
        assert(previous(events) == before.last());
    }
}

/// The run has just kept the output of a command that ended like this.
pub open spec fn retained_after(events: Seq<FlowEvent>, end: CommandEnd) -> bool {
    &&& events.len() > 1
    &&& events.last() == FlowEvent::OutputRetained
    &&& previous(events) == FlowEvent::CommandEnded(end)
}

/// A verdict on a command tells how its process ended. It says success exactly
/// where the process ended with success; it offers a retry exactly for an effect
/// that only observes and whose process ended without success or ran out of
/// time; it cites the output exactly where the output was kept.
#[verifier::spinoff_prover]
#[verifier::rlimit(60)]
pub proof fn law_verdicts_tell_how_the_command_ended(events: Seq<FlowEvent>)
    requires
        told(events),
        events.len() > 0,
    ensures
        flow_run(events).1 matches FlowAction::RecordVerdict { effect, verdict, .. } ==> {
            &&& effect_at(events) == Some(effect)
            &&& verdict.succeeded <==> retained_after(
                events,
                CommandEnd::Completed { success: true },
            )
            &&& verdict.retryable <==> effect.kind == EffectKind::ReadOnly && (retained_after(
                events,
                CommandEnd::Completed { success: false },
            ) || retained_after(events, CommandEnd::TimedOut))
            &&& verdict.with_output <==> events.last() == FlowEvent::OutputRetained
            &&& verdict.summary == EffectSummary::CommandCompleted <==> verdict.succeeded
            &&& verdict.summary == EffectSummary::CommandExited <==> retained_after(
                events,
                CommandEnd::Completed { success: false },
            )
            &&& verdict.summary == EffectSummary::CommandTimedOut <==> retained_after(
                events,
                CommandEnd::TimedOut,
            )
            &&& verdict.summary == EffectSummary::CommandNotStarted <==> events.last()
                == FlowEvent::CommandEnded(CommandEnd::LaunchFailed)
            &&& verdict.summary == EffectSummary::WorkspaceChanged <==> events.last()
                == FlowEvent::CommandEnded(CommandEnd::WorkspaceChanged)
            &&& verdict.summary == EffectSummary::OutputLimit <==> events.last()
                == FlowEvent::CommandEnded(CommandEnd::OutputLimit)
            &&& verdict.summary == EffectSummary::OutputNotCaptured <==> events.last()
                == FlowEvent::CommandEnded(CommandEnd::CaptureFailed)
        },
{
    reveal_with_fuel(flow_run, 3);
    reveal_with_fuel(told, 3);
    let before = events.drop_last();
    lemma_told(before);
    if before.len() > 0 {
        lemma_told(before.drop_last());
        assert(previous(events) == before.last());
    }
}

/// Every end of a command leaves a record. The output of one that completed or
/// ran out of time is kept first; then a verdict is recorded, or, for an effect
/// that changes something and whose outcome nobody saw, that it is unknown.
#[verifier::spinoff_prover]
#[verifier::rlimit(60)]
pub proof fn law_every_end_of_a_command_is_recorded(events: Seq<FlowEvent>)
    requires
        told(events),
        events.len() > 0,
        effect_at(events) is Some,
    ensures
        ({
            let next = flow_run(events).1;
            let observes = effect_at(events)->0.kind == EffectKind::ReadOnly;
            match events.last() {
                FlowEvent::CommandEnded(end) => match end {
                    CommandEnd::Completed { .. } | CommandEnd::TimedOut => next
                        == FlowAction::RetainOutput,
                    CommandEnd::LaunchFailed | CommandEnd::WorkspaceChanged => next
                        is RecordVerdict,
                    CommandEnd::OutputLimit | CommandEnd::CaptureFailed => if observes {
                        next is RecordVerdict
                    } else {
                        next matches FlowAction::ReconcileUnknown {
                            effect,
                            summary,
                            with_output,
                            ..
                        } && Some(effect) == effect_at(events) && summary
                            == EffectSummary::UnknownAfterCapture && !with_output
                    },
                    CommandEnd::Cancelled => next is CancelRun,
                    CommandEnd::StaleLease => next == FlowAction::Finish(FlowEnd::StaleLease),
                },
                FlowEvent::OutputRetained => if !observes && retained_after(
                    events,
                    CommandEnd::TimedOut,
                ) {
                    next matches FlowAction::ReconcileUnknown { effect, summary, with_output, .. }
                        && Some(effect) == effect_at(events) && summary
                        == EffectSummary::UnknownAfterTimeout && with_output
                } else {
                    next is RecordVerdict
                },
                _ => true,
            }
        }),
        flow_run(events).1 == FlowAction::RetainOutput ==> events.last() is CommandEnded,
        flow_run(events).1 is ReconcileUnknown ==> events.last() is CommandEnded || events.last()
            == FlowEvent::OutputRetained || events.last() is Persisted,
{
    reveal_with_fuel(flow_run, 3);
    reveal_with_fuel(told, 3);
    let before = events.drop_last();
    lemma_told(before);
    if before.len() > 0 {
        lemma_told(before.drop_last());
        assert(previous(events) == before.last());
    }
}

/// A connector's own result is recorded where the connector gave one, and
/// nowhere else.
#[verifier::spinoff_prover]
#[verifier::rlimit(60)]
pub proof fn law_connector_results_are_recorded(events: Seq<FlowEvent>)
    requires
        told(events),
        events.len() > 0,
    ensures
        flow_run(events).1 is RecordConnectorResult <==> events.last() == FlowEvent::ConnectorEnded(
            ConnectorEnd::Result,
        ),
        flow_run(events).1 matches FlowAction::RecordConnectorResult { effect, .. } ==> effect_at(
            events,
        ) == Some(effect),
        events.last() == FlowEvent::Fingerprinted(FingerprintCheck::Changed) ==> {
            flow_run(events).1 matches FlowAction::RecordVerdict { verdict, .. }
                && !verdict.succeeded && verdict.summary == EffectSummary::UnsupportedCommand
        },
{
    lemma_told(events.drop_last());
}

/// A failure ends the run. A lost lease is no error where the run had only
/// looked, or was about to save for the first time; a resource that the store
/// knows to be corrupt is an authorization that does not match; everything else
/// is passed on as it is.
#[verifier::spinoff_prover]
#[verifier::rlimit(60)]
pub proof fn law_failures_end_the_run(events: Seq<FlowEvent>, fault: StoreFault)
    requires
        told(events),
        events.len() > 0,
        events.last() == FlowEvent::Failed(fault),
    ensures
        ({
            let looked = asked(events) == FlowAction::LoadCheckpoint || asked(events)
                == FlowAction::ValidateResource || asked(events) is SaveSnapshot;
            flow_run(events).1 == FlowAction::Finish(
                if fault == StoreFault::StaleLease && looked {
                    FlowEnd::StaleLease
                } else if fault == StoreFault::CorruptFlowAuthorization && asked(events)
                    == FlowAction::ValidateResource {
                    FlowEnd::AuthorizationMismatch
                } else {
                    FlowEnd::Fault(fault)
                },
            )
        }),
{
    lemma_told(events.drop_last());
}

/// How a run ends says what came last: a result only with a saved decision to
/// end, a saved result only from a terminal checkpoint, a missing root only
/// where the root was looked at.
#[verifier::spinoff_prover]
#[verifier::rlimit(60)]
pub proof fn law_ends_tell_what_came_last(events: Seq<FlowEvent>)
    requires
        told(events),
        events.len() > 0,
    ensures
        flow_run(events).1 == FlowAction::Finish(FlowEnd::Terminal) <==> {
            events.last() matches FlowEvent::Persisted { decision: Decision::Terminal, encoded, .. }
                && encoded
        },
        flow_run(events).1 == FlowAction::Finish(FlowEnd::ProjectRootUnavailable) <==> events.last()
            == FlowEvent::RootVerified(false),
        flow_run(events).1 == FlowAction::Finish(FlowEnd::CachedTerminal) ==> events.last() == (
        FlowEvent::Resumed { terminal: true }),
        flow_run(events).1 == FlowAction::Finish(FlowEnd::AuthorizationMismatch) <==> (
        events.last() == FlowEvent::Failed(StoreFault::CorruptFlowAuthorization) && asked(events)
            == FlowAction::ValidateResource),
        flow_run(events).1 matches FlowAction::Finish(FlowEnd::Fault(fault)) ==> events.last()
            == FlowEvent::Failed(fault),
{
    lemma_told(events.drop_last());
}

/// What did not come of what was asked is passed over and changes nothing, and
/// once a run is over it is not taken up again.
#[verifier::spinoff_prover]
#[verifier::rlimit(60)]
pub proof fn law_strays_are_passed_over(
    events: Seq<FlowEvent>,
    event: FlowEvent,
)
    requires
        told(events),
        !fits(flow_run(events).1, event),
    ensures
        flow_run(events.push(event)).1 == FlowAction::Ignore,
        flow_run(events.push(event)).0 == flow_run(events).0,
{
    lemma_told(events);
    assert(events.push(event).drop_last() =~= events);
}

} // verus!
