//! What holds along every run of the flow executor.

use vstd::prelude::*;

use super::machine::{
    Decision, Effect, EffectBoundaryAuthorization, EffectKind, FingerprintCheck, FlowAction,
    FlowEnd, FlowEvent, FlowPhase, Preparation, spec_flow_step,
};
use super::machine::{CommandEnd, ConnectorEnd, EffectSummary, LeaseWait};

verus! {

/// Phase and action after `events`, starting from the first phase.
pub open spec fn flow_run(events: Seq<FlowEvent>) -> (FlowPhase, FlowAction)
    decreases events.len(),
{
    if events.len() == 0 {
        (FlowPhase::Loading, FlowAction::LoadCheckpoint)
    } else {
        spec_flow_step(flow_run(events.drop_last()).0, events.last())
    }
}

/// Every event of `events` answers the action before it.
pub open spec fn answered(events: Seq<FlowEvent>) -> bool
    decreases events.len(),
{
    events.len() == 0 || (flow_run(events).1 != FlowAction::Ignore && answered(events.drop_last()))
}

/// The revision that the store last reported: zero before any report.
pub open spec fn reported_revision(events: Seq<FlowEvent>) -> u64
    decreases events.len(),
{
    if events.len() == 0 {
        0
    } else {
        match events.last() {
            FlowEvent::Checkpoint { revision, .. } => revision,
            FlowEvent::Saved { revision } => revision,
            FlowEvent::Persisted { revision, .. } => revision,
            _ => reported_revision(events.drop_last()),
        }
    }
}

/// The revision that `action` hands to the store, if it writes.
pub open spec fn written_revision(action: FlowAction) -> Option<u64> {
    match action {
        FlowAction::SaveSnapshot { expected_revision } => Some(expected_revision),
        FlowAction::NextDecision { revision } => Some(revision),
        FlowAction::CancelRun { revision } => Some(revision),
        FlowAction::StartEffect { revision, .. } => Some(revision),
        FlowAction::DenyEffect { revision, .. } => Some(revision),
        FlowAction::RecordVerdict { revision, .. } => Some(revision),
        FlowAction::RecordConnectorResult { revision, .. } => Some(revision),
        FlowAction::ReconcileUnknown { revision, .. } => Some(revision),
        _ => None,
    }
}

spec fn phase_revision(phase: FlowPhase) -> Option<u64> {
    match phase {
        FlowPhase::Loading | FlowPhase::Starting => Some(0),
        FlowPhase::Resuming { revision, .. } => Some(revision),
        FlowPhase::ValidatingResource { revision, .. } => Some(revision),
        FlowPhase::VerifyingRoot { revision, .. } => Some(revision),
        FlowPhase::Polling { revision } => Some(revision),
        FlowPhase::Authorizing { revision, .. } => Some(revision),
        FlowPhase::Preparing { revision, .. } => Some(revision),
        FlowPhase::Fingerprinting { revision, .. } => Some(revision),
        FlowPhase::AuthorizingSpawn { revision, .. } => Some(revision),
        FlowPhase::RunningCommand { revision, .. } => Some(revision),
        FlowPhase::RunningConnector { revision, .. } => Some(revision),
        FlowPhase::RetainingVerdict { revision, .. } => Some(revision),
        FlowPhase::RetainingUnknown { revision, .. } => Some(revision),
        FlowPhase::WaitingRetry { revision } => Some(revision),
        _ => None,
    }
}

spec fn initial_save_at_zero(phase: FlowPhase) -> bool {
    match phase {
        FlowPhase::ValidatingResource { revision, save } => {
            save == super::machine::PendingSave::Initial ==> revision == 0
        },
        FlowPhase::VerifyingRoot { revision, save } => {
            save == super::machine::PendingSave::Initial ==> revision == 0
        },
        _ => true,
    }
}

spec fn event_revision(event: FlowEvent, otherwise: u64) -> u64 {
    match event {
        FlowEvent::Checkpoint { revision, .. } => revision,
        FlowEvent::Saved { revision } => revision,
        FlowEvent::Persisted { revision, .. } => revision,
        _ => otherwise,
    }
}

#[verifier::rlimit(60)]
#[verifier::spinoff_prover]
proof fn lemma_step_keeps_revision(phase: FlowPhase, event: FlowEvent, reported: u64)
    requires
        phase_revision(phase) matches Some(revision) ==> revision == reported,
        initial_save_at_zero(phase),
        spec_flow_step(phase, event).1 != FlowAction::Ignore,
    ensures
        phase_revision(spec_flow_step(phase, event).0) matches Some(revision) ==> revision
            == event_revision(event, reported),
        initial_save_at_zero(spec_flow_step(phase, event).0),
{
}

proof fn lemma_phase_revision(events: Seq<FlowEvent>)
    requires
        answered(events),
    ensures
        phase_revision(flow_run(events).0) matches Some(revision) ==> revision
            == reported_revision(events),
        initial_save_at_zero(flow_run(events).0),
    decreases events.len(),
{
    if events.len() > 0 {
        let before = events.drop_last();
        lemma_phase_revision(before);
        lemma_step_keeps_revision(flow_run(before).0, events.last(), reported_revision(before));
    }
}

/// Every write names the revision that the store last reported, so a run can
/// only extend the checkpoint that it has seen.
pub proof fn law_writes_name_the_reported_revision(events: Seq<FlowEvent>)
    requires
        answered(events),
    ensures
        written_revision(flow_run(events).1) matches Some(revision) ==> revision
            == reported_revision(events),
{
    lemma_phase_revision(events);
    if events.len() > 0 {
        lemma_phase_revision(events.drop_last());
    }
}

proof fn lemma_authorizing_spawn(events: Seq<FlowEvent>, revision: u64, effect: Effect)
    requires
        answered(events),
        flow_run(events).0 == (FlowPhase::AuthorizingSpawn { revision, effect, command: true }),
    ensures
        events.len() > 0,
        events.last() == FlowEvent::Fingerprinted(FingerprintCheck::Accepted),
        flow_run(events.drop_last()).0 == (FlowPhase::Fingerprinting { revision, effect }),
{
}

proof fn lemma_fingerprinting(events: Seq<FlowEvent>, revision: u64, effect: Effect)
    requires
        answered(events),
        flow_run(events).0 == (FlowPhase::Fingerprinting { revision, effect }),
    ensures
        events.len() > 0,
        events.last() matches FlowEvent::Persisted { decision: Decision::Execute, .. },
        flow_run(events.drop_last()).0 == (FlowPhase::StartingEffect {
            effect,
            preparation: Preparation::Command,
        }),
{
}

proof fn lemma_authorizing_connector(events: Seq<FlowEvent>, revision: u64, effect: Effect)
    requires
        answered(events),
        flow_run(events).0 == (FlowPhase::AuthorizingSpawn { revision, effect, command: false }),
    ensures
        events.len() > 0,
        events.last() matches FlowEvent::Persisted { decision: Decision::Execute, .. },
        flow_run(events.drop_last()).0 == (FlowPhase::StartingEffect {
            effect,
            preparation: Preparation::Connector,
        }),
{
}

proof fn lemma_starting(events: Seq<FlowEvent>, effect: Effect, preparation: Preparation)
    requires
        answered(events),
        flow_run(events).0 == (FlowPhase::StartingEffect { effect, preparation }),
    ensures
        events.len() > 0,
        events.last() == FlowEvent::Prepared(preparation),
        flow_run(events.drop_last()).0 matches FlowPhase::Preparing { effect: prepared, .. }
            && prepared == effect,
{
}

proof fn lemma_preparing(events: Seq<FlowEvent>, revision: u64, effect: Effect)
    requires
        answered(events),
        flow_run(events).0 == (FlowPhase::Preparing { revision, effect }),
    ensures
        events.len() > 0,
        events.last() == FlowEvent::Authorization(EffectBoundaryAuthorization::Allowed),
        flow_run(events.drop_last()).0 == (FlowPhase::Authorizing { revision, effect }),
{
}

/// The end of `events`: the effect was authorized, classified as `preparation`,
/// and its start was saved, in this order and with nothing in between.
pub open spec fn started_durably(events: Seq<FlowEvent>, preparation: Preparation) -> bool {
    let n = events.len() as int;
    &&& n >= 3
    &&& events[n - 1] matches FlowEvent::Persisted { decision: Decision::Execute, .. }
    &&& events[n - 2] == FlowEvent::Prepared(preparation)
    &&& events[n - 3] == FlowEvent::Authorization(EffectBoundaryAuthorization::Allowed)
}

proof fn lemma_started_durably(events: Seq<FlowEvent>, effect: Effect, preparation: Preparation)
    requires
        answered(events),
        events.len() > 0,
        events.last() matches FlowEvent::Persisted { decision: Decision::Execute, .. },
        flow_run(events.drop_last()).0 == (FlowPhase::StartingEffect { effect, preparation }),
    ensures
        started_durably(events, preparation),
{
    let before = events.drop_last();
    lemma_starting(before, effect, preparation);
    let earlier = before.drop_last();
    assert(answered(before));
    assert(answered(earlier));
    if let FlowPhase::Preparing { revision, effect: prepared } = flow_run(earlier).0 {
        lemma_preparing(earlier, revision, prepared);
    }
}

/// A command is spawned only right after a second authorization, on a workspace
/// that still has the accepted fingerprint, and only once the authorized and
/// classified start of the effect is durable.
pub proof fn law_commands_run_pinned_and_authorized(events: Seq<FlowEvent>, effect: Effect)
    requires
        answered(events),
        flow_run(events).1 == (FlowAction::RunCommand { effect }),
    ensures
        events.len() >= 5,
        events.last() == FlowEvent::Authorization(EffectBoundaryAuthorization::Allowed),
        events[events.len() - 2] == FlowEvent::Fingerprinted(FingerprintCheck::Accepted),
        started_durably(events.take(events.len() - 2), Preparation::Command),
{
    let authorizing = events.drop_last();
    if let FlowPhase::AuthorizingSpawn { revision, effect: spawned, .. } = flow_run(
        authorizing,
    ).0 {
        lemma_authorizing_spawn(authorizing, revision, spawned);
        let pinned = authorizing.drop_last();
        lemma_fingerprinting(pinned, revision, spawned);
        lemma_started_durably(pinned, spawned, Preparation::Command);
        assert(pinned =~= events.take(events.len() - 2));
    }
}

/// A connector is called only right after a second authorization, and only
/// once the authorized and classified start of the effect is durable.
pub proof fn law_connectors_run_authorized(events: Seq<FlowEvent>, effect: Effect)
    requires
        answered(events),
        flow_run(events).1 == (FlowAction::RunConnector { effect }),
    ensures
        events.len() >= 4,
        events.last() == FlowEvent::Authorization(EffectBoundaryAuthorization::Allowed),
        started_durably(events.drop_last(), Preparation::Connector),
{
    let authorizing = events.drop_last();
    if let FlowPhase::AuthorizingSpawn { revision, effect: spawned, .. } = flow_run(
        authorizing,
    ).0 {
        lemma_authorizing_connector(authorizing, revision, spawned);
        lemma_started_durably(authorizing, spawned, Preparation::Connector);
    }
}

/// The event reports that the request is cancelled.
pub open spec fn reports_cancellation(event: FlowEvent) -> bool {
    ||| event == FlowEvent::CancellationPolled(true)
    ||| event == FlowEvent::Authorization(EffectBoundaryAuthorization::Cancelled)
    ||| event == FlowEvent::Fingerprinted(FingerprintCheck::Cancelled)
    ||| event == FlowEvent::CommandEnded(CommandEnd::Cancelled)
    ||| event == FlowEvent::ConnectorEnded(ConnectorEnd::Cancelled)
    ||| event == FlowEvent::RetryWaited(LeaseWait::Cancelled)
}

/// The event reports that another worker owns the request.
pub open spec fn reports_stale_lease(event: FlowEvent) -> bool {
    ||| event == FlowEvent::Fingerprinted(FingerprintCheck::StaleLease)
    ||| event == FlowEvent::CommandEnded(CommandEnd::StaleLease)
    ||| event == FlowEvent::ConnectorEnded(ConnectorEnd::StaleLease)
    ||| event == FlowEvent::RetryWaited(LeaseWait::StaleLease)
}

/// Wherever a cancellation is reported, the run is cancelled next.
pub proof fn law_cancellation_cancels(events: Seq<FlowEvent>)
    requires
        answered(events),
        events.len() > 0,
        reports_cancellation(events.last()),
    ensures
        flow_run(events).1 == (FlowAction::CancelRun { revision: reported_revision(events) }),
{
    lemma_phase_revision(events.drop_last());
}

/// Wherever a lost lease is reported, the run ends without touching the store.
pub proof fn law_stale_lease_ends_the_run(events: Seq<FlowEvent>)
    requires
        answered(events),
        events.len() > 0,
        reports_stale_lease(events.last()),
    ensures
        flow_run(events) == (FlowPhase::Done, FlowAction::Finish(FlowEnd::StaleLease)),
{
}

/// The run has not got past its checks yet.
pub open spec fn is_opening(phase: FlowPhase) -> bool {
    phase is Loading || phase is Resuming || phase is Starting || phase is ValidatingResource
        || phase is VerifyingRoot
}

/// The action saves nothing and runs no effect.
pub open spec fn only_checks(action: FlowAction) -> bool {
    ||| action == FlowAction::LoadCheckpoint
    ||| action == FlowAction::ResumeRun
    ||| action == FlowAction::StartRun
    ||| action == FlowAction::ValidateResource
    ||| action == FlowAction::VerifyProjectRoot
    ||| action == FlowAction::Ignore
}

proof fn lemma_opening(events: Seq<FlowEvent>)
    requires
        is_opening(flow_run(events).0),
    ensures
        forall|k: int|
            0 <= k <= events.len() ==> only_checks(#[trigger] flow_run(events.take(k)).1),
    decreases events.len(),
{
    assert(events.take(events.len() as int) =~= events);
    if events.len() > 0 {
        let before = events.drop_last();
        assert(is_opening(flow_run(before).0));
        lemma_opening(before);
        assert forall|k: int| 0 <= k <= events.len() implies only_checks(
            #[trigger] flow_run(events.take(k)).1,
        ) by {
            if k < events.len() {
                assert(before.take(k) =~= events.take(k));
                assert(only_checks(flow_run(before.take(k)).1));
            }
        }
    }
}

/// A run whose authorization or project root does not match ends before
/// anything of it is saved or executed.
pub proof fn law_mismatched_runs_leave_nothing(events: Seq<FlowEvent>)
    requires
        flow_run(events).1 == FlowAction::Finish(FlowEnd::AuthorizationMismatch) || flow_run(
            events,
        ).1 == FlowAction::Finish(FlowEnd::ProjectRootUnavailable),
    ensures
        forall|k: int|
            0 <= k < events.len() ==> only_checks(#[trigger] flow_run(events.take(k)).1),
{
    let before = events.drop_last();
    assert(is_opening(flow_run(before).0));
    lemma_opening(before);
    assert forall|k: int| 0 <= k < events.len() implies only_checks(
        #[trigger] flow_run(events.take(k)).1,
    ) by {
        assert(before.take(k) =~= events.take(k));
        assert(only_checks(flow_run(before.take(k)).1));
    }
}

/// The events of a run that finds its own terminal checkpoint, with the result
/// that was saved there.
pub open spec fn resumes_terminal(events: Seq<FlowEvent>) -> bool {
    &&& events.len() >= 2
    &&& events[0] matches FlowEvent::Checkpoint { cached, .. } && cached
    &&& events[1] == (FlowEvent::Resumed { terminal: true })
}

/// A run that finds its own terminal checkpoint ends at once with the result
/// that was saved there. It gets there by checks alone, and whatever comes
/// after is ignored: it saves nothing and runs no effect, so that the checkpoint
/// stays as it is for the next time.
pub proof fn law_terminal_checkpoints_are_replayed(events: Seq<FlowEvent>)
    requires
        resumes_terminal(events),
    ensures
        flow_run(events.take(2)).1 == FlowAction::Finish(FlowEnd::CachedTerminal),
        flow_run(events).0 is Done,
        forall|k: int|
            0 <= k <= events.len() && k != 2 ==> only_checks(#[trigger] flow_run(events.take(k)).1),
    decreases events.len(),
{
    let first = events.take(1);
    let second = events.take(2);
    assert(events.take(0) =~= Seq::<FlowEvent>::empty());
    assert(first.drop_last() =~= Seq::<FlowEvent>::empty());
    assert(second.drop_last() =~= first);
    assert(first.last() == events[0] && second.last() == events[1]);
    assert(flow_run(Seq::empty()).0 is Loading);
    assert(flow_run(first).0 is Resuming);
    assert(events.take(events.len() as int) =~= events);
    if events.len() > 2 {
        let before = events.drop_last();
        law_terminal_checkpoints_are_replayed(before);
        assert(before.take(2) =~= second);
        assert forall|k: int| 0 <= k <= events.len() && k != 2 implies only_checks(
            #[trigger] flow_run(events.take(k)).1,
        ) by {
            if k < events.len() {
                assert(before.take(k) =~= events.take(k));
                assert(only_checks(flow_run(before.take(k)).1));
            }
        }
    }
}

/// Only a terminal checkpoint leads to a saved result, and only by checks.
pub proof fn law_saved_results_cost_nothing(events: Seq<FlowEvent>)
    requires
        flow_run(events).1 == FlowAction::Finish(FlowEnd::CachedTerminal),
    ensures
        events.last() == (FlowEvent::Resumed { terminal: true }),
        forall|k: int|
            0 <= k < events.len() ==> only_checks(#[trigger] flow_run(events.take(k)).1),
{
    let before = events.drop_last();
    assert(is_opening(flow_run(before).0));
    lemma_opening(before);
    assert forall|k: int| 0 <= k < events.len() implies only_checks(
        #[trigger] flow_run(events.take(k)).1,
    ) by {
        assert(before.take(k) =~= events.take(k));
        assert(only_checks(flow_run(before.take(k)).1));
    }
}

/// Nothing happens after the end of a run.
pub proof fn law_done_is_final(event: FlowEvent)
    ensures
        spec_flow_step(FlowPhase::Done, event) == (FlowPhase::Done, FlowAction::Ignore),
{
}

/// A run ends with the engine's result only when the last save held a terminal
/// decision together with its encoded result.
pub proof fn law_terminal_results_are_saved(events: Seq<FlowEvent>)
    requires
        answered(events),
        flow_run(events).1 == FlowAction::Finish(FlowEnd::Terminal),
    ensures
        events.len() > 0,
        events.last() matches FlowEvent::Persisted { decision: Decision::Terminal, encoded, .. }
            && encoded,
{
}

spec fn unclaimed_while_stateful(phase: FlowPhase) -> bool {
    match phase {
        FlowPhase::RetainingVerdict { effect, verdict, .. } => {
            effect.kind == EffectKind::Stateful ==> !verdict.retryable
        },
        FlowPhase::RetainingUnknown { effect, .. } => effect.kind == EffectKind::Stateful,
        _ => true,
    }
}

proof fn lemma_unclaimed_while_stateful(events: Seq<FlowEvent>)
    ensures
        unclaimed_while_stateful(flow_run(events).0),
    decreases events.len(),
{
    if events.len() > 0 {
        lemma_unclaimed_while_stateful(events.drop_last());
    }
}

/// A stateful effect is never offered for a blind retry, and one that timed out
/// or whose output was not captured is never recorded as a plain failure: its
/// outcome goes down as unknown.
pub proof fn law_stateful_effects_are_not_retried_blindly(events: Seq<FlowEvent>, effect: Effect)
    requires
        effect.kind == EffectKind::Stateful,
    ensures
        flow_run(events).1 matches FlowAction::RecordVerdict { effect: recorded, verdict, .. }
            ==> recorded == effect ==> {
            &&& !verdict.retryable
            &&& verdict.summary != EffectSummary::CommandTimedOut
            &&& verdict.summary != EffectSummary::OutputLimit
            &&& verdict.summary != EffectSummary::OutputNotCaptured
        },
{
    if events.len() > 0 {
        lemma_unclaimed_while_stateful(events.drop_last());
        lemma_stateful_summaries(events.drop_last());
    }
}

spec fn summary_while_stateful(phase: FlowPhase) -> bool {
    match phase {
        FlowPhase::RetainingVerdict { effect, verdict, .. } => {
            effect.kind == EffectKind::Stateful ==> (verdict.summary
                == EffectSummary::CommandCompleted || verdict.summary
                == EffectSummary::CommandExited)
        },
        _ => true,
    }
}

proof fn lemma_stateful_summaries(events: Seq<FlowEvent>)
    ensures
        summary_while_stateful(flow_run(events).0),
    decreases events.len(),
{
    if events.len() > 0 {
        lemma_stateful_summaries(events.drop_last());
    }
}

} // verus!
