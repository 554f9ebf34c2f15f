//! What becomes of a claimed request, from its lease to its published result.

use vstd::prelude::*;

use crate::flow::machine::StoreFault;
use crate::flow::operation::FLOW_OPERATION_KIND;
use crate::protocol::{Failure, FailureCode};
use crate::text::{concat2, same_text};

verus! {

/// How a request ended.
#[derive(Clone, Copy, Debug, PartialEq, Eq, Structural)]
pub enum TerminalState {
    Succeeded,
    Failed,
    Cancelled,
}

/// The durable operations that a daemon can carry out.
#[derive(Clone, Copy, Debug, PartialEq, Eq, Structural)]
pub enum OperationKind {
    Status,
    Flow,
    Unknown,
}

/// The operation that a stored kind names.
pub open spec fn operation_of(kind: Seq<char>) -> OperationKind {
    if kind == "daemon_status"@ || kind == "status"@ {
        OperationKind::Status
    } else if kind == FLOW_OPERATION_KIND@ {
        OperationKind::Flow
    } else {
        OperationKind::Unknown
    }
}

pub fn operation_kind(kind: &str) -> (operation: OperationKind)
    ensures
        operation == operation_of(kind@),
{
    if same_text(kind, "daemon_status") || same_text(kind, "status") {
        OperationKind::Status
    } else if same_text(kind, FLOW_OPERATION_KIND) {
        OperationKind::Flow
    } else {
        OperationKind::Unknown
    }
}

/// The failure of a request whose operation nobody knows.
pub fn unknown_operation_failure(kind: &str) -> (failure: Failure)
    ensures
        failure.says(FailureCode::InvalidRequest, "unknown durable operation "@ + kind@, None),
{
    let message = concat2("unknown durable operation ", kind);
    Failure::new(FailureCode::InvalidRequest, message.as_str())
}

/// How the end of a request is stored.
#[derive(Clone, Copy, Debug, PartialEq, Eq, Structural)]
pub enum FinishKind {
    /// With the result that the flow's own checkpoint already holds.
    SavedFlow,
    /// With a result of its own.
    Plain(TerminalState),
}

/// What came of the last action.
#[derive(Clone, Copy, Debug, PartialEq, Eq, Structural)]
pub enum LeasedEvent {
    /// The processing delay is over.
    DelayElapsed,
    /// The lease was renewed and the request looked at.
    Renewed { cancelled: bool },
    /// The lease was renewed, but the request could not be looked at.
    PollFailed,
    QueueCounted,
    /// The flow ended; `saved` tells whether its result is already stored.
    FlowEnded { state: TerminalState, saved: bool },
    /// The flow lost its lease.
    FlowStale,
    Encoded,
    EncodingFailed,
    Finished,
    Replayed,
    ReplayFailed,
    Published,
    /// The store failed at what was asked of it; in a delay, to renew the lease.
    Failed(StoreFault),
}

/// Work to perform before the next event.
#[derive(Clone, Copy, Debug, PartialEq, Eq, Structural)]
pub enum LeasedAction {
    /// Wait for the delay or the next heartbeat.
    Wait,
    CountQueue,
    RunFlow,
    /// Encode the status, the failure or the flow's result.
    Encode,
    Finish(FinishKind),
    Replay,
    Publish,
    /// Nothing more to do: done, or somebody else's request now.
    Return,
    Fail,
    Ignore,
}

/// What the worker is waiting for.
#[derive(Clone, Copy, Debug, PartialEq, Eq, Structural)]
pub enum LeasedPhase {
    Delaying,
    Counting,
    RunningFlow,
    Encoding { state: TerminalState },
    Finishing,
    Replaying,
    Publishing,
    Done,
}

/// The first phase and action for a claimed request.
pub open spec fn leased_start_of(delayed: bool) -> (LeasedPhase, LeasedAction) {
    if delayed {
        (LeasedPhase::Delaying, LeasedAction::Wait)
    } else {
        (LeasedPhase::Counting, LeasedAction::CountQueue)
    }
}

pub open spec fn after_count(kind: OperationKind) -> (LeasedPhase, LeasedAction) {
    match kind {
        OperationKind::Status => (
            LeasedPhase::Encoding { state: TerminalState::Succeeded },
            LeasedAction::Encode,
        ),
        OperationKind::Flow => (LeasedPhase::RunningFlow, LeasedAction::RunFlow),
        OperationKind::Unknown => (
            LeasedPhase::Encoding { state: TerminalState::Failed },
            LeasedAction::Encode,
        ),
    }
}

/// A lost lease is no error where the request simply belongs to another worker
/// now.
pub open spec fn after_fault(phase: LeasedPhase, fault: StoreFault) -> LeasedAction {
    if fault == StoreFault::StaleLease && (phase is Delaying || phase is RunningFlow
        || phase is Finishing) {
        LeasedAction::Return
    } else {
        LeasedAction::Fail
    }
}

/// The rule for a claimed request.
pub open spec fn spec_leased_step(
    kind: OperationKind,
    phase: LeasedPhase,
    event: LeasedEvent,
) -> (LeasedPhase, LeasedAction) {
    match (phase, event) {
        (LeasedPhase::Done, _) => (phase, LeasedAction::Ignore),
        (_, LeasedEvent::Failed(fault)) => (LeasedPhase::Done, after_fault(phase, fault)),
        (LeasedPhase::Delaying, LeasedEvent::DelayElapsed) => (
            LeasedPhase::Counting,
            LeasedAction::CountQueue,
        ),
        (LeasedPhase::Delaying, LeasedEvent::Renewed { cancelled }) => if cancelled {
            (LeasedPhase::Counting, LeasedAction::CountQueue)
        } else {
            (LeasedPhase::Delaying, LeasedAction::Wait)
        },
        (LeasedPhase::Delaying, LeasedEvent::PollFailed) => (
            LeasedPhase::Done,
            LeasedAction::Fail,
        ),
        (LeasedPhase::Counting, LeasedEvent::QueueCounted) => after_count(kind),
        (LeasedPhase::RunningFlow, LeasedEvent::FlowStale) => (
            LeasedPhase::Done,
            LeasedAction::Return,
        ),
        (LeasedPhase::RunningFlow, LeasedEvent::FlowEnded { state, saved }) => if saved {
            (LeasedPhase::Finishing, LeasedAction::Finish(FinishKind::SavedFlow))
        } else {
            (LeasedPhase::Encoding { state }, LeasedAction::Encode)
        },
        (LeasedPhase::Encoding { state }, LeasedEvent::Encoded) => (
            LeasedPhase::Finishing,
            LeasedAction::Finish(FinishKind::Plain(state)),
        ),
        (LeasedPhase::Encoding { .. }, LeasedEvent::EncodingFailed) => (
            LeasedPhase::Done,
            LeasedAction::Fail,
        ),
        (LeasedPhase::Finishing, LeasedEvent::Finished) => (
            LeasedPhase::Replaying,
            LeasedAction::Replay,
        ),
        (LeasedPhase::Replaying, LeasedEvent::Replayed) => (
            LeasedPhase::Publishing,
            LeasedAction::Publish,
        ),
        (LeasedPhase::Replaying, LeasedEvent::ReplayFailed) => (
            LeasedPhase::Done,
            LeasedAction::Fail,
        ),
        (LeasedPhase::Publishing, LeasedEvent::Published) => (
            LeasedPhase::Done,
            LeasedAction::Return,
        ),
        _ => (phase, LeasedAction::Ignore),
    }
}

/// The first phase and action for a claimed request.
pub fn leased_start(delayed: bool) -> (next: (LeasedPhase, LeasedAction))
    ensures
        next == leased_start_of(delayed),
{
    if delayed {
        (LeasedPhase::Delaying, LeasedAction::Wait)
    } else {
        (LeasedPhase::Counting, LeasedAction::CountQueue)
    }
}

/// Decides what follows `event` for a claimed request.
pub fn leased_step(kind: OperationKind, phase: LeasedPhase, event: LeasedEvent) -> (next: (
    LeasedPhase,
    LeasedAction,
))
    ensures
        next == spec_leased_step(kind, phase, event),
{
    match (phase, event) {
        (LeasedPhase::Done, _) => (phase, LeasedAction::Ignore),
        (_, LeasedEvent::Failed(fault)) => {
            let lost = fault == StoreFault::StaleLease && match phase {
                LeasedPhase::Delaying | LeasedPhase::RunningFlow | LeasedPhase::Finishing => true,
                _ => false,
            };
            if lost {
                (LeasedPhase::Done, LeasedAction::Return)
            } else {
                (LeasedPhase::Done, LeasedAction::Fail)
            }
        },
        (LeasedPhase::Delaying, LeasedEvent::DelayElapsed) => (
            LeasedPhase::Counting,
            LeasedAction::CountQueue,
        ),
        (LeasedPhase::Delaying, LeasedEvent::Renewed { cancelled }) => {
            if cancelled {
                (LeasedPhase::Counting, LeasedAction::CountQueue)
            } else {
                (LeasedPhase::Delaying, LeasedAction::Wait)
            }
        },
        (LeasedPhase::Delaying, LeasedEvent::PollFailed) => (
            LeasedPhase::Done,
            LeasedAction::Fail,
        ),
        (LeasedPhase::Counting, LeasedEvent::QueueCounted) => match kind {
            OperationKind::Status => (
                LeasedPhase::Encoding { state: TerminalState::Succeeded },
                LeasedAction::Encode,
            ),
            OperationKind::Flow => (LeasedPhase::RunningFlow, LeasedAction::RunFlow),
            OperationKind::Unknown => (
                LeasedPhase::Encoding { state: TerminalState::Failed },
                LeasedAction::Encode,
            ),
        },
        (LeasedPhase::RunningFlow, LeasedEvent::FlowStale) => (
            LeasedPhase::Done,
            LeasedAction::Return,
        ),
        (LeasedPhase::RunningFlow, LeasedEvent::FlowEnded { state, saved }) => {
            if saved {
                (LeasedPhase::Finishing, LeasedAction::Finish(FinishKind::SavedFlow))
            } else {
                (LeasedPhase::Encoding { state }, LeasedAction::Encode)
            }
        },
        (LeasedPhase::Encoding { state }, LeasedEvent::Encoded) => (
            LeasedPhase::Finishing,
            LeasedAction::Finish(FinishKind::Plain(state)),
        ),
        (LeasedPhase::Encoding { .. }, LeasedEvent::EncodingFailed) => (
            LeasedPhase::Done,
            LeasedAction::Fail,
        ),
        (LeasedPhase::Finishing, LeasedEvent::Finished) => (
            LeasedPhase::Replaying,
            LeasedAction::Replay,
        ),
        (LeasedPhase::Replaying, LeasedEvent::Replayed) => (
            LeasedPhase::Publishing,
            LeasedAction::Publish,
        ),
        (LeasedPhase::Replaying, LeasedEvent::ReplayFailed) => (
            LeasedPhase::Done,
            LeasedAction::Fail,
        ),
        (LeasedPhase::Publishing, LeasedEvent::Published) => (
            LeasedPhase::Done,
            LeasedAction::Return,
        ),
        _ => (phase, LeasedAction::Ignore),
    }
}

/// Phase and action after `events`.
pub open spec fn leased_run(delayed: bool, kind: OperationKind, events: Seq<LeasedEvent>) -> (
    LeasedPhase,
    LeasedAction,
)
    decreases events.len(),
{
    if events.len() == 0 {
        leased_start_of(delayed)
    } else {
        spec_leased_step(kind, leased_run(delayed, kind, events.drop_last()).0, events.last())
    }
}

spec fn has_finished(events: Seq<LeasedEvent>) -> bool {
    events.contains(LeasedEvent::Finished)
}

proof fn lemma_finished_before_replay(
    delayed: bool,
    kind: OperationKind,
    events: Seq<LeasedEvent>,
)
    ensures
        ({
            let phase = leased_run(delayed, kind, events).0;
            phase is Replaying || phase is Publishing ==> has_finished(events)
        }),
    decreases events.len(),
{
    if events.len() > 0 {
        let before = events.drop_last();
        lemma_finished_before_replay(delayed, kind, before);
        if has_finished(before) {
            let i = choose|i: int| 0 <= i < before.len() && before[i] == LeasedEvent::Finished;
            assert(events[i] == LeasedEvent::Finished);
        }
        if events.last() == LeasedEvent::Finished {
            assert(events[events.len() - 1] == LeasedEvent::Finished);
        }
    }
}

/// Watching callers are told of a result only once it is stored.
pub proof fn law_results_are_stored_before_published(
    delayed: bool,
    kind: OperationKind,
    events: Seq<LeasedEvent>,
)
    requires
        leased_run(delayed, kind, events).1 == LeasedAction::Publish,
    ensures
        events.contains(LeasedEvent::Finished),
{
    lemma_finished_before_replay(delayed, kind, events);
}

/// A flow result that its checkpoint already holds is finished from there, and
/// under no other state.
pub proof fn law_saved_flow_results_are_kept(
    delayed: bool,
    kind: OperationKind,
    events: Seq<LeasedEvent>,
)
    requires
        events.len() > 0,
        leased_run(delayed, kind, events.drop_last()).0 is RunningFlow,
        events.last() matches LeasedEvent::FlowEnded { saved, .. } && saved,
    ensures
        leased_run(delayed, kind, events).1 == LeasedAction::Finish(FinishKind::SavedFlow),
{
}

/// A flow that failed before it had a saved result is encoded and then finished
/// as failed.
pub proof fn law_unsaved_failures_finish_as_failed(
    delayed: bool,
    kind: OperationKind,
    events: Seq<LeasedEvent>,
)
    requires
        leased_run(delayed, kind, events).0 is RunningFlow,
    ensures
        ({
            let ended = events.push(
                LeasedEvent::FlowEnded { state: TerminalState::Failed, saved: false },
            );
            &&& leased_run(delayed, kind, ended).1 == LeasedAction::Encode
            &&& leased_run(delayed, kind, ended.push(LeasedEvent::Encoded)).1
                == LeasedAction::Finish(FinishKind::Plain(TerminalState::Failed))
        }),
{
    let ended = events.push(LeasedEvent::FlowEnded { state: TerminalState::Failed, saved: false });
    assert(ended.drop_last() =~= events);
    assert(ended.push(LeasedEvent::Encoded).drop_last() =~= ended);
}

// Scheduling

/// What a claim gave.
#[derive(Clone, Copy, Debug, PartialEq, Eq, Structural)]
pub enum ClaimEnd {
    Claimed,
    NothingQueued,
    Failed(StoreFault),
}

/// What the scheduler does about a claim.
#[derive(Clone, Copy, Debug, PartialEq, Eq, Structural)]
pub enum ClaimAction {
    /// Hand the request to a worker and claim again.
    Spawn,
    EndPass,
    /// Fail the request whose authorization is corrupt and claim again.
    Quarantine,
    FailPass,
}

/// What the scheduler does about a claim.
pub open spec fn claim_action_of(end: ClaimEnd) -> ClaimAction {
    match end {
        ClaimEnd::Claimed => ClaimAction::Spawn,
        ClaimEnd::NothingQueued => ClaimAction::EndPass,
        ClaimEnd::Failed(StoreFault::CorruptFlowAuthorization) => ClaimAction::Quarantine,
        ClaimEnd::Failed(_) => ClaimAction::FailPass,
    }
}

/// Decides what the scheduler does about a claim. One corrupt request does not
/// hold up the others.
pub fn claim_action(end: ClaimEnd) -> (action: ClaimAction)
    ensures
        action == claim_action_of(end),
{
    match end {
        ClaimEnd::Claimed => ClaimAction::Spawn,
        ClaimEnd::NothingQueued => ClaimAction::EndPass,
        ClaimEnd::Failed(fault) => {
            if fault == StoreFault::CorruptFlowAuthorization {
                ClaimAction::Quarantine
            } else {
                ClaimAction::FailPass
            }
        },
    }
}

/// What happened to the scheduler between passes.
#[derive(Clone, Copy, Debug, PartialEq, Eq, Structural)]
pub enum SchedulerEvent {
    Tick,
    Woken,
    /// Nobody can wake the scheduler any more.
    WakeupsClosed,
    WorkerFinished,
    WorkerFailed,
    WorkerPanicked { cancelled: bool },
}

/// What the scheduler does about an event.
#[derive(Clone, Copy, Debug, PartialEq, Eq, Structural)]
pub enum SchedulerAction {
    NextPass,
    LogWorkerFailure,
    LogWorkerPanic,
    Return,
}

/// What the scheduler does about an event.
pub open spec fn scheduler_action_of(event: SchedulerEvent, workers_left: bool) -> SchedulerAction {
    match event {
        SchedulerEvent::Tick | SchedulerEvent::Woken | SchedulerEvent::WorkerFinished => {
            SchedulerAction::NextPass
        },
        SchedulerEvent::WakeupsClosed => if workers_left {
            SchedulerAction::NextPass
        } else {
            SchedulerAction::Return
        },
        SchedulerEvent::WorkerFailed => SchedulerAction::LogWorkerFailure,
        SchedulerEvent::WorkerPanicked { cancelled } => if cancelled {
            SchedulerAction::NextPass
        } else {
            SchedulerAction::LogWorkerPanic
        },
    }
}

/// Decides what the scheduler does about an event. It ends only when nobody can
/// wake it and no worker is left; no failure ends it.
pub fn scheduler_step(event: SchedulerEvent, workers_left: bool) -> (action: SchedulerAction)
    ensures
        action == scheduler_action_of(event, workers_left),
        action == SchedulerAction::Return ==> event == SchedulerEvent::WakeupsClosed
            && !workers_left,
{
    match event {
        SchedulerEvent::Tick | SchedulerEvent::Woken | SchedulerEvent::WorkerFinished => {
            SchedulerAction::NextPass
        },
        SchedulerEvent::WakeupsClosed => {
            if workers_left {
                SchedulerAction::NextPass
            } else {
                SchedulerAction::Return
            }
        },
        SchedulerEvent::WorkerFailed => SchedulerAction::LogWorkerFailure,
        SchedulerEvent::WorkerPanicked { cancelled } => {
            if cancelled {
                SchedulerAction::NextPass
            } else {
                SchedulerAction::LogWorkerPanic
            }
        },
    }
}

/// The result of a request whose flow authorization is corrupt.
pub fn corrupt_authorization_failure() -> (failure: Failure)
    ensures
        failure.says(FailureCode::Internal, "stored flow authorization is invalid"@, None),
{
    Failure::new(FailureCode::Internal, "stored flow authorization is invalid")
}

// What becomes of a claimed request, told by its events alone

/// The event can come of the action.
pub open spec fn leased_fits(action: LeasedAction, event: LeasedEvent) -> bool {
    match action {
        LeasedAction::Wait => event is DelayElapsed || event is Renewed || event is PollFailed
            || event is Failed,
        LeasedAction::CountQueue => event is QueueCounted || event is Failed,
        LeasedAction::RunFlow => event is FlowEnded || event is FlowStale || event is Failed,
        LeasedAction::Encode => event is Encoded || event is EncodingFailed || event is Failed,
        LeasedAction::Finish(_) => event is Finished || event is Failed,
        LeasedAction::Replay => event is Replayed || event is ReplayFailed || event is Failed,
        LeasedAction::Publish => event is Published || event is Failed,
        LeasedAction::Return | LeasedAction::Fail | LeasedAction::Ignore => false,
    }
}

/// Every one of `events` came of the action before it.
pub open spec fn leased_told(delayed: bool, kind: OperationKind, events: Seq<LeasedEvent>) -> bool
    decreases events.len(),
{
    events.len() == 0 || {
        &&& leased_told(delayed, kind, events.drop_last())
        &&& leased_fits(leased_run(delayed, kind, events.drop_last()).1, events.last())
    }
}

spec fn leased_waits(phase: LeasedPhase, action: LeasedAction) -> bool {
    match phase {
        LeasedPhase::Delaying => action is Wait,
        LeasedPhase::Counting => action is CountQueue,
        LeasedPhase::RunningFlow => action is RunFlow,
        LeasedPhase::Encoding { .. } => action is Encode,
        LeasedPhase::Finishing => action is Finish,
        LeasedPhase::Replaying => action is Replay,
        LeasedPhase::Publishing => action is Publish,
        LeasedPhase::Done => action is Return || action is Fail,
    }
}

proof fn lemma_leased_told(delayed: bool, kind: OperationKind, events: Seq<LeasedEvent>)
    requires
        leased_told(delayed, kind, events),
    ensures
        leased_waits(
            leased_run(delayed, kind, events).0,
            leased_run(delayed, kind, events).1,
        ),
    decreases events.len(),
{
    if events.len() > 0 {
        lemma_leased_told(delayed, kind, events.drop_last());
    }
}

/// A claimed request waits first exactly where a delay is asked for, and goes on
/// when the delay is over or the request is cancelled in it, not before.
pub proof fn law_delays_end_when_over_or_cancelled(
    delayed: bool,
    kind: OperationKind,
    events: Seq<LeasedEvent>,
)
    requires
        leased_told(delayed, kind, events),
    ensures
        events.len() == 0 ==> leased_run(delayed, kind, events).1 == if delayed {
            LeasedAction::Wait
        } else {
            LeasedAction::CountQueue
        },
        events.len() > 0 ==> {
            let next = leased_run(delayed, kind, events).1;
            &&& next == LeasedAction::Wait <==> events.last() == LeasedEvent::Renewed {
                cancelled: false,
            }
            &&& next == LeasedAction::CountQueue <==> events.last() == LeasedEvent::DelayElapsed
                || events.last() == LeasedEvent::Renewed { cancelled: true }
        },
{
    lemma_leased_told(delayed, kind, events);
    if events.len() > 0 {
        lemma_leased_told(delayed, kind, events.drop_last());
    }
}

/// Once the queue is counted a flow is run, and nothing else is; anything else is
/// answered at once, and so is a flow whose result is not stored yet.
pub proof fn law_only_flows_are_run(
    delayed: bool,
    kind: OperationKind,
    events: Seq<LeasedEvent>,
)
    requires
        events.len() > 0,
        leased_told(delayed, kind, events),
    ensures
        ({
            let next = leased_run(delayed, kind, events).1;
            &&& next == LeasedAction::RunFlow <==> events.last() == LeasedEvent::QueueCounted
                && kind == OperationKind::Flow
            &&& next == LeasedAction::Encode <==> (events.last() == LeasedEvent::QueueCounted
                && kind != OperationKind::Flow) || (events.last() matches LeasedEvent::FlowEnded {
                saved,
                ..
            } && !saved)
            &&& next == LeasedAction::Finish(FinishKind::SavedFlow) <==> (
            events.last() matches LeasedEvent::FlowEnded { saved, .. } && saved)
        }),
{
    lemma_leased_told(delayed, kind, events.drop_last());
}

/// A request ends as it went: a status succeeds, an operation that nobody knows
/// fails, and a flow ends in the state that it ended in. Nothing is finished
/// with a result of its own before that result is encoded.
pub proof fn law_requests_end_as_they_went(
    delayed: bool,
    kind: OperationKind,
    events: Seq<LeasedEvent>,
)
    requires
        events.len() > 1,
        leased_told(delayed, kind, events),
    ensures
        ({
            let next = leased_run(delayed, kind, events).1;
            let earlier = events[events.len() - 2];
            &&& (next matches LeasedAction::Finish(finish) && finish is Plain) <==> events.last()
                == LeasedEvent::Encoded
            &&& next matches LeasedAction::Finish(FinishKind::Plain(state)) ==> {
                &&& state == TerminalState::Succeeded <==> (earlier == LeasedEvent::QueueCounted
                    && kind == OperationKind::Status) || (earlier matches LeasedEvent::FlowEnded {
                    state: ended,
                    ..
                } && ended == TerminalState::Succeeded)
                &&& state == TerminalState::Failed <==> (earlier == LeasedEvent::QueueCounted
                    && kind == OperationKind::Unknown) || (earlier matches LeasedEvent::FlowEnded {
                    state: ended,
                    ..
                } && ended == TerminalState::Failed)
                &&& state == TerminalState::Cancelled <==> (
                earlier matches LeasedEvent::FlowEnded { state: ended, .. } && ended
                    == TerminalState::Cancelled)
            }
        }),
{
    reveal_with_fuel(leased_run, 3);
    reveal_with_fuel(leased_told, 3);
    let before = events.drop_last();
    assert(before.last() == events[events.len() - 2]);
    lemma_leased_told(delayed, kind, before);
    lemma_leased_told(delayed, kind, before.drop_last());
}

/// What is finished is read again, and what is read is published.
pub proof fn law_finished_requests_are_published(
    delayed: bool,
    kind: OperationKind,
    events: Seq<LeasedEvent>,
)
    requires
        events.len() > 0,
        leased_told(delayed, kind, events),
    ensures
        ({
            let next = leased_run(delayed, kind, events).1;
            &&& next == LeasedAction::Replay <==> events.last() == LeasedEvent::Finished
            &&& next == LeasedAction::Publish <==> events.last() == LeasedEvent::Replayed
        }),
{
    lemma_leased_told(delayed, kind, events.drop_last());
}

/// A worker is done when the result is published, or when the request is somebody
/// else's: the flow lost its lease, or the store says so in a delay, during the
/// flow or when the request is finished. Every other failure fails the worker,
/// and nothing that it is told is passed over.
pub proof fn law_workers_give_way_to_the_lease(
    delayed: bool,
    kind: OperationKind,
    events: Seq<LeasedEvent>,
)
    requires
        events.len() > 0,
        leased_told(delayed, kind, events),
    ensures
        ({
            let asked = leased_run(delayed, kind, events.drop_last()).1;
            let next = leased_run(delayed, kind, events).1;
            let lost = events.last() == LeasedEvent::Failed(StoreFault::StaleLease) && (
            asked is Wait || asked is RunFlow || asked is Finish);
            &&& next == LeasedAction::Return <==> events.last() == LeasedEvent::Published
                || events.last() == LeasedEvent::FlowStale || lost
            &&& next == LeasedAction::Fail <==> events.last() == LeasedEvent::PollFailed
                || events.last() == LeasedEvent::EncodingFailed || events.last()
                == LeasedEvent::ReplayFailed || (events.last() is Failed && !lost)
            &&& next != LeasedAction::Ignore
        }),
{
    lemma_leased_told(delayed, kind, events.drop_last());
}

/// A stored kind names a status or a flow by its own word, and nothing by any
/// other.
pub proof fn law_operations_are_known_by_name(kind: Seq<char>)
    ensures
        operation_of("daemon_status"@) == OperationKind::Status,
        operation_of("status"@) == OperationKind::Status,
        operation_of("flow_run"@) == OperationKind::Flow,
        kind != "daemon_status"@ && kind != "status"@ && kind != "flow_run"@ ==> operation_of(
            kind,
        ) == OperationKind::Unknown,
{
    reveal_strlit("daemon_status");
    reveal_strlit("status");
    reveal_strlit("flow_run");
    assert("flow_run"@[0] == 'f');
    assert("daemon_status"@[0] == 'd');
    assert("status"@[0] == 's');
}

/// Only a corrupt authorization is quarantined, only what was claimed is handed
/// out, and a pass ends when nothing is queued; any other failure fails it.
pub proof fn law_claims_are_acted_upon(end: ClaimEnd)
    ensures
        claim_action_of(end) == ClaimAction::Spawn <==> end == ClaimEnd::Claimed,
        claim_action_of(end) == ClaimAction::EndPass <==> end == ClaimEnd::NothingQueued,
        claim_action_of(end) == ClaimAction::Quarantine <==> end == ClaimEnd::Failed(
            StoreFault::CorruptFlowAuthorization,
        ),
        claim_action_of(end) == ClaimAction::FailPass <==> (end matches ClaimEnd::Failed(fault)
            && fault != StoreFault::CorruptFlowAuthorization),
{
}

/// The scheduler ends only when nobody can wake it and no worker is left; every
/// failure and every panic that nobody asked for is logged, and nothing else.
pub proof fn law_schedulers_outlive_failures(event: SchedulerEvent, workers_left: bool)
    ensures
        ({
            let action = scheduler_action_of(event, workers_left);
            &&& action == SchedulerAction::Return <==> event == SchedulerEvent::WakeupsClosed
                && !workers_left
            &&& action == SchedulerAction::LogWorkerFailure <==> event
                == SchedulerEvent::WorkerFailed
            &&& action == SchedulerAction::LogWorkerPanic <==> event
                == SchedulerEvent::WorkerPanicked { cancelled: false }
        }),
{
}

/// What did not come of what was asked is passed over and changes nothing, and
/// once a request is over it is not taken up again.
pub proof fn law_stray_reports_are_passed_over(
    delayed: bool,
    kind: OperationKind,
    events: Seq<LeasedEvent>,
    event: LeasedEvent,
)
    requires
        leased_told(delayed, kind, events),
        !leased_fits(leased_run(delayed, kind, events).1, event),
    ensures
        leased_run(delayed, kind, events.push(event)).1 == LeasedAction::Ignore,
        leased_run(delayed, kind, events.push(event)).0 == leased_run(delayed, kind, events).0,
{
    lemma_leased_told(delayed, kind, events);
    assert(events.push(event).drop_last() =~= events);
}

} // verus!
