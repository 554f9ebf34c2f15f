//! Requests that are about other requests: cancelling, replaying, waiting for
//! and fetching results, and following a run that was just accepted.

use vstd::prelude::*;

use crate::answers::{Answer, StoreErrorKind, store_failure, store_failure_code};
use crate::identifiers::valid_replay_cursor;
use crate::leased::TerminalState;
use crate::messages::{
    ReadEvent, ResultEnvelope, ServerMessage, StoredResultError, replay_messages_without_result,
    reports_event,
};
use crate::protocol::{Failure, FailureCode, OperationTruth};
use crate::text::same_text;

verus! {

// Looking a target up

/// The requests that look a target up.
#[derive(Clone, Copy, Debug, PartialEq, Eq, Structural)]
pub enum TargetUse {
    Cancel,
    Replay,
    Wait,
    Fetch,
}

/// What the store knows of a target.
#[derive(Clone, Copy, Debug, PartialEq, Eq, Structural)]
pub enum TargetLookup {
    Found { same_project: bool },
    Missing,
    StoreFailed,
}

/// What to do about a target.
pub enum TargetVerdict {
    Proceed,
    Refuse(Failure),
    /// The handler ends with the store's error.
    Fail,
}

/// `verdict` is the verdict on a target.
pub open spec fn judges_target(
    wanted: TargetUse,
    lookup: TargetLookup,
    verdict: TargetVerdict,
) -> bool {
    match lookup {
        TargetLookup::Found { same_project: true } => verdict is Proceed,
        TargetLookup::Found { same_project: false } => {
            verdict matches TargetVerdict::Refuse(failure) && failure.says(
                FailureCode::NotFound,
                "target request was not found in this project"@,
                None,
            )
        },
        TargetLookup::Missing => {
            verdict matches TargetVerdict::Refuse(failure) && failure.says(
                FailureCode::NotFound,
                if wanted == TargetUse::Cancel {
                    "target request was not found"@
                } else {
                    "target request was not found in this project"@
                },
                None,
            )
        },
        TargetLookup::StoreFailed => verdict is Fail,
    }
}

/// Judges a target that was looked up. A target of another project is as good
/// as none.
pub fn judge_target(wanted: TargetUse, lookup: TargetLookup) -> (verdict: TargetVerdict)
    ensures
        judges_target(wanted, lookup, verdict),
{
    match lookup {
        TargetLookup::Found { same_project } => {
            if same_project {
                TargetVerdict::Proceed
            } else {
                TargetVerdict::Refuse(
                    Failure::new(
                        FailureCode::NotFound,
                        "target request was not found in this project",
                    ),
                )
            }
        },
        TargetLookup::Missing => {
            let message = if wanted == TargetUse::Cancel {
                "target request was not found"
            } else {
                "target request was not found in this project"
            };
            TargetVerdict::Refuse(Failure::new(FailureCode::NotFound, message))
        },
        TargetLookup::StoreFailed => TargetVerdict::Fail,
    }
}

/// Refuses a cursor that the store cannot hold.
pub fn check_cursor(wanted: TargetUse, after_sequence: u64) -> (refusal: Option<Failure>)
    ensures
        match refusal {
            Some(failure) => {
                &&& after_sequence > i64::MAX
                &&& failure.says(
                    FailureCode::InvalidRequest,
                    if wanted == TargetUse::Wait {
                        "wait sequence exceeds the supported range"@
                    } else {
                        "replay sequence exceeds the supported range"@
                    },
                    None,
                )
            },
            None => after_sequence <= i64::MAX,
        },
{
    if valid_replay_cursor(after_sequence) {
        return None;
    }
    let message = if wanted == TargetUse::Wait {
        "wait sequence exceeds the supported range"
    } else {
        "replay sequence exceeds the supported range"
    };
    Some(Failure::new(FailureCode::InvalidRequest, message))
}

// Cancelling

/// What a cancellation did.
#[derive(Clone, Copy, Debug, PartialEq, Eq, Structural)]
pub enum CancelOutcome {
    Cancelled,
    CancellationRequested,
    AlreadyRequested,
    AlreadyTerminal(TerminalState),
}

/// What a caller is told of a cancellation.
#[derive(Clone, Copy, Debug, PartialEq, Eq, Structural)]
pub enum CancellationDisposition {
    Requested,
    AlreadyRequested,
    AlreadyCancelled,
    AlreadyTerminal,
}

/// How a cancellation is presented.
pub open spec fn presentation_of(outcome: CancelOutcome) -> (
    CancellationDisposition,
    OperationTruth,
) {
    match outcome {
        CancelOutcome::Cancelled | CancelOutcome::CancellationRequested => (
            CancellationDisposition::Requested,
            OperationTruth::Changed,
        ),
        CancelOutcome::AlreadyRequested => (
            CancellationDisposition::AlreadyRequested,
            OperationTruth::Observed,
        ),
        CancelOutcome::AlreadyTerminal(TerminalState::Cancelled) => (
            CancellationDisposition::AlreadyCancelled,
            OperationTruth::Observed,
        ),
        CancelOutcome::AlreadyTerminal(_) => (
            CancellationDisposition::AlreadyTerminal,
            OperationTruth::Observed,
        ),
    }
}

/// Presents a cancellation. Only one that this request brought about counts as
/// a change.
pub fn cancellation_presentation(outcome: CancelOutcome) -> (presented: (
    CancellationDisposition,
    OperationTruth,
))
    ensures
        presented == presentation_of(outcome),
        presented.1 == OperationTruth::Changed <==> presented.0
            == CancellationDisposition::Requested,
{
    let disposition = match outcome {
        CancelOutcome::Cancelled | CancelOutcome::CancellationRequested => {
            CancellationDisposition::Requested
        },
        CancelOutcome::AlreadyRequested => CancellationDisposition::AlreadyRequested,
        CancelOutcome::AlreadyTerminal(TerminalState::Cancelled) => {
            CancellationDisposition::AlreadyCancelled
        },
        CancelOutcome::AlreadyTerminal(_) => CancellationDisposition::AlreadyTerminal,
    };
    let truth = if disposition == CancellationDisposition::Requested {
        OperationTruth::Changed
    } else {
        OperationTruth::Observed
    };
    (disposition, truth)
}

/// The result that a cancelled target is left with.
pub fn cancelled_result(version: u16, target_request_id: &str, target_project_id: &str) -> (result:
    ResultEnvelope<Failure>)
    ensures
        result.protocol_version == version,
        result.request_id@ == target_request_id@,
        result.project_id@ == target_project_id@,
        result.body.says(FailureCode::Cancelled, "request was cancelled"@, None),
{
    ResultEnvelope {
        protocol_version: version,
        request_id: target_request_id.to_owned(),
        project_id: target_project_id.to_owned(),
        body: Failure::new(FailureCode::Cancelled, "request was cancelled"),
    }
}

/// What came of the last action.
#[derive(Clone, Copy, Debug, PartialEq, Eq, Structural)]
pub enum CancelEvent {
    Target(TargetLookup),
    Encoded,
    Outcome(CancelOutcome),
    Replied,
    Replayed { terminal: bool },
    Published,
    /// The store or the encoding failed.
    Failed,
}

/// Work to perform before the next event.
#[derive(Clone, Copy, Debug, PartialEq, Eq, Structural)]
pub enum CancelAction {
    LookUp,
    Refuse(TargetLookup),
    EncodeResult,
    Cancel,
    Reply(CancelOutcome),
    /// Read the target's events from the start.
    Replay,
    Publish { terminal: bool },
    WakeScheduler,
    Fail,
    Ignore,
}

/// What the handler is waiting for.
#[derive(Clone, Copy, Debug, PartialEq, Eq, Structural)]
pub enum CancelPhase {
    LookingUp,
    Encoding,
    Cancelling,
    Replying,
    Replaying,
    Publishing,
    Done,
}

/// The rule of a cancellation, which starts by looking its target up.
pub open spec fn spec_cancel_step(phase: CancelPhase, event: CancelEvent) -> (
    CancelPhase,
    CancelAction,
) {
    match (phase, event) {
        (CancelPhase::LookingUp, CancelEvent::Target(lookup)) => match lookup {
            TargetLookup::Found { same_project: true } => (
                CancelPhase::Encoding,
                CancelAction::EncodeResult,
            ),
            TargetLookup::StoreFailed => (CancelPhase::Done, CancelAction::Fail),
            _ => (CancelPhase::Done, CancelAction::Refuse(lookup)),
        },
        (CancelPhase::Encoding, CancelEvent::Encoded) => (
            CancelPhase::Cancelling,
            CancelAction::Cancel,
        ),
        (CancelPhase::Cancelling, CancelEvent::Outcome(outcome)) => (
            CancelPhase::Replying,
            CancelAction::Reply(outcome),
        ),
        (CancelPhase::Replying, CancelEvent::Replied) => (
            CancelPhase::Replaying,
            CancelAction::Replay,
        ),
        (CancelPhase::Replaying, CancelEvent::Replayed { terminal }) => (
            CancelPhase::Publishing,
            CancelAction::Publish { terminal },
        ),
        (CancelPhase::Publishing, CancelEvent::Published) => (
            CancelPhase::Done,
            CancelAction::WakeScheduler,
        ),
        (
            CancelPhase::Encoding | CancelPhase::Cancelling | CancelPhase::Replaying,
            CancelEvent::Failed,
        ) => (CancelPhase::Done, CancelAction::Fail),
        _ => (phase, CancelAction::Ignore),
    }
}

/// Decides what follows `event` in a cancellation.
pub fn cancel_step(phase: CancelPhase, event: CancelEvent) -> (next: (CancelPhase, CancelAction))
    ensures
        next == spec_cancel_step(phase, event),
{
    match (phase, event) {
        (CancelPhase::LookingUp, CancelEvent::Target(lookup)) => match lookup {
            TargetLookup::Found { same_project } => {
                if same_project {
                    (CancelPhase::Encoding, CancelAction::EncodeResult)
                } else {
                    (CancelPhase::Done, CancelAction::Refuse(lookup))
                }
            },
            TargetLookup::StoreFailed => (CancelPhase::Done, CancelAction::Fail),
            TargetLookup::Missing => (CancelPhase::Done, CancelAction::Refuse(lookup)),
        },
        (CancelPhase::Encoding, CancelEvent::Encoded) => (
            CancelPhase::Cancelling,
            CancelAction::Cancel,
        ),
        (CancelPhase::Cancelling, CancelEvent::Outcome(outcome)) => (
            CancelPhase::Replying,
            CancelAction::Reply(outcome),
        ),
        (CancelPhase::Replying, CancelEvent::Replied) => (
            CancelPhase::Replaying,
            CancelAction::Replay,
        ),
        (CancelPhase::Replaying, CancelEvent::Replayed { terminal }) => (
            CancelPhase::Publishing,
            CancelAction::Publish { terminal },
        ),
        (CancelPhase::Publishing, CancelEvent::Published) => (
            CancelPhase::Done,
            CancelAction::WakeScheduler,
        ),
        (
            CancelPhase::Encoding | CancelPhase::Cancelling | CancelPhase::Replaying,
            CancelEvent::Failed,
        ) => (CancelPhase::Done, CancelAction::Fail),
        _ => (phase, CancelAction::Ignore),
    }
}

/// Phase and action after `events` of a cancellation.
pub open spec fn cancel_run(events: Seq<CancelEvent>) -> (CancelPhase, CancelAction)
    decreases events.len(),
{
    if events.len() == 0 {
        (CancelPhase::LookingUp, CancelAction::LookUp)
    } else {
        spec_cancel_step(cancel_run(events.drop_last()).0, events.last())
    }
}

/// The target was found in the caller's project.
pub open spec fn found_in_project(events: Seq<CancelEvent>) -> bool {
    events.contains(CancelEvent::Target(TargetLookup::Found { same_project: true }))
}

proof fn lemma_cancel_invariant(events: Seq<CancelEvent>)
    ensures
        ({
            let (phase, action) = cancel_run(events);
            &&& phase != CancelPhase::LookingUp && phase != CancelPhase::Done ==> found_in_project(
                events,
            )
            &&& action == CancelAction::Cancel ==> found_in_project(events)
        }),
    decreases events.len(),
{
    if events.len() > 0 {
        let before = events.drop_last();
        lemma_cancel_invariant(before);
        let found = CancelEvent::Target(TargetLookup::Found { same_project: true });
        if before.contains(found) {
            let i = choose|i: int| 0 <= i < before.len() && before[i] == found;
            assert(events[i] == found);
        }
        if events.last() == found {
            assert(events[events.len() - 1] == found);
        }
    }
}

/// Nothing is cancelled but a request of the caller's own project.
pub proof fn law_only_own_requests_are_cancelled(events: Seq<CancelEvent>)
    requires
        cancel_run(events).1 == CancelAction::Cancel,
    ensures
        found_in_project(events),
{
    lemma_cancel_invariant(events);
}

// Replaying

/// The sequence that a replay reaches: that of its last event, or where it
/// started from.
pub open spec fn reached_by<E>(events: Seq<ReadEvent<E>>, after: u64) -> u64 {
    if events.len() == 0 {
        after
    } else {
        events.last().sequence
    }
}

pub fn reached_sequence<E>(events: &Vec<ReadEvent<E>>, after: u64) -> (sequence: u64)
    ensures
        sequence == reached_by(events@, after),
{
    if events.len() == 0 {
        after
    } else {
        events[events.len() - 1].sequence
    }
}

/// What a caller is told who replays a request of which it gets no result.
pub struct ReplayReport {
    pub target_request_id: String,
    pub through_sequence: u64,
    pub pending: bool,
}

/// What follows the replayed events.
pub enum ReplayEnding<R> {
    /// The result of the request that was replayed, as it is stored.
    Stored(R),
    Report(ReplayReport),
}

/// A replayed request.
pub struct ReplayAnswer<E, B, R> {
    pub events: Vec<ServerMessage<E, B>>,
    pub ending: ReplayEnding<R>,
}

/// Answers a replay. A request that replays itself ends with its own result,
/// once there is one; any other replay ends with a report, for which the stored
/// result is not read.
pub fn replay_answer<E, B, R>(
    version: u16,
    request_id: &str,
    target_request_id: &str,
    project_id: &str,
    after_sequence: u64,
    events: Vec<ReadEvent<E>>,
    result: Option<R>,
) -> (answer: ReplayAnswer<E, B, R>)
    ensures
        answer.events@.len() == events@.len(),
        forall|i: int|
            0 <= i < events@.len() ==> reports_event(
                #[trigger] answer.events@[i],
                events@[i],
                version,
                target_request_id@,
                project_id@,
            ),
        match answer.ending {
            ReplayEnding::Stored(stored) => request_id@ == target_request_id@ && result == Some(
                stored,
            ),
            ReplayEnding::Report(report) => {
                &&& request_id@ != target_request_id@ || result is None
                &&& report.target_request_id@ == target_request_id@
                &&& report.through_sequence == reached_by(events@, after_sequence)
                &&& report.pending == (result is None)
            },
        },
{
    let through_sequence = reached_sequence(&events, after_sequence);
    let messages = replay_messages_without_result(version, project_id, target_request_id, events);
    let own = same_text(request_id, target_request_id);
    match result {
        Some(stored) => {
            if own {
                ReplayAnswer { events: messages, ending: ReplayEnding::Stored(stored) }
            } else {
                ReplayAnswer {
                    events: messages,
                    ending: ReplayEnding::Report(
                        ReplayReport {
                            target_request_id: target_request_id.to_owned(),
                            through_sequence,
                            pending: false,
                        },
                    ),
                }
            }
        },
        None => ReplayAnswer {
            events: messages,
            ending: ReplayEnding::Report(
                ReplayReport {
                    target_request_id: target_request_id.to_owned(),
                    through_sequence,
                    pending: true,
                },
            ),
        },
    }
}

// Results of other requests

/// Puts the observer's address on a stored result. A result that belongs to
/// another request or project is refused.
pub fn remap_stored_result<B>(
    stored: ResultEnvelope<B>,
    target_request_id: &str,
    project_id: &str,
    observer_request_id: &str,
) -> (remapped: Result<ResultEnvelope<B>, StoredResultError>)
    ensures
        match remapped {
            Ok(sent) => {
                &&& stored.request_id@ == target_request_id@ && stored.project_id@ == project_id@
                &&& sent.protocol_version == stored.protocol_version
                &&& sent.request_id@ == observer_request_id@
                &&& sent.project_id@ == project_id@
                &&& sent.body == stored.body
            },
            Err(error) => {
                &&& error == StoredResultError::WrongRequest
                &&& stored.request_id@ != target_request_id@ || stored.project_id@ != project_id@
            },
        },
{
    if !same_text(stored.request_id.as_str(), target_request_id) || !same_text(
        stored.project_id.as_str(),
        project_id,
    ) {
        return Err(StoredResultError::WrongRequest);
    }
    Ok(
        ResultEnvelope {
            protocol_version: stored.protocol_version,
            request_id: observer_request_id.to_owned(),
            project_id: project_id.to_owned(),
            body: stored.body,
        },
    )
}

/// The messages for a caller that waits: the target's events under the target's
/// address, and its result, once there is one, under the caller's.
pub fn wait_messages<E, B>(
    version: u16,
    request_id: &str,
    target_request_id: &str,
    project_id: &str,
    events: Vec<ReadEvent<E>>,
    result: Option<ResultEnvelope<B>>,
) -> (replay: Result<Vec<ServerMessage<E, B>>, StoredResultError>)
    ensures
        match replay {
            Ok(messages) => {
                &&& messages@.len() == events@.len() + (if result is Some {
                    1int
                } else {
                    0
                })
                &&& forall|i: int|
                    0 <= i < events@.len() ==> reports_event(
                        #[trigger] messages@[i],
                        events@[i],
                        version,
                        target_request_id@,
                        project_id@,
                    )
                &&& match result {
                    Some(stored) => {
                        &&& stored.request_id@ == target_request_id@
                        &&& stored.project_id@ == project_id@
                        &&& messages@.last() matches ServerMessage::Result(sent)
                            && sent.protocol_version == stored.protocol_version
                            && sent.request_id@ == request_id@ && sent.project_id@ == project_id@
                            && sent.body == stored.body
                    },
                    None => true,
                }
            },
            Err(error) => {
                &&& error == StoredResultError::WrongRequest
                &&& result matches Some(stored) && (stored.request_id@ != target_request_id@
                    || stored.project_id@ != project_id@)
            },
        },
{
    let mut messages = replay_messages_without_result(
        version,
        project_id,
        target_request_id,
        events,
    );
    if let Some(stored) = result {
        match remap_stored_result(stored, target_request_id, project_id, request_id) {
            Ok(sent) => messages.push(ServerMessage::Result(sent)),
            Err(error) => return Err(error),
        }
    }
    Ok(messages)
}

/// Where the events of a target are read from when only its result is wanted.
pub const AFTER_EVERY_EVENT: u64 = 0x7fff_ffff_ffff_ffff;

/// What a caller gets that asks for a result.
pub enum FetchAnswer<B> {
    Stored(ResultEnvelope<B>),
    Pending(Failure),
}

/// Answers a request for a result.
pub fn fetched_result<B>(
    result: Option<ResultEnvelope<B>>,
    target_request_id: &str,
    project_id: &str,
    request_id: &str,
) -> (answer: Result<FetchAnswer<B>, StoredResultError>)
    ensures
        match answer {
            Ok(FetchAnswer::Stored(sent)) => {
                &&& result matches Some(stored)
                &&& stored.request_id@ == target_request_id@
                &&& stored.project_id@ == project_id@
                &&& sent.protocol_version == stored.protocol_version
                &&& sent.request_id@ == request_id@
                &&& sent.project_id@ == project_id@
                &&& sent.body == stored.body
            },
            Ok(FetchAnswer::Pending(failure)) => result is None && failure.says(
                FailureCode::Pending,
                "target request has not completed"@,
                None,
            ),
            Err(error) => {
                &&& error == StoredResultError::WrongRequest
                &&& result matches Some(stored) && (stored.request_id@ != target_request_id@
                    || stored.project_id@ != project_id@)
            },
        },
{
    match result {
        Some(stored) => match remap_stored_result(
            stored,
            target_request_id,
            project_id,
            request_id,
        ) {
            Ok(sent) => Ok(FetchAnswer::Stored(sent)),
            Err(error) => Err(error),
        },
        None => Ok(
            FetchAnswer::Pending(
                Failure::new(FailureCode::Pending, "target request has not completed"),
            ),
        ),
    }
}

// Following

/// The requests that follow a run.
#[derive(Clone, Copy, Debug, PartialEq, Eq, Structural)]
pub enum FollowKind {
    /// A status request that goes through the queue.
    QueuedStatus,
    FlowRun,
    Wait,
}

/// What came of the last action.
#[derive(Clone, Copy, Debug, PartialEq, Eq, Structural)]
pub enum FollowEvent {
    /// The run's events were read: whether it has a result, and the sequence
    /// that its events reach.
    Replayed { terminal: bool, reached: u64 },
    /// Whether the caller is subscribed.
    Registered(bool),
    Published,
    /// The store failed, or a stored message could not be read.
    Failed,
}

/// Work to perform before the next event.
#[derive(Clone, Copy, Debug, PartialEq, Eq, Structural)]
pub enum FollowAction {
    /// Read the run's events after a sequence.
    Replay { after: u64 },
    /// Send what was read, which ends with the result.
    Send,
    /// Send what was read, and subscribe the caller to what comes after it.
    SendAndSubscribe { last_sequence: u64 },
    /// Send what was read to every caller that watches the run.
    Publish { terminal: bool },
    WakeScheduler,
    Finish,
    Fail,
    Ignore,
}

/// What the handler is waiting for.
#[derive(Clone, Copy, Debug, PartialEq, Eq, Structural)]
pub enum FollowPhase {
    Replaying,
    Registering { last_sequence: u64 },
    ReplayingAgain,
    Publishing,
    Done,
}

/// The caller follows a run that has yet to be scheduled.
pub open spec fn wakes(kind: FollowKind) -> bool {
    kind != FollowKind::Wait
}

/// Where a follower's second reading starts.
pub open spec fn second_start(kind: FollowKind, last_sequence: u64) -> u64 {
    if kind == FollowKind::QueuedStatus {
        0
    } else {
        last_sequence
    }
}

pub open spec fn follow_ended(kind: FollowKind) -> (FollowPhase, FollowAction) {
    (
        FollowPhase::Done,
        if wakes(kind) {
            FollowAction::WakeScheduler
        } else {
            FollowAction::Finish
        },
    )
}

/// The rule of following, which starts by reading the run's events.
pub open spec fn spec_follow_step(kind: FollowKind, phase: FollowPhase, event: FollowEvent) -> (
    FollowPhase,
    FollowAction,
) {
    match (phase, event) {
        (FollowPhase::Replaying, FollowEvent::Replayed { terminal, reached }) => if terminal {
            (FollowPhase::Done, FollowAction::Send)
        } else {
            (
                FollowPhase::Registering { last_sequence: reached },
                FollowAction::SendAndSubscribe { last_sequence: reached },
            )
        },
        (FollowPhase::Registering { last_sequence }, FollowEvent::Registered(registered)) => {
            if registered {
                (
                    FollowPhase::ReplayingAgain,
                    FollowAction::Replay { after: second_start(kind, last_sequence) },
                )
            } else {
                follow_ended(kind)
            }
        },
        (FollowPhase::ReplayingAgain, FollowEvent::Replayed { terminal, .. }) => (
            FollowPhase::Publishing,
            FollowAction::Publish { terminal },
        ),
        (FollowPhase::Publishing, FollowEvent::Published) => follow_ended(kind),
        (FollowPhase::Replaying | FollowPhase::ReplayingAgain, FollowEvent::Failed) => (
            FollowPhase::Done,
            FollowAction::Fail,
        ),
        _ => (phase, FollowAction::Ignore),
    }
}

fn end_following(kind: FollowKind) -> (next: (FollowPhase, FollowAction))
    ensures
        next == follow_ended(kind),
{
    if kind == FollowKind::Wait {
        (FollowPhase::Done, FollowAction::Finish)
    } else {
        (FollowPhase::Done, FollowAction::WakeScheduler)
    }
}

/// Decides what follows `event` for a caller that follows a run.
pub fn follow_step(kind: FollowKind, phase: FollowPhase, event: FollowEvent) -> (next: (
    FollowPhase,
    FollowAction,
))
    ensures
        next == spec_follow_step(kind, phase, event),
{
    match (phase, event) {
        (FollowPhase::Replaying, FollowEvent::Replayed { terminal, reached }) => {
            if terminal {
                (FollowPhase::Done, FollowAction::Send)
            } else {
                (
                    FollowPhase::Registering { last_sequence: reached },
                    FollowAction::SendAndSubscribe { last_sequence: reached },
                )
            }
        },
        (FollowPhase::Registering { last_sequence }, FollowEvent::Registered(registered)) => {
            if registered {
                let after: u64 = if kind == FollowKind::QueuedStatus {
                    0
                } else {
                    last_sequence
                };
                (FollowPhase::ReplayingAgain, FollowAction::Replay { after })
            } else {
                end_following(kind)
            }
        },
        (FollowPhase::ReplayingAgain, FollowEvent::Replayed { terminal, .. }) => (
            FollowPhase::Publishing,
            FollowAction::Publish { terminal },
        ),
        (FollowPhase::Publishing, FollowEvent::Published) => end_following(kind),
        (FollowPhase::Replaying | FollowPhase::ReplayingAgain, FollowEvent::Failed) => (
            FollowPhase::Done,
            FollowAction::Fail,
        ),
        _ => (phase, FollowAction::Ignore),
    }
}

/// Phase and action after `events` of following. The first reading starts
/// after `after`.
pub open spec fn follow_run(kind: FollowKind, after: u64, events: Seq<FollowEvent>) -> (
    FollowPhase,
    FollowAction,
)
    decreases events.len(),
{
    if events.len() == 0 {
        (FollowPhase::Replaying, FollowAction::Replay { after })
    } else {
        spec_follow_step(kind, follow_run(kind, after, events.drop_last()).0, events.last())
    }
}

/// What was done for a follower, in order.
pub open spec fn follow_trace(kind: FollowKind, after: u64, events: Seq<FollowEvent>) -> Seq<
    FollowAction,
>
    decreases events.len(),
{
    let action = follow_run(kind, after, events).1;
    if events.len() == 0 {
        seq![action]
    } else {
        follow_trace(kind, after, events.drop_last()).push(action)
    }
}

/// A reading of the run from no later than `last_sequence` is among `actions`.
pub open spec fn rereads(actions: Seq<FollowAction>, last_sequence: u64) -> bool {
    exists|i: int|
        0 <= i < actions.len() && (
        #[trigger] actions[i] matches FollowAction::Replay { after } && after <= last_sequence)
}

/// The caller was subscribed to what comes after `last_sequence`.
pub open spec fn subscribed(actions: Seq<FollowAction>, last_sequence: u64) -> bool {
    actions.contains(FollowAction::SendAndSubscribe { last_sequence })
}

proof fn lemma_follow_invariant(kind: FollowKind, after: u64, events: Seq<FollowEvent>)
    ensures
        ({
            let (phase, action) = follow_run(kind, after, events);
            let trace = follow_trace(kind, after, events);
            &&& trace.len() == events.len() + 1
            &&& trace.last() == action
            &&& phase is Replaying ==> forall|last: u64| !subscribed(trace, last)
            &&& phase is Registering ==> subscribed(trace, phase->last_sequence) && forall|
                last: u64,
            |
                #[trigger] subscribed(trace, last) ==> last == phase->last_sequence
            &&& phase is ReplayingAgain || phase is Publishing ==> forall|last: u64| #[trigger]
                subscribed(trace, last) ==> rereads(trace, last)
            &&& action == FollowAction::Publish { terminal: true } || action
                == FollowAction::Publish { terminal: false } ==> forall|last: u64| #[trigger]
                subscribed(trace, last) ==> rereads(trace, last)
        }),
    decreases events.len(),
{
    let (phase, action) = follow_run(kind, after, events);
    let trace = follow_trace(kind, after, events);
    if events.len() == 0 {
        assert forall|last: u64| !subscribed(trace, last) by {
            assert(trace =~= seq![FollowAction::Replay { after }]);
        }
    } else {
        let before = events.drop_last();
        lemma_follow_invariant(kind, after, before);
        let earlier = follow_trace(kind, after, before);
        let from = follow_run(kind, after, before).0;
        assert(trace == earlier.push(action));
        assert forall|last: u64| #[trigger] subscribed(trace, last) implies subscribed(
            earlier,
            last,
        ) || action == (FollowAction::SendAndSubscribe { last_sequence: last }) by {
            let wanted = FollowAction::SendAndSubscribe { last_sequence: last };
            let i = choose|i: int| 0 <= i < trace.len() && trace[i] == wanted;
            if i < earlier.len() {
                assert(earlier[i] == wanted);
            }
        }
        assert forall|last: u64| #[trigger] subscribed(earlier, last) implies subscribed(
            trace,
            last,
        ) by {
            let wanted = FollowAction::SendAndSubscribe { last_sequence: last };
            let i = choose|i: int| 0 <= i < earlier.len() && earlier[i] == wanted;
            assert(trace[i] == wanted);
        }
        assert forall|last: u64| #[trigger] rereads(earlier, last) implies rereads(trace, last) by {
            let i = choose|i: int|
                0 <= i < earlier.len() && (
                #[trigger] earlier[i] matches FollowAction::Replay { after } && after <= last);
            assert(trace[i] == earlier[i]);
        }
        assert(trace[trace.len() - 1] == action);
        if let FollowAction::SendAndSubscribe { last_sequence } = action {
            assert(subscribed(trace, last_sequence));
        }
        if action is Replay {
            assert forall|last: u64| #[trigger] subscribed(trace, last) implies rereads(
                trace,
                last,
            ) by {
                assert(trace[trace.len() - 1] is Replay);
            }
        }
    }
}

/// No event falls between the first reading and the subscription: before a
/// follower's wait is over, the run is read again from no later than where the
/// subscription starts.
pub proof fn law_followers_miss_nothing(
    kind: FollowKind,
    after: u64,
    events: Seq<FollowEvent>,
    last_sequence: u64,
)
    requires
        follow_run(kind, after, events).1 is Publish,
        subscribed(follow_trace(kind, after, events), last_sequence),
    ensures
        rereads(follow_trace(kind, after, events), last_sequence),
{
    lemma_follow_invariant(kind, after, events);
}

// Approvals

/// What became of an approval.
#[derive(Clone, Copy, Debug, PartialEq, Eq, Structural)]
pub enum ApprovalDisposition {
    Approved,
    Denied,
    Expired,
}

/// What is told of a decided approval.
pub struct ApprovalDecided {
    pub approval_id: String,
    pub disposition: ApprovalDisposition,
}

/// Answers a decision on an approval. That one does not exist is not told
/// apart from that it belongs to somebody else. `reason` is what the store says.
pub fn approval_answer(
    approval_id: &str,
    outcome: Result<ApprovalDisposition, StoreErrorKind>,
    reason: &str,
) -> (answer: Answer<ApprovalDecided>)
    ensures
        match outcome {
            Ok(decided) => answer matches Answer::Success { truth, payload } && truth
                == OperationTruth::Changed && payload.approval_id@ == approval_id@
                && payload.disposition == decided,
            Err(StoreErrorKind::ApprovalNotFound) | Err(StoreErrorKind::InvalidApprovalState) => {
                answer.fails(
                    FailureCode::Forbidden,
                    "approval is unavailable for this project or caller"@,
                    None,
                )
            },
            Err(kind) => answer.fails(store_failure_code(kind), reason@, None),
        },
{
    match outcome {
        Ok(disposition) => Answer::Success {
            truth: OperationTruth::Changed,
            payload: ApprovalDecided { approval_id: approval_id.to_owned(), disposition },
        },
        Err(kind) => {
            if kind == StoreErrorKind::ApprovalNotFound || kind
                == StoreErrorKind::InvalidApprovalState {
                Answer::Failure(
                    Failure::new(
                        FailureCode::Forbidden,
                        "approval is unavailable for this project or caller",
                    ),
                )
            } else {
                Answer::Failure(store_failure(kind, reason))
            }
        },
    }
}

// The daemon itself

/// What the daemon tells of itself.
pub struct StatusReport {
    pub ready: bool,
    pub healthy: bool,
    pub daemon_version: String,
    pub protocol_version: u16,
    pub queue_depth: u64,
}

/// Answers a status request: a daemon that answers is ready and healthy.
pub fn status_answer(daemon_version: &str, protocol_version: u16, queued: u64) -> (answer: Answer<
    StatusReport,
>)
    ensures
        answer matches Answer::Success { truth, payload } && truth == OperationTruth::Observed
            && payload.ready && payload.healthy && payload.daemon_version@ == daemon_version@
            && payload.protocol_version == protocol_version && payload.queue_depth == queued,
{
    Answer::Success {
        truth: OperationTruth::Observed,
        payload: StatusReport {
            ready: true,
            healthy: true,
            daemon_version: daemon_version.to_owned(),
            protocol_version,
            queue_depth: queued,
        },
    }
}

// Requests about other requests, told by what came of them alone

/// A cancellation that this request brought about is a change; one that was
/// there before, or came too late, is only observed, and told apart.
pub proof fn law_only_new_cancellations_are_changes(outcome: CancelOutcome)
    ensures
        ({
            let (disposition, truth) = presentation_of(outcome);
            &&& truth == OperationTruth::Changed <==> outcome == CancelOutcome::Cancelled
                || outcome == CancelOutcome::CancellationRequested
            &&& truth == OperationTruth::Observed <==> truth != OperationTruth::Changed
            &&& disposition == CancellationDisposition::Requested <==> outcome
                == CancelOutcome::Cancelled || outcome == CancelOutcome::CancellationRequested
            &&& disposition == CancellationDisposition::AlreadyRequested <==> outcome
                == CancelOutcome::AlreadyRequested
            &&& disposition == CancellationDisposition::AlreadyCancelled <==> outcome
                == CancelOutcome::AlreadyTerminal(TerminalState::Cancelled)
            &&& disposition == CancellationDisposition::AlreadyTerminal <==> outcome
                == CancelOutcome::AlreadyTerminal(TerminalState::Succeeded) || outcome
                == CancelOutcome::AlreadyTerminal(TerminalState::Failed)
        }),
{
}

/// The event can come of the action.
pub open spec fn cancel_fits(action: CancelAction, event: CancelEvent) -> bool {
    match action {
        CancelAction::LookUp => event is Target,
        CancelAction::EncodeResult => event is Encoded || event is Failed,
        CancelAction::Cancel => event is Outcome || event is Failed,
        CancelAction::Reply(_) => event is Replied,
        CancelAction::Replay => event is Replayed || event is Failed,
        CancelAction::Publish { .. } => event is Published,
        _ => false,
    }
}

/// Every one of `events` came of the action before it.
pub open spec fn cancel_told(events: Seq<CancelEvent>) -> bool
    decreases events.len(),
{
    events.len() == 0 || {
        &&& cancel_told(events.drop_last())
        &&& cancel_fits(cancel_run(events.drop_last()).1, events.last())
    }
}

spec fn cancel_waits(phase: CancelPhase, action: CancelAction) -> bool {
    match phase {
        CancelPhase::LookingUp => action is LookUp,
        CancelPhase::Encoding => action is EncodeResult,
        CancelPhase::Cancelling => action is Cancel,
        CancelPhase::Replying => action is Reply,
        CancelPhase::Replaying => action is Replay,
        CancelPhase::Publishing => action is Publish,
        CancelPhase::Done => action is Refuse || action is WakeScheduler || action is Fail,
    }
}

proof fn lemma_cancel_told(events: Seq<CancelEvent>)
    requires
        cancel_told(events),
    ensures
        cancel_waits(cancel_run(events).0, cancel_run(events).1),
    decreases events.len(),
{
    if events.len() > 0 {
        lemma_cancel_told(events.drop_last());
    }
}

/// A cancellation looks its target up first. It goes on exactly with a target of
/// the caller's own project and refuses any other; what came of it is replied
/// as it came, and whoever watches the target is told. Only the store and the
/// encoding can make it fail.
pub proof fn law_cancellations_do_what_came_before(events: Seq<CancelEvent>)
    requires
        cancel_told(events),
    ensures
        events.len() == 0 ==> cancel_run(events).1 == CancelAction::LookUp,
        events.len() > 0 ==> {
            let next = cancel_run(events).1;
            let last = events.last();
            &&& next == CancelAction::EncodeResult <==> last == CancelEvent::Target(
                TargetLookup::Found { same_project: true },
            )
            &&& next == CancelAction::Refuse(TargetLookup::Missing) <==> last
                == CancelEvent::Target(TargetLookup::Missing)
            &&& next == CancelAction::Refuse(TargetLookup::Found { same_project: false })
                <==> last == CancelEvent::Target(TargetLookup::Found { same_project: false })
            &&& next != CancelAction::Refuse(TargetLookup::Found { same_project: true })
            &&& next != CancelAction::Refuse(TargetLookup::StoreFailed)
            &&& next == CancelAction::Fail <==> last == CancelEvent::Failed || last
                == CancelEvent::Target(TargetLookup::StoreFailed)
            &&& next == CancelAction::Cancel <==> last == CancelEvent::Encoded
            &&& next is Reply <==> last is Outcome
            &&& last matches CancelEvent::Outcome(outcome) ==> next == CancelAction::Reply(outcome)
            &&& next == CancelAction::Replay <==> last == CancelEvent::Replied
            &&& next is Publish <==> last is Replayed
            &&& last matches CancelEvent::Replayed { terminal } ==> next == (
            CancelAction::Publish { terminal })
            &&& next == CancelAction::WakeScheduler <==> last == CancelEvent::Published
            &&& next != CancelAction::Ignore
        },
{
    lemma_cancel_told(events);
    if events.len() > 0 {
        lemma_cancel_told(events.drop_last());
    }
}

/// The event can come of the action.
pub open spec fn follow_fits(action: FollowAction, event: FollowEvent) -> bool {
    match action {
        FollowAction::Replay { .. } => event is Replayed || event is Failed,
        FollowAction::SendAndSubscribe { .. } => event is Registered,
        FollowAction::Publish { .. } => event is Published,
        _ => false,
    }
}

/// Every one of `events` came of the action before it.
pub open spec fn follow_told(kind: FollowKind, after: u64, events: Seq<FollowEvent>) -> bool
    decreases events.len(),
{
    events.len() == 0 || {
        &&& follow_told(kind, after, events.drop_last())
        &&& follow_fits(follow_run(kind, after, events.drop_last()).1, events.last())
    }
}

spec fn follow_waits(
    phase: FollowPhase,
    action: FollowAction,
    events: Seq<FollowEvent>,
) -> bool {
    match phase {
        FollowPhase::Replaying => action is Replay && events.len() == 0,
        FollowPhase::Registering { last_sequence } => {
            &&& action == FollowAction::SendAndSubscribe { last_sequence }
            &&& events.len() == 1
            &&& events[0] matches FollowEvent::Replayed { terminal, reached } && !terminal
                && reached == last_sequence
        },
        FollowPhase::ReplayingAgain => action is Replay && events.len() == 2,
        FollowPhase::Publishing => action is Publish && events.len() == 3,
        FollowPhase::Done => action is Send || action is WakeScheduler || action is Finish
            || action is Fail,
    }
}

proof fn lemma_follow_told(kind: FollowKind, after: u64, events: Seq<FollowEvent>)
    requires
        follow_told(kind, after, events),
    ensures
        follow_waits(
            follow_run(kind, after, events).0,
            follow_run(kind, after, events).1,
            events,
        ),
    decreases events.len(),
{
    if events.len() > 0 {
        lemma_follow_told(kind, after, events.drop_last());
    }
}

/// A follower gets what there is: with the result if it is there already, or else
/// with a subscription to what comes after what was read. Once subscribed, the
/// run is read a second time, a queued status from its start and any other from
/// where the first reading ended, and what is found is sent to everybody who
/// watches. In the end the scheduler is woken for a run that it has yet to
/// take, which a wait never is.
pub proof fn law_followers_are_subscribed_until_the_result(
    kind: FollowKind,
    after: u64,
    events: Seq<FollowEvent>,
)
    requires
        follow_told(kind, after, events),
    ensures
        events.len() == 0 ==> follow_run(kind, after, events).1 == (FollowAction::Replay { after }),
        events.len() > 0 ==> {
            let next = follow_run(kind, after, events).1;
            let first = events.len() == 1;
            let last = events.last();
            let ended = last == FollowEvent::Registered(false) || last == FollowEvent::Published;
            &&& next == FollowAction::Send <==> first && (last matches FollowEvent::Replayed {
                terminal,
                ..
            } && terminal)
            &&& next is SendAndSubscribe <==> first && (last matches FollowEvent::Replayed {
                terminal,
                ..
            } && !terminal)
            &&& next matches FollowAction::SendAndSubscribe { last_sequence } ==> last
                == (FollowEvent::Replayed { terminal: false, reached: last_sequence })
            &&& next is Replay <==> last == FollowEvent::Registered(true)
            &&& next matches FollowAction::Replay { after: again } ==> (events[0] matches
                FollowEvent::Replayed { reached, .. } && again == if kind
                == FollowKind::QueuedStatus {
                0
            } else {
                reached
            })
            &&& next is Publish <==> !first && last is Replayed
            &&& next matches FollowAction::Publish { terminal } ==> (
            last matches FollowEvent::Replayed { terminal: seen, .. } && seen == terminal)
            &&& next == FollowAction::WakeScheduler <==> ended && kind != FollowKind::Wait
            &&& next == FollowAction::Finish <==> ended && kind == FollowKind::Wait
            &&& next == FollowAction::Fail <==> last == FollowEvent::Failed
            &&& next != FollowAction::Ignore
        },
{
    lemma_follow_told(kind, after, events);
    if events.len() > 0 {
        lemma_follow_told(kind, after, events.drop_last());
        if events.len() > 1 {
            assert(events.drop_last()[0] == events[0]);
        }
    }
}

/// What did not come of what was asked is passed over and changes nothing, and
/// once a cancellation is over it is not taken up again.
pub proof fn law_stray_outcomes_are_passed_over(
    events: Seq<CancelEvent>,
    event: CancelEvent,
)
    requires
        cancel_told(events),
        !cancel_fits(cancel_run(events).1, event),
    ensures
        cancel_run(events.push(event)).1 == CancelAction::Ignore,
        cancel_run(events.push(event)).0 == cancel_run(events).0,
{
    lemma_cancel_told(events);
    assert(events.push(event).drop_last() =~= events);
}

/// What did not come of what was asked is passed over and changes nothing, and
/// once following is over it is not taken up again.
pub proof fn law_stray_readings_are_passed_over(
    kind: FollowKind,
    after: u64,
    events: Seq<FollowEvent>,
    event: FollowEvent,
)
    requires
        follow_told(kind, after, events),
        !follow_fits(follow_run(kind, after, events).1, event),
    ensures
        follow_run(kind, after, events.push(event)).1 == FollowAction::Ignore,
        follow_run(kind, after, events.push(event)).0 == follow_run(kind, after, events).0,
{
    lemma_follow_told(kind, after, events);
    assert(events.push(event).drop_last() =~= events);
}

/// A reading goes as far as its last event, or stays where it started.
pub proof fn law_readings_reach_their_last_event<E>(
    events: Seq<ReadEvent<E>>,
    event: ReadEvent<E>,
    after: u64,
)
    ensures
        reached_by(Seq::<ReadEvent<E>>::empty(), after) == after,
        reached_by(events.push(event), after) == event.sequence,
{
}

/// Only a target of the caller's own project is worked on. One that is not there
/// and one of another project are both not found, and only the store's own
/// failure ends the handler.
pub proof fn law_only_own_targets_are_worked_on(
    wanted: TargetUse,
    lookup: TargetLookup,
    verdict: TargetVerdict,
)
    requires
        judges_target(wanted, lookup, verdict),
    ensures
        verdict is Proceed <==> lookup == (TargetLookup::Found { same_project: true }),
        verdict is Fail <==> lookup == TargetLookup::StoreFailed,
        verdict is Refuse <==> lookup == TargetLookup::Missing || lookup == (TargetLookup::Found {
            same_project: false,
        }),
        verdict matches TargetVerdict::Refuse(failure) ==> failure.code == FailureCode::NotFound
            && failure.recovery is None,
        wanted != TargetUse::Cancel ==> (verdict matches TargetVerdict::Refuse(failure)
            ==> failure.message@ == "target request was not found in this project"@),
{
}

} // verus!
