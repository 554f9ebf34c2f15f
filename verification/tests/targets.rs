use pam_daemon::answers::{
    evidence_chunk_is_last, evidence_failure, store_failure, Answer, StoreErrorKind,
};
use pam_daemon::leased::TerminalState;
use pam_daemon::messages::{ReadEvent, ResultEnvelope, ServerMessage, StoredResultError};
use pam_daemon::protocol::{FailureCode, OperationTruth};
use pam_daemon::targets::{
    approval_answer, cancel_step, cancellation_presentation, cancelled_result, check_cursor,
    fetched_result, follow_step, judge_target, reached_sequence, replay_answer, status_answer,
    wait_messages, ApprovalDisposition, CancelAction, CancelEvent, CancelOutcome, CancelPhase,
    CancellationDisposition, FetchAnswer, FollowAction, FollowEvent, FollowKind, FollowPhase,
    ReplayEnding, TargetLookup, TargetUse, TargetVerdict,
};

fn refusal(verdict: TargetVerdict) -> String {
    match verdict {
        TargetVerdict::Refuse(failure) => failure.message,
        TargetVerdict::Proceed | TargetVerdict::Fail => String::new(),
    }
}

fn event(sequence: u64) -> ReadEvent<u8> {
    ReadEvent { sequence, event: 1 }
}

fn stored(request: &str, project: &str) -> ResultEnvelope<&'static str> {
    ResultEnvelope {
        protocol_version: 4,
        request_id: request.to_owned(),
        project_id: project.to_owned(),
        body: "done",
    }
}

#[test]
fn targets_are_looked_up_in_the_callers_project() {
    assert!(matches!(
        judge_target(TargetUse::Replay, TargetLookup::Found { same_project: true }),
        TargetVerdict::Proceed
    ));
    assert!(matches!(
        judge_target(TargetUse::Replay, TargetLookup::StoreFailed),
        TargetVerdict::Fail
    ));
    let other = TargetLookup::Found { same_project: false };
    assert_eq!(
        refusal(judge_target(TargetUse::Cancel, other)),
        "target request was not found in this project"
    );
    assert_eq!(
        refusal(judge_target(TargetUse::Cancel, TargetLookup::Missing)),
        "target request was not found"
    );
    assert_eq!(
        refusal(judge_target(TargetUse::Wait, TargetLookup::Missing)),
        "target request was not found in this project"
    );
    assert!(check_cursor(TargetUse::Wait, i64::MAX as u64).is_none());
    assert_eq!(
        check_cursor(TargetUse::Wait, i64::MAX as u64 + 1).unwrap().message,
        "wait sequence exceeds the supported range"
    );
    assert_eq!(
        check_cursor(TargetUse::Replay, u64::MAX).unwrap().message,
        "replay sequence exceeds the supported range"
    );
}

#[test]
fn cancellations_are_presented_for_what_they_did() {
    for (outcome, expected) in [
        (
            CancelOutcome::Cancelled,
            (CancellationDisposition::Requested, OperationTruth::Changed),
        ),
        (
            CancelOutcome::CancellationRequested,
            (CancellationDisposition::Requested, OperationTruth::Changed),
        ),
        (
            CancelOutcome::AlreadyRequested,
            (CancellationDisposition::AlreadyRequested, OperationTruth::Observed),
        ),
        (
            CancelOutcome::AlreadyTerminal(TerminalState::Cancelled),
            (CancellationDisposition::AlreadyCancelled, OperationTruth::Observed),
        ),
        (
            CancelOutcome::AlreadyTerminal(TerminalState::Succeeded),
            (CancellationDisposition::AlreadyTerminal, OperationTruth::Observed),
        ),
    ] {
        assert_eq!(cancellation_presentation(outcome), expected);
    }
    let result = cancelled_result(4, "target", "project");
    assert_eq!(result.request_id, "target");
    assert_eq!(result.body.code, FailureCode::Cancelled);
    assert_eq!(result.body.message, "request was cancelled");
}

#[test]
fn a_cancellation_is_answered_before_it_is_published() {
    let found = CancelEvent::Target(TargetLookup::Found { same_project: true });
    let (phase, action) = cancel_step(CancelPhase::LookingUp, found);
    assert_eq!(action, CancelAction::EncodeResult);
    let (phase, action) = cancel_step(phase, CancelEvent::Encoded);
    assert_eq!(action, CancelAction::Cancel);
    let (phase, action) = cancel_step(phase, CancelEvent::Outcome(CancelOutcome::Cancelled));
    assert_eq!(action, CancelAction::Reply(CancelOutcome::Cancelled));
    let (phase, action) = cancel_step(phase, CancelEvent::Replied);
    assert_eq!(action, CancelAction::Replay);
    let (phase, action) = cancel_step(phase, CancelEvent::Replayed { terminal: true });
    assert_eq!(action, CancelAction::Publish { terminal: true });
    assert_eq!(
        cancel_step(phase, CancelEvent::Published),
        (CancelPhase::Done, CancelAction::WakeScheduler)
    );
    assert_eq!(
        cancel_step(CancelPhase::LookingUp, CancelEvent::Target(TargetLookup::Missing)).1,
        CancelAction::Refuse(TargetLookup::Missing)
    );
}

#[test]
fn replays_end_with_a_report_or_with_their_own_result() {
    assert_eq!(reached_sequence(&vec![event(3), event(9)], 1), 9);
    assert_eq!(reached_sequence::<u8>(&Vec::new(), 1), 1);
    let other = replay_answer::<u8, &str, _>(4, "me", "target", "p", 2, vec![event(3)], Some(stored("target", "p")));
    assert_eq!(other.events.len(), 1);
    assert!(matches!(
        other.ending,
        ReplayEnding::Report(report) if report.through_sequence == 3 && !report.pending
    ));
    let own = replay_answer::<u8, &str, _>(4, "target", "target", "p", 2, vec![event(3)], Some(stored("target", "p")));
    assert!(matches!(own.ending, ReplayEnding::Stored(result) if result.body == "done"));
    let pending = replay_answer::<u8, &str, Vec<u8>>(4, "target", "target", "p", 2, Vec::new(), None);
    assert!(matches!(
        pending.ending,
        ReplayEnding::Report(report) if report.through_sequence == 2 && report.pending
    ));
}

#[test]
fn results_reach_their_observer_under_its_own_address() {
    let messages =
        wait_messages(4, "me", "target", "p", vec![event(1)], Some(stored("target", "p"))).unwrap();
    assert_eq!(messages.len(), 2);
    assert!(matches!(
        &messages[0],
        ServerMessage::Event(sent) if sent.request_id == "target"
    ));
    assert!(matches!(
        &messages[1],
        ServerMessage::Result(sent) if sent.request_id == "me" && sent.project_id == "p"
    ));
    let wrong = wait_messages(4, "me", "target", "p", vec![event(1)], Some(stored("target", "q")));
    assert!(matches!(wrong, Err(StoredResultError::WrongRequest)));
    assert!(matches!(
        fetched_result(Some(stored("target", "p")), "target", "p", "me"),
        Ok(FetchAnswer::Stored(sent)) if sent.request_id == "me"
    ));
    assert!(matches!(
        fetched_result::<&str>(None, "target", "p", "me"),
        Ok(FetchAnswer::Pending(failure)) if failure.code == FailureCode::Pending
            && failure.message == "target request has not completed"
    ));
    assert!(fetched_result(Some(stored("other", "p")), "target", "p", "me").is_err());
}

#[test]
fn followers_read_again_once_they_are_subscribed() {
    let first = FollowEvent::Replayed { terminal: false, reached: 7 };
    for (kind, after, last) in [
        (FollowKind::QueuedStatus, 0, FollowAction::WakeScheduler),
        (FollowKind::FlowRun, 7, FollowAction::WakeScheduler),
        (FollowKind::Wait, 7, FollowAction::Finish),
    ] {
        let (phase, action) = follow_step(kind, FollowPhase::Replaying, first);
        assert_eq!(action, FollowAction::SendAndSubscribe { last_sequence: 7 });
        assert_eq!(follow_step(kind, phase, FollowEvent::Registered(false)).1, last);
        let (phase, action) = follow_step(kind, phase, FollowEvent::Registered(true));
        assert_eq!(action, FollowAction::Replay { after });
        let again = FollowEvent::Replayed { terminal: true, reached: 9 };
        let (phase, action) = follow_step(kind, phase, again);
        assert_eq!(action, FollowAction::Publish { terminal: true });
        assert_eq!(follow_step(kind, phase, FollowEvent::Published).1, last);
    }
    let ended = FollowEvent::Replayed { terminal: true, reached: 7 };
    assert_eq!(
        follow_step(FollowKind::Wait, FollowPhase::Replaying, ended),
        (FollowPhase::Done, FollowAction::Send)
    );
    assert_eq!(
        follow_step(FollowKind::Wait, FollowPhase::ReplayingAgain, FollowEvent::Failed).1,
        FollowAction::Fail
    );
}

#[test]
fn approvals_of_others_look_like_none() {
    assert!(matches!(
        approval_answer("a", Ok(ApprovalDisposition::Denied), ""),
        Answer::Success { truth: OperationTruth::Changed, payload }
            if payload.approval_id == "a" && payload.disposition == ApprovalDisposition::Denied
    ));
    for kind in [StoreErrorKind::ApprovalNotFound, StoreErrorKind::InvalidApprovalState] {
        assert!(matches!(
            approval_answer("a", Err(kind), "secret detail"),
            Answer::Failure(failure) if failure.code == FailureCode::Forbidden
                && failure.message == "approval is unavailable for this project or caller"
        ));
    }
    assert!(matches!(
        approval_answer("a", Err(StoreErrorKind::Other), "disk"),
        Answer::Failure(failure) if failure.message == "disk"
    ));
    assert!(matches!(
        status_answer("1.2.3", 9, 4),
        Answer::Success { payload, .. } if payload.ready && payload.queue_depth == 4
    ));
}

#[test]
fn store_errors_are_classed_for_callers() {
    assert_eq!(
        store_failure(StoreErrorKind::IdempotencyConflict, "x").code,
        FailureCode::IdempotencyConflict
    );
    assert_eq!(
        store_failure(StoreErrorKind::RequestIdConflict, "x").code,
        FailureCode::InvalidRequest
    );
    assert_eq!(store_failure(StoreErrorKind::Other, "x").message, "x");
    for (kind, code, message) in [
        (
            StoreErrorKind::EvidenceNotFound,
            FailureCode::NotFound,
            "evidence was not found in this project",
        ),
        (
            StoreErrorKind::EvidenceRangeTooLarge,
            FailureCode::InvalidRequest,
            "evidence range is invalid",
        ),
        (
            StoreErrorKind::EvidenceBlobCorrupt,
            FailureCode::Internal,
            "evidence is unavailable or failed integrity verification",
        ),
        (
            StoreErrorKind::Other,
            FailureCode::Internal,
            "evidence storage is unavailable",
        ),
    ] {
        let failure = evidence_failure(kind);
        assert_eq!(failure.code, code);
        assert_eq!(failure.message, message);
    }
    assert_eq!(evidence_chunk_is_last(5, 5, 10), Some(true));
    assert_eq!(evidence_chunk_is_last(5, 4, 10), Some(false));
    assert_eq!(evidence_chunk_is_last(u64::MAX, 1, 0), None);
}
