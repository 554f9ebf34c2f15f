use pam_daemon::answers::{envelop, Answer};
use pam_daemon::identifiers::{
    identifier_is_bounded, is_unsafe_identifier_character, request_identifiers_are_bounded,
    valid_replay_cursor,
};
use pam_daemon::intake::{
    intake_start, intake_step, refusal_failure, request_facts, Handler, IntakeAction, IntakeEvent,
    IntakeRefusal, IntakeRules,
};
use pam_daemon::leased::{
    claim_action, corrupt_authorization_failure, leased_start, leased_step, operation_kind,
    scheduler_step, unknown_operation_failure, ClaimAction, ClaimEnd, FinishKind, LeasedAction,
    LeasedEvent, OperationKind, SchedulerAction, SchedulerEvent, TerminalState,
};
use pam_daemon::messages::{
    decode_stored_result, messages_for_observer, remap_messages, replay_messages, stored_event,
    EventEnvelope, ReadEvent, Replayed, ResultEnvelope, ServerMessage, StoredEvent, StoredMessage,
    StoredResultError, Subscription,
};
use pam_daemon::policy::{
    approval_recovery, authorization_failure, grant_recovery, policy_resource,
    preflight_audit_detail, request_audit_event_id, reset_resource, retain_until_ms,
    shell_safe_policy_argument, target_policy_resource, AuthorizationRefusal,
};
use pam_daemon::protocol::{
    request_shape_is_valid, Capability, FailureCode, OperationTruth, RequestEnvelope,
    RequestPayload,
};
use pam_daemon::serve::{
    keeps_watching, oversized_response_failure, send_start, send_step, serve_step, Observer,
    SendAction, SendEvent, ServeAction, ServeEvent, ServeState, Subscriptions,
};
use pam_daemon::flow::machine::StoreFault;
use sha2::{Digest, Sha256};

fn request(capability: Capability, policy_name: &str, payload: RequestPayload) -> RequestEnvelope {
    RequestEnvelope {
        request_id: "request".to_owned(),
        caller_id: "caller".to_owned(),
        project_id: "project".to_owned(),
        idempotency_key: "key".to_owned(),
        approval_id: None,
        capability,
        policy_name: policy_name.to_owned(),
        payload,
        daemon_scope: false,
        fields_valid: true,
        has_credential: true,
    }
}

const STRICT: IntakeRules = IntakeRules {
    authentication_required: true,
    policy_required: true,
    durable_status: false,
};

#[test]
fn requests_are_authenticated_and_authorized_before_they_are_handled() {
    let request = request(Capability::Brief, "brief", RequestPayload::Brief);
    let facts = request_facts(&request, true, true);
    let (phase, action) = intake_start(facts);
    assert_eq!(action, IntakeAction::LearnProjectRoot);
    let (phase, action) = intake_step(facts, STRICT, phase, IntakeEvent::Learned);
    assert_eq!(action, IntakeAction::Authenticate);
    let (refused, action) =
        intake_step(facts, STRICT, phase, IntakeEvent::Authenticated(false));
    assert_eq!(action, IntakeAction::AuditUnauthenticated);
    assert_eq!(
        intake_step(facts, STRICT, refused, IntakeEvent::Audited).1,
        IntakeAction::Refuse(IntakeRefusal::Unauthenticated)
    );
    let (phase, action) = intake_step(facts, STRICT, phase, IntakeEvent::Authenticated(true));
    assert_eq!(action, IntakeAction::Authorize);
    assert_eq!(
        intake_step(facts, STRICT, phase, IntakeEvent::Authorized(false)).1,
        IntakeAction::Refuse(IntakeRefusal::Policy)
    );
    assert_eq!(
        intake_step(facts, STRICT, phase, IntakeEvent::Authorized(true)).1,
        IntakeAction::Dispatch(Handler::Of(Capability::Brief))
    );
}

#[test]
fn flows_are_prepared_for_authenticated_callers() {
    let payload = RequestPayload::FlowRun {
        project_root: "/work".to_owned(),
    };
    let mut request = request(Capability::FlowRun, "flow.run", payload);
    request.has_credential = false;
    let facts = request_facts(&request, true, false);
    let (phase, _) = intake_start(facts);
    assert_eq!(
        intake_step(facts, STRICT, phase, IntakeEvent::Learned).1,
        IntakeAction::AuditUnauthenticated
    );
    request.has_credential = true;
    let facts = request_facts(&request, true, false);
    let (phase, _) = intake_step(facts, STRICT, phase, IntakeEvent::Learned);
    let (phase, action) = intake_step(facts, STRICT, phase, IntakeEvent::Authenticated(true));
    assert_eq!(action, IntakeAction::AcquirePreflightPermit);
    assert_eq!(
        intake_step(facts, STRICT, phase, IntakeEvent::PreflightPermit(false)).1,
        IntakeAction::Refuse(IntakeRefusal::Busy)
    );
    let (phase, action) = intake_step(facts, STRICT, phase, IntakeEvent::PreflightPermit(true));
    assert_eq!(action, IntakeAction::VerifyProjectRoot);
    let (phase, action) = intake_step(facts, STRICT, phase, IntakeEvent::RootVerified(true));
    assert_eq!(action, IntakeAction::PrepareFlow);
    let prepared = IntakeEvent::FlowPrepared { resource_accepted: true };
    assert_eq!(
        intake_step(facts, STRICT, phase, prepared).1,
        IntakeAction::Dispatch(Handler::FlowRun)
    );
}

#[test]
fn refusals_are_worded() {
    let failure = refusal_failure(IntakeRefusal::Unauthenticated).unwrap();
    assert_eq!(failure.code, FailureCode::Unauthenticated);
    assert_eq!(failure.recovery.as_deref(), Some("pam caller register"));
    assert_eq!(
        refusal_failure(IntakeRefusal::Busy).unwrap().message,
        "flow preflight capacity is busy"
    );
    assert!(refusal_failure(IntakeRefusal::Policy).is_none());
    let mut brief = request(Capability::Brief, "brief", RequestPayload::Brief);
    brief.daemon_scope = true;
    assert_eq!(
        intake_start(request_facts(&brief, true, true)).1,
        IntakeAction::Refuse(IntakeRefusal::NeedsProject)
    );
    let mismatched = request(Capability::Brief, "brief", RequestPayload::Stop);
    assert!(!request_shape_is_valid(&mismatched));
}

#[test]
fn identifiers_are_bounded_and_show_what_they_hold() {
    assert!(identifier_is_bounded("request-1"));
    assert!(!identifier_is_bounded(""));
    assert!(identifier_is_bounded(&"x".repeat(256)));
    assert!(!identifier_is_bounded(&"x".repeat(257)));
    assert!(!identifier_is_bounded("a\u{202e}b"));
    assert!(is_unsafe_identifier_character('\u{e0001}'));
    assert!(!is_unsafe_identifier_character('é'));
    let mut bad = request(Capability::Brief, "brief", RequestPayload::Brief);
    bad.approval_id = Some(String::new());
    assert!(!request_identifiers_are_bounded(&bad));
    assert!(valid_replay_cursor(i64::MAX as u64));
    assert!(!valid_replay_cursor(u64::MAX));
}

#[test]
fn policy_resources_name_exact_effects() {
    assert_eq!(reset_resource("access", true), "reset:access:mode=preview");
    assert_eq!(reset_resource("access", false), "reset:access:mode=apply");
    assert_eq!(target_policy_resource("r1", None, Some(4)), "request:r1:after=4");
    assert_eq!(
        target_policy_resource("r1", Some("flow_run"), None),
        "flow-request-v4:id-bytes=2:id=r1:kind=flow_run"
    );
    let reset = request(
        Capability::ResetHistory,
        "reset.history",
        RequestPayload::ResetHistory { dry_run: false },
    );
    assert_eq!(
        policy_resource(&reset).as_deref(),
        Some("reset:history:mode=apply")
    );
    assert_eq!(
        preflight_audit_detail("brief", "project", "project policy evaluated"),
        "capability=brief resource=project detail=project policy evaluated"
    );
    assert_eq!(retain_until_ms(0), 2_592_000_000);
    assert_eq!(retain_until_ms(u64::MAX), i64::MAX as u64);
}

#[test]
fn recoveries_are_commands_a_shell_reads_as_meant() {
    let brief = request(Capability::Brief, "brief", RequestPayload::Brief);
    assert_eq!(
        grant_recovery(&brief, Some("project")),
        "pam access grant brief --resource project"
    );
    assert_eq!(
        grant_recovery(&brief, Some("a b")),
        "run pam access grant with the denied capability and exact resource, quoted for your shell"
    );
    assert!(shell_safe_policy_argument("a-b_c.d:e/f=g+h"));
    assert!(!shell_safe_policy_argument("-a"));
    assert!(!shell_safe_policy_argument("a;b"));
    assert!(approval_recovery(&brief, "appr-1").starts_with("pam approval approve appr-1"));
    let refusal = AuthorizationRefusal::ApprovalRequired {
        approval_id: "appr-1".to_owned(),
        expires_at_ms: 5,
    };
    let failure = authorization_failure(&brief, refusal, Some("project"));
    assert_eq!(failure.code, FailureCode::ApprovalRequired);
    assert_eq!(failure.approval.unwrap().expires_at_unix_ms, 5);
    assert_eq!(
        authorization_failure(&brief, AuthorizationRefusal::ApprovalExpired, None).message,
        "approval expired before use"
    );
}

#[test]
fn audit_events_are_named_by_what_tells_them_apart() {
    let mut brief = request(Capability::Brief, "brief", RequestPayload::Brief);
    brief.approval_id = Some("appr".to_owned());
    let mut message = Vec::new();
    for text in ["request", "project", "caller", "key", "brief", "policy"] {
        message.extend_from_slice(&(text.len() as u64).to_le_bytes());
        message.extend_from_slice(text.as_bytes());
    }
    message.extend_from_slice(b"appr");
    message.extend_from_slice(&7_u64.to_le_bytes());
    message.extend_from_slice(&8_u32.to_le_bytes());
    message.extend_from_slice(&9_u64.to_le_bytes());
    message.extend_from_slice(&10_u128.to_le_bytes());
    let digest: [u8; 32] = Sha256::digest(&message).into();
    let hex: String = digest.iter().map(|byte| format!("{byte:02x}")).collect();
    assert_eq!(
        request_audit_event_id(&brief, "policy", 7, 8, 9, 10),
        format!("request-preflight-{hex}")
    );
    assert_ne!(
        request_audit_event_id(&brief, "policy", 7, 8, 9, 10),
        request_audit_event_id(&brief, "policy", 7, 8, 10, 10)
    );
}

#[test]
fn the_service_gives_up_after_failures_in_a_row() {
    let mut state = ServeState::new();
    for _ in 0..4 {
        let (next, action) = serve_step(state, ServeEvent::ReceiveFailed);
        assert!(matches!(action, ServeAction::LogReceiveFailure { .. }));
        state = next;
    }
    let (healed, action) = serve_step(state, ServeEvent::Received);
    assert_eq!(action, ServeAction::SpawnHandler);
    assert_eq!(healed.failures, 0);
    assert_eq!(
        serve_step(state, ServeEvent::ReceiveFailed).1,
        ServeAction::GiveUp { in_a_row: 5 }
    );
}

#[test]
fn messages_are_sent_in_order() {
    let (phase, action) = send_start(2);
    assert_eq!(action, SendAction::Encode { index: 0 });
    let (phase, action) = send_step(2, phase, SendEvent::Encoded);
    assert_eq!(action, SendAction::Respond { index: 0 });
    let (phase, action) = send_step(2, phase, SendEvent::Responded);
    assert_eq!(action, SendAction::Encode { index: 1 });
    assert_eq!(
        send_step(2, phase, SendEvent::TooLarge).1,
        SendAction::EncodeFallback { index: 1 }
    );
    assert_eq!(send_start(0).1, SendAction::Complete);
    let message: ServerMessage<u8, u8> = result("r", "p", 1);
    let failure = oversized_response_failure(&message, 9);
    assert_eq!(failure.request_id, "r");
    assert_eq!(failure.body.code, FailureCode::FrameTooLarge);
    assert!(keeps_watching(true, false));
    assert!(!keeps_watching(true, true));
}

fn event(sequence: u64) -> ServerMessage<u8, u8> {
    ServerMessage::Event(EventEnvelope {
        protocol_version: 9,
        request_id: "target".to_owned(),
        project_id: "p".to_owned(),
        sequence,
        event: 1,
    })
}

fn result(request: &str, project: &str, body: u8) -> ServerMessage<u8, u8> {
    ServerMessage::Result(ResultEnvelope {
        protocol_version: 9,
        request_id: request.to_owned(),
        project_id: project.to_owned(),
        body,
    })
}

fn subscription(last_sequence: u64) -> Subscription {
    Subscription {
        event_request_id: "target".to_owned(),
        observer_request_id: "me".to_owned(),
        project_id: "p".to_owned(),
        last_sequence,
    }
}

#[test]
fn observers_are_told_of_each_event_once() {
    let mut observer = subscription(2);
    let messages = [event(1), event(2), event(3), event(3), result("target", "p", 7)];
    let sent = messages_for_observer(&messages, &mut observer);
    assert_eq!(sent.len(), 2);
    assert_eq!(observer.last_sequence, 3);
    assert!(matches!(&sent[1], ServerMessage::Result(it) if it.request_id == "me"));
    let again = messages_for_observer(&messages, &mut observer);
    assert_eq!(again.len(), 1);
    let moved = remap_messages(vec![event(1)], "e", "o", "q");
    assert!(matches!(&moved[0], ServerMessage::Event(it) if it.request_id == "e"));
}

#[test]
fn watching_callers_are_kept_by_request() {
    let mut subscriptions = Subscriptions::new();
    for (id, route) in [("a", 1), ("b", 2), ("a", 3)] {
        subscriptions.subscribe(
            id,
            Observer {
                route,
                subscription: subscription(0),
            },
        );
    }
    let routes: Vec<i32> = subscriptions.take("a").iter().map(|it| it.route).collect();
    assert_eq!(routes, [1, 3]);
    assert!(subscriptions.take("a").is_empty());
    assert_eq!(subscriptions.take("b").len(), 1);
}

#[test]
fn stored_results_are_replayed_under_the_current_protocol() {
    assert_eq!(stored_event("flow_step"), Ok(StoredEvent::FlowTransition));
    assert_eq!(stored_event("accepted"), Ok(StoredEvent::Accepted));
    assert_eq!(stored_event("x"), Err("unknown event kind x".to_owned()));
    assert_eq!(
        decode_stored_result(StoredMessage::Other { version: 3 }, 9),
        Ok(Replayed { version: 9, truth: None })
    );
    assert_eq!(
        decode_stored_result(
            StoredMessage::Flow {
                version: 4,
                supported_truth: OperationTruth::Observed
            },
            9
        ),
        Ok(Replayed {
            version: 9,
            truth: Some(OperationTruth::Observed)
        })
    );
    for (message, error) in [
        (StoredMessage::Event, StoredResultError::NotAResult),
        (StoredMessage::Other { version: 10 }, StoredResultError::UnsupportedVersion),
        (StoredMessage::Other { version: 0 }, StoredResultError::UnsupportedVersion),
        (
            StoredMessage::Flow { version: 3, supported_truth: OperationTruth::Observed },
            StoredResultError::FlowBeforeFlowProtocol,
        ),
    ] {
        assert_eq!(decode_stored_result(message, 9), Err(error));
    }
    let events = vec![ReadEvent { sequence: 1, event: 5_u8 }];
    let stored = ResultEnvelope {
        protocol_version: 9,
        request_id: "target".to_owned(),
        project_id: "p".to_owned(),
        body: 7_u8,
    };
    let messages = replay_messages(9, "p", "target", events, Some(stored)).ok().unwrap();
    assert_eq!(messages.len(), 2);
}

#[test]
fn claimed_requests_are_stored_before_they_are_published() {
    assert_eq!(operation_kind("status"), OperationKind::Status);
    assert_eq!(operation_kind("flow_run"), OperationKind::Flow);
    assert_eq!(
        unknown_operation_failure("x").message,
        "unknown durable operation x"
    );
    let kind = OperationKind::Status;
    let (phase, action) = leased_start(false);
    assert_eq!(action, LeasedAction::CountQueue);
    let (phase, action) = leased_step(kind, phase, LeasedEvent::QueueCounted);
    assert_eq!(action, LeasedAction::Encode);
    let (phase, action) = leased_step(kind, phase, LeasedEvent::Encoded);
    assert_eq!(
        action,
        LeasedAction::Finish(FinishKind::Plain(TerminalState::Succeeded))
    );
    let (phase, action) = leased_step(kind, phase, LeasedEvent::Finished);
    assert_eq!(action, LeasedAction::Replay);
    let (phase, action) = leased_step(kind, phase, LeasedEvent::Replayed);
    assert_eq!(action, LeasedAction::Publish);
    assert_eq!(
        leased_step(kind, phase, LeasedEvent::Published).1,
        LeasedAction::Return
    );
    let (delaying, action) = leased_start(true);
    assert_eq!(action, LeasedAction::Wait);
    let lost = LeasedEvent::Failed(StoreFault::StaleLease);
    assert_eq!(leased_step(kind, delaying, lost).1, LeasedAction::Return);
    assert_eq!(
        leased_step(kind, delaying, LeasedEvent::PollFailed).1,
        LeasedAction::Fail
    );
    assert_eq!(
        claim_action(ClaimEnd::Failed(StoreFault::CorruptFlowAuthorization)),
        ClaimAction::Quarantine
    );
    assert_eq!(claim_action(ClaimEnd::NothingQueued), ClaimAction::EndPass);
    assert_eq!(
        scheduler_step(SchedulerEvent::WakeupsClosed, false),
        SchedulerAction::Return
    );
    assert_eq!(
        corrupt_authorization_failure().message,
        "stored flow authorization is invalid"
    );
}

#[test]
fn answers_are_addressed_to_their_request() {
    let brief = request(Capability::Brief, "brief", RequestPayload::Brief);
    let envelope = envelop(
        &brief,
        9,
        Answer::Success {
            truth: OperationTruth::Observed,
            payload: 1,
        },
    );
    assert_eq!(envelope.request_id, "request");
    assert_eq!(envelope.project_id, "project");
    assert_eq!(envelope.protocol_version, 9);
}

#[test]
fn typed_targets_cannot_be_imitated() {
    let resource = |id: &str, after| target_policy_resource(id, Some("flow_run"), after);
    assert_eq!(
        resource("a:kind=flow_run", Some(3)),
        "flow-request-v4:id-bytes=15:id=a:kind=flow_run:kind=flow_run:after=3"
    );
    assert_ne!(resource("a:kind=flow_run", None), resource("a", None));
    assert_ne!(resource("a", Some(0)), resource("a", None));
    assert_eq!(
        resource("\u{e9}", None),
        "flow-request-v4:id-bytes=2:id=\u{e9}:kind=flow_run"
    );
}
