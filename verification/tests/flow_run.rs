use pam_daemon::connectors::ConnectorSecretError;
use pam_daemon::flow::capture::{
    append_output, collection_result, command_step, listing_is_complete, may_spawn_in_workspace,
    path_identity_holds, workspace_command_end, CommandEvent, CommandPhase, CommandResult,
    CommandStep, DirectoryFacts, DirectoryIdentity, DrainEnd, OutputCollectionError, ReadersEnd,
    ReapEnd,
};
use pam_daemon::flow::connector_call::Service;
use pam_daemon::flow::connector_step::{
    bounded_effect_summary, call_summary, connector_output_handle, connector_refusal_message,
    connector_step, effect_evidence, flow_output_handle, invocation_bounds, service_failure_message,
    service_needs, ConnectorAction, ConnectorEvent, ConnectorPhase, ConnectorRefusal, ServiceNeeds,
};
use pam_daemon::flow::machine::{
    flow_start, flow_step, CommandEnd, CommandRejection, ConnectorEnd, Decision, Effect,
    EffectBoundaryAuthorization, EffectKind, EffectSummary, FingerprintCheck, FlowAction, FlowEnd,
    FlowEvent, FlowPhase, InvalidFlowState, LeaseWait, Preparation, StoreFault,
};
use pam_daemon::flow::operation::FlowSubmissionError;
use pam_daemon::flow::outcome::{
    after_cancellation_poll, after_failed_renewal, after_failed_save, after_renewal_poll,
    boundary_after_poll, cached_terminal_result, effect_boundary_authorization, end_conclusion,
    end_failure, flow_result_truth, flow_start_error, retry_delay_ms, start_conclusion,
    start_failure, terminal_state, AuthorizationReport, BoundaryStep, CachedEnvelope,
    CachedRefusal, CachedResult, FlowRunResult, FlowStartError, RenewalStep, RunOutcome,
    SaveRecovery, UpdateFacts,
};
use pam_daemon::flow::workspace::{
    add_workspace_bytes, authority_file_names, fingerprint_listing, hash_workspace_entries,
    head_reference,
    listed_paths, stable_file_metadata, workspace_entries, FileFacts, FoundFile, GitAuthority,
    ReadFile,
};
use pam_daemon::leased::TerminalState;
use pam_daemon::protocol::FailureCode;
use pam_daemon::protocol::OperationTruth;
use sha2::{Digest, Sha256};

fn effect(kind: EffectKind) -> Effect {
    Effect {
        step_index: 0,
        kind,
        timeout_seconds: 10,
        attempt: 1,
    }
}

fn drive(events: &[FlowEvent]) -> Vec<FlowAction> {
    let (mut phase, action) = flow_start();
    let mut actions = vec![action];
    for event in events {
        let (next, action) = flow_step(phase, *event);
        phase = next;
        actions.push(action);
    }
    actions
}

fn to_first_decision(decision: Decision) -> Vec<FlowEvent> {
    vec![
        FlowEvent::NoCheckpoint,
        FlowEvent::Started,
        FlowEvent::ResourceValid,
        FlowEvent::RootVerified(true),
        FlowEvent::Saved { revision: 1 },
        FlowEvent::CancellationPolled(false),
        FlowEvent::Persisted {
            decision,
            revision: 2,
            encoded: false,
        },
    ]
}

#[test]
fn a_command_runs_pinned_and_authorized_and_is_recorded() {
    let effect = effect(EffectKind::ReadOnly);
    let mut events = to_first_decision(Decision::EvaluateEffect(effect));
    events.extend([
        FlowEvent::Authorization(EffectBoundaryAuthorization::Allowed),
        FlowEvent::Prepared(Preparation::Command),
        FlowEvent::Persisted {
            decision: Decision::Execute,
            revision: 3,
            encoded: false,
        },
        FlowEvent::Fingerprinted(FingerprintCheck::Accepted),
        FlowEvent::Authorization(EffectBoundaryAuthorization::Allowed),
        FlowEvent::CommandEnded(CommandEnd::Completed { success: true }),
        FlowEvent::OutputRetained,
        FlowEvent::Persisted {
            decision: Decision::Terminal,
            revision: 4,
            encoded: true,
        },
    ]);
    let actions = drive(&events);
    assert_eq!(actions[1], FlowAction::StartRun);
    assert_eq!(actions[4], FlowAction::SaveSnapshot { expected_revision: 0 });
    assert_eq!(actions[6], FlowAction::NextDecision { revision: 1 });
    assert_eq!(actions[7], FlowAction::AuthorizeEffect);
    assert_eq!(actions[8], FlowAction::PrepareEffect { effect });
    assert_eq!(actions[9], FlowAction::StartEffect { revision: 2, effect });
    assert_eq!(actions[10], FlowAction::FingerprintWorkspace);
    assert_eq!(actions[12], FlowAction::RunCommand { effect });
    assert_eq!(actions[13], FlowAction::RetainOutput);
    assert!(matches!(
        actions[14],
        FlowAction::RecordVerdict { revision: 3, verdict, .. }
            if verdict.succeeded && verdict.with_output
    ));
    assert_eq!(actions[15], FlowAction::Finish(FlowEnd::Terminal));
}

#[test]
fn denied_cancelled_and_stale_runs_end_without_an_effect() {
    let effect = effect(EffectKind::ReadOnly);
    let authorizing = FlowPhase::Authorizing { revision: 2, effect };
    assert_eq!(
        flow_step(
            authorizing,
            FlowEvent::Authorization(EffectBoundaryAuthorization::Denied)
        )
        .1,
        FlowAction::DenyEffect { revision: 2, effect }
    );
    assert_eq!(
        flow_step(
            authorizing,
            FlowEvent::Authorization(EffectBoundaryAuthorization::Cancelled)
        )
        .1,
        FlowAction::CancelRun { revision: 2 }
    );
    assert_eq!(
        flow_step(FlowPhase::Loading, FlowEvent::Failed(StoreFault::StaleLease)),
        (FlowPhase::Done, FlowAction::Finish(FlowEnd::StaleLease))
    );
    assert_eq!(
        flow_step(
            FlowPhase::RunningCommand { revision: 2, effect },
            FlowEvent::CommandEnded(CommandEnd::StaleLease)
        )
        .1,
        FlowAction::Finish(FlowEnd::StaleLease)
    );
    assert_eq!(
        flow_step(
            FlowPhase::RunningConnector { revision: 2, effect },
            FlowEvent::ConnectorEnded(ConnectorEnd::Cancelled)
        )
        .1,
        FlowAction::CancelRun { revision: 2 }
    );
}

#[test]
fn stateful_commands_with_an_unknown_end_are_reconciled() {
    let effect = effect(EffectKind::Stateful);
    let running = FlowPhase::RunningCommand { revision: 5, effect };
    let (phase, action) = flow_step(running, FlowEvent::CommandEnded(CommandEnd::TimedOut));
    assert_eq!(action, FlowAction::RetainOutput);
    assert_eq!(
        flow_step(phase, FlowEvent::OutputRetained).1,
        FlowAction::ReconcileUnknown {
            revision: 5,
            effect,
            summary: EffectSummary::UnknownAfterTimeout,
            with_output: true,
        }
    );
    assert!(matches!(
        flow_step(running, FlowEvent::CommandEnded(CommandEnd::OutputLimit)).1,
        FlowAction::ReconcileUnknown {
            summary: EffectSummary::UnknownAfterCapture,
            with_output: false,
            ..
        }
    ));
}

#[test]
fn rejected_preparations_are_recorded_as_failures() {
    let effect = effect(EffectKind::ReadOnly);
    for (rejection, summary) in [
        (CommandRejection::StatefulConnector, EffectSummary::StatefulConnector),
        (CommandRejection::Unsupported, EffectSummary::UnsupportedCommand),
    ] {
        let phase = FlowPhase::StartingEffect {
            effect,
            preparation: Preparation::Rejected(rejection),
        };
        let started = FlowEvent::Persisted {
            decision: Decision::Execute,
            revision: 3,
            encoded: false,
        };
        assert!(matches!(
            flow_step(phase, started).1,
            FlowAction::RecordVerdict { verdict, .. }
                if verdict.summary == summary && !verdict.succeeded
        ));
    }
    assert_eq!(
        EffectSummary::StatefulConnector.text(),
        "stateful connector steps are not yet executable"
    );
    assert_eq!(
        InvalidFlowState::OmittedTerminalResult.text(),
        "terminal flow checkpoint omitted its encoded result"
    );
}

#[test]
fn resumed_runs_are_checked_against_their_checkpoint() {
    let resumed = |legacy, cached, terminal| {
        drive(&[
            FlowEvent::Checkpoint { revision: 6, legacy, cached },
            FlowEvent::Resumed { terminal },
        ])[2]
    };
    assert_eq!(
        resumed(false, true, true),
        FlowAction::Finish(FlowEnd::CachedTerminal)
    );
    assert_eq!(
        drive(&[
            FlowEvent::Checkpoint { revision: 6, legacy: false, cached: true },
            FlowEvent::Resumed { terminal: true },
            FlowEvent::Saved { revision: 7 },
        ]),
        [
            FlowAction::LoadCheckpoint,
            FlowAction::ResumeRun,
            FlowAction::Finish(FlowEnd::CachedTerminal),
            FlowAction::Ignore,
        ]
    );
    assert_eq!(
        resumed(false, false, true),
        FlowAction::Finish(FlowEnd::Invalid(InvalidFlowState::OmittedTerminalResult))
    );
    assert_eq!(
        resumed(false, true, false),
        FlowAction::Finish(FlowEnd::Invalid(InvalidFlowState::UnexpectedTerminalResult))
    );
    assert_eq!(resumed(true, false, false), FlowAction::ValidateResource);
    let upgraded = drive(&[
        FlowEvent::Checkpoint { revision: 6, legacy: true, cached: false },
        FlowEvent::Resumed { terminal: false },
        FlowEvent::ResourceValid,
        FlowEvent::RootVerified(true),
    ]);
    assert_eq!(upgraded[4], FlowAction::SaveSnapshot { expected_revision: 6 });
}

#[test]
fn captured_output_is_an_exact_prefix() {
    let mut output = b"ab".to_vec();
    assert_eq!(append_output(&mut output, b"cd", 4), Ok(()));
    assert_eq!(
        append_output(&mut output, b"ef", 5),
        Err(OutputCollectionError::Overflow)
    );
    assert_eq!(output, b"abcde");
    assert_eq!(
        collection_result(DrainEnd::Drained, ReadersEnd::Joined, ReapEnd::Reaped),
        Ok(())
    );
    assert_eq!(
        collection_result(DrainEnd::Drained, ReadersEnd::Joined, ReapEnd::Failed),
        Err(OutputCollectionError::Io)
    );
    assert_eq!(
        collection_result(DrainEnd::Overflow, ReadersEnd::Failed, ReapEnd::Failed),
        Err(OutputCollectionError::Overflow)
    );
    assert!(listing_is_complete(CommandResult::Ended(CommandEnd::Completed {
        success: true
    })));
    for refused in [
        CommandResult::Ended(CommandEnd::Completed { success: false }),
        CommandResult::Ended(CommandEnd::OutputLimit),
        CommandResult::Ended(CommandEnd::TimedOut),
        CommandResult::Io,
    ] {
        assert!(!listing_is_complete(refused));
    }
}

#[test]
fn children_are_terminated_before_a_run_returns() {
    let (phase, step) = command_step(CommandPhase::Launching, CommandEvent::Spawned(true));
    assert_eq!(step, CommandStep::TryWait);
    let (phase, step) = command_step(phase, CommandEvent::Exited { success: false });
    assert_eq!(step, CommandStep::TerminateAndCollect);
    assert_eq!(
        command_step(phase, CommandEvent::Collected(Ok(()))).1,
        CommandStep::Return(CommandResult::Ended(CommandEnd::Completed { success: false }))
    );
    assert_eq!(
        command_step(
            phase,
            CommandEvent::Collected(Err(OutputCollectionError::Incomplete))
        )
        .1,
        CommandStep::Return(CommandResult::Ended(CommandEnd::CaptureFailed))
    );
    assert_eq!(
        command_step(CommandPhase::Launching, CommandEvent::Spawned(false)).1,
        CommandStep::Return(CommandResult::Ended(CommandEnd::LaunchFailed))
    );
}

#[test]
fn commands_count_only_in_the_accepted_workspace() {
    let done = CommandEnd::Completed { success: true };
    assert_eq!(
        workspace_command_end(done, true, FingerprintCheck::Accepted, true),
        done
    );
    for (run, check, after) in [
        (false, FingerprintCheck::Accepted, true),
        (true, FingerprintCheck::Changed, true),
        (true, FingerprintCheck::Accepted, false),
    ] {
        assert_eq!(
            workspace_command_end(done, run, check, after),
            CommandEnd::WorkspaceChanged
        );
    }
    assert_eq!(
        workspace_command_end(CommandEnd::TimedOut, false, FingerprintCheck::Changed, false),
        CommandEnd::TimedOut
    );
    let identity = DirectoryIdentity { first: 1, second: 2 };
    let facts = DirectoryFacts {
        is_symlink: false,
        is_directory: true,
        identity,
    };
    assert!(path_identity_holds(Some(facts), Some(facts), identity, identity));
    assert!(!path_identity_holds(Some(facts), None, identity, identity));
    let moved = DirectoryIdentity { first: 1, second: 3 };
    assert!(!path_identity_holds(Some(facts), Some(facts), identity, moved));
    assert!(may_spawn_in_workspace("/work/", "/work", true));
    assert!(!may_spawn_in_workspace("/work", "/work", false));
}

#[test]
fn connector_steps_fail_with_guidance_before_they_reach_a_service() {
    let needs = service_needs(Service::Jenkins);
    assert_eq!(needs, ServiceNeeds::CredentialAndBaseUrl);
    let disabled = ConnectorEvent::Record {
        found: true,
        enabled: false,
        has_base_url: true,
    };
    assert!(matches!(
        connector_step(needs, ConnectorPhase::FindingRecord, disabled).1,
        ConnectorAction::Refuse { refusal: ConnectorRefusal::NotEnabled, .. }
    ));
    let message = connector_refusal_message(ConnectorRefusal::NotEnabled, "github-actions");
    assert!(message.contains("not enabled"));
    assert!(message.contains("GUI Connectors surface"));
    let message = connector_refusal_message(ConnectorRefusal::NoCredential, "github-actions");
    assert!(message.contains("no stored credential"));
    assert!(message.contains("pam connector CLI"));
    assert_eq!(
        connector_refusal_message(
            ConnectorRefusal::Secret(ConnectorSecretError::Denied),
            "jira"
        ),
        "access to the native credential store was denied"
    );
    assert_eq!(
        service_failure_message("jira", "NotFound", "gone"),
        "connector jira failed (NotFound): gone"
    );
    assert_eq!(call_summary("found 1", Some("limit")), "found 1; partial: limit");
    assert_eq!(bounded_effect_summary("añb", 2), "a");
    assert_eq!(invocation_bounds(0, 0), (1, 1));
    assert_eq!(invocation_bounds(9, 2), (9, 2));
}

#[test]
fn outputs_are_named_by_their_digest() {
    let digest = "ba7816bf8f01cfea414140de5dae2223b00361a396177a9cb410ff61f20015ad";
    assert_eq!(flow_output_handle(b"abc"), format!("evidence://flow-output/{digest}"));
    assert_eq!(
        connector_output_handle(b"abc"),
        format!("evidence://connector-output/{digest}")
    );
    let handles: Vec<String> = ["a", "b", "a", "c", "d", "e"].map(str::to_owned).to_vec();
    assert_eq!(effect_evidence(&handles), ["a", "b", "c", "d"]);
}

fn flow_result(outcome: RunOutcome, changed: bool, verified: bool) -> FlowRunResult {
    FlowRunResult {
        run_id: "run".to_owned(),
        definition_digest: "sha256:00".to_owned(),
        outcome,
        steps: Vec::new(),
        changed,
        verified,
    }
}

#[test]
fn flows_claim_what_their_outcome_supports() {
    assert_eq!(terminal_state(RunOutcome::Solved), TerminalState::Succeeded);
    assert_eq!(terminal_state(RunOutcome::Blocked), TerminalState::Failed);
    assert_eq!(terminal_state(RunOutcome::Cancelled), TerminalState::Cancelled);
    assert_eq!(
        flow_result_truth(&flow_result(RunOutcome::Solved, false, true)),
        OperationTruth::Verified
    );
    assert_eq!(
        flow_result_truth(&flow_result(RunOutcome::Blocked, true, true)),
        OperationTruth::Blocked
    );
    let cached = |version, changed| CachedResult {
        outcome: RunOutcome::Solved,
        encoded: b"stored".to_vec(),
        envelope: Some(CachedEnvelope {
            protocol_version: version,
            request_id: "r".to_owned(),
            project_id: "p".to_owned(),
            flow: Some(flow_result(RunOutcome::Solved, changed, false)),
        }),
    };
    let expected = flow_result(RunOutcome::Solved, false, false);
    let judged = |request: &str, cached, encoding: Option<&[u8]>| {
        cached_terminal_result(request, "p", &expected, cached, 9, encoding)
            .map(|it| (it.state, it.truth, it.version, it.flow.changed, it.encoded))
    };
    let bytes = b"stored".as_slice();
    let (done, observed) = (TerminalState::Succeeded, OperationTruth::Observed);
    for _ in 0..2 {
        assert_eq!(
            judged("r", cached(9, false), Some(bytes)),
            Ok((done, observed, 9, false, b"stored".to_vec()))
        );
    }
    let corrupt = CachedRefusal::Corrupt;
    assert_eq!(judged("r", cached(9, false), Some(b"other")), Err(corrupt));
    assert_eq!(judged("r", cached(9, true), Some(bytes)), Err(corrupt));
    assert_eq!(judged("r", cached(9, true), None), Err(corrupt));
    assert_eq!(judged("r", cached(9, false), None), Err(CachedRefusal::Unencodable));
    assert_eq!(
        judged("r", cached(4, true), None),
        Ok((done, OperationTruth::Changed, 9, true, b"stored".to_vec()))
    );
    assert_eq!(judged("r", cached(5, false), Some(bytes)), Err(corrupt));
    assert_eq!(judged("x", cached(9, false), Some(bytes)), Err(corrupt));
    assert_eq!(
        corrupt.text(),
        "terminal flow checkpoint result does not match its snapshot"
    );
    assert_eq!(
        CachedRefusal::Unencodable.text(),
        "terminal flow result exceeded the protocol frame"
    );
    assert!(end_failure(FlowEnd::Terminal).is_none());
    assert!(end_failure(FlowEnd::AuthorizationMismatch).is_some());
    assert!(end_conclusion(FlowEnd::Terminal).is_none());
    let mismatched = end_conclusion(FlowEnd::AuthorizationMismatch).unwrap();
    assert_eq!(mismatched.failure.code, FailureCode::Internal);
    assert_eq!((mismatched.state, mismatched.saved), (TerminalState::Failed, false));
    let rootless = end_conclusion(FlowEnd::ProjectRootUnavailable).unwrap();
    assert_eq!(rootless.failure.code, FailureCode::InvalidRequest);
    assert_eq!((rootless.state, rootless.saved), (TerminalState::Failed, false));
    let unstarted = start_conclusion(FlowStartError::InvalidOperation);
    assert_eq!(unstarted.failure.message, "stored flow operation is invalid");
    assert_eq!((unstarted.state, unstarted.saved), (TerminalState::Failed, false));
    assert_eq!(
        flow_start_error(false, true, true),
        Some(FlowStartError::InvalidOperation)
    );
    assert_eq!(
        start_failure(FlowStartError::InvalidRunIdentity).message,
        "flow run identity is invalid"
    );
}

#[test]
fn cancellations_win_over_saves_they_came_before() {
    let solved = UpdateFacts {
        terminal: Some(RunOutcome::Solved),
        starts_effect: false,
    };
    assert_eq!(
        after_failed_save(solved, StoreFault::FlowTerminalOutcomeConflict),
        SaveRecovery::PollCancellation
    );
    assert_eq!(after_failed_save(solved, StoreFault::StaleLease), SaveRecovery::Fail);
    assert_eq!(after_cancellation_poll(true), SaveRecovery::SaveCancellation);
    assert_eq!(
        effect_boundary_authorization(AuthorizationReport::Failed(StoreFault::StaleLease)),
        BoundaryStep::PollCancellation
    );
    assert_eq!(
        boundary_after_poll(false),
        BoundaryStep::Fail(StoreFault::StaleLease)
    );
    assert_eq!(
        after_failed_renewal(StoreFault::StaleLease),
        RenewalStep::Ended(LeaseWait::StaleLease)
    );
    assert_eq!(after_renewal_poll(true), LeaseWait::Cancelled);
    assert_eq!(retry_delay_ms(10, 4), 6);
    assert_eq!(retry_delay_ms(4, 10), 0);
}

fn facts(length: u64) -> FileFacts {
    FileFacts {
        is_file: true,
        device: 1,
        inode: 2,
        mode: 0o644,
        length,
        modified_seconds: 3,
        modified_nanoseconds: 4,
    }
}

fn present(contents: &[u8]) -> FoundFile {
    FoundFile::Present(ReadFile {
        before: facts(contents.len() as u64),
        contents: contents.to_vec(),
        after: facts(contents.len() as u64),
    })
}

fn authority(head: &[u8], config: &[u8]) -> GitAuthority {
    GitAuthority {
        files: vec![
            present(head),
            FoundFile::Missing,
            present(config),
            FoundFile::Missing,
            FoundFile::Missing,
            FoundFile::Missing,
        ],
        reference: present(b"commit"),
    }
}

fn counted(message: &mut Vec<u8>, bytes: &[u8]) {
    message.extend_from_slice(&(bytes.len() as u64).to_le_bytes());
    message.extend_from_slice(bytes);
}

fn file(message: &mut Vec<u8>, contents: &[u8]) {
    message.extend_from_slice(b"file\0");
    message.extend_from_slice(&0o644_u32.to_le_bytes());
    message.extend_from_slice(&(contents.len() as u64).to_le_bytes());
    message.extend_from_slice(contents);
    message.extend_from_slice(b"\0file-end\0");
}

#[test]
fn workspaces_are_digested_file_by_file() {
    let listed = listed_paths(b"src/b\0src/a\0src/b\0").unwrap();
    let entries = workspace_entries(&listed).unwrap();
    assert_eq!(entries, ["src/a", "src/b"]);
    assert!(workspace_entries(&vec!["../up".to_owned()]).is_err());
    assert!(listed_paths(&[0xff]).is_err());
    let files = vec![present(b"one"), FoundFile::Missing];
    let fingerprint = hash_workspace_entries(
        "/work",
        &entries,
        &files,
        &authority(b"ref: refs/heads/main\n", b"[core]\n"),
    )
    .unwrap();

    let mut message = b"pam-flow-workspace-v1\0".to_vec();
    counted(&mut message, b"/work");
    message.extend_from_slice(&2_u64.to_le_bytes());
    counted(&mut message, b"src/a");
    file(&mut message, b"one");
    counted(&mut message, b"src/b");
    message.extend_from_slice(b"missing\0");
    message.extend_from_slice(b"git-authority\0");
    for (name, contents) in [
        ("HEAD", Some(b"ref: refs/heads/main\n".as_slice())),
        ("index", None),
        ("config", Some(b"[core]\n".as_slice())),
        ("info/exclude", None),
        ("info/attributes", None),
        ("packed-refs", None),
        ("refs/heads/main", Some(b"commit".as_slice())),
    ] {
        counted(&mut message, name.as_bytes());
        match contents {
            Some(contents) => file(&mut message, contents),
            None => message.extend_from_slice(b"missing\0"),
        }
    }
    message.extend_from_slice(&(3_u64 + 21 + 7 + 6).to_le_bytes());
    let expected: [u8; 32] = Sha256::digest(&message).into();
    assert_eq!(fingerprint.0, expected);
    let git = authority(b"ref: refs/heads/main\n", b"[core]\n");
    let joined = fingerprint_listing("/work", &listed, &files, &git).unwrap();
    assert_eq!(joined.0, expected);
    let elsewhere = vec!["../up".to_owned()];
    assert!(fingerprint_listing("/work", &elsewhere, &vec![FoundFile::Missing], &git).is_err());
    assert!(fingerprint_listing("/work", &listed, &vec![FoundFile::Missing], &git).is_err());
}

#[test]
fn unsettled_or_redirected_workspaces_are_unavailable() {
    let entries = vec!["a".to_owned()];
    let good = || authority(b"ref: refs/heads/main\n", b"[core]\n");
    let digest = |files: Vec<FoundFile>, authority: GitAuthority| {
        hash_workspace_entries("/work", &entries, &files, &authority)
    };
    assert!(digest(vec![present(b"x")], good()).is_ok());
    let mut changed = facts(1);
    changed.inode = 9;
    let moved = FoundFile::Present(ReadFile {
        before: facts(1),
        contents: b"x".to_vec(),
        after: changed,
    });
    assert_eq!(
        digest(vec![moved], good()).err(),
        Some(FlowSubmissionError::WorkspaceUnavailable)
    );
    assert!(digest(
        vec![present(b"x")],
        authority(b"ref: ../outside\n", b"[core]\n")
    )
    .is_err());
    assert!(digest(
        vec![present(b"x")],
        authority(b"ref: refs/heads/main\n", b"[include]\npath=x\n")
    )
    .is_err());
    assert!(stable_file_metadata(&facts(1), &facts(1)));
    assert!(!stable_file_metadata(&facts(1), &changed));
    let mut total = 67_108_863;
    assert!(add_workspace_bytes(&mut total, 1).is_ok());
    assert!(add_workspace_bytes(&mut total, 1).is_err());
    assert_eq!(head_reference(b"0123abcd\n"), Ok(None));
    assert_eq!(
        head_reference(b"ref: refs/heads/x\n"),
        Ok(Some("refs/heads/x".to_owned()))
    );
    assert_eq!(authority_file_names().len(), 6);
}

#[test]
fn fingerprints_change_with_what_they_are_bound_to() {
    let head = b"ref: refs/heads/main\n".as_slice();
    let digest = |root: &str, name: &str, contents: &[u8], head: &[u8], config: &[u8]| {
        let entries = vec![name.to_owned()];
        let files = vec![present(contents)];
        hash_workspace_entries(root, &entries, &files, &authority(head, config))
            .unwrap()
            .0
    };
    let accepted = digest("/work", "a", b"x", head, b"[core]\n");
    assert_eq!(accepted, digest("/work", "a", b"x", head, b"[core]\n"));
    for changed in [
        digest("/work2", "a", b"x", head, b"[core]\n"),
        digest("/work", "b", b"x", head, b"[core]\n"),
        digest("/work", "a", b"y", head, b"[core]\n"),
        digest("/work", "a", b"xx", head, b"[core]\n"),
        digest("/work", "a", b"x", b"ref: refs/heads/next\n", b"[core]\n"),
        digest("/work", "a", b"x", b"0123\n", b"[core]\n"),
        digest("/work", "a", b"x", head, b"[user]\n"),
    ] {
        assert_ne!(accepted, changed);
    }
    let entries = vec!["a".to_owned()];
    let git = authority(head, b"[core]\n");
    let gone = hash_workspace_entries("/work", &entries, &vec![FoundFile::Missing], &git);
    assert_ne!(accepted, gone.unwrap().0);
    let mut executable = facts(1);
    executable.mode = 0o755;
    let files = vec![FoundFile::Present(ReadFile {
        before: executable,
        contents: b"x".to_vec(),
        after: executable,
    })];
    let remade = hash_workspace_entries("/work", &entries, &files, &git);
    assert_ne!(accepted, remade.unwrap().0);
}
