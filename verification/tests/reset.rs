use pam_daemon::answers::Answer;
use pam_daemon::protocol::{FailureCode, OperationTruth};
use pam_daemon::reset::factory::{
    callers_to_purge, confirm_audit_recorded, data_entry_kind, factory_audit, factory_event_id,
    factory_findings, factory_items, factory_result, factory_retain_until, factory_start,
    factory_step, is_measured_whole, kind_footprint, library_footprint, parse_caller_id, receipt_text,
    removes_weight, weight_footprint, with_purged, DataEntry, DataEntryKind, FactoryAction,
    FactoryEvent, FactoryFacts, FactoryFindings, FactoryPhase, FactoryResetOptions,
};
use pam_daemon::reset::items::{
    access_items, active_callers, compose, history_items, identity_items, identity_start,
    identity_step, registered_callers, registry_items, reset_audit_detail, reset_conclusion,
    reset_failure, reset_item, CallerRegistration, EvidencePurge, IdentityAction, IdentityEvent, IdentityFacts,
    ResetItem, ResetTally, ResetTier,
};
use pam_daemon::reset::tiers::{
    tier_items, tier_start, tier_step, TierAction, TierCounts, TierEvent, TierFacts,
};
use pam_daemon::reset::walk::{Footprint, Walk, WalkEvent, WalkStep};
use pam_daemon::reset::{ensure_single_component, ensure_within, ResetError, ResetPaths};

fn outside(result: Result<(), ResetError>) -> Option<String> {
    match result {
        Err(ResetError::OutsideRoot(path)) => Some(path),
        Ok(()) | Err(_) => None,
    }
}

#[test]
fn the_root_is_where_the_state_is() {
    let paths = ResetPaths::for_state_path("/data/pam/state.sqlite3").ok().unwrap();
    assert_eq!(paths.root(), "/data/pam");
    assert_eq!(paths.state_path(), "/data/pam/state.sqlite3");
    assert_eq!(paths.flow_library(), "/data/pam/.pam/flows");
    assert!(matches!(paths.child("logs"), Ok(path) if path == "/data/pam/logs"));
    assert!(matches!(
        paths.child("../other"),
        Err(ResetError::OutsideRoot(path)) if path == "/data/pam/../other"
    ));
    assert!(matches!(
        paths.receipt_path(5),
        Ok(path) if path == "/data/pam-reset-receipt-5.txt"
    ));
    assert!(ResetPaths::for_state_path("state.sqlite3").is_err());
    for root in ["/data/pam", "/", "relative", "."] {
        let paths = ResetPaths::rooted(root.to_owned(), None);
        let back = ResetPaths::for_state_path(&paths.state_path()).ok().unwrap();
        assert_eq!(back.root(), root);
    }
    let rooted = ResetPaths::rooted("/link".to_owned(), Some("/real".to_owned()));
    assert_eq!(rooted.root(), "/real");
    assert!(ResetPaths::rooted("/".to_owned(), None).receipt_path(1).is_err());
}

#[test]
fn nothing_outside_the_root_is_accepted() {
    assert!(ensure_within("/data", "/data/a").is_ok());
    assert!(ensure_within("/data", "/data/a/b").is_ok());
    for target in ["/data", "/data/", "/other", "/data2", "/data/../etc", "/data/a/.."] {
        assert_eq!(
            outside(ensure_within("/data", target)).as_deref(),
            Some(target)
        );
    }
    assert!(ensure_single_component("a", "ctx").is_ok());
    for segment in ["", ".", "..", "/a", "a/b", "/"] {
        assert_eq!(
            outside(ensure_single_component(segment, "ctx")).as_deref(),
            Some("ctx")
        );
    }
}

#[test]
fn errors_tell_what_helps() {
    let error = ResetError::Filesystem {
        path: "/data/a".to_owned(),
        reason: "busy".to_owned(),
    };
    assert_eq!(error.message(), "could not remove /data/a: busy");
    assert_eq!(
        error.recovery().as_deref(),
        Some("Close any program holding /data/a, then run the reset again.")
    );
    assert_eq!(
        ResetError::DaemonRunning.message(),
        "a running daemon still owns PAM's durable state"
    );
    assert!(ResetError::DaemonRunning.recovery().unwrap().starts_with("Stop PAM first -- quit"));
    let failure = reset_failure(&ResetError::OutsideRoot("/x".to_owned()));
    assert_eq!(failure.code, FailureCode::InvalidRequest);
    assert_eq!(
        failure.message,
        "refused to touch /x because it is outside PAM's data directory"
    );
    assert_eq!(
        reset_failure(&ResetError::DaemonRunning).code,
        FailureCode::LeaseConflict
    );
    let failure = reset_failure(&ResetError::Store("locked".to_owned()));
    assert_eq!(failure.message, "durable state was unavailable: locked");
    assert_eq!(failure.recovery, None);
    assert_eq!(
        ResetError::Credentials("denied".to_owned()).message(),
        "the credential store was unavailable: denied"
    );
    assert_eq!(
        ResetError::DataDirectory("none".to_owned()).message(),
        "PAM could not resolve its data directory: none"
    );
    assert_eq!(
        ResetError::Interrupted.message(),
        "the reset was interrupted before it ran"
    );
}

fn name(step: &WalkStep) -> String {
    match step {
        WalkStep::Inspect(path) => format!("inspect {path}"),
        WalkStep::List(path) => format!("list {path}"),
        WalkStep::RemoveFile(path) => format!("unlink {path}"),
        WalkStep::RemoveDirectory(path) => format!("rmdir {path}"),
        WalkStep::Finish(total) => format!("finish {} {}", total.entries, total.bytes),
        WalkStep::Fail(error) => format!("fail {}", error.message()),
        WalkStep::Ignore => "ignore".to_owned(),
    }
}

fn children(names: &[&str]) -> WalkEvent {
    WalkEvent::Children(names.iter().map(|it| (*it).to_owned()).collect())
}

#[test]
fn a_measurement_forecasts_the_removal() {
    let (mut walk, step) = Walk::measure("/data", "/data/logs");
    assert_eq!(name(&step), "inspect /data/logs");
    assert_eq!(name(&walk.step(WalkEvent::Directory)), "list /data/logs");
    assert_eq!(name(&walk.step(children(&["a", "b"]))), "inspect /data/logs/a");
    assert_eq!(name(&walk.step(WalkEvent::File { bytes: 5 })), "inspect /data/logs/b");
    assert_eq!(name(&walk.step(WalkEvent::Directory)), "list /data/logs/b");
    assert_eq!(name(&walk.step(children(&[]))), "finish 3 5");

    let (mut walk, step) = Walk::remove("/data", "/data/logs");
    assert_eq!(name(&step), "inspect /data/logs");
    assert_eq!(name(&walk.step(WalkEvent::Directory)), "list /data/logs");
    assert_eq!(name(&walk.step(children(&["a", "b"]))), "inspect /data/logs/a");
    assert_eq!(name(&walk.step(WalkEvent::File { bytes: 5 })), "unlink /data/logs/a");
    assert_eq!(name(&walk.step(WalkEvent::Removed)), "inspect /data/logs/b");
    assert_eq!(name(&walk.step(WalkEvent::Directory)), "list /data/logs/b");
    assert_eq!(name(&walk.step(children(&[]))), "rmdir /data/logs/b");
    assert_eq!(name(&walk.step(WalkEvent::Removed)), "rmdir /data/logs");
    assert_eq!(name(&walk.step(WalkEvent::Removed)), "finish 3 5");
    assert_eq!(name(&walk.step(WalkEvent::Removed)), "ignore");
}

#[test]
fn a_walk_takes_entries_in_order() {
    let (mut walk, _) = Walk::remove("/data", "/data/x");
    walk.step(WalkEvent::Directory);
    assert_eq!(name(&walk.step(children(&["c", "a", "b"]))), "inspect /data/x/a");
    assert_eq!(name(&walk.step(WalkEvent::Missing)), "inspect /data/x/b");
    assert_eq!(name(&walk.step(WalkEvent::Missing)), "inspect /data/x/c");
    assert_eq!(name(&walk.step(WalkEvent::Missing)), "rmdir /data/x");
}

#[test]
fn an_emptied_root_stays() {
    let (mut walk, step) = Walk::empty("/data");
    assert_eq!(name(&step), "inspect /data");
    assert_eq!(name(&walk.step(WalkEvent::Directory)), "list /data");
    assert_eq!(name(&walk.step(children(&["logs", "a"]))), "inspect /data/a");
    assert_eq!(name(&walk.step(WalkEvent::File { bytes: 5 })), "unlink /data/a");
    assert_eq!(name(&walk.step(WalkEvent::Removed)), "inspect /data/logs");
    assert_eq!(name(&walk.step(WalkEvent::Directory)), "list /data/logs");
    assert_eq!(name(&walk.step(children(&[]))), "rmdir /data/logs");
    assert_eq!(name(&walk.step(WalkEvent::Removed)), "finish 2 5");
    let (mut walk, _) = Walk::empty("/data");
    assert_eq!(name(&walk.step(WalkEvent::Missing)), "finish 0 0");
    let (mut walk, _) = Walk::empty("/data");
    assert_eq!(name(&walk.step(WalkEvent::File { bytes: 5 })), "list /data");
}

#[test]
fn a_walk_refuses_what_is_not_its_own() {
    let (_, step) = Walk::remove("/data", "/data");
    assert!(name(&step).starts_with("fail refused to touch /data "));
    let (mut walk, _) = Walk::remove("/data", "/data/x");
    walk.step(WalkEvent::Directory);
    let step = walk.step(children(&["ok", "..", "z"]));
    assert!(name(&step).starts_with("fail refused to touch /data/x/.. "));
    let (mut walk, _) = Walk::remove("/data", "/data/x");
    assert_eq!(
        name(&walk.step(WalkEvent::Failed("denied".to_owned()))),
        "fail could not remove /data/x: denied"
    );
    let (mut walk, _) = Walk::measure("/data", "/data/x");
    assert_eq!(name(&walk.step(WalkEvent::Missing)), "finish 0 0");
}

#[test]
fn footprints_do_not_overflow() {
    let large = Footprint { entries: u64::MAX, bytes: 1 };
    let total = large.plus(Footprint { entries: 1, bytes: 2 });
    assert_eq!(total, Footprint { entries: u64::MAX, bytes: 3 });
}

#[test]
fn tiers_report_what_goes() {
    let items = access_items(1, 2, 3);
    assert_eq!(items[2].kind, "flow_authorizations");
    let result = compose("access", true, items);
    assert_eq!(result.total_items, 6);
    assert_eq!(
        reset_audit_detail(&result),
        "scope=access dry_run=true items=6 bytes=0 grants=1 approvals=2 flow_authorizations=3"
    );
    let concluded = reset_conclusion(ResetTier::Access, true, result);
    assert_eq!(concluded.audit.purpose, "reset");
    assert_eq!(concluded.audit.action, "reset.access");
    assert_eq!(concluded.audit.decision, "observe");
    assert_eq!(concluded.audit.outcome, "observed");
    let real = reset_conclusion(ResetTier::Registry, false, compose("registry", false, registry_items(4)));
    assert_eq!(real.audit.decision, "allow");
    assert_eq!(real.audit.outcome, "changed");
    assert!(matches!(
        real.answer,
        Answer::Success { truth: OperationTruth::Changed, payload } if payload.total_items == 4
    ));
    let tally = ResetTally { count: 5, bytes: 50 };
    assert_eq!(history_items(tally, tally, Some(4), tally)[1].count, 4);
    assert_eq!(history_items(tally, tally, None, tally)[1].count, 5);
    assert_eq!(history_items(tally, tally, Some(4), tally)[1].bytes, 50);
    let identity = identity_items(2, Footprint { entries: 3, bytes: 30 }, 1);
    assert_eq!(identity[1].kind, "caller_files");
    assert_eq!(identity[1].bytes, 30);
    let labels: Vec<&str> = ResetTier::all().iter().map(|tier| tier.label()).collect();
    assert_eq!(labels, ["access", "identity", "history", "registry"]);
}

#[test]
fn totals_stop_at_the_largest_number() {
    let result = compose("x", false, vec![reset_item("a", u64::MAX, 1), reset_item("b", 2, 3)]);
    assert_eq!(result.total_items, u64::MAX);
    assert_eq!(result.total_bytes, 4);
}

#[test]
fn identity_resets_revoke_every_active_caller() {
    let registrations = vec![
        CallerRegistration { caller_id: "a".to_owned(), revoked_at_ms: None },
        CallerRegistration { caller_id: "b".to_owned(), revoked_at_ms: Some(1) },
        CallerRegistration { caller_id: "c".to_owned(), revoked_at_ms: None },
    ];
    assert_eq!(active_callers(&registrations), ["a", "c"]);
    assert_eq!(registered_callers(&registrations), ["a", "b", "c"]);
    let files = Footprint { entries: 1, bytes: 2 };
    let facts = IdentityFacts { dry_run: false, active: 2 };
    let (phase, action) = identity_start(facts);
    assert_eq!(action, IdentityAction::Revoke(0));
    let (phase, action) = identity_step(facts, phase, IdentityEvent::Revoked);
    assert_eq!(action, IdentityAction::Revoke(1));
    let (phase, action) = identity_step(facts, phase, IdentityEvent::Revoked);
    assert_eq!(action, IdentityAction::PurgeCredentials);
    let (phase, action) = identity_step(facts, phase, IdentityEvent::Credentials(3));
    assert_eq!(action, IdentityAction::RemoveFiles);
    assert_eq!(
        identity_step(facts, phase, IdentityEvent::Files(files)).1,
        IdentityAction::Report { callers: 2, files, keychain_entries: 3 }
    );
    let dry = IdentityFacts { dry_run: true, active: 2 };
    let (phase, action) = identity_start(dry);
    assert_eq!(action, IdentityAction::CountCredentials);
    assert_eq!(
        identity_step(dry, phase, IdentityEvent::Credentials(3)).1,
        IdentityAction::MeasureFiles
    );
}

#[test]
fn evidence_purges_end() {
    let mut purge = EvidencePurge::new();
    assert!(purge.round(1_000, true));
    assert!(!purge.round(7, false));
    assert_eq!(purge.handles, 1_007);
    let mut endless = EvidencePurge::new();
    let mut rounds = 1;
    while endless.round(1, true) {
        rounds += 1;
    }
    assert_eq!(rounds, 8_192);
}

#[test]
fn entries_of_the_root_are_counted_once() {
    for (name, kind) in [
        ("state.sqlite3", DataEntryKind::StateDatabase),
        ("state.sqlite3-wal", DataEntryKind::StateDatabase),
        ("evidence", DataEntryKind::Tier),
        ("callers", DataEntryKind::Tier),
        (".pam", DataEntryKind::FlowLibrary),
        ("settings.json", DataEntryKind::Settings),
        ("logs", DataEntryKind::Logs),
        ("runtime", DataEntryKind::Runtime),
        ("notes.txt", DataEntryKind::Other),
        ("state", DataEntryKind::Other),
    ] {
        assert_eq!(data_entry_kind(&Some(name.to_owned())), kind);
    }
    assert_eq!(data_entry_kind(&None), DataEntryKind::Other);
    for (name, measured) in [("evidence", false), ("callers", false), (".pam", false), ("x", true)] {
        assert_eq!(is_measured_whole(&Some(name.to_owned())), measured);
    }
    assert!(is_measured_whole(&None));
    let entry = |name: Option<&str>, bytes| DataEntry {
        name: name.map(str::to_owned),
        footprint: Footprint { entries: 1, bytes },
    };
    let entries = vec![
        entry(Some("state.sqlite3"), 1),
        entry(Some("state.sqlite3-shm"), 2),
        entry(Some("logs"), 4),
        entry(Some("x"), 8),
        entry(None, 16),
    ];
    assert_eq!(
        kind_footprint(&entries, DataEntryKind::StateDatabase),
        Footprint { entries: 2, bytes: 3 }
    );
    assert_eq!(
        kind_footprint(&entries, DataEntryKind::Other),
        Footprint { entries: 2, bytes: 24 }
    );
    assert_eq!(
        weight_footprint(&vec![Some(5), None, Some(6)]),
        Footprint { entries: 2, bytes: 11 }
    );
}

#[test]
fn a_forecast_is_a_partition_of_the_root() {
    let entry = |name: Option<&str>, bytes| DataEntry {
        name: name.map(str::to_owned),
        footprint: Footprint { entries: 1, bytes },
    };
    let entries = vec![
        entry(Some("state.sqlite3"), 1),
        entry(Some("settings.json"), 2),
        entry(Some("logs"), 4),
        entry(Some("runtime"), 8),
        entry(Some("notes.txt"), 16),
        entry(None, 32),
        entry(Some(".pam"), 0),
        entry(Some("callers"), 0),
        entry(Some("evidence"), 0),
    ];
    let parent = vec![
        entry(Some("flows"), 64),
        entry(Some("notes.txt"), 128),
        entry(None, 256),
    ];
    assert_eq!(library_footprint(&parent, true), Footprint { entries: 1, bytes: 64 });
    assert_eq!(library_footprint(&parent, false), Footprint { entries: 2, bytes: 384 });
    let findings = factory_findings(&entries, &parent, vec!["a.toml".to_owned()], None);
    assert_eq!(findings.flow_bytes, 64);
    assert_eq!(findings.settings, Footprint { entries: 1, bytes: 2 });
    assert_eq!(findings.other, Footprint { entries: 4, bytes: 16 + 32 + 128 + 256 });
    let items = factory_items(Vec::new(), &findings);
    assert_eq!(items.iter().map(|item| item.bytes).sum::<u64>(), 511);
    let forecast = factory_result(true, items);
    assert_eq!((forecast.scope.as_str(), forecast.dry_run), ("factory", true));
    assert_eq!((forecast.total_items, forecast.total_bytes), (9, 511));
}

#[test]
fn callers_are_purged_once_each() {
    let registered = vec![
        CallerRegistration { caller_id: "gui".to_owned(), revoked_at_ms: Some(4) },
        CallerRegistration { caller_id: "cli".to_owned(), revoked_at_ms: None },
    ];
    let named = vec!["old".to_owned(), "cli".to_owned(), "old".to_owned()];
    assert_eq!(callers_to_purge(&registered, &named), ["cli", "gui", "old"]);
    assert_eq!(callers_to_purge(&Vec::new(), &named), ["cli", "old"]);
    assert!(callers_to_purge(&Vec::new(), &Vec::new()).is_empty());
}

#[test]
fn only_files_are_removed_as_weights() {
    assert!(removes_weight(Some(true)));
    assert!(!removes_weight(Some(false)));
    assert!(!removes_weight(None));
}

#[test]
fn factory_items_follow_those_of_the_tiers() {
    let some = |entries| Footprint { entries, bytes: entries * 10 };
    let findings = FactoryFindings {
        flow_names: vec!["b.toml".to_owned(), "a.toml".to_owned()],
        flow_bytes: 44,
        settings: some(1),
        logs: some(2),
        runtime: some(3),
        state_database: some(4),
        other: some(5),
        weights: Some(some(6)),
    };
    let items = factory_items(registry_items(9), &findings);
    let kinds: Vec<&str> = items.iter().map(|it| it.kind.as_str()).collect();
    assert_eq!(
        kinds,
        [
            "models",
            "flows",
            "settings",
            "logs",
            "runtime",
            "state_database",
            "other_data_files",
            "model_weights"
        ]
    );
    assert_eq!(items[1].names, ["a.toml", "b.toml"]);
    assert_eq!(items[1].count, 2);
    assert_eq!(items[1].bytes, 44);
    assert_eq!(items[7].bytes, 60);
    let identity = identity_items(0, some(0), 8);
    let purged = with_purged(identity, 3);
    assert_eq!(purged[2].count, 3);
    assert_eq!(purged[0].count, 0);
}

#[test]
fn factory_resets_are_recorded_before_anything_goes() {
    let facts = FactoryFacts { preview: false, include_weights: true };
    let (phase, action) = factory_start(facts);
    assert_eq!(action, FactoryAction::ProbeOwner);
    assert_eq!(
        factory_step(facts, phase, FactoryEvent::Owner { known_stopped: false }),
        (FactoryPhase::Done, FactoryAction::RefuseRunning)
    );
    let mut phase = phase;
    for (event, expected) in [
        (
            FactoryEvent::Owner { known_stopped: true },
            FactoryAction::OpenStore { read_only: false },
        ),
        (FactoryEvent::StoreOpened(true), FactoryAction::ListCallers),
        (FactoryEvent::CallersListed(true), FactoryAction::CountItems),
        (FactoryEvent::ItemsCounted(true), FactoryAction::ListWeights),
        (FactoryEvent::WeightsListed(true), FactoryAction::Audit),
        (FactoryEvent::Audited(true), FactoryAction::ConfirmAudit),
        (FactoryEvent::Confirmed(true), FactoryAction::CloseStore),
        (FactoryEvent::StoreClosed(true), FactoryAction::PurgeCredentials),
        (FactoryEvent::CredentialsPurged(true), FactoryAction::EmptyRoot),
        (FactoryEvent::RootEmptied(true), FactoryAction::RemoveWeights),
        (FactoryEvent::WeightsRemoved(true), FactoryAction::WriteReceipt),
        (FactoryEvent::ReceiptWritten(true), FactoryAction::Report),
    ] {
        let (next, action) = factory_step(facts, phase, event);
        assert_eq!(action, expected);
        phase = next;
    }
    let (closing, action) =
        factory_step(facts, FactoryPhase::Confirming, FactoryEvent::Confirmed(false));
    assert_eq!(action, FactoryAction::CloseStore);
    assert_eq!(
        factory_step(facts, closing, FactoryEvent::StoreClosed(true)).1,
        FactoryAction::Fail
    );
    let preview = FactoryFacts { preview: true, include_weights: true };
    let (phase, action) = factory_start(preview);
    assert_eq!(action, FactoryAction::OpenStore { read_only: true });
    let (phase, _) = factory_step(preview, phase, FactoryEvent::StoreOpened(true));
    let (phase, _) = factory_step(preview, phase, FactoryEvent::CallersListed(true));
    let (phase, action) = factory_step(preview, phase, FactoryEvent::ItemsCounted(true));
    assert_eq!(action, FactoryAction::CloseStore);
    assert_eq!(
        factory_step(preview, phase, FactoryEvent::StoreClosed(true)).1,
        FactoryAction::Report
    );
    assert!(!FactoryResetOptions::default().include_weights);
}

#[test]
fn the_record_of_a_factory_reset_is_read_back() {
    assert_eq!(factory_event_id(5, "me"), "reset-factory-5-me");
    let result = compose("factory", true, vec![reset_item("models", 2, 7)]);
    let note = factory_audit(&result);
    assert_eq!(note.action, "reset.factory");
    assert_eq!(note.outcome, "changed");
    assert_eq!(note.detail, "scope=factory items=2 bytes=7");
    assert_eq!(factory_retain_until(1), 2_592_000_001);
    assert_eq!(factory_retain_until(u64::MAX), u64::MAX);
    let recent = vec!["x".to_owned(), "reset-factory-5-me".to_owned()];
    assert!(confirm_audit_recorded(&recent, "reset-factory-5-me").is_ok());
    assert!(matches!(
        confirm_audit_recorded(&recent, "y"),
        Err(ResetError::Store(reason))
            if reason == "the factory reset could not record itself in the audit ledger"
    ));
}

#[test]
fn identity_files_name_their_caller() {
    assert_eq!(
        parse_caller_id("version = 1\n  caller_id = \"caller-7\" \r\n").as_deref(),
        Some("caller-7")
    );
    assert_eq!(parse_caller_id("caller_id=\"\"").as_deref(), Some(""));
    for other in ["", "caller = \"a\"", "caller_id \"a\"", "caller_id = a", "caller_id = \""] {
        assert_eq!(parse_caller_id(other), None);
    }
    assert_eq!(
        parse_caller_id("caller_id = a\ncaller_id = \"b\"\ncaller_id = \"c\"").as_deref(),
        Some("b")
    );
}

#[test]
fn receipts_list_what_went() {
    let mut flows = reset_item("flows", 1, 4);
    flows.names = vec!["a.toml".to_owned()];
    let result = compose("factory", false, vec![flows]);
    assert_eq!(
        receipt_text(5, "id", "/data", &result, &Vec::new()),
        "PAM factory reset receipt\noccurred_at_unix_ms=5\naudit_event_id=id\n\
         data_directory=/data\ntotal_items=1 total_bytes=4\nremoved:\n  flows count=1 bytes=4\n    \
         a.toml\nmodel_weights: kept\n"
    );
    assert!(
        receipt_text(5, "id", "/data", &result, &vec!["/m/a".to_owned()])
            .ends_with("model_weights:\n  /m/a\n")
    );
}

#[test]
fn identity_resets_report_what_was_forecast() {
    let files = Footprint {
        entries: 3,
        bytes: 40,
    };
    let report = |dry_run: bool, active: usize| {
        let facts = IdentityFacts { dry_run, active };
        let mut actions = Vec::new();
        let (mut phase, mut action) = identity_start(facts);
        loop {
            actions.push(action);
            let event = match action {
                IdentityAction::Revoke(_) => IdentityEvent::Revoked,
                IdentityAction::CountCredentials | IdentityAction::PurgeCredentials => {
                    IdentityEvent::Credentials(2)
                }
                IdentityAction::MeasureFiles | IdentityAction::RemoveFiles => {
                    IdentityEvent::Files(files)
                }
                IdentityAction::Report { .. } | IdentityAction::Ignore => return actions,
            };
            (phase, action) = identity_step(facts, phase, event);
        }
    };
    let forecast = report(true, 2);
    let reset = report(false, 2);
    assert_eq!(
        forecast,
        [
            IdentityAction::CountCredentials,
            IdentityAction::MeasureFiles,
            IdentityAction::Report {
                callers: 2,
                files,
                keychain_entries: 2
            },
        ]
    );
    assert_eq!(reset[0], IdentityAction::Revoke(0));
    assert_eq!(reset[1], IdentityAction::Revoke(1));
    assert_eq!(reset.last(), forecast.last());
}

#[test]
fn history_resets_report_what_was_forecast() {
    let tally = |count, bytes| ResetTally { count, bytes };
    let mut purge = EvidencePurge::new();
    assert!(purge.round(1_000, true));
    assert!(!purge.round(7, false));
    assert_eq!(purge.handles, 1_007);
    let evidence = tally(1_007, 90);
    let forecast = history_items(tally(5, 6), evidence, None, tally(7, 8));
    let reset = history_items(tally(5, 6), evidence, Some(purge.handles), tally(7, 8));
    for (item, told) in reset.iter().zip(&forecast) {
        assert_eq!(item.kind, told.kind);
        assert_eq!(item.count, told.count);
        assert_eq!(item.bytes, told.bytes);
    }
    assert_eq!(reset[1].count, 1_007);
    assert_eq!(reset[1].bytes, 90);
}

/// What the tiers cover, as a store and a disk hold it.
#[derive(Clone, Copy)]
struct Held {
    grants: u64,
    active: usize,
    credentials: u64,
    files: Footprint,
    evidence: u64,
    events: u64,
    models: u64,
}

fn perform(held: &mut Held, action: TierAction) -> Result<TierEvent, TierCounts> {
    let before = *held;
    let tally = |count: u64| ResetTally { count, bytes: 10 * count };
    let none = Footprint { entries: 0, bytes: 0 };
    Ok(match action {
        TierAction::CountAccess | TierAction::DropAccess => {
            if action == TierAction::DropAccess {
                held.grants = 0;
            }
            TierEvent::Access { grants: before.grants, approvals: 0, flow_authorizations: 0 }
        }
        TierAction::ListCallers => TierEvent::Callers(held.active),
        TierAction::Identity(step) => TierEvent::Identity(match step {
            IdentityAction::Revoke(_) => {
                held.active -= 1;
                IdentityEvent::Revoked
            }
            IdentityAction::CountCredentials => IdentityEvent::Credentials(before.credentials),
            IdentityAction::PurgeCredentials => {
                held.credentials = 0;
                IdentityEvent::Credentials(before.credentials)
            }
            IdentityAction::MeasureFiles => IdentityEvent::Files(before.files),
            IdentityAction::RemoveFiles => {
                held.files = none;
                IdentityEvent::Files(before.files)
            }
            _ => unreachable!(),
        }),
        TierAction::CountEvidence => TierEvent::Evidence(tally(before.evidence)),
        TierAction::CountHistory | TierAction::DropHistory => {
            if action == TierAction::DropHistory {
                held.events = 0;
            }
            TierEvent::History { audit_events: tally(before.events), flow_runs: tally(0) }
        }
        TierAction::PurgeEvidence => {
            let handles = before.evidence.min(1_000);
            held.evidence -= handles;
            TierEvent::Purged { handles: handles as u32, has_more: held.evidence > 0 }
        }
        TierAction::CountModels | TierAction::DropModels => {
            if action == TierAction::DropModels {
                held.models = 0;
            }
            TierEvent::Models(before.models)
        }
        TierAction::Report(counts) => return Err(counts),
        TierAction::Ignore => unreachable!(),
    })
}

fn run(held: &mut Held, tier: ResetTier, dry_run: bool) -> Vec<(String, u64, u64)> {
    let facts = TierFacts { tier, dry_run };
    let (mut phase, mut action) = tier_start(facts);
    loop {
        match perform(held, action) {
            Ok(event) => (phase, action) = tier_step(facts, phase, event),
            Err(counts) => {
                let told = |item: ResetItem| (item.kind, item.count, item.bytes);
                return tier_items(counts).into_iter().map(told).collect();
            }
        }
    }
}

#[test]
fn every_tier_is_forecast_exactly_and_leaves_the_others_alone() {
    let full = Held {
        grants: 3,
        active: 2,
        credentials: 4,
        files: Footprint { entries: 3, bytes: 70 },
        evidence: 2_500,
        events: 6,
        models: 1,
    };
    for tier in ResetTier::all() {
        let mut held = full;
        let others: Vec<_> = ResetTier::all()
            .into_iter()
            .filter(|other| *other != tier)
            .map(|other| (other, run(&mut held, other, true)))
            .collect();
        let forecast = run(&mut held, tier, true);
        assert_eq!(run(&mut held, tier, true), forecast);
        assert!(forecast.iter().any(|(_, count, _)| *count > 0));
        assert_eq!(run(&mut held, tier, false), forecast);
        assert!(run(&mut held, tier, true).iter().all(|(_, count, bytes)| *count + *bytes == 0));
        for (other, told) in others {
            assert_eq!(run(&mut held, other, true), told);
        }
    }
    let mut held = full;
    assert_eq!(
        run(&mut held, ResetTier::History, false),
        [
            ("audit_events".to_owned(), 6, 60),
            ("evidence".to_owned(), 2_500, 25_000),
            ("flow_runs".to_owned(), 0, 0),
        ]
    );
}

#[test]
fn a_factory_reset_reports_each_kind_once() {
    let mut held = Held {
        grants: 1,
        active: 1,
        credentials: 1,
        files: Footprint { entries: 1, bytes: 1 },
        evidence: 1,
        events: 1,
        models: 1,
    };
    let mut kinds: Vec<String> = Vec::new();
    for tier in ResetTier::all() {
        kinds.extend(run(&mut held, tier, true).into_iter().map(|(kind, _, _)| kind));
    }
    let findings =
        factory_findings(&Vec::new(), &Vec::new(), Vec::new(), Some(weight_footprint(&vec![None])));
    kinds.extend(factory_items(Vec::new(), &findings).into_iter().map(|item| item.kind));
    assert_eq!(kinds.len(), 17);
    for (index, kind) in kinds.iter().enumerate() {
        assert!(!kinds[..index].contains(kind));
    }
}
