use pam_daemon::answers::Answer;
use pam_daemon::brief::{
    brief_answer, brief_is_bounded, brief_truth, unconfigured_brief, BriefResult,
    SourceAvailability,
};
use pam_daemon::protocol::{FailureCode, OperationTruth};
use pam_daemon::ptrack::{
    bounded_detail, bounded_text, brief_fault_detail, brief_start, brief_step,
    check_registered_projects, context_handle, first_existing_executable, incompatible_projects,
    ptrack_candidates, run_fault, run_fault_text, unavailable, validate_registered_project,
    BriefAction, BriefEvent, BriefFault, ContextDigest, Issue, Note, Plan, ReaderEnd,
    RegisteredProject, RunFault, Task, WaitEnd,
};

fn task(id: u64, status: &str, hold: Option<&str>) -> Task {
    Task {
        id,
        title: format!("task {id}"),
        status: status.to_owned(),
        hold_reason: hold.map(str::to_owned),
    }
}

fn digest() -> ContextDigest {
    ContextDigest {
        goal: "ship it".to_owned(),
        summary: "all green".to_owned(),
        active_plan: Some(Plan {
            id: 7,
            title: "release".to_owned(),
            open_tasks: Some(vec![task(1, "open", None), task(2, "blocked", None)]),
            hold_reason: Some("waiting".to_owned()),
        }),
        blocked: Some(vec![task(2, "blocked", None), task(3, "blocked", None)]),
        blocked_more: 0,
        on_hold: Some(vec![task(4, "open", Some("later"))]),
        on_hold_more: 0,
        open_issues: Some(vec![Issue {
            id: 9,
            title: "flaky".to_owned(),
            severity: "high".to_owned(),
        }]),
        open_issues_more: 0,
        recent_notes: Some(vec![Note {
            target: "task".to_owned(),
            target_id: 1,
            body: "decided".to_owned(),
        }]),
    }
}

fn texts(brief: &BriefResult) -> Vec<&str> {
    brief.next.iter().map(|item| item.text.as_str()).collect()
}

#[test]
fn a_context_becomes_a_brief() {
    let brief = digest().into_brief("evidence://ptrack/context/00");
    assert_eq!(brief.goal.as_ref().unwrap().text, "ship it");
    assert_eq!(brief.decisions[0].text, "task #1: decided");
    assert_eq!(brief.verified[0].text, "all green");
    assert_eq!(
        texts(&brief),
        [
            "#1 [open] task 1",
            "#2 [blocked] task 2",
            "#3 [blocked] task 3",
            "#4 [open] task 4 hold=later",
            "issue #9 [severity=high] flaky",
        ]
    );
    assert_eq!(brief.next[0].truth, OperationTruth::Unresolved);
    assert_eq!(brief.next[1].truth, OperationTruth::Blocked);
    assert_eq!(brief.next[3].truth, OperationTruth::Blocked);
    assert_eq!(brief.provenance[0].availability, SourceAvailability::Available);
    assert_eq!(
        brief.provenance[0].detail.as_deref(),
        Some("ptrack context --json via the supported CLI; active plan #7 release; hold=waiting")
    );
    assert_eq!(brief.next[0].evidence, vec!["evidence://ptrack/context/00"]);
    assert!(brief_is_bounded(&brief));
    assert_eq!(brief_truth(&brief), OperationTruth::Observed);
}

#[test]
fn a_brief_that_leaves_something_out_says_so() {
    let mut long = digest();
    long.active_plan = None;
    long.blocked = Some((0..20).map(|id| task(id, "blocked", None)).collect());
    let brief = long.into_brief("h");
    assert_eq!(brief.next.len(), 16);
    assert_eq!(brief.provenance[0].availability, SourceAvailability::Partial);
    assert_eq!(
        brief.provenance[0].detail.as_deref(),
        Some("ptrack context --json via the supported CLI; bounded fields were truncated or omitted")
    );
    let mut more = digest();
    more.on_hold_more = 1;
    assert_eq!(
        more.into_brief("h").provenance[0].availability,
        SourceAvailability::Partial
    );
    let mut wide = digest();
    wide.goal = "é".repeat(4000);
    wide.summary = " ".to_owned();
    let brief = wide.into_brief("h");
    let goal = &brief.goal.as_ref().unwrap().text;
    assert_eq!(goal.len(), 4095);
    assert!(goal.ends_with("é... [truncated]"));
    assert!(brief.verified.is_empty());
    assert!(brief_is_bounded(&brief));
}

#[test]
fn texts_are_bounded_with_a_mark() {
    assert_eq!(bounded_text("short", 5), ("short".to_owned(), false));
    assert_eq!(
        bounded_text("0123456789abcdefghij", 18),
        ("012... [truncated]".to_owned(), true)
    );
    assert_eq!(bounded_text("longer", 3), ("... [truncated]".to_owned(), true));
    assert_eq!(bounded_detail(&"x".repeat(5000)).len(), 4096);
}

#[test]
fn an_unread_source_is_unresolved() {
    let brief = unavailable("no ptrack");
    assert_eq!(brief.provenance[0].truth, OperationTruth::Unresolved);
    assert_eq!(brief.provenance[0].detail.as_deref(), Some("no ptrack"));
    assert_eq!(brief_truth(&brief), OperationTruth::Unresolved);
    let mut blocked = unavailable("x");
    blocked.provenance[0].truth = OperationTruth::Blocked;
    assert_eq!(brief_truth(&blocked), OperationTruth::Blocked);
    assert_eq!(
        unconfigured_brief().provenance[0].detail.as_deref(),
        Some("No planning-context provider is configured.")
    );
    let mut oversized = unavailable("x");
    oversized.provenance[0].source = "s".repeat(257);
    assert!(matches!(
        brief_answer(oversized),
        Answer::Failure(failure) if failure.code == FailureCode::FrameTooLarge
    ));
    assert!(matches!(
        brief_answer(unavailable("x")),
        Answer::Success { truth: OperationTruth::Unresolved, .. }
    ));
}

#[test]
fn context_evidence_is_named_by_its_digest() {
    assert_eq!(
        context_handle(b"abc"),
        "evidence://ptrack/context/ba7816bf8f01cfea414140de5dae2223b00361a396177a9cb410ff61f20015ad"
    );
}

fn project(name: &str, path: &str) -> RegisteredProject {
    RegisteredProject {
        name: name.to_owned(),
        path: path.to_owned(),
        last_seen: "today".to_owned(),
    }
}

#[test]
fn catalogs_are_checked_as_a_whole() {
    let checked = check_registered_projects(vec![project("a", "/a"), project("b", "/b")]).unwrap();
    assert_eq!(checked[0].name(), "a");
    assert_eq!(checked[0].path(), "/a");
    assert_eq!(checked[0].last_seen(), "today");
    assert!(validate_registered_project(&checked, "/b/").is_ok());
    assert_eq!(
        validate_registered_project(&checked, "/c").unwrap_err(),
        "ptrack does not report this Pam project root through its supported projects interface."
    );
    for bad in [
        project(" ", "/a"),
        project(&"n".repeat(257), "/a"),
        project("a", "relative"),
        project("a", &format!("/{}", "p".repeat(4096))),
    ] {
        assert_eq!(
            check_registered_projects(vec![bad]).unwrap_err(),
            "ptrack returned an invalid registered project entry."
        );
    }
    let many = (0..257).map(|_| project("a", "/a")).collect();
    assert_eq!(
        check_registered_projects(many).unwrap_err(),
        "ptrack returned too many registered projects."
    );
    assert_eq!(
        incompatible_projects("eof"),
        "ptrack returned incompatible projects JSON: eof"
    );
}

#[test]
fn ptrack_is_looked_for_in_order() {
    let candidates = ptrack_candidates(Some("/own/ptrack"), Some("/opt/pam"), Some("/home/me"));
    assert_eq!(
        candidates,
        [
            "/own/ptrack",
            "/opt/pam/ptrack",
            "/home/me/.local/bin/ptrack",
            "/home/me/.cargo/bin/ptrack",
            "/home/me/go/bin/ptrack",
            "/opt/homebrew/bin/ptrack",
            "/usr/local/bin/ptrack",
        ]
    );
    let few = ptrack_candidates(Some("relative"), None, Some("relative"));
    assert_eq!(few, ["/opt/homebrew/bin/ptrack", "/usr/local/bin/ptrack"]);
    assert_eq!(
        first_existing_executable(&few, &vec![false, true]),
        "/usr/local/bin/ptrack"
    );
    assert_eq!(first_existing_executable(&few, &vec![false, false]), "ptrack");
}

#[test]
fn faults_of_ptrack_are_told() {
    let read = ReaderEnd::Read { exceeded: false };
    let full = ReaderEnd::Read { exceeded: true };
    let good = WaitEnd::Exited { success: true };
    assert_eq!(run_fault(good, read, full), None);
    assert_eq!(run_fault(good, full, read), Some(RunFault::OutputTooLong));
    assert_eq!(run_fault(good, ReaderEnd::Open, read), Some(RunFault::OutputOpen));
    assert_eq!(
        run_fault(good, read, ReaderEnd::Failed),
        Some(RunFault::DiagnosticsUnread)
    );
    assert_eq!(
        run_fault(WaitEnd::Exited { success: false }, read, read),
        Some(RunFault::ExitedInFailure)
    );
    assert_eq!(
        run_fault(WaitEnd::DeadlineElapsed, read, read),
        Some(RunFault::DeadlineElapsed)
    );
    let text = |fault| run_fault_text(fault, "ptrack context --json", "exit status: 2", " bad \n");
    assert_eq!(
        text(RunFault::ExitedInFailure),
        "ptrack context --json exited with status exit status: 2. Details: bad"
    );
    assert_eq!(
        run_fault_text(RunFault::ExitedInFailure, "op", "1", " "),
        "op exited with status 1."
    );
    assert_eq!(
        text(RunFault::OutputTooLong),
        "ptrack context --json exceeded the 262144-byte output limit."
    );
    assert_eq!(
        text(RunFault::DeadlineElapsed),
        "ptrack context --json exceeded the one-second deadline."
    );
    assert_eq!(text(RunFault::NotStarted), "The ptrack executable is unavailable.");
    assert_eq!(
        text(RunFault::DiagnosticsOpen),
        "ptrack diagnostics did not close after exit."
    );
}

#[test]
fn briefs_are_told_once_their_evidence_is_kept() {
    assert_eq!(
        brief_start("p", "q").1,
        BriefAction::Unavailable(BriefFault::OtherProject)
    );
    let (phase, action) = brief_start("p", "p");
    assert_eq!(action, BriefAction::ReadProjects);
    let (phase, action) = brief_step(phase, BriefEvent::ProjectsRead(true));
    assert_eq!(action, BriefAction::CheckProjects);
    let unknown = BriefEvent::ProjectsChecked { valid: true, registered: false };
    assert_eq!(
        brief_step(phase, unknown).1,
        BriefAction::Unavailable(BriefFault::NotRegistered)
    );
    let known = BriefEvent::ProjectsChecked { valid: true, registered: true };
    let (phase, action) = brief_step(phase, known);
    assert_eq!(action, BriefAction::ReadContext);
    let (phase, action) = brief_step(phase, BriefEvent::ContextRead(true));
    assert_eq!(action, BriefAction::DecodeContext);
    let (phase, action) = brief_step(phase, BriefEvent::ContextDecoded(true));
    assert_eq!(action, BriefAction::RetainEvidence);
    assert_eq!(
        brief_step(phase, BriefEvent::EvidenceRetained(false)).1,
        BriefAction::Unavailable(BriefFault::NotRetained)
    );
    assert_eq!(
        brief_step(phase, BriefEvent::EvidenceRetained(true)).1,
        BriefAction::Tell
    );
    assert_eq!(
        brief_fault_detail(BriefFault::OtherProject, ""),
        "The configured ptrack source belongs to another project."
    );
    assert_eq!(
        brief_fault_detail(BriefFault::ContextRefused, "eof"),
        "ptrack returned incompatible context JSON: eof"
    );
    assert_eq!(
        brief_fault_detail(BriefFault::NotRetained, "full"),
        "ptrack context was read, but Pam could not retain its exact evidence: full"
    );
    assert_eq!(brief_fault_detail(BriefFault::NotRegistered, "no"), "no");
}
