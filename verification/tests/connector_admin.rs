use pam_daemon::answers::{Answer, StoreErrorKind};
use pam_daemon::connector_admin::{
    admin_refusal_failure, bounded_connector_detail, configure_audit, configure_start,
    configure_step, connector_configured, connector_summaries, connector_tested, probe_kind,
    probe_report, probe_step, test_start, test_step, ConfigureAction, ConfigureEvent,
    ConfigurePhase, ConnectorAdminRefusal, ProbeAction, ProbeEnd, ProbeEvent, ProbeFacts,
    ProbeKind, ProbePhase, ServiceWords, TestAction, TestEvent, TestPhase,
};
use pam_daemon::connectors::{ConnectorRecord, ConnectorSecretError};
use pam_daemon::protocol::{CredentialAction, FailureCode, OperationTruth};

fn record(id: &str, enabled: bool) -> ConnectorRecord {
    ConnectorRecord {
        connector_id: id.to_owned(),
        enabled,
        base_url: Some("https://ci.example/".to_owned()),
        last_test_status: Some("passed".to_owned()),
        last_test_at_ms: Some(12),
    }
}

#[test]
fn credentials_change_before_the_configuration() {
    let credential = Some(CredentialAction::Store("token".to_owned()));
    let (phase, action) = configure_start("jenkins", &credential);
    assert_eq!(action, ConfigureAction::StoreCredential);
    assert_eq!(
        configure_step(
            phase,
            ConfigureEvent::CredentialFailed(ConnectorSecretError::Denied)
        )
        .1,
        ConfigureAction::Refuse(ConnectorAdminRefusal::Credential(
            ConnectorSecretError::Denied
        ))
    );
    let (phase, action) = configure_step(phase, ConfigureEvent::CredentialChanged);
    assert_eq!(action, ConfigureAction::Persist);
    let (phase, action) = configure_step(phase, ConfigureEvent::Persisted);
    assert_eq!(action, ConfigureAction::Audit);
    let (phase, action) = configure_step(phase, ConfigureEvent::Audited);
    assert_eq!(action, ConfigureAction::LookUpCredential);
    assert_eq!(
        configure_step(phase, ConfigureEvent::Presence(Some(true))),
        (
            ConfigurePhase::Done,
            ConfigureAction::Reply {
                credential_present: true
            }
        )
    );
    assert_eq!(
        configure_step(phase, ConfigureEvent::Presence(None)).1,
        ConfigureAction::Reply {
            credential_present: false
        }
    );
}

#[test]
fn invalid_credentials_and_unknown_connectors_are_refused_at_once() {
    let invalid = Some(CredentialAction::Store("line\nbreak".to_owned()));
    assert_eq!(
        configure_start("jenkins", &invalid).1,
        ConfigureAction::Refuse(ConnectorAdminRefusal::Credential(
            ConnectorSecretError::InvalidSecret
        ))
    );
    assert_eq!(
        configure_start("gitlab-ci", &None).1,
        ConfigureAction::Refuse(ConnectorAdminRefusal::NotBuiltIn)
    );
    assert_eq!(
        configure_start("jira", &Some(CredentialAction::Clear)).1,
        ConfigureAction::ClearCredential
    );
    assert_eq!(configure_start("jira", &None).1, ConfigureAction::Persist);
    let failure = admin_refusal_failure(ConnectorAdminRefusal::NotBuiltIn, "");
    assert_eq!(failure.code, FailureCode::NotFound);
    assert_eq!(failure.message, "connector is not built into this daemon");
    let failure = admin_refusal_failure(
        ConnectorAdminRefusal::Store(StoreErrorKind::IdempotencyConflict),
        "again",
    );
    assert_eq!(failure.code, FailureCode::IdempotencyConflict);
    assert_eq!(failure.message, "again");
}

#[test]
fn the_audit_names_the_change_and_not_the_credential() {
    let one = configure_audit(
        "jira",
        true,
        false,
        &Some(CredentialAction::Store("first".to_owned())),
    );
    let other = configure_audit(
        "jira",
        true,
        false,
        &Some(CredentialAction::Store("second".to_owned())),
    );
    assert_eq!(
        one.detail,
        "connector=jira enabled=true base_url_changed=false credential=set"
    );
    assert_eq!(one.detail, other.detail);
    assert_eq!(
        configure_audit("jira", false, true, &None).detail,
        "connector=jira enabled=false base_url_changed=true credential=unchanged"
    );
    assert_eq!(
        configure_audit("jira", false, true, &Some(CredentialAction::Clear)).detail,
        "connector=jira enabled=false base_url_changed=true credential=cleared"
    );
}

#[test]
fn every_built_in_connector_is_listed() {
    let records = vec![record("jira", true), record("jira", false)];
    let summaries = connector_summaries(&records, &[false, false, false, true, false, false]);
    assert_eq!(summaries.len(), 6);
    assert_eq!(summaries[0].connector_id, "github-actions");
    assert!(!summaries[0].enabled);
    assert_eq!(summaries[0].base_url, None);
    assert!(summaries[3].enabled);
    assert!(summaries[3].credential_present);
    assert_eq!(summaries[3].last_test_status.as_deref(), Some("passed"));
    assert_eq!(summaries[3].last_test_at_ms, Some(12));
    let answer = connector_configured("jira", &record("jira", true), false);
    assert!(matches!(
        answer,
        Answer::Success { truth: OperationTruth::Changed, payload } if payload.enabled
    ));
}

#[test]
fn probes_need_what_their_service_needs() {
    let facts = |kind, has_credential, has_base_url| ProbeFacts {
        kind,
        has_credential,
        has_base_url,
    };
    let after_context = |facts| {
        probe_step(facts, ProbePhase::MakingContext, ProbeEvent::ContextMade(true)).1
    };
    assert_eq!(probe_kind("jenkins"), ProbeKind::Jenkins);
    assert_eq!(probe_kind("aws"), ProbeKind::Aws);
    assert_eq!(probe_kind("github-actions"), ProbeKind::GitHub);
    assert_eq!(
        after_context(facts(ProbeKind::Aws, false, false)),
        ProbeAction::Build(ProbeKind::Aws)
    );
    assert_eq!(
        after_context(facts(ProbeKind::GitHub, true, false)),
        ProbeAction::Build(ProbeKind::GitHub)
    );
    assert_eq!(
        after_context(facts(ProbeKind::GitHub, false, true)),
        ProbeAction::End(ProbeEnd::NoCredential)
    );
    assert_eq!(
        after_context(facts(ProbeKind::SonarQube, true, false)),
        ProbeAction::End(ProbeEnd::NoBaseUrl)
    );
    let ready = facts(ProbeKind::Confluence, true, true);
    assert_eq!(
        probe_step(ready, ProbePhase::MakingContext, ProbeEvent::ContextMade(false)).1,
        ProbeAction::End(ProbeEnd::NoContext)
    );
    assert_eq!(
        probe_step(ready, ProbePhase::Building, ProbeEvent::Built).1,
        ProbeAction::Call(ProbeKind::Confluence)
    );
    assert_eq!(
        probe_step(ready, ProbePhase::Calling, ProbeEvent::Succeeded).1,
        ProbeAction::End(ProbeEnd::Verified)
    );
    assert_eq!(
        probe_step(ready, ProbePhase::Calling, ProbeEvent::DeadlineElapsed).1,
        ProbeAction::End(ProbeEnd::DeadlineElapsed)
    );
}

#[test]
fn probes_report_without_secrets() {
    let words = ServiceWords {
        kind: "Unauthorized",
        message: "token rejected",
    };
    let report = |end, id, base| probe_report(end, id, base, &words);
    assert_eq!(
        report(ProbeEnd::Verified, "jira", Some("https://j/")),
        Ok("credential verified against https://j/".to_owned())
    );
    assert_eq!(
        report(ProbeEnd::Verified, "github-actions", None),
        Ok("credential verified against https://api.github.com/".to_owned())
    );
    assert_eq!(
        report(ProbeEnd::Verified, "aws", None),
        Ok("caller identity verified via the aws CLI".to_owned())
    );
    assert_eq!(
        report(ProbeEnd::ServiceFailed, "jira", None),
        Err("Unauthorized: token rejected".to_owned())
    );
    assert_eq!(
        report(ProbeEnd::NoBaseUrl, "jira", None),
        Err(
            "connector jira requires a configured base URL; set one with connector.configure"
                .to_owned()
        )
    );
    assert_eq!(
        report(ProbeEnd::NoContext, "jira", None),
        Err("connector probe context could not be constructed".to_owned())
    );
    assert_eq!(
        report(ProbeEnd::NoCredential, "jira", None),
        Err(
            "no credential is stored for this connector; store one with connector.configure"
                .to_owned()
        )
    );
    assert_eq!(
        report(
            ProbeEnd::Build(ConnectorSecretError::Unavailable),
            "jira",
            None
        ),
        Err("the native credential store is unavailable".to_owned())
    );
    assert_eq!(
        report(ProbeEnd::DeadlineElapsed, "jira", None),
        Err("connector probe deadline elapsed".to_owned())
    );
}

#[test]
fn tests_are_recorded_before_they_are_reported() {
    let kind = ProbeKind::Jira;
    assert_eq!(
        test_start("gitlab-ci").1,
        TestAction::Refuse(ConnectorAdminRefusal::NotBuiltIn)
    );
    let (phase, action) = test_start("jira");
    assert_eq!(action, TestAction::LoadRecords);
    let (phase, action) = test_step(kind, phase, TestEvent::RecordsLoaded);
    assert_eq!(action, TestAction::LoadCredential);
    assert_eq!(
        test_step(kind, phase, TestEvent::Credential { stored: false }).1,
        TestAction::Record { passed: false }
    );
    assert_eq!(
        test_step(ProbeKind::Aws, phase, TestEvent::Credential { stored: false }).1,
        TestAction::Probe
    );
    let (phase, action) = test_step(kind, phase, TestEvent::Credential { stored: true });
    assert_eq!(action, TestAction::Probe);
    let (phase, action) = test_step(kind, phase, TestEvent::Probed { passed: true });
    assert_eq!(action, TestAction::Record { passed: true });
    let (phase, action) = test_step(kind, phase, TestEvent::Recorded);
    assert_eq!(action, TestAction::Audit { passed: true });
    assert_eq!(
        test_step(kind, phase, TestEvent::Audited),
        (TestPhase::Done, TestAction::Reply { passed: true })
    );
}

#[test]
fn test_results_claim_what_the_probe_showed() {
    let concluded = connector_tested("jira", Ok("fine".to_owned()), "passed");
    assert_eq!(concluded.audit.action, "connector.test");
    assert_eq!(concluded.audit.outcome, "passed");
    assert_eq!(concluded.audit.detail, "connector=jira status=passed");
    assert!(matches!(
        concluded.answer,
        Answer::Success { truth: OperationTruth::Verified, payload } if payload.detail == "fine"
    ));
    let concluded = connector_tested("jira", Err("no".to_owned()), "failed");
    assert!(matches!(
        concluded.answer,
        Answer::Success { truth: OperationTruth::Observed, payload } if !payload.passed
    ));
    assert_eq!(bounded_connector_detail(&"é".repeat(600)).len(), 1024);
    assert_eq!(bounded_connector_detail(&format!("a{}", "é".repeat(600))).len(), 1023);
}
