use pam_daemon::answers::Answer;
use pam_daemon::endpoint::{
    check_ownership_path, check_runtime_access, check_runtime_path, claim_ownership,
    prepare_endpoint, EndpointAction, LockAttempt, RuntimeRefusal,
};
use pam_daemon::error::{check_launch, DaemonError};
use pam_daemon::observe::{
    clamp_activity_limit, clamp_logs_limit, clamp_stats_days, grants_revoked,
    grants_to_revoke, invalid_capability, network_diagnosed, no_proxy_presence, project_current_too_large, proxy_environment_presence,
    stats_since, ActiveGrant, ConfigurationPresence, PacState, ProxyBypass, ProxyDiagnostic, ProxyInputIssue,
    ProxyRoute, ProxySource, ProxyVariable,
};
use pam_daemon::protocol::{FailureCode, OperationTruth};
use pam_daemon::reset::ResetError;

#[test]
fn limits_are_clamped() {
    assert_eq!(
        [0, 1, 100, 101].map(clamp_activity_limit),
        [50, 1, 100, 100]
    );
    assert_eq!([0, 1, 512, 9999].map(clamp_logs_limit), [200, 1, 512, 512]);
    assert_eq!([0, 1, 366, 367].map(clamp_stats_days), [182, 1, 366, 366]);
}

#[test]
fn statistics_start_with_a_day() {
    let day = 86_400_000;
    assert_eq!(stats_since(2, 10 * day + 5), 8 * day);
    assert_eq!(stats_since(2, day), 0);
    assert_eq!(stats_since(0, 200 * day), 18 * day);
}

fn proxy() -> ProxyDiagnostic {
    ProxyDiagnostic {
        observed: true,
        http: ProxyRoute::Other,
        https: ProxyRoute::Configured(ProxySource::System),
        bypass: ProxyBypass::NotConfigured,
        pac: PacState::NotDetected,
        ignored_inputs: Vec::new(),
    }
}

#[test]
fn the_environment_configures_a_proxy_or_fails_to() {
    assert_eq!(
        proxy_environment_presence(&proxy()),
        ConfigurationPresence::NotConfigured
    );
    let mut malformed = proxy();
    malformed.ignored_inputs = vec![ProxyInputIssue {
        malformed: true,
        variable: ProxyVariable::AllProxyLower,
    }];
    assert_eq!(
        proxy_environment_presence(&malformed),
        ConfigurationPresence::Invalid
    );
    malformed.ignored_inputs[0].variable = ProxyVariable::Other;
    assert_eq!(
        proxy_environment_presence(&malformed),
        ConfigurationPresence::NotConfigured
    );
    let mut configured = malformed;
    configured.http = ProxyRoute::Configured(ProxySource::Environment);
    assert_eq!(
        proxy_environment_presence(&configured),
        ConfigurationPresence::Configured
    );
    for (bypass, expected) in [
        (
            ProxyBypass::Configured(ProxySource::Environment),
            ConfigurationPresence::Configured,
        ),
        (
            ProxyBypass::Malformed(ProxySource::Environment),
            ConfigurationPresence::Invalid,
        ),
        (
            ProxyBypass::Malformed(ProxySource::System),
            ConfigurationPresence::NotConfigured,
        ),
        (ProxyBypass::SuppressedByCgi, ConfigurationPresence::NotConfigured),
    ] {
        let mut proxy = proxy();
        proxy.bypass = bypass;
        assert_eq!(no_proxy_presence(&proxy), expected);
    }
}

#[test]
fn the_network_is_put_on_record() {
    let concluded = network_diagnosed(&proxy(), true);
    assert_eq!(concluded.audit.purpose, "network-observation");
    assert_eq!(concluded.audit.action, "network.diagnostics");
    assert_eq!(concluded.audit.outcome, "observed");
    assert_eq!(
        concluded.audit.detail,
        "platform_roots=true system_proxy=true proxy_environment=not_configured \
         no_proxy=not_configured pac=not_detected"
    );
    let concluded = network_diagnosed(&proxy(), false);
    assert!(matches!(
        concluded.answer,
        Answer::Success { truth: OperationTruth::Unresolved, payload }
            if !payload.platform_roots_enabled
    ));
}

#[test]
fn revoked_grants_are_counted() {
    let concluded = grants_revoked("flow.run", 2);
    assert_eq!(concluded.audit.action, "grant.revoke");
    assert_eq!(concluded.audit.outcome, "revoked");
    assert_eq!(concluded.audit.detail, "capability=flow.run revoked=2");
    assert!(matches!(
        concluded.answer,
        Answer::Success { truth: OperationTruth::Changed, payload } if payload.revoked == 2
    ));
    assert_eq!(invalid_capability().code, FailureCode::InvalidRequest);
    assert_eq!(project_current_too_large().code, FailureCode::FrameTooLarge);
}

#[test]
fn sockets_are_removed_only_for_recovery() {
    assert!(matches!(prepare_endpoint(false, false), EndpointAction::Proceed));
    assert!(matches!(prepare_endpoint(true, true), EndpointAction::RemoveSocket));
    assert!(matches!(
        prepare_endpoint(true, false),
        EndpointAction::Refuse(DaemonError::StaleState(reason))
            if reason == "Unix socket path already exists"
    ));
}

#[test]
fn the_runtime_directory_is_private() {
    assert!(check_runtime_path("/run/pam").is_ok());
    assert_eq!(check_runtime_path("run/pam"), Err(RuntimeRefusal::NotAbsolute));
    assert_eq!(check_runtime_path("/"), Err(RuntimeRefusal::NoParent));
    assert_eq!(check_runtime_path("/run/.."), Err(RuntimeRefusal::NoFinalComponent));
    assert!(check_ownership_path("/run/pam/owner.lock", "/run/pam").is_ok());
    for path in ["/run/pam", "/run/pam/a/b", "/run/other"] {
        assert_eq!(
            check_ownership_path(path, "/run/pam"),
            Err(RuntimeRefusal::OwnershipElsewhere)
        );
    }
    assert!(check_runtime_access(501, 501, 0o40700).is_ok());
    assert_eq!(
        check_runtime_access(501, 502, 0o700),
        Err(RuntimeRefusal::OtherOwner)
    );
    assert_eq!(
        check_runtime_access(501, 501, 0o750),
        Err(RuntimeRefusal::Accessible)
    );
    assert_eq!(
        RuntimeRefusal::Accessible.text(),
        "daemon runtime directory is accessible by another user"
    );
    assert!(claim_ownership(LockAttempt::Locked).is_ok());
    assert!(matches!(
        claim_ownership(LockAttempt::HeldElsewhere),
        Err(DaemonError::AlreadyRunning)
    ));
}

#[test]
fn daemon_errors_tell_what_helps() {
    assert_eq!(
        DaemonError::AlreadyRunning.message(),
        "PAM daemon ownership is already claimed. Check it with `pam status`."
    );
    assert_eq!(
        DaemonError::AlreadyRunning.recovery_action().as_deref(),
        Some("pam status")
    );
    assert_eq!(
        DaemonError::LaunchNotGranted.recovery_action().as_deref(),
        Some("pam gui")
    );
    assert!(check_launch(true).is_ok());
    assert!(matches!(check_launch(false), Err(DaemonError::LaunchNotGranted)));
    assert_eq!(DaemonError::Store.recovery_action(), None);
    assert_eq!(DaemonError::Store.message(), "PAM durable state is unavailable.");
    let transport = DaemonError::Transport {
        message: "gone".to_owned(),
        recovery: Some("pam gui".to_owned()),
    };
    assert_eq!(transport.message(), "gone");
    assert_eq!(transport.recovery_action().as_deref(), Some("pam gui"));
    assert_eq!(
        DaemonError::Reset(ResetError::Interrupted).message(),
        "the reset was interrupted before it ran"
    );
    assert_eq!(
        DaemonError::StaleState("x".to_owned()).message(),
        "PAM daemon endpoint is stale. Restart PAM from the control center (`pam gui`)."
    );
}

#[test]
fn only_grants_of_the_capability_are_revoked() {
    let grant = |id: &str, capability: &str| ActiveGrant {
        id: id.to_owned(),
        capability: capability.to_owned(),
    };
    let active = vec![
        grant("g1", "flow.run"),
        grant("g2", "brief"),
        grant("g3", "flow.run"),
    ];
    assert_eq!(grants_to_revoke(&active, "flow.run"), ["g1", "g3"]);
    assert!(grants_to_revoke(&active, "flow").is_empty());
}
