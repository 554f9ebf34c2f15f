use pam_daemon::flow::connector_call::{
    call_bounds, call_refusal_message, confluence_discovery_query, discovery_query,
    jira_discovery_query, plan_connector_call, service_of, CallRefusal, CallTarget, ConnectorCapability, Service,
};
use pam_daemon::flow::definition::{
    prepare_command, prepare_effect, schema_approval_required, validate_supported_definition,
    ApprovalMode, CanonicalDirectory, CommandAction, ConnectorAction, EffectAttempt,
    ExecutableCandidate, ExecutionHost, FlowDefinition, FlowStep, PreparedConnectorStep,
    PreparedEffect, StepAction,
};
use pam_daemon::flow::git::{
    git_listing_args, safe_environment_name, validate_git_config, validated_git_args, ListedFiles,
    StepSemanticRole,
};
use pam_daemon::flow::machine::{CommandRejection, EffectKind};
use pam_daemon::flow::operation::{
    accept_decoded_operation, decode_flow_operation, encode_flow_operation, flow_policy_resource,
    FlowSubmissionError, WorkspaceFingerprint,
};
use pam_daemon::flow::submission::{
    group_stays_armed, may_learn_root, prepare_flow_submission, safe_environment,
    safe_search_path, verify_flow_project_root, DiscoveredProject, GroupKill,
    NormalizedDefinition, SearchDirectory, SubmissionParts, Variable,
};

fn owned(args: &[&str]) -> Vec<String> {
    args.iter().map(|it| (*it).to_owned()).collect()
}

fn host() -> ExecutionHost {
    ExecutionHost {
        execution_root: "/work".to_owned(),
        working_directory: Some(CanonicalDirectory {
            path: "/work".to_owned(),
            is_directory: true,
        }),
        candidates: vec![
            ExecutableCandidate {
                directory: "bin".to_owned(),
                path: "/usr/local/bin/git".to_owned(),
                is_file: true,
            },
            ExecutableCandidate {
                directory: "/work/bin".to_owned(),
                path: "/work/bin/git".to_owned(),
                is_file: true,
            },
            ExecutableCandidate {
                directory: "/bin".to_owned(),
                path: "/usr/bin/git".to_owned(),
                is_file: true,
            },
        ],
    }
}

fn command(program: &str, args: &[&str], directory: &str) -> FlowStep {
    FlowStep {
        id: "step".to_owned(),
        effect: EffectKind::ReadOnly,
        approval: ApprovalMode::NotRequired,
        semantic_role: StepSemanticRole::Observe,
        action: StepAction::Command(CommandAction {
            program: program.to_owned(),
            args: owned(args),
            working_directory: directory.to_owned(),
        }),
    }
}

fn connector(effect: EffectKind, capability: &str, kind: &str, id: &str) -> FlowStep {
    FlowStep {
        id: "connector".to_owned(),
        effect,
        approval: ApprovalMode::NotRequired,
        semantic_role: StepSemanticRole::Observe,
        action: StepAction::Connector(ConnectorAction {
            connector: "github-actions".to_owned(),
            capability: capability.to_owned(),
            resource_kind: kind.to_owned(),
            resource_id: id.to_owned(),
        }),
    }
}

fn first_effect(step: FlowStep) -> (FlowDefinition, EffectAttempt) {
    let attempt = EffectAttempt {
        step_index: 0,
        step_id: step.id.clone(),
        effect: step.effect,
    };
    (
        FlowDefinition {
            schema_version: 2,
            steps: vec![step],
        },
        attempt,
    )
}

#[test]
fn policy_resource_is_normalized_stable_and_redacts_raw_toml() {
    let marker = "private description bytes never belong in policy";
    let workspace = WorkspaceFingerprint([7; 32]);
    let digest = "sha256:5b41";
    let resource = flow_policy_resource("daemon-flow-test", 1, digest, &workspace);

    assert_eq!(
        resource,
        flow_policy_resource("daemon-flow-test", 1, digest, &workspace)
    );
    assert!(resource.starts_with("flow:daemon-flow-test:revision=1:digest=sha256:"));
    assert!(resource.contains(":workspace=sha256:"));
    assert!(!resource.contains(marker));
    assert_eq!(
        resource,
        format!(
            "flow:daemon-flow-test:revision=1:digest=sha256:5b41:workspace=sha256:{}",
            "07".repeat(32)
        )
    );
    let elsewhere = WorkspaceFingerprint([8; 32]);
    assert_ne!(
        resource,
        flow_policy_resource("daemon-flow-test", 1, digest, &elsewhere)
    );
}

#[test]
fn command_allowlist_rejects_shells_and_git_mutation_flags() {
    assert!(validated_git_args(&["status".to_owned(), "--short".to_owned()]).is_ok());
    assert!(validated_git_args(&["diff".to_owned(), "--quiet".to_owned()]).is_ok());
    assert!(validated_git_args(&["diff".to_owned(), "--ext-diff".to_owned()]).is_err());
    assert!(
        validated_git_args(&[
            "diff".to_owned(),
            "--quiet".to_owned(),
            "--cached".to_owned()
        ])
        .is_err()
    );
    assert!(validated_git_args(&["status".to_owned(), "--ignored".to_owned()]).is_err());
    assert!(validated_git_args(&["rev-parse".to_owned(), "HEAD".to_owned()]).is_ok());
    assert!(
        validated_git_args(&["rev-parse".to_owned(), "refs/heads/unbound".to_owned()]).is_err()
    );

    let (definition, effect) = first_effect(command("sh", &["-c", "touch owned"], "."));
    assert_eq!(
        prepare_command(&definition, &effect, &host()).err(),
        Some(CommandRejection::Unsupported)
    );
}

#[test]
fn git_runs_under_a_safe_configuration() {
    assert_eq!(
        validated_git_args(&owned(&["diff", "--quiet"])).unwrap(),
        [
            "-c",
            "core.fsmonitor=false",
            "-c",
            "core.untrackedCache=false",
            "-c",
            "core.excludesFile=/dev/null",
            "--no-pager",
            "diff",
            "--no-ext-diff",
            "--no-textconv",
            "--quiet",
        ]
    );
    assert!(validated_git_args(&owned(&["diff"])).is_err());
    assert!(validated_git_args(&owned(&["rev-parse", "--short=12", "HEAD"])).is_ok());
    assert!(validated_git_args(&owned(&["rev-parse", "--short=", "HEAD"])).is_err());
    assert!(validated_git_args(&[]).is_err());
    assert_eq!(
        git_listing_args(ListedFiles::Visible),
        [
            "-c",
            "core.fsmonitor=false",
            "-c",
            "core.untrackedCache=false",
            "-c",
            "core.excludesFile=/dev/null",
            "ls-files",
            "-z",
            "--cached",
            "--others",
            "--exclude-standard",
        ]
    );
    assert_eq!(git_listing_args(ListedFiles::IgnoredAttributes).len(), 14);
}

#[test]
fn ignored_or_nested_working_directory_is_rejected() {
    let (definition, effect) =
        first_effect(command("git", &["status", "--short"], "target/ignored-project"));
    assert_eq!(
        prepare_command(&definition, &effect, &host()).err(),
        Some(CommandRejection::UnsafeWorkingDirectory)
    );
}

#[test]
fn connectors_are_never_prepared_as_commands() {
    let (definition, effect) = first_effect(connector(
        EffectKind::ReadOnly,
        "runs.read",
        "workflow_run",
        "github:ro-ag/pam/runs/1",
    ));
    assert_eq!(
        prepare_command(&definition, &effect, &host()).err(),
        Some(CommandRejection::Unsupported)
    );
}

#[test]
fn inherited_secret_and_process_override_environment_is_removed() {
    for name in [
        "GITHUB_TOKEN",
        "DATABASE_PASSWORD",
        "AWS_ACCESS_KEY_ID",
        "CLIENT_CREDENTIAL",
        "RUSTC_WRAPPER",
        "GIT_EXTERNAL_DIFF",
        "GIT_CONFIG_KEY_7",
        "CARGO_TARGET_X86_64_UNKNOWN_LINUX_GNU_RUNNER",
        "SSH_AUTH_SOCK",
        "RUSTC",
        "RUSTDOCFLAGS",
        "RUSTUP_HOME",
        "RUSTUP_TOOLCHAIN",
        "LD_PRELOAD",
        "DYLD_INSERT_LIBRARIES",
        "GIT_INDEX_FILE",
        "HOME",
        "CARGO_HOME",
        "CC",
    ] {
        assert!(!safe_environment_name(name), "{name}");
    }
    for name in ["PATH", "LANG", "TMPDIR"] {
        assert!(safe_environment_name(name), "{name}");
    }
}

#[test]
fn stateful_connector_effects_are_rejected_by_the_executor() {
    let (definition, effect) = first_effect(connector(
        EffectKind::Stateful,
        "runs.rerun",
        "run",
        "ro-ag/pam/1",
    ));
    assert_eq!(
        prepare_effect(&definition, &effect, &host()).err(),
        Some(CommandRejection::StatefulConnector)
    );
    assert!(validate_supported_definition(&definition, &host()).is_err());
    assert!(schema_approval_required(&definition));
}

#[test]
fn read_only_connector_steps_prepare_as_connector_effects() {
    let (definition, effect) = first_effect(connector(
        EffectKind::ReadOnly,
        "runs.collect-logs",
        "run",
        "ro-ag/pam/42",
    ));
    let Ok(PreparedEffect::Connector(step)) = prepare_effect(&definition, &effect, &host()) else {
        panic!("read-only connector steps must prepare as connector effects")
    };
    assert_eq!(step.connector, "github-actions");
    assert_eq!(step.capability, "runs.collect-logs");
    assert_eq!(step.resource_kind, "run");
    assert_eq!(step.resource_id, "ro-ag/pam/42");
}

#[test]
fn commands_run_a_program_from_outside_the_workspace() {
    let (definition, effect) = first_effect(command("git", &["status"], ""));
    let prepared = prepare_command(&definition, &effect, &host()).ok().unwrap();
    assert_eq!(prepared.program, "/usr/bin/git");
    assert_eq!(prepared.working_directory, "/work");
    let mut inside = host();
    inside.candidates.pop();
    assert_eq!(
        prepare_command(&definition, &effect, &inside).err(),
        Some(CommandRejection::Unsupported)
    );
    let mut elsewhere = host();
    elsewhere.working_directory = Some(CanonicalDirectory {
        path: "/other".to_owned(),
        is_directory: true,
    });
    assert_eq!(
        prepare_command(&definition, &effect, &elsewhere).err(),
        Some(CommandRejection::UnsafeWorkingDirectory)
    );
}

#[test]
fn hostile_git_configuration_is_rejected() {
    let base = "[core]\n\tbare = false\n[remote \"origin\"]\n\turl = x\n";
    assert!(validate_git_config(base.as_bytes()).is_ok());
    for hostile in [
        "[core]\nworktree = \"/elsewhere\"\n",
        "[filter \"hostile\"]\nclean = touch owned\n",
        "[filter.legacy-hostile]\nclean = touch owned\n",
        "[extensions]\nworktreeConfig = true\n",
        "[CORE]\nHooksPath = x\n",
        "[include]\npath = x\n",
        "[broken\n",
    ] {
        assert_eq!(
            validate_git_config(format!("{base}\n{hostile}").as_bytes()),
            Err(FlowSubmissionError::WorkspaceUnavailable),
            "{hostile}"
        );
    }
    assert!(validate_git_config(&[0xff]).is_err());
}

#[test]
fn operations_are_read_back_as_they_were_written() {
    let workspace = WorkspaceFingerprint([9; 32]);
    let bytes = encode_flow_operation(b"id = 1\n", &workspace, "/work").unwrap();
    assert!(bytes.starts_with(b"pam-flow-operation-v2\0\0\0\0\x05/work"));
    let decoded = decode_flow_operation(&bytes).unwrap();
    assert_eq!(decoded.execution_root, "/work");
    assert!(decoded.workspace.matches(&workspace));
    assert_eq!(decoded.normalized_definition, "id = 1\n");
    assert!(accept_decoded_operation(decoded, Some("id = 1\n")).is_some());
    let decoded = decode_flow_operation(&bytes).unwrap();
    assert!(accept_decoded_operation(decoded, Some("id = 2\n")).is_none());
    assert!(decode_flow_operation(&bytes[..30]).is_none());
    let relative = encode_flow_operation(b"", &workspace, "work").unwrap();
    assert!(decode_flow_operation(&relative).is_none());
}

#[test]
fn submissions_are_prepared_or_refused() {
    let (definition, _) = first_effect(command("git", &["status"], "."));
    let host = host();
    let normalized = NormalizedDefinition {
        bytes: b"x".to_vec(),
        digest: "sha256:00".to_owned(),
        id: "flow".to_owned(),
        revision: 3,
    };
    let parts = |definition, workspace, normalized, execution_root| SubmissionParts {
        definition,
        host: &host,
        workspace,
        normalized,
        execution_root,
    };
    let workspace = WorkspaceFingerprint([1; 32]);
    let prepared = prepare_flow_submission(&parts(
        Some(&definition),
        Ok(workspace),
        Some(&normalized),
        Some("/work"),
    ))
    .ok()
    .unwrap();
    assert!(!prepared.schema_approval_required);
    assert!(prepared.policy_resource.starts_with("flow:flow:revision=3:digest=sha256:00:"));
    assert_eq!(
        prepared.operation,
        encode_flow_operation(b"x", &workspace, "/work").unwrap()
    );
    for (refused, error) in [
        (
            parts(None, Ok(workspace), Some(&normalized), Some("/work")),
            FlowSubmissionError::InvalidDefinition,
        ),
        (
            parts(
                Some(&definition),
                Err(FlowSubmissionError::WorkspaceUnavailable),
                Some(&normalized),
                Some("/work"),
            ),
            FlowSubmissionError::WorkspaceUnavailable,
        ),
        (
            parts(Some(&definition), Ok(workspace), None, Some("/work")),
            FlowSubmissionError::InvalidDefinition,
        ),
        (
            parts(Some(&definition), Ok(workspace), Some(&normalized), None),
            FlowSubmissionError::WorkspaceUnavailable,
        ),
    ] {
        assert_eq!(prepare_flow_submission(&refused).err(), Some(error));
    }
    let (shell, _) = first_effect(command("sh", &[], "."));
    assert_eq!(
        prepare_flow_submission(&parts(
            Some(&shell),
            Ok(workspace),
            Some(&normalized),
            Some("/work")
        ))
        .err(),
        Some(FlowSubmissionError::UnsupportedDefinition)
    );
}

#[test]
fn project_roots_are_the_projects_own() {
    let project = |id: &str, root: Option<&str>| {
        Some(DiscoveredProject {
            id: id.to_owned(),
            canonical_root: root.map(str::to_owned),
        })
    };
    let verify = |requested, canonical, project| {
        verify_flow_project_root(requested, canonical, &project, "p").is_ok()
    };
    assert!(verify("/work", Some("/work"), project("p", Some("/work"))));
    assert!(!verify("work", Some("work"), project("p", Some("work"))));
    assert!(!verify("/link", Some("/work"), project("p", Some("/work"))));
    assert!(!verify("/work/a", Some("/work/a"), project("p", Some("/work"))));
    assert!(!verify("/work", Some("/work"), project("q", Some("/work"))));
    assert!(!verify("/work", Some("/work"), project("p", None)));
    assert!(!verify("/work", None, project("p", Some("/work"))));
    assert!(!verify("/work", Some("/work"), None));
    assert!(may_learn_root(false, true));
    assert!(!may_learn_root(true, true));
}

#[test]
fn commands_get_a_safe_environment() {
    let variable = |name: &str, value: &str| Variable {
        name: name.to_owned(),
        value: value.to_owned(),
    };
    let inherited = vec![
        variable("LANG", "C"),
        variable("GITHUB_TOKEN", "x"),
        variable("Path", "/workspace"),
    ];
    let names: Vec<(String, String)> = safe_environment(&inherited, Some("/usr/bin"))
        .into_iter()
        .map(|it| (it.name, it.value))
        .collect();
    assert_eq!(names.len(), 10);
    assert_eq!(names[0], ("LANG".to_owned(), "C".to_owned()));
    assert_eq!(names[2], ("PATH".to_owned(), "/usr/bin".to_owned()));
    assert_eq!(names[9], ("GIT_CONFIG_GLOBAL".to_owned(), "/dev/null".to_owned()));
    let directory = |path: &str, canonical: Option<&str>, is_directory| SearchDirectory {
        path: path.to_owned(),
        canonical: canonical.map(str::to_owned),
        is_directory,
    };
    let directories = vec![
        directory("/bin", Some("/usr/bin"), true),
        directory("bin", Some("/usr/bin"), true),
        directory("/work/bin", Some("/work/bin"), true),
        directory("/gone", None, false),
        directory("/file", Some("/file"), false),
        directory("/opt", Some("/opt"), true),
    ];
    assert_eq!(safe_search_path(&directories, "/work"), ["/usr/bin", "/opt"]);
    assert!(group_stays_armed(GroupKill::Refused, true));
    assert!(!group_stays_armed(GroupKill::Ended, true));
}

fn step(connector: &str, capability: &str, kind: &str, id: &str) -> PreparedConnectorStep {
    PreparedConnectorStep {
        connector: connector.to_owned(),
        capability: capability.to_owned(),
        resource_kind: kind.to_owned(),
        resource_id: id.to_owned(),
    }
}

#[test]
fn connector_calls_are_planned_by_service() {
    assert_eq!(service_of("sharepoint"), Some(Service::SharePoint));
    assert_eq!(service_of("gitlab-ci"), None);
    let call =
        plan_connector_call(&step("github-actions", "runs.collect-logs", "run", "ro-ag/pam/42"))
            .ok()
            .unwrap();
    assert_eq!(call.capability, ConnectorCapability::GitHubCollectLogs);
    assert!(matches!(
        call.target,
        CallTarget::Numbered { base, number: 42 } if base == "ro-ag/pam"
    ));
    let call = plan_connector_call(&step(
        "github-actions",
        "runs.discover-failed",
        "repository",
        "ro-ag/pam",
    ))
    .ok()
    .unwrap();
    assert!(matches!(call.target, CallTarget::Named(name) if name == "ro-ag/pam"));
    assert!(plan_connector_call(&step("github-actions", "runs.collect-logs", "run", "x")).is_err());
    assert!(plan_connector_call(&step("github-actions", "runs.rerun", "run", "a/b/1")).is_err());
    assert_eq!(
        plan_connector_call(&step("gitlab-ci", "runs", "run", "1")).err().unwrap(),
        "connector gitlab-ci is not built into this daemon; use the pam connector CLI or the GUI \
         Connectors surface, then retry the flow"
    );
    assert_eq!(
        jira_discovery_query("PAM"),
        "project = PAM ORDER BY updated DESC"
    );
    assert_eq!(
        confluence_discovery_query("ENG"),
        "space = ENG and type = page order by lastmodified desc"
    );
    let query = |connector: &str, capability: &str, kind: &str, id: &str| {
        let call = plan_connector_call(&step(connector, capability, kind, id));
        call.ok().and_then(|call| discovery_query(&call))
    };
    assert_eq!(
        query("jira", "issues.discover", "project", "PAM").as_deref(),
        Some("project = PAM ORDER BY updated DESC")
    );
    assert_eq!(
        query("confluence", "pages.discover", "project", "ENG").as_deref(),
        Some("space = ENG and type = page order by lastmodified desc")
    );
    assert_eq!(
        query("sharepoint", "documents.discover", "site", "s1").as_deref(),
        Some("*")
    );
    assert_eq!(query("jira", "issues.collect", "issue", "PAM-1"), None);
    let bounds = call_bounds(ConnectorCapability::GitHubCollectLogs);
    assert_eq!(bounds.items, Some(3));
    assert_eq!(bounds.total_log_bytes, bounds.log_bytes.map(|bytes| 3 * bytes));
    assert_eq!(
        call_bounds(ConnectorCapability::JiraDiscoverIssues).items,
        Some(20)
    );
    assert_eq!(call_bounds(ConnectorCapability::JiraCollectIssue).items, None);
    assert_eq!(
        call_refusal_message(ConnectorCapability::JiraCollectIssue, "?", CallRefusal::Coordinate),
        "connector resource ? is not a valid Jira issue key"
    );
}
