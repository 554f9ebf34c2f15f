use pam_daemon::connectors::{
    built_in_connector_ids, check_new_credential, github_api_base, is_built_in, loaded_credential,
    valid_connector_secret, ConnectorSecretError, SecretBackendError, CONFLUENCE, GITHUB_ACTIONS,
    JENKINS, JIRA, SHAREPOINT, SONARQUBE,
};

#[test]
fn the_built_in_registry_contains_exactly_github_actions_jenkins_sonarqube_jira_confluence_and_sharepoint(
) {
    assert_eq!(
        built_in_connector_ids(),
        [
            GITHUB_ACTIONS,
            JENKINS,
            SONARQUBE,
            JIRA,
            CONFLUENCE,
            SHAREPOINT
        ]
    );
    assert!(is_built_in("github-actions"));
    assert!(is_built_in("jenkins"));
    assert!(is_built_in("sonarqube"));
    assert!(is_built_in("jira"));
    assert!(is_built_in("confluence"));
    assert!(is_built_in("sharepoint"));
    assert!(!is_built_in("gitlab-ci"));
}

#[test]
fn invalid_connector_secrets_are_rejected_before_reaching_any_backend() {
    for secret in [String::new(), "x".repeat(4097), "line\nbreak".to_owned()] {
        assert_eq!(
            check_new_credential(&secret).unwrap_err(),
            ConnectorSecretError::InvalidSecret
        );
    }
}

#[test]
fn credentials_are_bounded_in_bytes_and_free_of_control_characters() {
    assert!(valid_connector_secret("ghp_connector-secret"));
    assert!(valid_connector_secret(&"x".repeat(4096)));
    assert!(valid_connector_secret(&"é".repeat(2048)));
    assert!(!valid_connector_secret(&"é".repeat(2049)));
    assert!(!valid_connector_secret("tab\there"));
    assert!(!valid_connector_secret("\u{85}"));
    assert!(check_new_credential("token").is_ok());
}

#[test]
fn stored_credentials_are_checked_when_they_are_loaded() {
    assert_eq!(
        loaded_credential(Ok(Some("token".to_owned()))),
        Ok(Some("token".to_owned()))
    );
    assert_eq!(loaded_credential(Ok(None)), Ok(None));
    assert_eq!(
        loaded_credential(Ok(Some("bad\u{7f}".to_owned()))),
        Err(ConnectorSecretError::InvalidSecret)
    );
    assert_eq!(
        loaded_credential(Err(SecretBackendError::Denied)),
        Err(ConnectorSecretError::Denied)
    );
    assert_eq!(
        loaded_credential(Err(SecretBackendError::Unavailable)),
        Err(ConnectorSecretError::Unavailable)
    );
}

#[test]
fn secret_errors_are_worded_without_the_secret() {
    assert_eq!(
        ConnectorSecretError::InvalidSecret.message(),
        "connector credential is invalid"
    );
    assert_eq!(
        ConnectorSecretError::Unavailable.message(),
        "the native credential store is unavailable"
    );
    assert_eq!(
        ConnectorSecretError::Denied.message(),
        "access to the native credential store was denied"
    );
}

#[test]
fn the_github_base_defaults_to_the_public_api() {
    assert_eq!(github_api_base(None), "https://api.github.com/");
    assert_eq!(github_api_base(Some("https://ghe.example/")), "https://ghe.example/");
}

#[test]
fn a_stored_credential_comes_back_until_it_is_cleared() {
    let mut secrets: Vec<(&str, String)> = vec![("jira", "other".to_owned())];
    let kept = |secrets: &Vec<(&str, String)>, id: &str| {
        let found = secrets.iter().find(|(owner, _)| *owner == id);
        loaded_credential(Ok(found.map(|(_, secret)| secret.clone())))
    };
    assert_eq!(check_new_credential(""), Err(ConnectorSecretError::InvalidSecret));
    assert_eq!(check_new_credential("token"), Ok(()));
    secrets.push(("github-actions", "token".to_owned()));
    assert_eq!(kept(&secrets, "github-actions"), Ok(Some("token".to_owned())));
    for _ in 0..2 {
        secrets.retain(|(owner, _)| *owner != "github-actions");
        assert_eq!(kept(&secrets, "github-actions"), Ok(None));
        assert_eq!(kept(&secrets, "jira"), Ok(Some("other".to_owned())));
    }
}
