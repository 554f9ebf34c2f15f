//! Configuring, listing and testing connectors.
//!
//! A credential is changed before the configuration that relies on it, and no
//! credential reaches an answer or an audit record.

use vstd::prelude::*;

use crate::answers::{Answer, AuditNote, Conclusion, StoreErrorKind, store_failure, store_failure_code};
use crate::connectors::{
    AWS, CONFLUENCE, ConnectorRecord, ConnectorSecretError, GITHUB_DEFAULT_API_BASE, JENKINS, JIRA,
    SHAREPOINT, SONARQUBE, built_in_connector_ids, find_connector_record, github_api_base,
    is_built_in, is_record_of, is_valid_secret, registry, secret_error_text, valid_connector_secret,
};
use crate::protocol::{CredentialAction, Failure, FailureCode, OperationTruth, optional_text};
use crate::text::{
    concat2, concat3, concat4, flag_label, flag_name, same_text, truncate_text, truncated,
};

verus! {

/// The longest detail that a connector test may report.
pub const MAX_CONNECTOR_TEST_DETAIL_BYTES: usize = 1024;

/// How long a connector test may take, in milliseconds.
pub const CONNECTOR_TEST_DEADLINE_MS: u64 = 10_000;

// Summaries

/// What is told of a connector.
pub struct ConnectorSummary {
    pub connector_id: String,
    pub enabled: bool,
    pub base_url: Option<String>,
    pub credential_present: bool,
    pub last_test_status: Option<String>,
    pub last_test_at_ms: Option<u64>,
}

/// `summary` tells of the connector `id`: what its record holds, or that it is
/// off and untested where it has none.
pub open spec fn summarises(
    summary: ConnectorSummary,
    id: Seq<char>,
    record: Option<ConnectorRecord>,
    credential_present: bool,
) -> bool {
    &&& summary.connector_id@ == id
    &&& summary.credential_present == credential_present
    &&& match record {
        Some(stored) => {
            &&& summary.enabled == stored.enabled
            &&& optional_text(summary.base_url) == optional_text(stored.base_url)
            &&& optional_text(summary.last_test_status) == optional_text(stored.last_test_status)
            &&& summary.last_test_at_ms == stored.last_test_at_ms
        },
        None => {
            &&& !summary.enabled
            &&& summary.base_url is None
            &&& summary.last_test_status is None
            &&& summary.last_test_at_ms is None
        },
    }
}

fn copied(text: &Option<String>) -> (copy: Option<String>)
    ensures
        optional_text(copy) == optional_text(*text),
{
    match text {
        Some(found) => Some(found.clone()),
        None => None,
    }
}

/// Tells of one connector.
pub fn connector_summary(
    connector_id: &str,
    record: Option<&ConnectorRecord>,
    credential_present: bool,
) -> (summary: ConnectorSummary)
    ensures
        summarises(
            summary,
            connector_id@,
            (match record {
                Some(stored) => Some(*stored),
                None => None,
            }),
            credential_present,
        ),
{
    match record {
        Some(stored) => ConnectorSummary {
            connector_id: connector_id.to_owned(),
            enabled: stored.enabled,
            base_url: copied(&stored.base_url),
            credential_present,
            last_test_status: copied(&stored.last_test_status),
            last_test_at_ms: stored.last_test_at_ms,
        },
        None => ConnectorSummary {
            connector_id: connector_id.to_owned(),
            enabled: false,
            base_url: None,
            credential_present,
            last_test_status: None,
            last_test_at_ms: None,
        },
    }
}

/// `summary` tells of `id` by its first record among `records`.
pub open spec fn lists_connector(
    summary: ConnectorSummary,
    id: Seq<char>,
    records: Seq<ConnectorRecord>,
    credential_present: bool,
) -> bool {
    ||| exists|index: int| #[trigger]
        is_record_of(records, id, index) && summarises(
            summary,
            id,
            Some(records[index]),
            credential_present,
        )
    ||| (forall|i: int| 0 <= i < records.len() ==> (#[trigger] records[i]).connector_id@ != id)
        && summarises(summary, id, None, credential_present)
}

/// Tells of every built-in connector, in registry order. `present` tells, in
/// that order, which credentials the credential store is known to hold.
pub fn connector_summaries(records: &Vec<ConnectorRecord>, present: &[bool; 6]) -> (summaries: Vec<
    ConnectorSummary,
>)
    ensures
        summaries@.len() == registry().len(),
        forall|i: int|
            0 <= i < registry().len() ==> lists_connector(
                #[trigger] summaries@[i],
                registry()[i],
                records@,
                present@[i],
            ),
{
    let ids = built_in_connector_ids();
    let mut summaries: Vec<ConnectorSummary> = Vec::new();
    let mut index: usize = 0;
    while index < 6
        invariant
            index <= 6,
            registry().len() == 6,
            ids@.map_values(|id: &'static str| id@) == registry(),
            summaries@.len() == index,
            forall|i: int|
                0 <= i < index ==> lists_connector(
                    #[trigger] summaries@[i],
                    registry()[i],
                    records@,
                    present@[i],
                ),
        decreases 6 - index,
    {
        let id = ids[index];
        assert(registry()[index as int] == id@);
        let summary = match find_connector_record(records, id) {
            Some(found) => connector_summary(id, Some(&records[found]), present[index]),
            None => connector_summary(id, None, present[index]),
        };
        summaries.push(summary);
        index = index + 1;
    }
    summaries
}

// Configuration

/// What a configuration does to the stored credential.
#[derive(Clone, Copy, Debug, PartialEq, Eq, Structural)]
pub enum CredentialChange {
    Stored,
    Cleared,
    Unchanged,
}

/// The change that an action makes.
pub open spec fn change_of(action: Option<CredentialAction>) -> CredentialChange {
    match action {
        Some(CredentialAction::Store(_)) => CredentialChange::Stored,
        Some(CredentialAction::Clear) => CredentialChange::Cleared,
        None => CredentialChange::Unchanged,
    }
}

pub fn credential_change(action: &Option<CredentialAction>) -> (change: CredentialChange)
    ensures
        change == change_of(*action),
{
    match action {
        Some(CredentialAction::Store(_)) => CredentialChange::Stored,
        Some(CredentialAction::Clear) => CredentialChange::Cleared,
        None => CredentialChange::Unchanged,
    }
}

pub open spec fn change_name(change: CredentialChange) -> Seq<char> {
    match change {
        CredentialChange::Stored => "set"@,
        CredentialChange::Cleared => "cleared"@,
        CredentialChange::Unchanged => "unchanged"@,
    }
}

/// Why a connector request is refused.
#[derive(Clone, Copy, Debug, PartialEq, Eq, Structural)]
pub enum ConnectorAdminRefusal {
    NotBuiltIn,
    Credential(ConnectorSecretError),
    Store(StoreErrorKind),
}

/// What came of the last action.
#[derive(Clone, Copy, Debug, PartialEq, Eq, Structural)]
pub enum ConfigureEvent {
    CredentialChanged,
    CredentialFailed(ConnectorSecretError),
    Persisted,
    PersistFailed(StoreErrorKind),
    Audited,
    AuditFailed,
    /// Whether a credential is stored, where the credential store says so.
    Presence(Option<bool>),
}

/// Work to perform before the next event.
#[derive(Clone, Copy, Debug, PartialEq, Eq, Structural)]
pub enum ConfigureAction {
    StoreCredential,
    ClearCredential,
    Persist,
    Audit,
    LookUpCredential,
    Reply { credential_present: bool },
    Refuse(ConnectorAdminRefusal),
    Fail,
    Ignore,
}

/// What the handler is waiting for.
#[derive(Clone, Copy, Debug, PartialEq, Eq, Structural)]
pub enum ConfigurePhase {
    ChangingCredential,
    Persisting,
    Auditing,
    LookingUp,
    Done,
}

pub open spec fn configure_refused(refusal: ConnectorAdminRefusal) -> (
    ConfigurePhase,
    ConfigureAction,
) {
    (ConfigurePhase::Done, ConfigureAction::Refuse(refusal))
}

/// The first action of a configuration.
pub open spec fn configure_start_of(
    connector: Seq<char>,
    credential: Option<CredentialAction>,
) -> (ConfigurePhase, ConfigureAction) {
    if !registry().contains(connector) {
        configure_refused(ConnectorAdminRefusal::NotBuiltIn)
    } else {
        match credential {
            Some(CredentialAction::Store(secret)) => if is_valid_secret(secret@) {
                (ConfigurePhase::ChangingCredential, ConfigureAction::StoreCredential)
            } else {
                configure_refused(
                    ConnectorAdminRefusal::Credential(ConnectorSecretError::InvalidSecret),
                )
            },
            Some(CredentialAction::Clear) => (
                ConfigurePhase::ChangingCredential,
                ConfigureAction::ClearCredential,
            ),
            None => (ConfigurePhase::Persisting, ConfigureAction::Persist),
        }
    }
}

/// The rule of a configuration.
pub open spec fn spec_configure_step(phase: ConfigurePhase, event: ConfigureEvent) -> (
    ConfigurePhase,
    ConfigureAction,
) {
    match (phase, event) {
        (ConfigurePhase::ChangingCredential, ConfigureEvent::CredentialChanged) => (
            ConfigurePhase::Persisting,
            ConfigureAction::Persist,
        ),
        (ConfigurePhase::ChangingCredential, ConfigureEvent::CredentialFailed(error)) => {
            configure_refused(ConnectorAdminRefusal::Credential(error))
        },
        (ConfigurePhase::Persisting, ConfigureEvent::Persisted) => (
            ConfigurePhase::Auditing,
            ConfigureAction::Audit,
        ),
        (ConfigurePhase::Persisting, ConfigureEvent::PersistFailed(error)) => configure_refused(
            ConnectorAdminRefusal::Store(error),
        ),
        (ConfigurePhase::Auditing, ConfigureEvent::Audited) => (
            ConfigurePhase::LookingUp,
            ConfigureAction::LookUpCredential,
        ),
        (ConfigurePhase::Auditing, ConfigureEvent::AuditFailed) => (
            ConfigurePhase::Done,
            ConfigureAction::Fail,
        ),
        (ConfigurePhase::LookingUp, ConfigureEvent::Presence(known)) => (
            ConfigurePhase::Done,
            ConfigureAction::Reply { credential_present: known == Some(true) },
        ),
        _ => (phase, ConfigureAction::Ignore),
    }
}

/// Chooses the first action of a configuration.
pub fn configure_start(connector: &str, credential: &Option<CredentialAction>) -> (next: (
    ConfigurePhase,
    ConfigureAction,
))
    ensures
        next == configure_start_of(connector@, *credential),
{
    if !is_built_in(connector) {
        return (
            ConfigurePhase::Done,
            ConfigureAction::Refuse(ConnectorAdminRefusal::NotBuiltIn),
        );
    }
    match credential {
        Some(CredentialAction::Store(secret)) => {
            if valid_connector_secret(secret.as_str()) {
                (ConfigurePhase::ChangingCredential, ConfigureAction::StoreCredential)
            } else {
                (
                    ConfigurePhase::Done,
                    ConfigureAction::Refuse(
                        ConnectorAdminRefusal::Credential(ConnectorSecretError::InvalidSecret),
                    ),
                )
            }
        },
        Some(CredentialAction::Clear) => (
            ConfigurePhase::ChangingCredential,
            ConfigureAction::ClearCredential,
        ),
        None => (ConfigurePhase::Persisting, ConfigureAction::Persist),
    }
}

/// Decides what follows `event` in a configuration.
pub fn configure_step(phase: ConfigurePhase, event: ConfigureEvent) -> (next: (
    ConfigurePhase,
    ConfigureAction,
))
    ensures
        next == spec_configure_step(phase, event),
{
    match (phase, event) {
        (ConfigurePhase::ChangingCredential, ConfigureEvent::CredentialChanged) => (
            ConfigurePhase::Persisting,
            ConfigureAction::Persist,
        ),
        (ConfigurePhase::ChangingCredential, ConfigureEvent::CredentialFailed(error)) => (
            ConfigurePhase::Done,
            ConfigureAction::Refuse(ConnectorAdminRefusal::Credential(error)),
        ),
        (ConfigurePhase::Persisting, ConfigureEvent::Persisted) => (
            ConfigurePhase::Auditing,
            ConfigureAction::Audit,
        ),
        (ConfigurePhase::Persisting, ConfigureEvent::PersistFailed(error)) => (
            ConfigurePhase::Done,
            ConfigureAction::Refuse(ConnectorAdminRefusal::Store(error)),
        ),
        (ConfigurePhase::Auditing, ConfigureEvent::Audited) => (
            ConfigurePhase::LookingUp,
            ConfigureAction::LookUpCredential,
        ),
        (ConfigurePhase::Auditing, ConfigureEvent::AuditFailed) => (
            ConfigurePhase::Done,
            ConfigureAction::Fail,
        ),
        (ConfigurePhase::LookingUp, ConfigureEvent::Presence(known)) => {
            let credential_present = match known {
                Some(present) => present,
                None => false,
            };
            (ConfigurePhase::Done, ConfigureAction::Reply { credential_present })
        },
        _ => (phase, ConfigureAction::Ignore),
    }
}

/// Phase and action after `events` of a configuration.
pub open spec fn configure_run(
    connector: Seq<char>,
    credential: Option<CredentialAction>,
    events: Seq<ConfigureEvent>,
) -> (ConfigurePhase, ConfigureAction)
    decreases events.len(),
{
    if events.len() == 0 {
        configure_start_of(connector, credential)
    } else {
        spec_configure_step(
            configure_run(connector, credential, events.drop_last()).0,
            events.last(),
        )
    }
}

proof fn lemma_configure_invariant(
    connector: Seq<char>,
    credential: Option<CredentialAction>,
    events: Seq<ConfigureEvent>,
)
    ensures
        ({
            let (phase, action) = configure_run(connector, credential, events);
            &&& !(phase is Done) ==> registry().contains(connector)
            &&& phase is ChangingCredential ==> credential is Some
            &&& phase is Persisting || phase is Auditing || phase is LookingUp ==> credential is None
                || events.contains(ConfigureEvent::CredentialChanged)
            &&& action == ConfigureAction::StoreCredential ==> (
            credential matches Some(CredentialAction::Store(secret)) && is_valid_secret(secret@))
            &&& action == ConfigureAction::ClearCredential ==> credential
                == Some(CredentialAction::Clear)
            &&& action == ConfigureAction::Persist ==> registry().contains(connector)
        }),
    decreases events.len(),
{
    if events.len() > 0 {
        let before = events.drop_last();
        lemma_configure_invariant(connector, credential, before);
        if before.contains(ConfigureEvent::CredentialChanged) {
            let i = choose|i: int|
                0 <= i < before.len() && before[i] == ConfigureEvent::CredentialChanged;
            assert(events[i] == ConfigureEvent::CredentialChanged);
        }
        if events.last() == ConfigureEvent::CredentialChanged {
            assert(events[events.len() - 1] == ConfigureEvent::CredentialChanged);
        }
    }
}

/// A stored configuration never relies on a credential that failed to store:
/// a requested credential change has succeeded before anything is persisted.
pub proof fn law_credentials_change_before_configuration(
    connector: Seq<char>,
    credential: Option<CredentialAction>,
    events: Seq<ConfigureEvent>,
)
    requires
        configure_run(connector, credential, events).1 == ConfigureAction::Persist,
    ensures
        registry().contains(connector),
        credential is Some ==> events.contains(ConfigureEvent::CredentialChanged),
{
    lemma_configure_invariant(connector, credential, events);
    if events.len() > 0 {
        lemma_configure_invariant(connector, credential, events.drop_last());
        if events.last() == ConfigureEvent::CredentialChanged {
            assert(events[events.len() - 1] == ConfigureEvent::CredentialChanged);
        }
    }
}

/// An invalid credential never reaches the credential store.
pub proof fn law_only_valid_credentials_are_stored(
    connector: Seq<char>,
    credential: Option<CredentialAction>,
    events: Seq<ConfigureEvent>,
)
    requires
        configure_run(connector, credential, events).1 == ConfigureAction::StoreCredential,
    ensures
        credential matches Some(CredentialAction::Store(secret)) && is_valid_secret(secret@),
{
    lemma_configure_invariant(connector, credential, events);
}

/// `failure` reports `refusal`. `reason` is what the store says.
pub open spec fn reports_admin_refusal(
    failure: Failure,
    refusal: ConnectorAdminRefusal,
    reason: Seq<char>,
) -> bool {
    match refusal {
        ConnectorAdminRefusal::NotBuiltIn => failure.says(
            FailureCode::NotFound,
            "connector is not built into this daemon"@,
            None,
        ),
        ConnectorAdminRefusal::Credential(error) => failure.says(
            FailureCode::Internal,
            secret_error_text(error),
            None,
        ),
        ConnectorAdminRefusal::Store(error) => failure.says(
            store_failure_code(error),
            reason,
            None,
        ),
    }
}

/// The answer to a refused configuration or test.
pub fn admin_refusal_failure(refusal: ConnectorAdminRefusal, reason: &str) -> (failure: Failure)
    ensures
        reports_admin_refusal(failure, refusal, reason@),
{
    match refusal {
        ConnectorAdminRefusal::NotBuiltIn => Failure::new(
            FailureCode::NotFound,
            "connector is not built into this daemon",
        ),
        ConnectorAdminRefusal::Credential(error) => Failure::new(
            FailureCode::Internal,
            error.message(),
        ),
        ConnectorAdminRefusal::Store(error) => store_failure(error, reason),
    }
}

/// The audit detail of a configuration.
pub open spec fn configure_detail(
    connector: Seq<char>,
    enabled: bool,
    base_url_changed: bool,
    credential: Option<CredentialAction>,
) -> Seq<char> {
    "connector="@ + connector + " enabled="@ + flag_name(enabled) + " base_url_changed="@
        + flag_name(base_url_changed) + " credential="@ + change_name(change_of(credential))
}

/// The record of a configuration. `enabled` is what the store now holds.
pub fn configure_audit(
    connector: &str,
    enabled: bool,
    base_url_changed: bool,
    credential: &Option<CredentialAction>,
) -> (note: AuditNote)
    ensures
        note.says_change(
            "connector.configure"@,
            "configured"@,
            configure_detail(connector@, enabled, base_url_changed, *credential),
        ),
{
    let change = match credential_change(credential) {
        CredentialChange::Stored => "set",
        CredentialChange::Cleared => "cleared",
        CredentialChange::Unchanged => "unchanged",
    };
    let mut detail = concat4("connector=", connector, " enabled=", flag_label(enabled));
    detail.append(" base_url_changed=");
    detail.append(flag_label(base_url_changed));
    detail.append(" credential=");
    detail.append(change);
    AuditNote::change("connector.configure", "configured", detail)
}

/// The record of a configuration does not depend on the credential's value.
pub proof fn law_credentials_stay_out_of_the_audit(
    connector: Seq<char>,
    enabled: bool,
    base_url_changed: bool,
    secret: String,
    other: String,
)
    ensures
        configure_detail(
            connector,
            enabled,
            base_url_changed,
            Some(CredentialAction::Store(secret)),
        ) == configure_detail(
            connector,
            enabled,
            base_url_changed,
            Some(CredentialAction::Store(other)),
        ),
{
}

/// The answer to a configuration that was stored.
pub fn connector_configured(
    connector: &str,
    record: &ConnectorRecord,
    credential_present: bool,
) -> (answer: Answer<ConnectorSummary>)
    ensures
        answer matches Answer::Success { truth, payload } && truth == OperationTruth::Changed
            && summarises(payload, connector@, Some(*record), credential_present),
{
    Answer::Success {
        truth: OperationTruth::Changed,
        payload: connector_summary(connector, Some(record), credential_present),
    }
}

// Probes

/// The kinds of probe.
#[derive(Clone, Copy, Debug, PartialEq, Eq, Structural)]
pub enum ProbeKind {
    Aws,
    Jenkins,
    SonarQube,
    Jira,
    Confluence,
    SharePoint,
    GitHub,
}

/// The probe of a connector. GitHub's is the one for any other identity.
pub open spec fn probe_kind_of(connector: Seq<char>) -> ProbeKind {
    if connector == AWS@ {
        ProbeKind::Aws
    } else if connector == JENKINS@ {
        ProbeKind::Jenkins
    } else if connector == SONARQUBE@ {
        ProbeKind::SonarQube
    } else if connector == JIRA@ {
        ProbeKind::Jira
    } else if connector == CONFLUENCE@ {
        ProbeKind::Confluence
    } else if connector == SHAREPOINT@ {
        ProbeKind::SharePoint
    } else {
        ProbeKind::GitHub
    }
}

/// Chooses the probe of a connector.
pub fn probe_kind(connector: &str) -> (kind: ProbeKind)
    ensures
        kind == probe_kind_of(connector@),
{
    if same_text(connector, AWS) {
        ProbeKind::Aws
    } else if same_text(connector, JENKINS) {
        ProbeKind::Jenkins
    } else if same_text(connector, SONARQUBE) {
        ProbeKind::SonarQube
    } else if same_text(connector, JIRA) {
        ProbeKind::Jira
    } else if same_text(connector, CONFLUENCE) {
        ProbeKind::Confluence
    } else if same_text(connector, SHAREPOINT) {
        ProbeKind::SharePoint
    } else {
        ProbeKind::GitHub
    }
}

/// The probe needs no stored credential: the command line has its own.
pub open spec fn needs_no_credential(kind: ProbeKind) -> bool {
    kind == ProbeKind::Aws
}

/// The probe has a service to go to without a configured base URL.
pub open spec fn needs_no_base_url(kind: ProbeKind) -> bool {
    kind == ProbeKind::Aws || kind == ProbeKind::GitHub
}

/// How a probe ended.
#[derive(Clone, Copy, Debug, PartialEq, Eq, Structural)]
pub enum ProbeEnd {
    Verified,
    NoContext,
    NoCredential,
    NoBaseUrl,
    Build(ConnectorSecretError),
    DeadlineElapsed,
    ServiceFailed,
}

/// What came of the last action.
#[derive(Clone, Copy, Debug, PartialEq, Eq, Structural)]
pub enum ProbeEvent {
    ContextMade(bool),
    Built,
    BuildFailed(ConnectorSecretError),
    Succeeded,
    Failed,
    DeadlineElapsed,
}

/// Work to perform before the next event.
#[derive(Clone, Copy, Debug, PartialEq, Eq, Structural)]
pub enum ProbeAction {
    MakeContext,
    Build(ProbeKind),
    Call(ProbeKind),
    End(ProbeEnd),
    Ignore,
}

/// What the probe is waiting for.
#[derive(Clone, Copy, Debug, PartialEq, Eq, Structural)]
pub enum ProbePhase {
    MakingContext,
    Building,
    Calling,
    Done,
}

/// What a probe is about.
#[derive(Clone, Copy, Debug, PartialEq, Eq, Structural)]
pub struct ProbeFacts {
    pub kind: ProbeKind,
    pub has_credential: bool,
    pub has_base_url: bool,
}

pub open spec fn probe_ended(end: ProbeEnd) -> (ProbePhase, ProbeAction) {
    (ProbePhase::Done, ProbeAction::End(end))
}

/// The rule of a probe, which starts by making its context.
pub open spec fn spec_probe_step(facts: ProbeFacts, phase: ProbePhase, event: ProbeEvent) -> (
    ProbePhase,
    ProbeAction,
) {
    match (phase, event) {
        (ProbePhase::MakingContext, ProbeEvent::ContextMade(made)) => if !made {
            probe_ended(ProbeEnd::NoContext)
        } else if !needs_no_credential(facts.kind) && !facts.has_credential {
            probe_ended(ProbeEnd::NoCredential)
        } else if !needs_no_base_url(facts.kind) && !facts.has_base_url {
            probe_ended(ProbeEnd::NoBaseUrl)
        } else {
            (ProbePhase::Building, ProbeAction::Build(facts.kind))
        },
        (ProbePhase::Building, ProbeEvent::Built) => (
            ProbePhase::Calling,
            ProbeAction::Call(facts.kind),
        ),
        (ProbePhase::Building, ProbeEvent::BuildFailed(error)) => probe_ended(
            ProbeEnd::Build(error),
        ),
        (ProbePhase::Calling, ProbeEvent::Succeeded) => probe_ended(ProbeEnd::Verified),
        (ProbePhase::Calling, ProbeEvent::Failed) => probe_ended(ProbeEnd::ServiceFailed),
        (ProbePhase::Calling, ProbeEvent::DeadlineElapsed) => probe_ended(
            ProbeEnd::DeadlineElapsed,
        ),
        _ => (phase, ProbeAction::Ignore),
    }
}

fn end_probe(end: ProbeEnd) -> (next: (ProbePhase, ProbeAction))
    ensures
        next == probe_ended(end),
{
    (ProbePhase::Done, ProbeAction::End(end))
}

/// Decides what follows `event` in a probe.
pub fn probe_step(facts: ProbeFacts, phase: ProbePhase, event: ProbeEvent) -> (next: (
    ProbePhase,
    ProbeAction,
))
    ensures
        next == spec_probe_step(facts, phase, event),
{
    match (phase, event) {
        (ProbePhase::MakingContext, ProbeEvent::ContextMade(made)) => {
            if !made {
                end_probe(ProbeEnd::NoContext)
            } else if facts.kind != ProbeKind::Aws && !facts.has_credential {
                end_probe(ProbeEnd::NoCredential)
            } else if facts.kind != ProbeKind::Aws && facts.kind != ProbeKind::GitHub
                && !facts.has_base_url {
                end_probe(ProbeEnd::NoBaseUrl)
            } else {
                (ProbePhase::Building, ProbeAction::Build(facts.kind))
            }
        },
        (ProbePhase::Building, ProbeEvent::Built) => (
            ProbePhase::Calling,
            ProbeAction::Call(facts.kind),
        ),
        (ProbePhase::Building, ProbeEvent::BuildFailed(error)) => end_probe(ProbeEnd::Build(error)),
        (ProbePhase::Calling, ProbeEvent::Succeeded) => end_probe(ProbeEnd::Verified),
        (ProbePhase::Calling, ProbeEvent::Failed) => end_probe(ProbeEnd::ServiceFailed),
        (ProbePhase::Calling, ProbeEvent::DeadlineElapsed) => end_probe(ProbeEnd::DeadlineElapsed),
        _ => (phase, ProbeAction::Ignore),
    }
}

/// Phase and action after `events` of a probe.
pub open spec fn probe_run(facts: ProbeFacts, events: Seq<ProbeEvent>) -> (ProbePhase, ProbeAction)
    decreases events.len(),
{
    if events.len() == 0 {
        (ProbePhase::MakingContext, ProbeAction::MakeContext)
    } else {
        spec_probe_step(facts, probe_run(facts, events.drop_last()).0, events.last())
    }
}

proof fn lemma_probe_invariant(facts: ProbeFacts, events: Seq<ProbeEvent>)
    ensures
        ({
            let (phase, action) = probe_run(facts, events);
            let ready = (needs_no_credential(facts.kind) || facts.has_credential) && (
            needs_no_base_url(facts.kind) || facts.has_base_url);
            &&& phase is Building || phase is Calling ==> ready
            &&& action matches ProbeAction::Call(kind) ==> ready && kind == facts.kind
            &&& action == ProbeAction::End(ProbeEnd::Verified) ==> events.len() > 0
                && events.last() == ProbeEvent::Succeeded
        }),
    decreases events.len(),
{
    if events.len() > 0 {
        lemma_probe_invariant(facts, events.drop_last());
    }
}

/// A service is called only where the credential and the base URL that its
/// probe needs are there.
pub proof fn law_probes_are_ready(facts: ProbeFacts, events: Seq<ProbeEvent>)
    requires
        probe_run(facts, events).1 is Call,
    ensures
        needs_no_credential(facts.kind) || facts.has_credential,
        needs_no_base_url(facts.kind) || facts.has_base_url,
{
    lemma_probe_invariant(facts, events);
}

/// A credential passes for verified only where the service accepted it.
pub proof fn law_probes_pass_on_the_service_alone(facts: ProbeFacts, events: Seq<ProbeEvent>)
    requires
        probe_run(facts, events).1 == ProbeAction::End(ProbeEnd::Verified),
    ensures
        events.len() > 0,
        events.last() == ProbeEvent::Succeeded,
{
    lemma_probe_invariant(facts, events);
}

/// What a failed probe says, where nothing is stored for the connector.
pub const NO_STORED_CREDENTIAL: &'static str =
    "no credential is stored for this connector; store one with connector.configure";

/// What the service itself said of a failure: its kind and its message.
pub struct ServiceWords<'a> {
    pub kind: &'a str,
    pub message: &'a str,
}

/// The detail that a probe reports: `Ok` where it passed.
pub open spec fn probe_detail(
    end: ProbeEnd,
    connector: Seq<char>,
    base_url: Option<Seq<char>>,
    kind: Seq<char>,
    message: Seq<char>,
) -> Result<Seq<char>, Seq<char>> {
    match end {
        ProbeEnd::Verified => Ok(
            if probe_kind_of(connector) == ProbeKind::Aws {
                "caller identity verified via the aws CLI"@
            } else {
                "credential verified against "@ + (match base_url {
                    Some(url) => url,
                    None => GITHUB_DEFAULT_API_BASE@,
                })
            },
        ),
        ProbeEnd::NoContext => Err("connector probe context could not be constructed"@),
        ProbeEnd::NoCredential => Err(NO_STORED_CREDENTIAL@),
        ProbeEnd::NoBaseUrl => Err(
            "connector "@ + connector
                + " requires a configured base URL; set one with connector.configure"@,
        ),
        ProbeEnd::Build(error) => Err(secret_error_text(error)),
        ProbeEnd::DeadlineElapsed => Err("connector probe deadline elapsed"@),
        ProbeEnd::ServiceFailed => Err(kind + ": "@ + message),
    }
}

pub open spec fn text_result(result: Result<String, String>) -> Result<Seq<char>, Seq<char>> {
    match result {
        Ok(text) => Ok(text@),
        Err(text) => Err(text@),
    }
}

/// Puts the end of a probe into words.
pub fn probe_report(
    end: ProbeEnd,
    connector: &str,
    base_url: Option<&str>,
    words: &ServiceWords,
) -> (report: Result<String, String>)
    ensures
        text_result(report) == probe_detail(
            end,
            connector@,
            (match base_url {
                Some(url) => Some(url@),
                None => None,
            }),
            words.kind@,
            words.message@,
        ),
{
    match end {
        ProbeEnd::Verified => {
            if probe_kind(connector) == ProbeKind::Aws {
                Ok("caller identity verified via the aws CLI".to_owned())
            } else {
                Ok(concat2("credential verified against ", github_api_base(base_url)))
            }
        },
        ProbeEnd::NoContext => Err(
            "connector probe context could not be constructed".to_owned(),
        ),
        ProbeEnd::NoCredential => Err(NO_STORED_CREDENTIAL.to_owned()),
        ProbeEnd::NoBaseUrl => Err(
            concat3(
                "connector ",
                connector,
                " requires a configured base URL; set one with connector.configure",
            ),
        ),
        ProbeEnd::Build(error) => Err(error.message().to_owned()),
        ProbeEnd::DeadlineElapsed => Err("connector probe deadline elapsed".to_owned()),
        ProbeEnd::ServiceFailed => Err(concat3(words.kind, ": ", words.message)),
    }
}

// Tests

/// What came of the last action.
#[derive(Clone, Copy, Debug, PartialEq, Eq, Structural)]
pub enum TestEvent {
    RecordsLoaded,
    RecordsFailed(StoreErrorKind),
    Credential { stored: bool },
    CredentialFailed(ConnectorSecretError),
    Probed { passed: bool },
    Recorded,
    RecordFailed(StoreErrorKind),
    Audited,
    AuditFailed,
}

/// Work to perform before the next event.
#[derive(Clone, Copy, Debug, PartialEq, Eq, Structural)]
pub enum TestAction {
    LoadRecords,
    LoadCredential,
    Probe,
    /// Store how the test ended.
    Record { passed: bool },
    Audit { passed: bool },
    Reply { passed: bool },
    Refuse(ConnectorAdminRefusal),
    Fail,
    Ignore,
}

/// What the handler is waiting for.
#[derive(Clone, Copy, Debug, PartialEq, Eq, Structural)]
pub enum TestPhase {
    LoadingRecords,
    LoadingCredential,
    Probing,
    Recording { passed: bool },
    Auditing { passed: bool },
    Done,
}

/// The first action of a test.
pub open spec fn test_start_of(connector: Seq<char>) -> (TestPhase, TestAction) {
    if registry().contains(connector) {
        (TestPhase::LoadingRecords, TestAction::LoadRecords)
    } else {
        (TestPhase::Done, TestAction::Refuse(ConnectorAdminRefusal::NotBuiltIn))
    }
}

/// The rule of a connector test.
pub open spec fn spec_test_step(kind: ProbeKind, phase: TestPhase, event: TestEvent) -> (
    TestPhase,
    TestAction,
) {
    match (phase, event) {
        (TestPhase::LoadingRecords, TestEvent::RecordsLoaded) => (
            TestPhase::LoadingCredential,
            TestAction::LoadCredential,
        ),
        (TestPhase::LoadingRecords, TestEvent::RecordsFailed(error)) => (
            TestPhase::Done,
            TestAction::Refuse(ConnectorAdminRefusal::Store(error)),
        ),
        (TestPhase::LoadingCredential, TestEvent::Credential { stored }) => if stored
            || needs_no_credential(kind) {
            (TestPhase::Probing, TestAction::Probe)
        } else {
            (TestPhase::Recording { passed: false }, TestAction::Record { passed: false })
        },
        (TestPhase::LoadingCredential, TestEvent::CredentialFailed(_)) => (
            TestPhase::Recording { passed: false },
            TestAction::Record { passed: false },
        ),
        (TestPhase::Probing, TestEvent::Probed { passed }) => (
            TestPhase::Recording { passed },
            TestAction::Record { passed },
        ),
        (TestPhase::Recording { passed }, TestEvent::Recorded) => (
            TestPhase::Auditing { passed },
            TestAction::Audit { passed },
        ),
        (TestPhase::Recording { .. }, TestEvent::RecordFailed(error)) => (
            TestPhase::Done,
            TestAction::Refuse(ConnectorAdminRefusal::Store(error)),
        ),
        (TestPhase::Auditing { passed }, TestEvent::Audited) => (
            TestPhase::Done,
            TestAction::Reply { passed },
        ),
        (TestPhase::Auditing { .. }, TestEvent::AuditFailed) => (TestPhase::Done, TestAction::Fail),
        _ => (phase, TestAction::Ignore),
    }
}

/// Chooses the first action of a test.
pub fn test_start(connector: &str) -> (next: (TestPhase, TestAction))
    ensures
        next == test_start_of(connector@),
{
    if is_built_in(connector) {
        (TestPhase::LoadingRecords, TestAction::LoadRecords)
    } else {
        (TestPhase::Done, TestAction::Refuse(ConnectorAdminRefusal::NotBuiltIn))
    }
}

/// Decides what follows `event` in a connector test.
pub fn test_step(kind: ProbeKind, phase: TestPhase, event: TestEvent) -> (next: (
    TestPhase,
    TestAction,
))
    ensures
        next == spec_test_step(kind, phase, event),
{
    match (phase, event) {
        (TestPhase::LoadingRecords, TestEvent::RecordsLoaded) => (
            TestPhase::LoadingCredential,
            TestAction::LoadCredential,
        ),
        (TestPhase::LoadingRecords, TestEvent::RecordsFailed(error)) => (
            TestPhase::Done,
            TestAction::Refuse(ConnectorAdminRefusal::Store(error)),
        ),
        (TestPhase::LoadingCredential, TestEvent::Credential { stored }) => {
            if stored || kind == ProbeKind::Aws {
                (TestPhase::Probing, TestAction::Probe)
            } else {
                (TestPhase::Recording { passed: false }, TestAction::Record { passed: false })
            }
        },
        (TestPhase::LoadingCredential, TestEvent::CredentialFailed(_)) => (
            TestPhase::Recording { passed: false },
            TestAction::Record { passed: false },
        ),
        (TestPhase::Probing, TestEvent::Probed { passed }) => (
            TestPhase::Recording { passed },
            TestAction::Record { passed },
        ),
        (TestPhase::Recording { passed }, TestEvent::Recorded) => (
            TestPhase::Auditing { passed },
            TestAction::Audit { passed },
        ),
        (TestPhase::Recording { .. }, TestEvent::RecordFailed(error)) => (
            TestPhase::Done,
            TestAction::Refuse(ConnectorAdminRefusal::Store(error)),
        ),
        (TestPhase::Auditing { passed }, TestEvent::Audited) => (
            TestPhase::Done,
            TestAction::Reply { passed },
        ),
        (TestPhase::Auditing { .. }, TestEvent::AuditFailed) => (TestPhase::Done, TestAction::Fail),
        _ => (phase, TestAction::Ignore),
    }
}

/// Phase and action after `events` of a connector test.
pub open spec fn test_run(connector: Seq<char>, events: Seq<TestEvent>) -> (TestPhase, TestAction)
    decreases events.len(),
{
    if events.len() == 0 {
        test_start_of(connector)
    } else {
        spec_test_step(
            probe_kind_of(connector),
            test_run(connector, events.drop_last()).0,
            events.last(),
        )
    }
}

proof fn lemma_test_invariant(connector: Seq<char>, events: Seq<TestEvent>)
    ensures
        ({
            let (phase, action) = test_run(connector, events);
            let passed_probe = events.contains(TestEvent::Probed { passed: true });
            &&& phase == (TestPhase::Recording { passed: true }) ==> passed_probe
            &&& phase == (TestPhase::Auditing { passed: true }) ==> passed_probe
            &&& action == (TestAction::Reply { passed: true }) ==> passed_probe
            &&& action == (TestAction::Record { passed: true }) ==> passed_probe
            &&& phase is Auditing ==> events.contains(TestEvent::Recorded)
            &&& action is Reply ==> events.contains(TestEvent::Recorded) && events.contains(
                TestEvent::Audited,
            )
        }),
    decreases events.len(),
{
    if events.len() > 0 {
        let before = events.drop_last();
        lemma_test_invariant(connector, before);
        assert forall|event: TestEvent| before.contains(event) implies events.contains(event) by {
            let i = choose|i: int| 0 <= i < before.len() && before[i] == event;
            assert(events[i] == event);
        }
        assert(events.contains(events.last())) by {
            assert(events[events.len() - 1] == events.last());
        }
    }
}

/// A test is reported as passed only where the probe passed.
pub proof fn law_tests_pass_on_the_probe_alone(connector: Seq<char>, events: Seq<TestEvent>)
    requires
        test_run(connector, events).1 == (TestAction::Reply { passed: true }),
    ensures
        events.contains(TestEvent::Probed { passed: true }),
{
    lemma_test_invariant(connector, events);
}

/// Every reported test is in the store and on record.
pub proof fn law_reported_tests_are_on_record(connector: Seq<char>, events: Seq<TestEvent>)
    requires
        test_run(connector, events).1 is Reply,
    ensures
        events.contains(TestEvent::Recorded),
        events.contains(TestEvent::Audited),
{
    lemma_test_invariant(connector, events);
}

/// What is told of a test.
pub struct ConnectorTestReport {
    pub connector_id: String,
    pub passed: bool,
    pub detail: String,
}

/// The detail of a test, within its limit.
pub fn bounded_connector_detail(detail: &str) -> (bounded: String)
    ensures
        bounded@ == truncated(detail@, MAX_CONNECTOR_TEST_DETAIL_BYTES as nat),
{
    truncate_text(detail, MAX_CONNECTOR_TEST_DETAIL_BYTES)
}

/// Concludes a test from what was found: a report, or why there was no probe.
/// `status` is the store's word for how the test ended.
pub fn connector_tested(connector: &str, report: Result<String, String>, status: &str) -> (
    conclusion: Conclusion<ConnectorTestReport>)
    ensures
        conclusion.audit.says_change(
            "connector.test"@,
            status@,
            "connector="@ + connector@ + " status="@ + status@,
        ),
        conclusion.answer matches Answer::Success { truth, payload } && truth == (if report is Ok {
            OperationTruth::Verified
        } else {
            OperationTruth::Observed
        }) && payload.connector_id@ == connector@ && payload.passed == (report is Ok)
            && payload.detail@ == truncated(
            match report {
                Ok(text) => text@,
                Err(text) => text@,
            },
            MAX_CONNECTOR_TEST_DETAIL_BYTES as nat,
        ),
{
    let (passed, truth, text) = match report {
        Ok(text) => (true, OperationTruth::Verified, text),
        Err(text) => (false, OperationTruth::Observed, text),
    };
    Conclusion {
        audit: AuditNote::change(
            "connector.test",
            status,
            concat4("connector=", connector, " status=", status),
        ),
        answer: Answer::Success {
            truth,
            payload: ConnectorTestReport {
                connector_id: connector.to_owned(),
                passed,
                detail: bounded_connector_detail(text.as_str()),
            },
        },
    }
}

// Configurations, probes and tests, told by what came of them alone

/// The event can come of the action.
pub open spec fn configure_fits(action: ConfigureAction, event: ConfigureEvent) -> bool {
    match action {
        ConfigureAction::StoreCredential | ConfigureAction::ClearCredential => {
            event is CredentialChanged || event is CredentialFailed
        },
        ConfigureAction::Persist => event is Persisted || event is PersistFailed,
        ConfigureAction::Audit => event is Audited || event is AuditFailed,
        ConfigureAction::LookUpCredential => event is Presence,
        _ => false,
    }
}

/// Every one of `events` came of the action before it.
pub open spec fn configure_told(
    connector: Seq<char>,
    credential: Option<CredentialAction>,
    events: Seq<ConfigureEvent>,
) -> bool
    decreases events.len(),
{
    events.len() == 0 || {
        &&& configure_told(connector, credential, events.drop_last())
        &&& configure_fits(
            configure_run(connector, credential, events.drop_last()).1,
            events.last(),
        )
    }
}

spec fn configure_waits(phase: ConfigurePhase, action: ConfigureAction) -> bool {
    match phase {
        ConfigurePhase::ChangingCredential => action is StoreCredential
            || action is ClearCredential,
        ConfigurePhase::Persisting => action is Persist,
        ConfigurePhase::Auditing => action is Audit,
        ConfigurePhase::LookingUp => action is LookUpCredential,
        ConfigurePhase::Done => action is Reply || action is Refuse || action is Fail,
    }
}

proof fn lemma_configure_told(
    connector: Seq<char>,
    credential: Option<CredentialAction>,
    events: Seq<ConfigureEvent>,
)
    requires
        configure_told(connector, credential, events),
    ensures
        configure_waits(
            configure_run(connector, credential, events).0,
            configure_run(connector, credential, events).1,
        ),
    decreases events.len(),
{
    if events.len() > 0 {
        lemma_configure_told(connector, credential, events.drop_last());
    }
}

/// Only a built-in connector is configured. Its credential is stored where a valid
/// one is given, cleared where that is asked for and left alone otherwise; then
/// the configuration is stored and put on record. A credential counts as there
/// only where the credential store says so. Whatever fails is what is told.
pub proof fn law_configurations_do_what_is_asked(
    connector: Seq<char>,
    credential: Option<CredentialAction>,
    events: Seq<ConfigureEvent>,
)
    requires
        configure_told(connector, credential, events),
    ensures
        events.len() == 0 ==> {
            let first = configure_run(connector, credential, events).1;
            let known = registry().contains(connector);
            &&& first == ConfigureAction::Refuse(ConnectorAdminRefusal::NotBuiltIn) <==> !known
            &&& first == ConfigureAction::StoreCredential <==> known && (
            credential matches Some(CredentialAction::Store(secret)) && is_valid_secret(secret@))
            &&& first == ConfigureAction::Refuse(
                ConnectorAdminRefusal::Credential(ConnectorSecretError::InvalidSecret),
            ) <==> known && (credential matches Some(CredentialAction::Store(secret))
                && !is_valid_secret(secret@))
            &&& first == ConfigureAction::ClearCredential <==> known && credential == Some(
                CredentialAction::Clear,
            )
            &&& first == ConfigureAction::Persist <==> known && credential is None
        },
        events.len() > 0 ==> {
            let next = configure_run(connector, credential, events).1;
            let last = events.last();
            &&& next == ConfigureAction::Persist <==> last == ConfigureEvent::CredentialChanged
            &&& next == ConfigureAction::Audit <==> last == ConfigureEvent::Persisted
            &&& next == ConfigureAction::LookUpCredential <==> last == ConfigureEvent::Audited
            &&& next == ConfigureAction::Fail <==> last == ConfigureEvent::AuditFailed
            &&& next == (ConfigureAction::Reply { credential_present: true }) <==> last
                == ConfigureEvent::Presence(Some(true))
            &&& next == (ConfigureAction::Reply { credential_present: false }) <==> last
                == ConfigureEvent::Presence(Some(false)) || last == ConfigureEvent::Presence(None)
            &&& last matches ConfigureEvent::CredentialFailed(error) ==> next
                == ConfigureAction::Refuse(ConnectorAdminRefusal::Credential(error))
            &&& last matches ConfigureEvent::PersistFailed(error) ==> next
                == ConfigureAction::Refuse(ConnectorAdminRefusal::Store(error))
            &&& next is Refuse <==> last is CredentialFailed || last is PersistFailed
            &&& next != ConfigureAction::Ignore
        },
{
    lemma_configure_told(connector, credential, events);
    if events.len() > 0 {
        lemma_configure_told(connector, credential, events.drop_last());
        if let ConfigureEvent::Presence(Some(present)) = events.last() {
            assert(present == true || present == false);
        }
    }
}

/// The record tells whether a credential was set, cleared or left alone.
pub proof fn law_credential_changes_have_their_own_words(action: Option<CredentialAction>)
    ensures
        change_name(change_of(action)) == "set"@ <==> (action matches Some(asked)
            && asked is Store),
        change_name(change_of(action)) == "cleared"@ <==> action == Some(CredentialAction::Clear),
        change_name(change_of(action)) == "unchanged"@ <==> action is None,
{
    reveal_strlit("set");
    reveal_strlit("cleared");
    reveal_strlit("unchanged");
    assert("set"@.len() == 3);
    assert("cleared"@.len() == 7);
    assert("unchanged"@.len() == 9);
}

/// A summary tells of its own connector; what it tells beyond the credential comes
/// from the record alone, and a connector without one is off and untested.
pub proof fn law_summaries_tell_what_is_stored(
    summary: ConnectorSummary,
    id: Seq<char>,
    record: Option<ConnectorRecord>,
    credential_present: bool,
)
    requires
        summarises(summary, id, record, credential_present),
    ensures
        summary.connector_id@ == id,
        summary.credential_present == credential_present,
        summary.enabled <==> record is Some && record->0.enabled,
        summary.base_url is Some <==> record is Some && record->0.base_url is Some,
        summary.base_url is Some ==> summary.base_url->0@ == record->0.base_url->0@,
        summary.last_test_status is Some <==> record is Some && record->0.last_test_status is Some,
        summary.last_test_status is Some ==> summary.last_test_status->0@
            == record->0.last_test_status->0@,
        summary.last_test_at_ms is Some <==> record is Some && record->0.last_test_at_ms is Some,
        summary.last_test_at_ms is Some ==> summary.last_test_at_ms == record->0.last_test_at_ms,
{
}

/// That a connector is not built in is not found; that its credential cannot be
/// used is an internal failure in the credential's own words.
pub proof fn law_refused_connectors_are_told_apart(
    failure: Failure,
    refusal: ConnectorAdminRefusal,
    reason: Seq<char>,
)
    requires
        reports_admin_refusal(failure, refusal, reason),
    ensures
        failure.code == FailureCode::NotFound <==> refusal == ConnectorAdminRefusal::NotBuiltIn,
        refusal is Credential ==> failure.code == FailureCode::Internal,
        refusal matches ConnectorAdminRefusal::Credential(error) ==> failure.message@
            == secret_error_text(error),
        refusal is Store ==> failure.message@ == reason,
        failure.recovery is None,
{
}

/// Each connector is probed in its own way, and GitHub's is the way of any other.
/// Only the command line brings its own credential, and only it and GitHub
/// have somewhere to go without a base URL.
pub proof fn law_connectors_are_probed_in_their_own_way(connector: Seq<char>)
    ensures
        ({
            let kind = probe_kind_of(connector);
            &&& kind == ProbeKind::Aws <==> connector == "aws"@
            &&& kind == ProbeKind::Jenkins <==> connector == "jenkins"@
            &&& kind == ProbeKind::SonarQube <==> connector == "sonarqube"@
            &&& kind == ProbeKind::Jira <==> connector == "jira"@
            &&& kind == ProbeKind::Confluence <==> connector == "confluence"@
            &&& kind == ProbeKind::SharePoint <==> connector == "sharepoint"@
            &&& needs_no_credential(kind) <==> connector == "aws"@
            &&& needs_no_base_url(kind) <==> connector == "aws"@ || (connector != "jenkins"@
                && connector != "sonarqube"@ && connector != "jira"@ && connector != "confluence"@
                && connector != "sharepoint"@)
        }),
{
    reveal_strlit("aws");
    reveal_strlit("jenkins");
    reveal_strlit("sonarqube");
    reveal_strlit("jira");
    reveal_strlit("confluence");
    reveal_strlit("sharepoint");
    assert("aws"@.len() == 3);
    assert("jenkins"@.len() == 7);
    assert("sonarqube"@.len() == 9);
    assert("jira"@.len() == 4);
    assert("confluence"@[0] == 'c');
    assert("sharepoint"@[0] == 's');
    assert("confluence"@.len() == 10);
    assert("sharepoint"@.len() == 10);
}

/// The event can come of the action.
pub open spec fn probe_fits(action: ProbeAction, event: ProbeEvent) -> bool {
    match action {
        ProbeAction::MakeContext => event is ContextMade,
        ProbeAction::Build(_) => event is Built || event is BuildFailed,
        ProbeAction::Call(_) => event is Succeeded || event is Failed || event is DeadlineElapsed,
        _ => false,
    }
}

/// Every one of `events` came of the action before it.
pub open spec fn probe_told(facts: ProbeFacts, events: Seq<ProbeEvent>) -> bool
    decreases events.len(),
{
    events.len() == 0 || {
        &&& probe_told(facts, events.drop_last())
        &&& probe_fits(probe_run(facts, events.drop_last()).1, events.last())
    }
}

spec fn probe_waits(phase: ProbePhase, action: ProbeAction) -> bool {
    match phase {
        ProbePhase::MakingContext => action is MakeContext,
        ProbePhase::Building => action is Build,
        ProbePhase::Calling => action is Call,
        ProbePhase::Done => action is End,
    }
}

proof fn lemma_probe_told(facts: ProbeFacts, events: Seq<ProbeEvent>)
    requires
        probe_told(facts, events),
    ensures
        probe_waits(probe_run(facts, events).0, probe_run(facts, events).1),
    decreases events.len(),
{
    if events.len() > 0 {
        lemma_probe_told(facts, events.drop_last());
    }
}

/// A probe ends with what is missing, the credential before the base URL, and
/// else with what the service came to; what is called is the connector's own
/// service. It passes exactly where the service answered.
pub proof fn law_probes_end_with_what_they_found(facts: ProbeFacts, events: Seq<ProbeEvent>)
    requires
        probe_told(facts, events),
    ensures
        events.len() == 0 ==> probe_run(facts, events).1 == ProbeAction::MakeContext,
        events.len() > 0 ==> {
            let next = probe_run(facts, events).1;
            let last = events.last();
            let with_credential = facts.has_credential || facts.kind == ProbeKind::Aws;
            let with_base_url = facts.has_base_url || facts.kind == ProbeKind::Aws || facts.kind
                == ProbeKind::GitHub;
            &&& next == ProbeAction::End(ProbeEnd::NoContext) <==> last == ProbeEvent::ContextMade(
                false,
            )
            &&& next == ProbeAction::End(ProbeEnd::NoCredential) <==> last
                == ProbeEvent::ContextMade(true) && !with_credential
            &&& next == ProbeAction::End(ProbeEnd::NoBaseUrl) <==> last == ProbeEvent::ContextMade(
                true,
            ) && with_credential && !with_base_url
            &&& next == ProbeAction::Build(facts.kind) <==> last == ProbeEvent::ContextMade(true)
                && with_credential && with_base_url
            &&& next == ProbeAction::Call(facts.kind) <==> last == ProbeEvent::Built
            &&& last matches ProbeEvent::BuildFailed(error) ==> next == ProbeAction::End(
                ProbeEnd::Build(error),
            )
            &&& next == ProbeAction::End(ProbeEnd::Verified) <==> last == ProbeEvent::Succeeded
            &&& next == ProbeAction::End(ProbeEnd::ServiceFailed) <==> last == ProbeEvent::Failed
            &&& next == ProbeAction::End(ProbeEnd::DeadlineElapsed) <==> last
                == ProbeEvent::DeadlineElapsed
            &&& next != ProbeAction::Ignore
        },
{
    lemma_probe_told(facts, events);
    if events.len() > 0 {
        lemma_probe_told(facts, events.drop_last());
    }
}

/// A probe is reported as passed exactly where the service answered, and names
/// what the credential was good for; a failed one is told in the words of
/// what failed.
pub proof fn law_probe_reports_follow_the_end(
    end: ProbeEnd,
    connector: Seq<char>,
    base_url: Option<Seq<char>>,
    kind: Seq<char>,
    message: Seq<char>,
)
    ensures
        ({
            let report = probe_detail(end, connector, base_url, kind, message);
            &&& report is Ok <==> end == ProbeEnd::Verified
            &&& end == ProbeEnd::Verified && connector == "aws"@ ==> report == Ok::<
                Seq<char>,
                Seq<char>,
            >("caller identity verified via the aws CLI"@)
            &&& base_url matches Some(url) ==> end == ProbeEnd::Verified && connector != "aws"@
                ==> report == Ok::<Seq<char>, Seq<char>>("credential verified against "@ + url)
            &&& base_url is None && end == ProbeEnd::Verified && connector != "aws"@ ==> report
                == Ok::<Seq<char>, Seq<char>>(
                "credential verified against "@ + "https://api.github.com/"@,
            )
            &&& end == ProbeEnd::ServiceFailed ==> report == Err::<Seq<char>, Seq<char>>(
                kind + ": "@ + message,
            )
            &&& end == ProbeEnd::DeadlineElapsed ==> report == Err::<Seq<char>, Seq<char>>(
                "connector probe deadline elapsed"@,
            )
            &&& end matches ProbeEnd::Build(error) ==> report == Err::<Seq<char>, Seq<char>>(
                secret_error_text(error),
            )
        }),
{
    law_connectors_are_probed_in_their_own_way(connector);
}

/// The event can come of the action.
pub open spec fn test_fits(action: TestAction, event: TestEvent) -> bool {
    match action {
        TestAction::LoadRecords => event is RecordsLoaded || event is RecordsFailed,
        TestAction::LoadCredential => event is Credential || event is CredentialFailed,
        TestAction::Probe => event is Probed,
        TestAction::Record { .. } => event is Recorded || event is RecordFailed,
        TestAction::Audit { .. } => event is Audited || event is AuditFailed,
        _ => false,
    }
}

/// Every one of `events` came of the action before it.
pub open spec fn test_told(connector: Seq<char>, events: Seq<TestEvent>) -> bool
    decreases events.len(),
{
    events.len() == 0 || {
        &&& test_told(connector, events.drop_last())
        &&& test_fits(test_run(connector, events.drop_last()).1, events.last())
    }
}

spec fn test_waits(phase: TestPhase, action: TestAction) -> bool {
    match phase {
        TestPhase::LoadingRecords => action is LoadRecords,
        TestPhase::LoadingCredential => action is LoadCredential,
        TestPhase::Probing => action is Probe,
        TestPhase::Recording { passed } => action == (TestAction::Record { passed }),
        TestPhase::Auditing { passed } => action == (TestAction::Audit { passed }),
        TestPhase::Done => action is Reply || action is Refuse || action is Fail,
    }
}

proof fn lemma_test_told(connector: Seq<char>, events: Seq<TestEvent>)
    requires
        test_told(connector, events),
    ensures
        test_waits(test_run(connector, events).0, test_run(connector, events).1),
    decreases events.len(),
{
    if events.len() > 0 {
        lemma_test_told(connector, events.drop_last());
    }
}

/// Only a built-in connector is tested. It is probed exactly where there is a
/// credential, or none is needed, and else has failed the test. How the test
/// ended is stored, put on record and told alike.
pub proof fn law_tests_tell_how_the_probe_ended(connector: Seq<char>, events: Seq<TestEvent>)
    requires
        test_told(connector, events),
    ensures
        events.len() == 0 ==> test_run(connector, events).1 == if registry().contains(connector) {
            TestAction::LoadRecords
        } else {
            TestAction::Refuse(ConnectorAdminRefusal::NotBuiltIn)
        },
        events.len() > 0 ==> {
            let asked = test_run(connector, events.drop_last()).1;
            let next = test_run(connector, events).1;
            let last = events.last();
            &&& next == TestAction::LoadCredential <==> last == TestEvent::RecordsLoaded
            &&& next == TestAction::Probe <==> (last matches TestEvent::Credential { stored } && (
            stored || connector == "aws"@))
            &&& next == (TestAction::Record { passed: true }) <==> last == (TestEvent::Probed {
                passed: true,
            })
            &&& next == (TestAction::Record { passed: false }) <==> last == (TestEvent::Probed {
                passed: false,
            }) || last is CredentialFailed || (last == (TestEvent::Credential { stored: false })
                && connector != "aws"@)
            &&& next is Audit <==> last == TestEvent::Recorded
            &&& next matches TestAction::Audit { passed } ==> asked == (TestAction::Record {
                passed,
            })
            &&& next is Reply <==> last == TestEvent::Audited
            &&& next matches TestAction::Reply { passed } ==> asked == (TestAction::Audit {
                passed,
            })
            &&& next == TestAction::Fail <==> last == TestEvent::AuditFailed
            &&& last matches TestEvent::RecordsFailed(error) ==> next == TestAction::Refuse(
                ConnectorAdminRefusal::Store(error),
            )
            &&& last matches TestEvent::RecordFailed(error) ==> next == TestAction::Refuse(
                ConnectorAdminRefusal::Store(error),
            )
            &&& next is Refuse <==> last is RecordsFailed || last is RecordFailed
            &&& next != TestAction::Ignore
        },
{
    law_connectors_are_probed_in_their_own_way(connector);
    lemma_test_told(connector, events);
    if events.len() > 0 {
        lemma_test_told(connector, events.drop_last());
    }
}

/// What did not come of what was asked is passed over and changes nothing, and
/// once a configuration is over it is not taken up again.
pub proof fn law_stray_changes_are_passed_over(
    connector: Seq<char>,
    credential: Option<CredentialAction>,
    events: Seq<ConfigureEvent>,
    event: ConfigureEvent,
)
    requires
        configure_told(connector, credential, events),
        !configure_fits(configure_run(connector, credential, events).1, event),
    ensures
        configure_run(connector, credential, events.push(event)).1 == ConfigureAction::Ignore,
        configure_run(connector, credential, events.push(event)).0 == configure_run(connector, credential, events).0,
{
    lemma_configure_told(connector, credential, events);
    assert(events.push(event).drop_last() =~= events);
}

/// What did not come of what was asked is passed over and changes nothing, and
/// once a probe is over it is not taken up again.
pub proof fn law_stray_answers_are_passed_over(
    facts: ProbeFacts,
    events: Seq<ProbeEvent>,
    event: ProbeEvent,
)
    requires
        probe_told(facts, events),
        !probe_fits(probe_run(facts, events).1, event),
    ensures
        probe_run(facts, events.push(event)).1 == ProbeAction::Ignore,
        probe_run(facts, events.push(event)).0 == probe_run(facts, events).0,
{
    lemma_probe_told(facts, events);
    assert(events.push(event).drop_last() =~= events);
}

/// What did not come of what was asked is passed over and changes nothing, and
/// once a test is over it is not taken up again.
pub proof fn law_stray_findings_are_passed_over(
    connector: Seq<char>,
    events: Seq<TestEvent>,
    event: TestEvent,
)
    requires
        test_told(connector, events),
        !test_fits(test_run(connector, events).1, event),
    ensures
        test_run(connector, events.push(event)).1 == TestAction::Ignore,
        test_run(connector, events.push(event)).0 == test_run(connector, events).0,
{
    lemma_test_told(connector, events);
    assert(events.push(event).drop_last() =~= events);
}

} // verus!
