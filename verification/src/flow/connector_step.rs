//! One connector step of a flow, from its plan to the result of the effect.
//!
//! A connector that is missing, disabled or without a credential fails the step
//! with guidance and never reaches the service.

use vstd::prelude::*;

use super::connector_call::{Service, CONNECTOR_RECOVERY_SURFACES};
use crate::connectors::{ConnectorSecretError, secret_error_text};
use crate::digest::{sha256_digest, sha256_hex};
use crate::split::texts;
use crate::text::{
    concat2, concat3, contains_text, has_prefix, hex, lemma_truncated, truncate_text, truncated,
    utf8_len,
};

verus! {

/// The most evidence handles that one effect may carry.
pub const MAX_EVIDENCE_HANDLES: usize = 4;

/// Media type of retained command output.
pub const COMMAND_OUTPUT_MEDIA_TYPE: &'static str = "application/vnd.pam.flow-command-output";

/// Media type of retained connector output.
pub const CONNECTOR_OUTPUT_MEDIA_TYPE: &'static str = "application/vnd.pam.connector-output";

/// Why a planned call ended without reaching its service, or without a result.
#[derive(Clone, Copy, Debug, PartialEq, Eq, Structural)]
pub enum ConnectorRefusal {
    NotEnabled,
    Secret(ConnectorSecretError),
    NoCredential,
    NoBaseUrl,
    Build(ConnectorSecretError),
    NoContext,
    NoResult,
}

/// What came of the last action.
#[derive(Clone, Copy, Debug, PartialEq, Eq, Structural)]
pub enum ConnectorEvent {
    /// The connector's record, if it has one.
    Record { found: bool, enabled: bool, has_base_url: bool },
    /// Whether a credential is stored.
    Credential { stored: bool },
    CredentialFailed(ConnectorSecretError),
    Built,
    BuildFailed(ConnectorSecretError),
    ContextReady,
    ContextRefused,
    /// The service answered with a result.
    Succeeded,
    /// The service answered with a failure.
    ServiceFailed { retryable: bool },
    /// The call ended without an answer.
    NoResult,
    Cancelled,
    StaleLease,
}

/// Work to perform before the next event.
#[derive(Clone, Copy, Debug, PartialEq, Eq, Structural)]
pub enum ConnectorAction {
    FindRecord,
    LoadCredential,
    /// Build the client, with or without the stored credential.
    Build,
    MakeContext,
    Call,
    /// Fail the step with this refusal.
    Refuse { refusal: ConnectorRefusal, retryable: bool },
    /// Fail the step with the service's own message.
    FailWithService { retryable: bool },
    /// Record the service's result.
    Succeed,
    Cancelled,
    StaleLease,
    Ignore,
}

/// What the step is waiting for.
#[derive(Clone, Copy, Debug, PartialEq, Eq, Structural)]
pub enum ConnectorPhase {
    FindingRecord,
    LoadingCredential { has_base_url: bool },
    Building,
    MakingContext,
    Calling,
    Done,
}

/// How a service is reached.
#[derive(Clone, Copy, Debug, PartialEq, Eq, Structural)]
pub enum ServiceNeeds {
    /// A credential; the service's address has a default.
    Credential,
    /// A credential and a configured address.
    CredentialAndBaseUrl,
    /// Neither: a stored credential is used when there is one.
    Nothing,
}

pub open spec fn needs_of(service: Service) -> ServiceNeeds {
    match service {
        Service::GitHub => ServiceNeeds::Credential,
        Service::Aws => ServiceNeeds::Nothing,
        _ => ServiceNeeds::CredentialAndBaseUrl,
    }
}

/// What a service needs before it can be called.
pub fn service_needs(service: Service) -> (needs: ServiceNeeds)
    ensures
        needs == needs_of(service),
{
    match service {
        Service::GitHub => ServiceNeeds::Credential,
        Service::Aws => ServiceNeeds::Nothing,
        _ => ServiceNeeds::CredentialAndBaseUrl,
    }
}

pub open spec fn refused(refusal: ConnectorRefusal, retryable: bool) -> (
    ConnectorPhase,
    ConnectorAction,
) {
    (ConnectorPhase::Done, ConnectorAction::Refuse { refusal, retryable })
}

/// The rule of a connector step.
pub open spec fn spec_connector_step(
    needs: ServiceNeeds,
    phase: ConnectorPhase,
    event: ConnectorEvent,
) -> (ConnectorPhase, ConnectorAction) {
    match (phase, event) {
        (
            ConnectorPhase::FindingRecord,
            ConnectorEvent::Record { found, enabled, has_base_url },
        ) => if found && enabled {
            (
                ConnectorPhase::LoadingCredential { has_base_url },
                ConnectorAction::LoadCredential,
            )
        } else {
            refused(ConnectorRefusal::NotEnabled, false)
        },
        (
            ConnectorPhase::LoadingCredential { has_base_url },
            ConnectorEvent::Credential { stored },
        ) => if needs != ServiceNeeds::Nothing && !stored {
            refused(ConnectorRefusal::NoCredential, false)
        } else if needs == ServiceNeeds::CredentialAndBaseUrl && !has_base_url {
            refused(ConnectorRefusal::NoBaseUrl, false)
        } else {
            (ConnectorPhase::Building, ConnectorAction::Build)
        },
        (
            ConnectorPhase::LoadingCredential { .. },
            ConnectorEvent::CredentialFailed(error),
        ) => refused(ConnectorRefusal::Secret(error), true),
        (ConnectorPhase::Building, ConnectorEvent::Built) => (
            ConnectorPhase::MakingContext,
            ConnectorAction::MakeContext,
        ),
        (ConnectorPhase::Building, ConnectorEvent::BuildFailed(error)) => refused(
            ConnectorRefusal::Build(error),
            false,
        ),
        (ConnectorPhase::MakingContext, ConnectorEvent::ContextReady) => (
            ConnectorPhase::Calling,
            ConnectorAction::Call,
        ),
        (ConnectorPhase::MakingContext, ConnectorEvent::ContextRefused) => refused(
            ConnectorRefusal::NoContext,
            false,
        ),
        (ConnectorPhase::Calling, ConnectorEvent::Succeeded) => (
            ConnectorPhase::Done,
            ConnectorAction::Succeed,
        ),
        (ConnectorPhase::Calling, ConnectorEvent::ServiceFailed { retryable }) => (
            ConnectorPhase::Done,
            ConnectorAction::FailWithService { retryable },
        ),
        (ConnectorPhase::Calling, ConnectorEvent::NoResult) => refused(
            ConnectorRefusal::NoResult,
            false,
        ),
        (ConnectorPhase::Calling, ConnectorEvent::Cancelled) => (
            ConnectorPhase::Done,
            ConnectorAction::Cancelled,
        ),
        (ConnectorPhase::Calling, ConnectorEvent::StaleLease) => (
            ConnectorPhase::Done,
            ConnectorAction::StaleLease,
        ),
        _ => (phase, ConnectorAction::Ignore),
    }
}

fn refuse(refusal: ConnectorRefusal, retryable: bool) -> (next: (ConnectorPhase, ConnectorAction))
    ensures
        next == refused(refusal, retryable),
{
    (ConnectorPhase::Done, ConnectorAction::Refuse { refusal, retryable })
}

/// Decides what follows `event` in a connector step.
pub fn connector_step(needs: ServiceNeeds, phase: ConnectorPhase, event: ConnectorEvent) -> (next: (
    ConnectorPhase,
    ConnectorAction,
))
    ensures
        next == spec_connector_step(needs, phase, event),
{
    match (phase, event) {
        (
            ConnectorPhase::FindingRecord,
            ConnectorEvent::Record { found, enabled, has_base_url },
        ) => {
            if found && enabled {
                (
                    ConnectorPhase::LoadingCredential { has_base_url },
                    ConnectorAction::LoadCredential,
                )
            } else {
                refuse(ConnectorRefusal::NotEnabled, false)
            }
        },
        (
            ConnectorPhase::LoadingCredential { has_base_url },
            ConnectorEvent::Credential { stored },
        ) => {
            if needs != ServiceNeeds::Nothing && !stored {
                refuse(ConnectorRefusal::NoCredential, false)
            } else if needs == ServiceNeeds::CredentialAndBaseUrl && !has_base_url {
                refuse(ConnectorRefusal::NoBaseUrl, false)
            } else {
                (ConnectorPhase::Building, ConnectorAction::Build)
            }
        },
        (
            ConnectorPhase::LoadingCredential { .. },
            ConnectorEvent::CredentialFailed(error),
        ) => refuse(ConnectorRefusal::Secret(error), true),
        (ConnectorPhase::Building, ConnectorEvent::Built) => (
            ConnectorPhase::MakingContext,
            ConnectorAction::MakeContext,
        ),
        (ConnectorPhase::Building, ConnectorEvent::BuildFailed(error)) => refuse(
            ConnectorRefusal::Build(error),
            false,
        ),
        (ConnectorPhase::MakingContext, ConnectorEvent::ContextReady) => (
            ConnectorPhase::Calling,
            ConnectorAction::Call,
        ),
        (ConnectorPhase::MakingContext, ConnectorEvent::ContextRefused) => refuse(
            ConnectorRefusal::NoContext,
            false,
        ),
        (ConnectorPhase::Calling, ConnectorEvent::Succeeded) => (
            ConnectorPhase::Done,
            ConnectorAction::Succeed,
        ),
        (ConnectorPhase::Calling, ConnectorEvent::ServiceFailed { retryable }) => (
            ConnectorPhase::Done,
            ConnectorAction::FailWithService { retryable },
        ),
        (ConnectorPhase::Calling, ConnectorEvent::NoResult) => refuse(
            ConnectorRefusal::NoResult,
            false,
        ),
        (ConnectorPhase::Calling, ConnectorEvent::Cancelled) => (
            ConnectorPhase::Done,
            ConnectorAction::Cancelled,
        ),
        (ConnectorPhase::Calling, ConnectorEvent::StaleLease) => (
            ConnectorPhase::Done,
            ConnectorAction::StaleLease,
        ),
        _ => (phase, ConnectorAction::Ignore),
    }
}

/// Phase and action after `events`, starting with the record.
pub open spec fn connector_run(needs: ServiceNeeds, events: Seq<ConnectorEvent>) -> (
    ConnectorPhase,
    ConnectorAction,
)
    decreases events.len(),
{
    if events.len() == 0 {
        (ConnectorPhase::FindingRecord, ConnectorAction::FindRecord)
    } else {
        spec_connector_step(needs, connector_run(needs, events.drop_last()).0, events.last())
    }
}

/// Some event says that the connector is enabled.
pub open spec fn was_enabled(events: Seq<ConnectorEvent>) -> bool {
    exists|i: int| 0 <= i < events.len() && says_enabled(#[trigger] events[i])
}

pub open spec fn says_enabled(event: ConnectorEvent) -> bool {
    event matches ConnectorEvent::Record { found, enabled, .. } && found && enabled
}

/// Some event says that a credential is stored.
pub open spec fn had_credential(events: Seq<ConnectorEvent>) -> bool {
    exists|i: int|
        0 <= i < events.len() && #[trigger] events[i] == (ConnectorEvent::Credential {
            stored: true,
        })
}

proof fn lemma_phase_history(needs: ServiceNeeds, events: Seq<ConnectorEvent>)
    ensures
        ({
            let phase = connector_run(needs, events).0;
            let past_record = phase is LoadingCredential || phase is Building
                || phase is MakingContext || phase is Calling;
            let past_credential = phase is Building || phase is MakingContext || phase is Calling;
            &&& past_record ==> was_enabled(events)
            &&& past_credential && needs != ServiceNeeds::Nothing ==> had_credential(events)
        }),
    decreases events.len(),
{
    if events.len() > 0 {
        let before = events.drop_last();
        lemma_phase_history(needs, before);
        if was_enabled(before) {
            let i = choose|i: int| 0 <= i < before.len() && says_enabled(#[trigger] before[i]);
            assert(says_enabled(events[i]));
        }
        if had_credential(before) {
            let i = choose|i: int|
                0 <= i < before.len() && #[trigger] before[i] == (ConnectorEvent::Credential {
                    stored: true,
                });
            assert(events[i] == before[i]);
        }
        assert(events[events.len() - 1] == events.last());
        if says_enabled(events.last()) {
            assert(says_enabled(events[events.len() - 1]));
        }
    }
}

/// A service is called only for an enabled connector, and only with a stored
/// credential where the service needs one.
pub proof fn law_services_are_called_when_ready(needs: ServiceNeeds, events: Seq<ConnectorEvent>)
    requires
        connector_run(needs, events).1 == ConnectorAction::Call,
    ensures
        was_enabled(events),
        needs != ServiceNeeds::Nothing ==> had_credential(events),
{
    lemma_phase_history(needs, events);
}

// Messages

/// The message of a refusal for the connector `id`.
pub open spec fn refusal_text(refusal: ConnectorRefusal, id: Seq<char>) -> Seq<char> {
    match refusal {
        ConnectorRefusal::NotEnabled => "connector "@ + id
            + " is not enabled; enable it and store its credential \u{2014} "@
            + CONNECTOR_RECOVERY_SURFACES@,
        ConnectorRefusal::NoCredential => "connector "@ + id
            + " has no stored credential; store one \u{2014} "@ + CONNECTOR_RECOVERY_SURFACES@,
        ConnectorRefusal::NoBaseUrl => "connector "@ + id
            + " requires a configured base URL; "@ + CONNECTOR_RECOVERY_SURFACES@,
        ConnectorRefusal::Secret(error) => secret_error_text(error),
        ConnectorRefusal::Build(error) => secret_error_text(error),
        ConnectorRefusal::NoContext => {
            "connector invocation context could not be constructed"@
        },
        ConnectorRefusal::NoResult => "connector invocation ended without a result"@,
    }
}

fn with_surfaces(id: &str, problem: &str) -> (message: String)
    ensures
        message@ == "connector "@ + id@ + problem@ + CONNECTOR_RECOVERY_SURFACES@,
{
    let mut message = concat3("connector ", id, problem);
    message.append(CONNECTOR_RECOVERY_SURFACES);
    message
}

/// Explains a refusal to the operator.
pub fn connector_refusal_message(refusal: ConnectorRefusal, id: &str) -> (message: String)
    ensures
        message@ == refusal_text(refusal, id@),
{
    match refusal {
        ConnectorRefusal::NotEnabled => with_surfaces(
            id,
            " is not enabled; enable it and store its credential \u{2014} ",
        ),
        ConnectorRefusal::NoCredential => with_surfaces(
            id,
            " has no stored credential; store one \u{2014} ",
        ),
        ConnectorRefusal::NoBaseUrl => with_surfaces(id, " requires a configured base URL; "),
        ConnectorRefusal::Secret(error) => error.message().to_owned(),
        ConnectorRefusal::Build(error) => error.message().to_owned(),
        ConnectorRefusal::NoContext => {
            "connector invocation context could not be constructed".to_owned()
        },
        ConnectorRefusal::NoResult => "connector invocation ended without a result".to_owned(),
    }
}

/// Reports a failure of the service in its own words.
pub fn service_failure_message(id: &str, kind: &str, detail: &str) -> (message: String)
    ensures
        message@ == "connector "@ + id@ + " failed ("@ + kind@ + "): "@ + detail@,
{
    let mut message = concat3("connector ", id, " failed (");
    message.append(kind);
    message.append("): ");
    message.append(detail);
    message
}

/// Cuts a summary to the longest prefix that an effect may carry.
pub fn bounded_effect_summary(summary: &str, limit: usize) -> (bounded: String)
    ensures
        bounded@ == truncated(summary@, limit as nat),
        utf8_len(bounded@) <= limit,
        utf8_len(summary@) <= limit ==> bounded@ == summary@,
{
    proof {
        lemma_truncated(summary@, limit as nat);
    }
    truncate_text(summary, limit)
}

/// The summary of a call that gave a result, with the reason when the result
/// is only a part.
pub fn call_summary(summary: &str, partial_reason: Option<&str>) -> (text: String)
    ensures
        text@ == match partial_reason {
            Some(reason) => summary@ + "; partial: "@ + reason@,
            None => summary@,
        },
{
    match partial_reason {
        Some(reason) => concat3(summary, "; partial: ", reason),
        None => summary.to_owned(),
    }
}

/// The number, or one where it is none.
pub open spec fn at_least_one(number: int) -> int {
    if number == 0 {
        1
    } else {
        number
    }
}

/// The limits of one invocation: at least a second, and at least the first
/// attempt.
pub fn invocation_bounds(timeout_seconds: u32, attempt: u16) -> (bounds: (u32, u32))
    ensures
        bounds.0 == at_least_one(timeout_seconds as int),
        bounds.1 == at_least_one(attempt as int),
{
    let seconds: u32 = if timeout_seconds == 0 {
        1
    } else {
        timeout_seconds
    };
    let number: u32 = if attempt == 0 {
        1
    } else {
        attempt as u32
    };
    (seconds, number)
}

// Evidence

/// The handle under which command output is retained.
pub open spec fn output_handle(output: Seq<u8>) -> Seq<char> {
    "evidence://flow-output/"@ + hex(sha256_digest(output))
}

/// The handle under which connector output is retained.
pub open spec fn connector_handle(output: Seq<u8>) -> Seq<char> {
    "evidence://connector-output/"@ + hex(sha256_digest(output))
}

/// Names command output by its content.
pub fn flow_output_handle(output: &[u8]) -> (handle: String)
    ensures
        handle@ == output_handle(output@),
{
    let digest = sha256_hex(output);
    concat2("evidence://flow-output/", digest.as_str())
}

/// Names connector output by its content.
pub fn connector_output_handle(output: &[u8]) -> (handle: String)
    ensures
        handle@ == connector_handle(output@),
{
    let digest = sha256_hex(output);
    concat2("evidence://connector-output/", digest.as_str())
}

/// The handles without repetitions, in the order of their first occurrence.
pub open spec fn distinct(handles: Seq<Seq<char>>) -> Seq<Seq<char>>
    decreases handles.len(),
{
    if handles.len() == 0 {
        seq![]
    } else {
        let before = distinct(handles.drop_last());
        if before.contains(handles.last()) {
            before
        } else {
            before.push(handles.last())
        }
    }
}

/// The evidence of an effect: the first distinct handles, as many as it may
/// carry.
pub open spec fn carried(handles: Seq<Seq<char>>) -> Seq<Seq<char>> {
    let all = distinct(handles);
    if all.len() <= MAX_EVIDENCE_HANDLES {
        all
    } else {
        all.take(MAX_EVIDENCE_HANDLES as int)
    }
}

/// Selects the evidence that an effect carries.
pub fn effect_evidence(handles: &Vec<String>) -> (evidence: Vec<String>)
    ensures
        texts(evidence@) == carried(texts(handles@)),
        evidence@.len() <= MAX_EVIDENCE_HANDLES,
{
    let mut all: Vec<String> = Vec::new();
    let ghost given = texts(handles@);
    let mut index: usize = 0;
    assert(texts(all@) =~= distinct(given.take(0)));
    while index < handles.len()
        invariant
            given == texts(handles@),
            index <= handles@.len(),
            texts(all@) == distinct(given.take(index as int)),
        decreases handles@.len() - index,
    {
        proof {
            let next = given.take(index + 1);
            assert(next.drop_last() =~= given.take(index as int));
            assert(next.last() == handles@[index as int]@);
        }
        let known = contains_text(&all, handles[index].as_str());
        proof {
            let handle = handles@[index as int]@;
            if known {
                let i = choose|i: int| 0 <= i < all@.len() && (#[trigger] all@[i])@ == handle;
                assert(texts(all@)[i] == handle);
            }
            if texts(all@).contains(handle) {
                let i = choose|i: int| 0 <= i < texts(all@).len() && texts(all@)[i] == handle;
                assert(all@[i]@ == handle);
            }
        }
        if !known {
            let ghost before = all@;
            all.push(handles[index].clone());
            assert(texts(all@) =~= texts(before).push(handles@[index as int]@));
        }
        index = index + 1;
    }
    assert(given.take(given.len() as int) =~= given);
    let mut evidence: Vec<String> = Vec::new();
    let mut taken: usize = 0;
    assert(texts(evidence@) =~= texts(all@).take(0));
    while taken < all.len() && taken < MAX_EVIDENCE_HANDLES
        invariant
            taken <= all@.len(),
            taken <= MAX_EVIDENCE_HANDLES,
            evidence@.len() == taken,
            texts(evidence@) == texts(all@).take(taken as int),
        decreases all@.len() - taken,
    {
        let ghost before = evidence@;
        evidence.push(all[taken].clone());
        assert(texts(evidence@) =~= texts(before).push(all@[taken as int]@));
        assert(texts(all@).take(taken + 1) =~= texts(all@).take(taken as int).push(
            texts(all@)[taken as int],
        ));
        taken = taken + 1;
    }
    assert(texts(all@).take(texts(all@).len() as int) =~= texts(all@));
    evidence
}

// What a step comes to

/// The event is an answer to the action.
pub open spec fn connector_fits(action: ConnectorAction, event: ConnectorEvent) -> bool {
    match event {
        ConnectorEvent::Record { .. } => action == ConnectorAction::FindRecord,
        ConnectorEvent::Credential { .. } | ConnectorEvent::CredentialFailed(_) => action
            == ConnectorAction::LoadCredential,
        ConnectorEvent::Built | ConnectorEvent::BuildFailed(_) => action == ConnectorAction::Build,
        ConnectorEvent::ContextReady | ConnectorEvent::ContextRefused => action
            == ConnectorAction::MakeContext,
        _ => action == ConnectorAction::Call,
    }
}

/// Every event answers what was asked before it.
pub open spec fn connector_told(needs: ServiceNeeds, events: Seq<ConnectorEvent>) -> bool
    decreases events.len(),
{
    events.len() == 0 || (connector_told(needs, events.drop_last()) && connector_fits(
        connector_run(needs, events.drop_last()).1,
        events.last(),
    ))
}

spec fn connector_waits(phase: ConnectorPhase, action: ConnectorAction) -> bool {
    match phase {
        ConnectorPhase::FindingRecord => action == ConnectorAction::FindRecord,
        ConnectorPhase::LoadingCredential { .. } => action == ConnectorAction::LoadCredential,
        ConnectorPhase::Building => action == ConnectorAction::Build,
        ConnectorPhase::MakingContext => action == ConnectorAction::MakeContext,
        ConnectorPhase::Calling => action == ConnectorAction::Call,
        ConnectorPhase::Done => action is Refuse || action is FailWithService || action
            == ConnectorAction::Succeed || action == ConnectorAction::Cancelled || action
            == ConnectorAction::StaleLease,
    }
}

proof fn lemma_connector_told(needs: ServiceNeeds, events: Seq<ConnectorEvent>)
    requires
        connector_told(needs, events),
    ensures
        connector_waits(connector_run(needs, events).0, connector_run(needs, events).1),
        events.len() == 0 <==> connector_run(needs, events).0 is FindingRecord,
        connector_run(needs, events).0 matches ConnectorPhase::LoadingCredential { has_base_url }
            ==> events.len() == 1 && (events[0] matches ConnectorEvent::Record {
            has_base_url: told,
            ..
        } && told == has_base_url),
    decreases events.len(),
{
    if events.len() > 0 {
        lemma_connector_told(needs, events.drop_last());
    }
}

/// A connector step succeeds exactly where the service answered with a result. A
/// failure of the service fails the step with the service's own word on whether
/// it is worth another try. A cancellation and a lost lease are told as such.
pub proof fn law_steps_succeed_on_a_result_alone(needs: ServiceNeeds, events: Seq<ConnectorEvent>)
    requires
        connector_told(needs, events),
        events.len() > 0,
    ensures
        ({
            let next = connector_run(needs, events).1;
            let last = events.last();
            &&& next == ConnectorAction::Succeed <==> last == ConnectorEvent::Succeeded
            &&& last matches ConnectorEvent::ServiceFailed { retryable } ==> next == (
            ConnectorAction::FailWithService { retryable })
            &&& next matches ConnectorAction::FailWithService { retryable } ==> last == (
            ConnectorEvent::ServiceFailed { retryable })
            &&& next == ConnectorAction::Cancelled <==> last == ConnectorEvent::Cancelled
            &&& next == ConnectorAction::StaleLease <==> last == ConnectorEvent::StaleLease
            &&& next != ConnectorAction::Ignore
        }),
{
    lemma_connector_told(needs, events.drop_last());
}

/// A step is refused for what is missing, and for nothing else: a connector that
/// is not there or not enabled, a credential or an address that the service
/// needs, a credential store that fails, a client or a context that cannot be
/// made, a call without an answer. Only the credential store is worth another
/// try.
pub proof fn law_refusals_name_what_is_missing(
    needs: ServiceNeeds,
    events: Seq<ConnectorEvent>,
    refusal: ConnectorRefusal,
)
    requires
        connector_told(needs, events),
        events.len() > 0,
    ensures
        ({
            let next = connector_run(needs, events).1;
            let has_base_url = events[0] matches ConnectorEvent::Record { has_base_url, .. }
                && has_base_url;
            let lacks_credential = events.last() == (ConnectorEvent::Credential { stored: false })
                && needs != ServiceNeeds::Nothing;
            let refuses = next matches ConnectorAction::Refuse { refusal: told, .. } && told
                == refusal;
            &&& next matches ConnectorAction::Refuse { refusal: told, retryable } ==> (retryable
                <==> told is Secret)
            &&& match refusal {
                ConnectorRefusal::NotEnabled => refuses <==> (events.last()
                    matches ConnectorEvent::Record { found, enabled, .. } && !(found && enabled)),
                ConnectorRefusal::NoCredential => refuses <==> lacks_credential,
                ConnectorRefusal::NoBaseUrl => refuses <==> events.last() is Credential
                    && !lacks_credential && needs == ServiceNeeds::CredentialAndBaseUrl
                    && !has_base_url,
                ConnectorRefusal::Secret(error) => refuses <==> events.last()
                    == ConnectorEvent::CredentialFailed(error),
                ConnectorRefusal::Build(error) => refuses <==> events.last()
                    == ConnectorEvent::BuildFailed(error),
                ConnectorRefusal::NoContext => refuses <==> events.last()
                    == ConnectorEvent::ContextRefused,
                ConnectorRefusal::NoResult => refuses <==> events.last()
                    == ConnectorEvent::NoResult,
            }
        }),
{
    let before = events.drop_last();
    lemma_connector_told(needs, before);
    if before.len() > 0 {
        assert(before[0] == events[0]);
    }
}

/// A step that nothing hinders goes on: from the record to the credential, from
/// there to the client, to the context, and to the call.
pub proof fn law_ready_steps_reach_the_service(needs: ServiceNeeds, events: Seq<ConnectorEvent>)
    requires
        connector_told(needs, events),
    ensures
        events.len() == 0 ==> connector_run(needs, events).1 == ConnectorAction::FindRecord,
        events.len() > 0 ==> {
            let next = connector_run(needs, events).1;
            &&& next == ConnectorAction::LoadCredential <==> says_enabled(events.last())
            &&& next == ConnectorAction::Build <==> {
                &&& events.last() is Credential
                &&& needs != ServiceNeeds::Nothing ==> events.last() == (
                ConnectorEvent::Credential { stored: true })
                &&& needs == ServiceNeeds::CredentialAndBaseUrl ==> (events[0]
                    matches ConnectorEvent::Record { has_base_url, .. } && has_base_url)
            }
            &&& next == ConnectorAction::MakeContext <==> events.last() == ConnectorEvent::Built
            &&& next == ConnectorAction::Call <==> events.last() == ConnectorEvent::ContextReady
        },
{
    if events.len() > 0 {
        let before = events.drop_last();
        lemma_connector_told(needs, before);
        if before.len() > 0 {
            assert(before[0] == events[0]);
        }
    }
}

/// GitHub has an address of its own and needs a credential alone; AWS needs
/// neither; every other service needs both.
pub proof fn law_services_need_what_they_lack(service: Service)
    ensures
        needs_of(service) == ServiceNeeds::Credential <==> service == Service::GitHub,
        needs_of(service) == ServiceNeeds::Nothing <==> service == Service::Aws,
{
}

proof fn lemma_distinct(handles: Seq<Seq<char>>)
    ensures
        distinct(handles).len() <= handles.len(),
        distinct(handles).no_duplicates(),
        forall|handle: Seq<char>| #[trigger]
            distinct(handles).contains(handle) <==> handles.contains(handle),
        handles.len() > 0 ==> distinct(handles).len() > 0 && distinct(handles)[0] == handles[0],
    decreases handles.len(),
{
    if handles.len() > 0 {
        let before = handles.drop_last();
        let kept = distinct(before);
        lemma_distinct(before);
        assert forall|handle: Seq<char>| #[trigger] distinct(handles).contains(handle)
            <==> handles.contains(handle) by {
            if handles.contains(handle) {
                let i = choose|i: int| 0 <= i < handles.len() && handles[i] == handle;
                if i < before.len() {
                    assert(before[i] == handle);
                    assert(kept.contains(handle));
                    let k = choose|k: int| 0 <= k < kept.len() && kept[k] == handle;
                    assert(distinct(handles)[k] == handle);
                } else if !kept.contains(handle) {
                    assert(distinct(handles)[kept.len() as int] == handle);
                }
            }
            if distinct(handles).contains(handle) {
                let k = choose|k: int|
                    0 <= k < distinct(handles).len() && distinct(handles)[k] == handle;
                if k < kept.len() {
                    assert(kept.contains(handle));
                    let i = choose|i: int| 0 <= i < before.len() && before[i] == handle;
                    assert(handles[i] == handle);
                } else {
                    assert(handles[handles.len() - 1] == handle);
                }
            }
        }
    }
}

/// An effect carries handles that it was given, each once, the first one first,
/// and never more than four; where there are not more, it carries them all.
pub proof fn law_effects_carry_their_evidence(handles: Seq<Seq<char>>, handle: Seq<char>)
    ensures
        carried(handles).len() <= 4,
        carried(handles).no_duplicates(),
        carried(handles).contains(handle) ==> handles.contains(handle),
        carried(handles).len() < 4 && handles.contains(handle) ==> carried(handles).contains(
            handle,
        ),
        handles.len() > 0 ==> carried(handles).len() > 0 && carried(handles)[0] == handles[0],
{
    lemma_distinct(handles);
    let all = distinct(handles);
    if carried(handles).contains(handle) {
        let i = choose|i: int| 0 <= i < carried(handles).len() && carried(handles)[i] == handle;
        assert(all[i] == handle);
        assert(all.contains(handle));
    }
}

/// Outputs are kept under handles that name them by content: what a command
/// wrote is never mistaken for what a connector returned.
pub proof fn law_handles_tell_outputs_apart(output: Seq<u8>, other: Seq<u8>)
    ensures
        output_handle(output) != connector_handle(other),
        sha256_digest(output) == sha256_digest(other) ==> output_handle(output) == output_handle(
            other,
        ) && connector_handle(output) == connector_handle(other),
        has_prefix(output_handle(output), "evidence://flow-output/"@),
        has_prefix(connector_handle(output), "evidence://connector-output/"@),
{
    reveal_strlit("evidence://flow-output/");
    reveal_strlit("evidence://connector-output/");
    let left = output_handle(output);
    let right = connector_handle(other);
    assert(left[11] == 'f' && right[11] == 'c');
    assert(left.take(23) =~= "evidence://flow-output/"@);
    assert(connector_handle(output).take(28) =~= "evidence://connector-output/"@);
}

/// What did not come of what was asked is passed over and changes nothing, and
/// once a step is over it is not taken up again.
pub proof fn law_stray_answers_are_passed_over(
    needs: ServiceNeeds,
    events: Seq<ConnectorEvent>,
    event: ConnectorEvent,
)
    requires
        connector_told(needs, events),
        !connector_fits(connector_run(needs, events).1, event),
    ensures
        connector_run(needs, events.push(event)).1 == ConnectorAction::Ignore,
        connector_run(needs, events.push(event)).0 == connector_run(needs, events).0,
{
    lemma_connector_told(needs, events);
    assert(events.push(event).drop_last() =~= events);
}

/// What is missing is told of the connector by its name, and a credential that
/// cannot be used in the credential's own words, whoever found out.
pub proof fn law_refused_steps_name_their_connector(
    id: Seq<char>,
    error: ConnectorSecretError,
)
    ensures
        refusal_text(ConnectorRefusal::NotEnabled, id) == "connector "@ + id
            + " is not enabled; enable it and store its credential \u{2014} "@
            + CONNECTOR_RECOVERY_SURFACES@,
        refusal_text(ConnectorRefusal::NoCredential, id) == "connector "@ + id
            + " has no stored credential; store one \u{2014} "@ + CONNECTOR_RECOVERY_SURFACES@,
        refusal_text(ConnectorRefusal::NoBaseUrl, id) == "connector "@ + id
            + " requires a configured base URL; "@ + CONNECTOR_RECOVERY_SURFACES@,
        refusal_text(ConnectorRefusal::Secret(error), id) == secret_error_text(error),
        refusal_text(ConnectorRefusal::Build(error), id) == secret_error_text(error),
        refusal_text(ConnectorRefusal::NoContext, id)
            == "connector invocation context could not be constructed"@,
        refusal_text(ConnectorRefusal::NoResult, id)
            == "connector invocation ended without a result"@,
{
}

/// A call has the time and the number that it is given, and at least a second and
/// the first number.
pub proof fn law_calls_have_time(number: int)
    requires
        0 <= number,
    ensures
        at_least_one(number) >= 1,
        number >= 1 ==> at_least_one(number) == number,
        at_least_one(0) == 1,
{
}

} // verus!
