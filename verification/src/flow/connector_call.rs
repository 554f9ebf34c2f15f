//! Which connector call a flow step asks for.

use vstd::prelude::*;

use super::connector_step::MAX_EVIDENCE_HANDLES;
use super::definition::PreparedConnectorStep;
use crate::connectors::{
    AWS, CONFLUENCE, GITHUB_ACTIONS, JENKINS, JIRA, SHAREPOINT, SONARQUBE,
};
use crate::numbers::{law_numbers_are_read_back, read_number, signed_number};
use crate::protocol::optional_text;
use crate::split::{just, lemma_span_before, lemma_span_is, span_before};
use crate::text::{
    chars_of, concat3, concat5, decimal, is_ascii_digit_char, lemma_decimal_digits, same_text,
    text_of,
};

verus! {

/// The most items that one discovery call returns.
pub const CONNECTOR_DISCOVER_LIMIT: usize = 20;

/// The most job logs that one collection call returns. With the response itself
/// they stay inside the number of evidence handles that an effect may carry.
pub const CONNECTOR_COLLECT_MAX_JOBS: usize = 3;

/// The most bytes of one collected log.
pub const CONNECTOR_COLLECT_MAX_LOG_BYTES: usize = 1_048_576;

/// The most bytes of all logs of one collection.
pub const CONNECTOR_COLLECT_MAX_TOTAL_LOG_BYTES: usize = 3_145_728;

/// Where an operator sets a connector up.
pub const CONNECTOR_RECOVERY_SURFACES: &'static str =
    "use the pam connector CLI or the GUI Connectors surface, then retry the flow";

/// The services that a flow step can call.
#[derive(Clone, Copy, Debug, PartialEq, Eq, Structural)]
pub enum Service {
    GitHub,
    Jenkins,
    Sonar,
    Jira,
    Confluence,
    SharePoint,
    Aws,
}

/// The calls that a flow step can make.
#[derive(Clone, Copy, Debug, PartialEq, Eq, Structural)]
pub enum ConnectorCapability {
    GitHubDiscover,
    GitHubCollectLogs,
    JenkinsDiscoverJobs,
    JenkinsDiscoverBuilds,
    JenkinsCollectLog,
    SonarFetchGate,
    SonarDiscoverIssues,
    JiraDiscoverIssues,
    JiraCollectIssue,
    ConfluenceDiscoverPages,
    ConfluenceCollectPage,
    SharePointDiscoverDocuments,
    SharePointDiscoverLists,
    AwsDiscoverCommands,
    AwsCollectCommand,
}

pub open spec fn service_id(service: Service) -> Seq<char> {
    match service {
        Service::GitHub => GITHUB_ACTIONS@,
        Service::Jenkins => JENKINS@,
        Service::Sonar => SONARQUBE@,
        Service::Jira => JIRA@,
        Service::Confluence => CONFLUENCE@,
        Service::SharePoint => SHAREPOINT@,
        Service::Aws => AWS@,
    }
}

proof fn lemma_service_ids_differ(left: Service, right: Service)
    requires
        service_id(left) == service_id(right),
    ensures
        left == right,
{
    reveal_strlit("github-actions");
    reveal_strlit("jenkins");
    reveal_strlit("sonarqube");
    reveal_strlit("jira");
    reveal_strlit("confluence");
    reveal_strlit("sharepoint");
    reveal_strlit("aws");
    assert(GITHUB_ACTIONS@.len() == 14);
    assert(JENKINS@.len() == 7);
    assert(SONARQUBE@.len() == 9);
    assert(JIRA@.len() == 4);
    assert(AWS@.len() == 3);
    assert(CONFLUENCE@.len() == 10 && CONFLUENCE@[0] == 'c');
    assert(SHAREPOINT@.len() == 10 && SHAREPOINT@[0] == 's');
}

/// The service behind a connector identity.
pub fn service_of(connector: &str) -> (service: Option<Service>)
    ensures
        match service {
            Some(found) => service_id(found) == connector@,
            None => forall|other: Service| #[trigger] service_id(other) != connector@,
        },
{
    if same_text(connector, GITHUB_ACTIONS) {
        Some(Service::GitHub)
    } else if same_text(connector, JENKINS) {
        Some(Service::Jenkins)
    } else if same_text(connector, SONARQUBE) {
        Some(Service::Sonar)
    } else if same_text(connector, JIRA) {
        Some(Service::Jira)
    } else if same_text(connector, CONFLUENCE) {
        Some(Service::Confluence)
    } else if same_text(connector, SHAREPOINT) {
        Some(Service::SharePoint)
    } else if same_text(connector, AWS) {
        Some(Service::Aws)
    } else {
        None
    }
}

pub open spec fn service_for(capability: ConnectorCapability) -> Service {
    match capability {
        ConnectorCapability::GitHubDiscover | ConnectorCapability::GitHubCollectLogs => {
            Service::GitHub
        },
        ConnectorCapability::JenkinsDiscoverJobs | ConnectorCapability::JenkinsDiscoverBuilds
        | ConnectorCapability::JenkinsCollectLog => Service::Jenkins,
        ConnectorCapability::SonarFetchGate | ConnectorCapability::SonarDiscoverIssues => {
            Service::Sonar
        },
        ConnectorCapability::JiraDiscoverIssues | ConnectorCapability::JiraCollectIssue => {
            Service::Jira
        },
        ConnectorCapability::ConfluenceDiscoverPages
        | ConnectorCapability::ConfluenceCollectPage => Service::Confluence,
        ConnectorCapability::SharePointDiscoverDocuments
        | ConnectorCapability::SharePointDiscoverLists => Service::SharePoint,
        ConnectorCapability::AwsDiscoverCommands | ConnectorCapability::AwsCollectCommand => {
            Service::Aws
        },
    }
}

/// The name of a capability in a flow definition.
pub open spec fn capability_name(capability: ConnectorCapability) -> Seq<char> {
    match capability {
        ConnectorCapability::GitHubDiscover => "runs.discover-failed"@,
        ConnectorCapability::GitHubCollectLogs => "runs.collect-logs"@,
        ConnectorCapability::JenkinsDiscoverJobs => "jobs.discover"@,
        ConnectorCapability::JenkinsDiscoverBuilds => "builds.discover"@,
        ConnectorCapability::JenkinsCollectLog => "builds.collect-log"@,
        ConnectorCapability::SonarFetchGate => "gate.inspect"@,
        ConnectorCapability::SonarDiscoverIssues => "issues.discover"@,
        ConnectorCapability::JiraDiscoverIssues => "issues.discover"@,
        ConnectorCapability::JiraCollectIssue => "issues.collect"@,
        ConnectorCapability::ConfluenceDiscoverPages => "pages.discover"@,
        ConnectorCapability::ConfluenceCollectPage => "pages.collect"@,
        ConnectorCapability::SharePointDiscoverDocuments => "documents.discover"@,
        ConnectorCapability::SharePointDiscoverLists => "lists.discover"@,
        ConnectorCapability::AwsDiscoverCommands => "commands.discover"@,
        ConnectorCapability::AwsCollectCommand => "commands.collect"@,
    }
}

impl ConnectorCapability {
    pub fn name(self) -> (name: &'static str)
        ensures
            name@ == capability_name(self),
    {
        match self {
            ConnectorCapability::GitHubDiscover => "runs.discover-failed",
            ConnectorCapability::GitHubCollectLogs => "runs.collect-logs",
            ConnectorCapability::JenkinsDiscoverJobs => "jobs.discover",
            ConnectorCapability::JenkinsDiscoverBuilds => "builds.discover",
            ConnectorCapability::JenkinsCollectLog => "builds.collect-log",
            ConnectorCapability::SonarFetchGate => "gate.inspect",
            ConnectorCapability::SonarDiscoverIssues => "issues.discover",
            ConnectorCapability::JiraDiscoverIssues => "issues.discover",
            ConnectorCapability::JiraCollectIssue => "issues.collect",
            ConnectorCapability::ConfluenceDiscoverPages => "pages.discover",
            ConnectorCapability::ConfluenceCollectPage => "pages.collect",
            ConnectorCapability::SharePointDiscoverDocuments => "documents.discover",
            ConnectorCapability::SharePointDiscoverLists => "lists.discover",
            ConnectorCapability::AwsDiscoverCommands => "commands.discover",
            ConnectorCapability::AwsCollectCommand => "commands.collect",
        }
    }
}

/// The capabilities of a service, in the order in which they are tried.
pub open spec fn capabilities_of(service: Service) -> Seq<ConnectorCapability> {
    match service {
        Service::GitHub => seq![
            ConnectorCapability::GitHubDiscover,
            ConnectorCapability::GitHubCollectLogs,
        ],
        Service::Jenkins => seq![
            ConnectorCapability::JenkinsDiscoverJobs,
            ConnectorCapability::JenkinsDiscoverBuilds,
            ConnectorCapability::JenkinsCollectLog,
        ],
        Service::Sonar => seq![
            ConnectorCapability::SonarFetchGate,
            ConnectorCapability::SonarDiscoverIssues,
        ],
        Service::Jira => seq![
            ConnectorCapability::JiraDiscoverIssues,
            ConnectorCapability::JiraCollectIssue,
        ],
        Service::Confluence => seq![
            ConnectorCapability::ConfluenceDiscoverPages,
            ConnectorCapability::ConfluenceCollectPage,
        ],
        Service::SharePoint => seq![
            ConnectorCapability::SharePointDiscoverDocuments,
            ConnectorCapability::SharePointDiscoverLists,
        ],
        Service::Aws => seq![
            ConnectorCapability::AwsDiscoverCommands,
            ConnectorCapability::AwsCollectCommand,
        ],
    }
}

fn list_capabilities(service: Service) -> (list: Vec<ConnectorCapability>)
    ensures
        list@ == capabilities_of(service),
{
    let list: Vec<ConnectorCapability> = match service {
        Service::GitHub => vec![
            ConnectorCapability::GitHubDiscover,
            ConnectorCapability::GitHubCollectLogs,
        ],
        Service::Jenkins => vec![
            ConnectorCapability::JenkinsDiscoverJobs,
            ConnectorCapability::JenkinsDiscoverBuilds,
            ConnectorCapability::JenkinsCollectLog,
        ],
        Service::Sonar => vec![
            ConnectorCapability::SonarFetchGate,
            ConnectorCapability::SonarDiscoverIssues,
        ],
        Service::Jira => vec![
            ConnectorCapability::JiraDiscoverIssues,
            ConnectorCapability::JiraCollectIssue,
        ],
        Service::Confluence => vec![
            ConnectorCapability::ConfluenceDiscoverPages,
            ConnectorCapability::ConfluenceCollectPage,
        ],
        Service::SharePoint => vec![
            ConnectorCapability::SharePointDiscoverDocuments,
            ConnectorCapability::SharePointDiscoverLists,
        ],
        Service::Aws => vec![
            ConnectorCapability::AwsDiscoverCommands,
            ConnectorCapability::AwsCollectCommand,
        ],
    };
    assert(list@ =~= capabilities_of(service));
    list
}

/// The kind of resource that a capability works on.
pub open spec fn resource_kind_for(capability: ConnectorCapability) -> Seq<char> {
    match capability {
        ConnectorCapability::GitHubDiscover => "repository"@,
        ConnectorCapability::GitHubCollectLogs => "run"@,
        ConnectorCapability::JenkinsDiscoverJobs => "server"@,
        ConnectorCapability::JenkinsDiscoverBuilds => "job"@,
        ConnectorCapability::JenkinsCollectLog => "build"@,
        ConnectorCapability::SonarFetchGate | ConnectorCapability::SonarDiscoverIssues
        | ConnectorCapability::JiraDiscoverIssues
        | ConnectorCapability::ConfluenceDiscoverPages => "project"@,
        ConnectorCapability::JiraCollectIssue => "issue"@,
        ConnectorCapability::ConfluenceCollectPage => "page"@,
        ConnectorCapability::SharePointDiscoverDocuments
        | ConnectorCapability::SharePointDiscoverLists => "site"@,
        ConnectorCapability::AwsDiscoverCommands | ConnectorCapability::AwsCollectCommand => {
            "command"@
        },
    }
}

fn required_kind(capability: ConnectorCapability) -> (kind: &'static str)
    ensures
        kind@ == resource_kind_for(capability),
{
    match capability {
        ConnectorCapability::GitHubDiscover => "repository",
        ConnectorCapability::GitHubCollectLogs => "run",
        ConnectorCapability::JenkinsDiscoverJobs => "server",
        ConnectorCapability::JenkinsDiscoverBuilds => "job",
        ConnectorCapability::JenkinsCollectLog => "build",
        ConnectorCapability::SonarFetchGate | ConnectorCapability::SonarDiscoverIssues
        | ConnectorCapability::JiraDiscoverIssues
        | ConnectorCapability::ConfluenceDiscoverPages => "project",
        ConnectorCapability::JiraCollectIssue => "issue",
        ConnectorCapability::ConfluenceCollectPage => "page",
        ConnectorCapability::SharePointDiscoverDocuments
        | ConnectorCapability::SharePointDiscoverLists => "site",
        ConnectorCapability::AwsDiscoverCommands | ConnectorCapability::AwsCollectCommand => {
            "command"
        },
    }
}

/// What the resource of a capability has to hold.
pub open spec fn holding_text(capability: ConnectorCapability) -> Seq<char> {
    match capability {
        ConnectorCapability::GitHubDiscover => " holding OWNER/REPOSITORY"@,
        ConnectorCapability::GitHubCollectLogs => " holding OWNER/REPOSITORY/RUN_ID"@,
        ConnectorCapability::JenkinsDiscoverJobs => ""@,
        ConnectorCapability::JenkinsDiscoverBuilds => " holding a Jenkins job path"@,
        ConnectorCapability::JenkinsCollectLog => " holding JOB_PATH/BUILD_NUMBER"@,
        ConnectorCapability::SonarFetchGate | ConnectorCapability::SonarDiscoverIssues => {
            " holding a SonarQube project key"@
        },
        ConnectorCapability::JiraDiscoverIssues => " holding a Jira project key"@,
        ConnectorCapability::JiraCollectIssue => " holding a Jira issue key"@,
        ConnectorCapability::ConfluenceDiscoverPages => " holding a Confluence space key"@,
        ConnectorCapability::ConfluenceCollectPage => " holding a Confluence page id"@,
        ConnectorCapability::SharePointDiscoverDocuments
        | ConnectorCapability::SharePointDiscoverLists => {
            " holding a Microsoft Graph site id"@
        },
        ConnectorCapability::AwsDiscoverCommands => ""@,
        ConnectorCapability::AwsCollectCommand => {
            " holding an allowlisted SERVICE.COMMAND pair"@
        },
    }
}

fn holding(capability: ConnectorCapability) -> (text: &'static str)
    ensures
        text@ == holding_text(capability),
{
    match capability {
        ConnectorCapability::GitHubDiscover => " holding OWNER/REPOSITORY",
        ConnectorCapability::GitHubCollectLogs => " holding OWNER/REPOSITORY/RUN_ID",
        ConnectorCapability::JenkinsDiscoverJobs => "",
        ConnectorCapability::JenkinsDiscoverBuilds => " holding a Jenkins job path",
        ConnectorCapability::JenkinsCollectLog => " holding JOB_PATH/BUILD_NUMBER",
        ConnectorCapability::SonarFetchGate | ConnectorCapability::SonarDiscoverIssues => {
            " holding a SonarQube project key"
        },
        ConnectorCapability::JiraDiscoverIssues => " holding a Jira project key",
        ConnectorCapability::JiraCollectIssue => " holding a Jira issue key",
        ConnectorCapability::ConfluenceDiscoverPages => " holding a Confluence space key",
        ConnectorCapability::ConfluenceCollectPage => " holding a Confluence page id",
        ConnectorCapability::SharePointDiscoverDocuments
        | ConnectorCapability::SharePointDiscoverLists => " holding a Microsoft Graph site id",
        ConnectorCapability::AwsDiscoverCommands => "",
        ConnectorCapability::AwsCollectCommand => " holding an allowlisted SERVICE.COMMAND pair",
    }
}

/// The message for a resource that a capability cannot work on.
pub open spec fn requirement_message(capability: ConnectorCapability) -> Seq<char> {
    "connector capability "@ + capability_name(capability) + " requires a resource of kind "@
        + resource_kind_for(capability) + holding_text(capability)
}

fn requirement(capability: ConnectorCapability) -> (message: String)
    ensures
        message@ == requirement_message(capability),
{
    concat5(
        "connector capability ",
        capability.name(),
        " requires a resource of kind ",
        required_kind(capability),
        holding(capability),
    )
}

/// The capabilities that a service offers, in words.
pub open spec fn supported_text(service: Service) -> Seq<char> {
    let offered = capabilities_of(service);
    if offered.len() == 3 {
        capability_name(offered[0]) + ", "@ + capability_name(offered[1]) + ", and "@
            + capability_name(offered[2])
    } else {
        capability_name(offered[0]) + " and "@ + capability_name(offered[1])
    }
}

/// The message for a capability that a service does not have.
pub open spec fn unsupported_message(service: Service, name: Seq<char>) -> Seq<char> {
    "connector capability "@ + name
        + " is not executable; supported read-only capabilities are "@ + supported_text(service)
}

fn unsupported(service: Service, name: &str) -> (message: String)
    ensures
        message@ == unsupported_message(service, name@),
{
    let offered = list_capabilities(service);
    let supported = if offered.len() == 3 {
        concat5(
            offered[0].name(),
            ", ",
            offered[1].name(),
            ", and ",
            offered[2].name(),
        )
    } else {
        concat3(offered[0].name(), " and ", offered[1].name())
    };
    let mut message = concat3(
        "connector capability ",
        name,
        " is not executable; supported read-only capabilities are ",
    );
    message.append(supported.as_str());
    message
}

// Targets

/// What a call works on.
pub enum CallTarget {
    /// The service itself.
    Service,
    /// The resource as it is named.
    Named(String),
    /// One numbered item below a named resource.
    Numbered { base: String, number: u64 },
    /// A pair of names.
    Pair { first: String, second: String },
}

/// What a call works on, in texts.
pub enum TargetText {
    Service,
    Named(Seq<char>),
    Numbered { base: Seq<char>, number: u64 },
    Pair { first: Seq<char>, second: Seq<char> },
}

impl View for CallTarget {
    type V = TargetText;

    open spec fn view(&self) -> TargetText {
        match *self {
            CallTarget::Service => TargetText::Service,
            CallTarget::Named(name) => TargetText::Named(name@),
            CallTarget::Numbered { base, number } => TargetText::Numbered { base: base@, number },
            CallTarget::Pair { first, second } => TargetText::Pair {
                first: first@,
                second: second@,
            },
        }
    }
}

/// The last position of `wanted` in `text`, or -1.
pub open spec fn last_position(text: Seq<char>, wanted: char) -> int
    decreases text.len(),
{
    if text.len() == 0 {
        -1
    } else if text.last() == wanted {
        text.len() - 1
    } else {
        last_position(text.drop_last(), wanted)
    }
}

/// The first position of `wanted` in `text`, or -1.
pub open spec fn first_position(text: Seq<char>, wanted: char) -> int {
    let span = span_before(text, just(wanted));
    if span < text.len() {
        span as int
    } else {
        -1
    }
}

/// The base and number of a resource that ends in `/NUMBER`.
pub open spec fn numbered_target(id: Seq<char>) -> Option<TargetText> {
    let at = last_position(id, '/');
    if at < 0 {
        None
    } else {
        match signed_number(id.skip(at + 1)) {
            Some(number) => Some(TargetText::Numbered { base: id.take(at), number }),
            None => None,
        }
    }
}

/// The two halves of a resource that holds a dot.
pub open spec fn pair_target(id: Seq<char>) -> Option<TargetText> {
    let at = first_position(id, '.');
    if at < 0 {
        None
    } else {
        Some(TargetText::Pair { first: id.take(at), second: id.skip(at + 1) })
    }
}

/// What a capability works on in the resource `id`.
pub open spec fn target_of(capability: ConnectorCapability, id: Seq<char>) -> Option<TargetText> {
    match capability {
        ConnectorCapability::JenkinsDiscoverJobs | ConnectorCapability::AwsDiscoverCommands => {
            Some(TargetText::Service)
        },
        ConnectorCapability::GitHubCollectLogs | ConnectorCapability::JenkinsCollectLog => {
            numbered_target(id)
        },
        ConnectorCapability::AwsCollectCommand => pair_target(id),
        _ => Some(TargetText::Named(id)),
    }
}

fn split_numbered(id: &str) -> (target: Option<CallTarget>)
    ensures
        match (target, numbered_target(id@)) {
            (Some(found), Some(expected)) => found@ == expected,
            (None, None) => true,
            _ => false,
        },
{
    let characters = chars_of(id);
    let mut at: usize = characters.len();
    assert(id@.take(id@.len() as int) =~= id@);
    while at > 0
        invariant
            characters@ == id@,
            at <= characters@.len(),
            last_position(id@.take(at as int), '/') == last_position(id@, '/'),
        decreases at,
    {
        proof {
            let part = id@.take(at as int);
            assert(part.drop_last() =~= id@.take(at - 1));
            assert(part.last() == id@[at - 1]);
        }
        if characters[at - 1] == '/' {
            let base = text_of(&characters, 0, at - 1);
            let rest = text_of(&characters, at, characters.len());
            assert(base@ =~= id@.take(at - 1));
            assert(rest@ =~= id@.skip(at as int));
            return match read_number(rest.as_str()) {
                Some(number) => Some(CallTarget::Numbered { base, number }),
                None => None,
            };
        }
        at = at - 1;
    }
    None
}

fn split_pair(id: &str) -> (target: Option<CallTarget>)
    ensures
        match (target, pair_target(id@)) {
            (Some(found), Some(expected)) => found@ == expected,
            (None, None) => true,
            _ => false,
        },
{
    let characters = chars_of(id);
    let mut at: usize = 0;
    while at < characters.len() && characters[at] != '.'
        invariant
            at <= characters@.len(),
            forall|i: int| 0 <= i < at ==> !just('.')(#[trigger] characters@[i]),
        decreases characters@.len() - at,
    {
        at = at + 1;
    }
    proof {
        lemma_span_is(id@, just('.'), at as int);
    }
    if at == characters.len() {
        return None;
    }
    let first = text_of(&characters, 0, at);
    let second = text_of(&characters, at + 1, characters.len());
    assert(first@ =~= id@.take(at as int));
    assert(second@ =~= id@.skip(at + 1));
    Some(CallTarget::Pair { first, second })
}

// Planning

/// A connector call before the service's own checks of its coordinates.
pub struct ConnectorCall {
    pub capability: ConnectorCapability,
    pub target: CallTarget,
}

/// The capability of `service` that is called `name`.
pub open spec fn named_capability(service: Service, name: Seq<char>) -> Option<
    ConnectorCapability,
> {
    let offered = capabilities_of(service);
    if name == capability_name(offered[0]) {
        Some(offered[0])
    } else if name == capability_name(offered[1]) {
        Some(offered[1])
    } else if offered.len() == 3 && name == capability_name(offered[2]) {
        Some(offered[2])
    } else {
        None
    }
}

/// The call that a step asks for, or the message that explains why there is
/// none.
pub open spec fn planned_call(service: Service, step: PreparedConnectorStep) -> Result<
    (ConnectorCapability, TargetText),
    Seq<char>,
> {
    match named_capability(service, step.capability@) {
        None => Err(unsupported_message(service, step.capability@)),
        Some(capability) => if step.resource_kind@ != resource_kind_for(capability) {
            Err(requirement_message(capability))
        } else {
            match target_of(capability, step.resource_id@) {
                Some(target) => Ok((capability, target)),
                None => Err(requirement_message(capability)),
            }
        },
    }
}

/// Plans the call of a step on a known service.
pub fn plan_service_call(service: Service, step: &PreparedConnectorStep) -> (result: Result<
    ConnectorCall,
    String,
>)
    ensures
        match (result, planned_call(service, *step)) {
            (Ok(call), Ok((capability, target))) => call.capability == capability
                && call.target@ == target,
            (Err(message), Err(expected)) => message@ == expected,
            _ => false,
        },
        result matches Ok(call) ==> service_for(call.capability) == service,
{
    let offered = list_capabilities(service);
    let name = step.capability.as_str();
    let capability = if same_text(name, offered[0].name()) {
        offered[0]
    } else if same_text(name, offered[1].name()) {
        offered[1]
    } else if offered.len() == 3 && same_text(name, offered[2].name()) {
        offered[2]
    } else {
        return Err(unsupported(service, name));
    };
    if !same_text(step.resource_kind.as_str(), required_kind(capability)) {
        return Err(requirement(capability));
    }
    let target = match capability {
        ConnectorCapability::JenkinsDiscoverJobs | ConnectorCapability::AwsDiscoverCommands => {
            Some(CallTarget::Service)
        },
        ConnectorCapability::GitHubCollectLogs | ConnectorCapability::JenkinsCollectLog => {
            split_numbered(step.resource_id.as_str())
        },
        ConnectorCapability::AwsCollectCommand => split_pair(step.resource_id.as_str()),
        _ => Some(CallTarget::Named(step.resource_id.clone())),
    };
    match target {
        Some(target) => Ok(ConnectorCall { capability, target }),
        None => Err(requirement(capability)),
    }
}

/// The message for a connector that the daemon does not know.
pub open spec fn unknown_connector_message(connector: Seq<char>) -> Seq<char> {
    "connector "@ + connector + " is not built into this daemon; "@
        + CONNECTOR_RECOVERY_SURFACES@
}

/// Plans the call of a step, whatever connector it names.
pub fn plan_connector_call(step: &PreparedConnectorStep) -> (result: Result<ConnectorCall, String>)
    ensures
        (forall|service: Service| #[trigger] service_id(service) != step.connector@) ==> (
        result matches Err(message) && message@ == unknown_connector_message(step.connector@)),
        forall|service: Service| #[trigger]
            service_id(service) == step.connector@ ==> match (
                result,
                planned_call(service, *step),
            ) {
                (Ok(call), Ok((capability, target))) => call.capability == capability
                    && call.target@ == target && service_for(capability) == service,
                (Err(message), Err(expected)) => message@ == expected,
                _ => false,
            },
{
    match service_of(step.connector.as_str()) {
        Some(service) => {
            proof {
                assert forall|other: Service| #[trigger]
                    service_id(other) == step.connector@ implies other == service by {
                    lemma_service_ids_differ(other, service);
                }
            }
            plan_service_call(service, step)
        },
        None => {
            let mut message = concat3(
                "connector ",
                step.connector.as_str(),
                " is not built into this daemon; ",
            );
            message.append(CONNECTOR_RECOVERY_SURFACES);
            Err(message)
        },
    }
}

// Refusals of the services

/// What a service refused about a planned call.
#[derive(Clone, Copy, Debug, PartialEq, Eq, Structural)]
pub enum CallRefusal {
    /// The resource does not parse as a coordinate of the service.
    Coordinate,
    /// The search query is not accepted.
    Query,
    /// The limits or arguments are not accepted.
    Bounds,
}

/// What a coordinate of the capability is called.
pub open spec fn coordinate_noun(capability: ConnectorCapability) -> Option<Seq<char>> {
    match capability {
        ConnectorCapability::GitHubDiscover => Some("OWNER/REPOSITORY coordinate"@),
        ConnectorCapability::JenkinsDiscoverBuilds => Some("Jenkins job path"@),
        ConnectorCapability::SonarFetchGate | ConnectorCapability::SonarDiscoverIssues => Some(
            "SonarQube project key"@,
        ),
        ConnectorCapability::JiraDiscoverIssues => Some("Jira project key"@),
        ConnectorCapability::JiraCollectIssue => Some("Jira issue key"@),
        ConnectorCapability::ConfluenceDiscoverPages => Some("Confluence space key"@),
        ConnectorCapability::ConfluenceCollectPage => Some("Confluence page id"@),
        ConnectorCapability::SharePointDiscoverDocuments
        | ConnectorCapability::SharePointDiscoverLists => Some("Microsoft Graph site id"@),
        _ => None,
    }
}

fn noun(capability: ConnectorCapability) -> (text: Option<&'static str>)
    ensures
        match (text, coordinate_noun(capability)) {
            (Some(found), Some(expected)) => found@ == expected,
            (None, None) => true,
            _ => false,
        },
{
    match capability {
        ConnectorCapability::GitHubDiscover => Some("OWNER/REPOSITORY coordinate"),
        ConnectorCapability::JenkinsDiscoverBuilds => Some("Jenkins job path"),
        ConnectorCapability::SonarFetchGate | ConnectorCapability::SonarDiscoverIssues => Some(
            "SonarQube project key",
        ),
        ConnectorCapability::JiraDiscoverIssues => Some("Jira project key"),
        ConnectorCapability::JiraCollectIssue => Some("Jira issue key"),
        ConnectorCapability::ConfluenceDiscoverPages => Some("Confluence space key"),
        ConnectorCapability::ConfluenceCollectPage => Some("Confluence page id"),
        ConnectorCapability::SharePointDiscoverDocuments
        | ConnectorCapability::SharePointDiscoverLists => Some("Microsoft Graph site id"),
        _ => None,
    }
}

/// The message for refused limits or arguments.
pub open spec fn bounds_message(capability: ConnectorCapability) -> Seq<char> {
    match capability {
        ConnectorCapability::GitHubDiscover => "connector discovery bounds are invalid"@,
        ConnectorCapability::GitHubCollectLogs => "connector log-collection bounds are invalid"@,
        ConnectorCapability::JenkinsDiscoverJobs => "connector job discovery bounds are invalid"@,
        ConnectorCapability::JenkinsDiscoverBuilds => {
            "connector build discovery bounds are invalid"@
        },
        ConnectorCapability::JenkinsCollectLog => "connector console-log bounds are invalid"@,
        ConnectorCapability::SonarFetchGate | ConnectorCapability::SonarDiscoverIssues
        | ConnectorCapability::JiraDiscoverIssues | ConnectorCapability::JiraCollectIssue => {
            "connector issue discovery bounds are invalid"@
        },
        ConnectorCapability::ConfluenceDiscoverPages
        | ConnectorCapability::ConfluenceCollectPage => {
            "connector page discovery bounds are invalid"@
        },
        ConnectorCapability::SharePointDiscoverDocuments => {
            "connector document discovery bounds are invalid"@
        },
        ConnectorCapability::SharePointDiscoverLists => {
            "connector list discovery bounds are invalid"@
        },
        ConnectorCapability::AwsDiscoverCommands | ConnectorCapability::AwsCollectCommand => {
            "connector command arguments are invalid"@
        },
    }
}

/// The message for a refused search query.
pub open spec fn query_message(capability: ConnectorCapability) -> Seq<char> {
    match service_for(capability) {
        Service::Confluence => "connector page discovery query is invalid"@,
        Service::SharePoint => "connector document discovery query is invalid"@,
        _ => "connector issue discovery query is invalid"@,
    }
}

/// The message for a call that the service refused.
pub open spec fn refusal_message(
    capability: ConnectorCapability,
    resource_id: Seq<char>,
    refusal: CallRefusal,
) -> Seq<char> {
    match refusal {
        CallRefusal::Coordinate => match coordinate_noun(capability) {
            Some(noun) => "connector resource "@ + resource_id + " is not a valid "@ + noun,
            None => requirement_message(capability),
        },
        CallRefusal::Query => query_message(capability),
        CallRefusal::Bounds => bounds_message(capability),
    }
}

/// Explains why a service refused a planned call.
pub fn call_refusal_message(
    capability: ConnectorCapability,
    resource_id: &str,
    refusal: CallRefusal,
) -> (message: String)
    ensures
        message@ == refusal_message(capability, resource_id@, refusal),
{
    match refusal {
        CallRefusal::Coordinate => match noun(capability) {
            Some(noun) => {
                let mut message = concat3("connector resource ", resource_id, " is not a valid ");
                message.append(noun);
                message
            },
            None => requirement(capability),
        },
        CallRefusal::Query => match capability {
            ConnectorCapability::ConfluenceDiscoverPages
            | ConnectorCapability::ConfluenceCollectPage => {
                "connector page discovery query is invalid".to_owned()
            },
            ConnectorCapability::SharePointDiscoverDocuments
            | ConnectorCapability::SharePointDiscoverLists => {
                "connector document discovery query is invalid".to_owned()
            },
            _ => "connector issue discovery query is invalid".to_owned(),
        },
        CallRefusal::Bounds => match capability {
            ConnectorCapability::GitHubDiscover => {
                "connector discovery bounds are invalid".to_owned()
            },
            ConnectorCapability::GitHubCollectLogs => {
                "connector log-collection bounds are invalid".to_owned()
            },
            ConnectorCapability::JenkinsDiscoverJobs => {
                "connector job discovery bounds are invalid".to_owned()
            },
            ConnectorCapability::JenkinsDiscoverBuilds => {
                "connector build discovery bounds are invalid".to_owned()
            },
            ConnectorCapability::JenkinsCollectLog => {
                "connector console-log bounds are invalid".to_owned()
            },
            ConnectorCapability::SonarFetchGate | ConnectorCapability::SonarDiscoverIssues
            | ConnectorCapability::JiraDiscoverIssues | ConnectorCapability::JiraCollectIssue => {
                "connector issue discovery bounds are invalid".to_owned()
            },
            ConnectorCapability::ConfluenceDiscoverPages
            | ConnectorCapability::ConfluenceCollectPage => {
                "connector page discovery bounds are invalid".to_owned()
            },
            ConnectorCapability::SharePointDiscoverDocuments => {
                "connector document discovery bounds are invalid".to_owned()
            },
            ConnectorCapability::SharePointDiscoverLists => {
                "connector list discovery bounds are invalid".to_owned()
            },
            ConnectorCapability::AwsDiscoverCommands | ConnectorCapability::AwsCollectCommand => {
                "connector command arguments are invalid".to_owned()
            },
        },
    }
}

/// The search that discovers the issues of a Jira project.
pub fn jira_discovery_query(project: &str) -> (query: String)
    ensures
        query@ == "project = "@ + project@ + " ORDER BY updated DESC"@,
{
    concat3("project = ", project, " ORDER BY updated DESC")
}

/// The search that discovers the pages of a Confluence space.
pub fn confluence_discovery_query(space: &str) -> (query: String)
    ensures
        query@ == "space = "@ + space@ + " and type = page order by lastmodified desc"@,
{
    concat3("space = ", space, " and type = page order by lastmodified desc")
}

/// What a discovery asks its service for, where the service takes a query.
pub open spec fn query_text(call: ConnectorCall) -> Option<Seq<char>> {
    match (call.capability, call.target@) {
        (ConnectorCapability::JiraDiscoverIssues, TargetText::Named(project)) => Some(
            "project = "@ + project + " ORDER BY updated DESC"@,
        ),
        (ConnectorCapability::ConfluenceDiscoverPages, TargetText::Named(space)) => Some(
            "space = "@ + space + " and type = page order by lastmodified desc"@,
        ),
        (ConnectorCapability::SharePointDiscoverDocuments, _) => Some("*"@),
        _ => None,
    }
}

/// Writes the query of a call.
pub fn discovery_query(call: &ConnectorCall) -> (query: Option<String>)
    ensures
        optional_text(query) == query_text(*call),
{
    match (call.capability, &call.target) {
        (ConnectorCapability::JiraDiscoverIssues, CallTarget::Named(project)) => Some(
            jira_discovery_query(project.as_str()),
        ),
        (ConnectorCapability::ConfluenceDiscoverPages, CallTarget::Named(space)) => Some(
            confluence_discovery_query(space.as_str()),
        ),
        (ConnectorCapability::SharePointDiscoverDocuments, _) => Some("*".to_owned()),
        _ => None,
    }
}

// Bounds

/// How much one call may return. A bound that the service has no use for is
/// left out.
#[derive(Clone, Copy, Debug, PartialEq, Eq, Structural)]
pub struct CallBounds {
    pub items: Option<usize>,
    pub log_bytes: Option<usize>,
    pub total_log_bytes: Option<usize>,
}

pub open spec fn bounds_of(capability: ConnectorCapability) -> CallBounds {
    match capability {
        ConnectorCapability::GitHubCollectLogs => CallBounds {
            items: Some(CONNECTOR_COLLECT_MAX_JOBS),
            log_bytes: Some(CONNECTOR_COLLECT_MAX_LOG_BYTES),
            total_log_bytes: Some(CONNECTOR_COLLECT_MAX_TOTAL_LOG_BYTES),
        },
        ConnectorCapability::JenkinsCollectLog => CallBounds {
            items: None,
            log_bytes: Some(CONNECTOR_COLLECT_MAX_LOG_BYTES),
            total_log_bytes: None,
        },
        ConnectorCapability::SonarFetchGate
        | ConnectorCapability::JiraCollectIssue
        | ConnectorCapability::ConfluenceCollectPage
        | ConnectorCapability::AwsDiscoverCommands
        | ConnectorCapability::AwsCollectCommand => CallBounds {
            items: None,
            log_bytes: None,
            total_log_bytes: None,
        },
        _ => CallBounds {
            items: Some(CONNECTOR_DISCOVER_LIMIT),
            log_bytes: None,
            total_log_bytes: None,
        },
    }
}

/// Gives the bounds of a call.
pub fn call_bounds(capability: ConnectorCapability) -> (bounds: CallBounds)
    ensures
        bounds == bounds_of(capability),
{
    match capability {
        ConnectorCapability::GitHubCollectLogs => CallBounds {
            items: Some(CONNECTOR_COLLECT_MAX_JOBS),
            log_bytes: Some(CONNECTOR_COLLECT_MAX_LOG_BYTES),
            total_log_bytes: Some(CONNECTOR_COLLECT_MAX_TOTAL_LOG_BYTES),
        },
        ConnectorCapability::JenkinsCollectLog => CallBounds {
            items: None,
            log_bytes: Some(CONNECTOR_COLLECT_MAX_LOG_BYTES),
            total_log_bytes: None,
        },
        ConnectorCapability::SonarFetchGate
        | ConnectorCapability::JiraCollectIssue
        | ConnectorCapability::ConfluenceCollectPage
        | ConnectorCapability::AwsDiscoverCommands
        | ConnectorCapability::AwsCollectCommand => CallBounds {
            items: None,
            log_bytes: None,
            total_log_bytes: None,
        },
        _ => CallBounds {
            items: Some(CONNECTOR_DISCOVER_LIMIT),
            log_bytes: None,
            total_log_bytes: None,
        },
    }
}

/// Every log of a collection can be kept whole and as evidence, beside the
/// response itself: there is a handle for each, and room for all their bytes.
pub proof fn law_collected_logs_are_all_kept(capability: ConnectorCapability)
    ensures
        bounds_of(capability) matches CallBounds {
            items: Some(items),
            log_bytes: Some(log_bytes),
            total_log_bytes: Some(total_log_bytes),
        } ==> items + 1 <= MAX_EVIDENCE_HANDLES && items * log_bytes == total_log_bytes,
{
}

// What steps may ask for

/// A step of this service that asks for `name` on a resource of `kind` asks for
/// the call.
pub open spec fn asks_for(
    service: Service,
    name: Seq<char>,
    kind: Seq<char>,
    capability: ConnectorCapability,
) -> bool {
    match capability {
        ConnectorCapability::GitHubDiscover => service == Service::GitHub && name == "runs.discover-failed"@ && kind == "repository"@,
        ConnectorCapability::GitHubCollectLogs => service == Service::GitHub && name == "runs.collect-logs"@ && kind == "run"@,
        ConnectorCapability::JenkinsDiscoverJobs => service == Service::Jenkins && name == "jobs.discover"@ && kind == "server"@,
        ConnectorCapability::JenkinsDiscoverBuilds => service == Service::Jenkins && name == "builds.discover"@ && kind == "job"@,
        ConnectorCapability::JenkinsCollectLog => service == Service::Jenkins && name == "builds.collect-log"@ && kind == "build"@,
        ConnectorCapability::SonarFetchGate => service == Service::Sonar && name == "gate.inspect"@ && kind == "project"@,
        ConnectorCapability::SonarDiscoverIssues => service == Service::Sonar && name == "issues.discover"@ && kind == "project"@,
        ConnectorCapability::JiraDiscoverIssues => service == Service::Jira && name == "issues.discover"@ && kind == "project"@,
        ConnectorCapability::JiraCollectIssue => service == Service::Jira && name == "issues.collect"@ && kind == "issue"@,
        ConnectorCapability::ConfluenceDiscoverPages => service == Service::Confluence && name == "pages.discover"@ && kind == "project"@,
        ConnectorCapability::ConfluenceCollectPage => service == Service::Confluence && name == "pages.collect"@ && kind == "page"@,
        ConnectorCapability::SharePointDiscoverDocuments => service == Service::SharePoint && name == "documents.discover"@ && kind == "site"@,
        ConnectorCapability::SharePointDiscoverLists => service == Service::SharePoint && name == "lists.discover"@ && kind == "site"@,
        ConnectorCapability::AwsDiscoverCommands => service == Service::Aws && name == "commands.discover"@ && kind == "command"@,
        ConnectorCapability::AwsCollectCommand => service == Service::Aws && name == "commands.collect"@ && kind == "command"@,
    }
}

proof fn lemma_name_lengths()
    ensures
        "runs.discover-failed"@.len() == 20,
        "runs.collect-logs"@.len() == 17,
        "jobs.discover"@.len() == 13,
        "builds.discover"@.len() == 15,
        "builds.collect-log"@.len() == 18,
        "gate.inspect"@.len() == 12,
        "issues.discover"@.len() == 15,
        "issues.collect"@.len() == 14,
        "pages.discover"@.len() == 14,
        "pages.collect"@.len() == 13,
        "documents.discover"@.len() == 18,
        "lists.discover"@.len() == 14,
        "commands.discover"@.len() == 17,
        "commands.collect"@.len() == 16,
{
    reveal_strlit("runs.discover-failed");
    assert("runs.discover-failed"@.len() == 20);
    reveal_strlit("runs.collect-logs");
    assert("runs.collect-logs"@.len() == 17);
    reveal_strlit("jobs.discover");
    assert("jobs.discover"@.len() == 13);
    reveal_strlit("builds.discover");
    assert("builds.discover"@.len() == 15);
    reveal_strlit("builds.collect-log");
    assert("builds.collect-log"@.len() == 18);
    reveal_strlit("gate.inspect");
    assert("gate.inspect"@.len() == 12);
    reveal_strlit("issues.discover");
    assert("issues.discover"@.len() == 15);
    reveal_strlit("issues.collect");
    assert("issues.collect"@.len() == 14);
    reveal_strlit("pages.discover");
    assert("pages.discover"@.len() == 14);
    reveal_strlit("pages.collect");
    assert("pages.collect"@.len() == 13);
    reveal_strlit("documents.discover");
    assert("documents.discover"@.len() == 18);
    reveal_strlit("lists.discover");
    assert("lists.discover"@.len() == 14);
    reveal_strlit("commands.discover");
    assert("commands.discover"@.len() == 17);
    reveal_strlit("commands.collect");
    assert("commands.collect"@.len() == 16);
}

/// A step makes exactly the call that it asks for: by its service, by the name
/// of the capability and by the kind of its resource, and on what the resource
/// names. Nothing else is called, and what is asked for is not refused unless
/// the resource does not name anything that the call can work on.
pub proof fn law_steps_make_the_call_they_ask_for(
    service: Service,
    step: PreparedConnectorStep,
    capability: ConnectorCapability,
)
    ensures
        planned_call(service, step) matches Ok((planned, target)) ==> asks_for(
            service,
            step.capability@,
            step.resource_kind@,
            planned,
        ) && target_of(planned, step.resource_id@) == Some(target),
        asks_for(service, step.capability@, step.resource_kind@, capability) ==> match target_of(
            capability,
            step.resource_id@,
        ) {
            Some(target) => planned_call(service, step) == Ok::<_, Seq<char>>((capability, target)),
            None => planned_call(service, step) is Err,
        },
{
    lemma_name_lengths();
}

/// A connector goes by one name: two services never share it.
pub proof fn law_services_have_their_own_names(service: Service)
    ensures
        service_id(service) == "github-actions"@ <==> service == Service::GitHub,
        service_id(service) == "jenkins"@ <==> service == Service::Jenkins,
        service_id(service) == "sonarqube"@ <==> service == Service::Sonar,
        service_id(service) == "jira"@ <==> service == Service::Jira,
        service_id(service) == "confluence"@ <==> service == Service::Confluence,
        service_id(service) == "sharepoint"@ <==> service == Service::SharePoint,
        service_id(service) == "aws"@ <==> service == Service::Aws,
{
    if service_id(service) == service_id(Service::GitHub) {
        lemma_service_ids_differ(service, Service::GitHub);
    }
    if service_id(service) == service_id(Service::Jenkins) {
        lemma_service_ids_differ(service, Service::Jenkins);
    }
    if service_id(service) == service_id(Service::Sonar) {
        lemma_service_ids_differ(service, Service::Sonar);
    }
    if service_id(service) == service_id(Service::Jira) {
        lemma_service_ids_differ(service, Service::Jira);
    }
    if service_id(service) == service_id(Service::Confluence) {
        lemma_service_ids_differ(service, Service::Confluence);
    }
    if service_id(service) == service_id(Service::SharePoint) {
        lemma_service_ids_differ(service, Service::SharePoint);
    }
    if service_id(service) == service_id(Service::Aws) {
        lemma_service_ids_differ(service, Service::Aws);
    }
}

proof fn lemma_last_position(text: Seq<char>, wanted: char)
    ensures
        -1 <= last_position(text, wanted) < text.len(),
        last_position(text, wanted) >= 0 ==> text[last_position(text, wanted)] == wanted,
        forall|i: int|
            last_position(text, wanted) < i < text.len() ==> #[trigger] text[i] != wanted,
    decreases text.len(),
{
    if text.len() > 0 && text.last() != wanted {
        lemma_last_position(text.drop_last(), wanted);
        assert forall|i: int|
            last_position(text, wanted) < i < text.len() implies #[trigger] text[i] != wanted by {
            if i < text.len() - 1 {
                assert(text.drop_last()[i] == text[i]);
            }
        }
    }
}

/// A resource is taken for what it says. Most calls work on the resource as it
/// is named. A log is that of the number behind the last slash, of what stands
/// before it; an allowlisted command is the pair around the first dot; and two
/// calls work on the service itself.
pub proof fn law_targets_are_what_the_resource_says(
    capability: ConnectorCapability,
    id: Seq<char>,
)
    ensures
        match target_of(capability, id) {
            Some(TargetText::Service) => capability == ConnectorCapability::JenkinsDiscoverJobs
                || capability == ConnectorCapability::AwsDiscoverCommands,
            Some(TargetText::Named(name)) => name == id && capability
                != ConnectorCapability::GitHubCollectLogs && capability
                != ConnectorCapability::JenkinsCollectLog && capability
                != ConnectorCapability::AwsCollectCommand,
            Some(TargetText::Numbered { base, number }) => {
                let tail = id.skip(base.len() as int + 1);
                &&& capability == ConnectorCapability::GitHubCollectLogs || capability
                    == ConnectorCapability::JenkinsCollectLog
                &&& id == base + seq!['/'] + tail
                &&& !tail.contains('/')
                &&& signed_number(tail) == Some(number)
            },
            Some(TargetText::Pair { first, second }) => {
                &&& capability == ConnectorCapability::AwsCollectCommand
                &&& id == first + seq!['.'] + second
                &&& !first.contains('.')
            },
            None => {
                &&& capability == ConnectorCapability::GitHubCollectLogs || capability
                    == ConnectorCapability::JenkinsCollectLog || capability
                    == ConnectorCapability::AwsCollectCommand
                &&& capability == ConnectorCapability::AwsCollectCommand ==> !id.contains('.')
            },
        },
{
    lemma_last_position(id, '/');
    lemma_span_before(id, just('.'));
    let at = last_position(id, '/');
    let dot = span_before(id, just('.')) as int;
    match target_of(capability, id) {
        Some(TargetText::Numbered { base, number }) => {
            let tail = id.skip(base.len() as int + 1);
            assert(id =~= base + seq!['/'] + tail);
            assert forall|i: int| 0 <= i < tail.len() implies tail[i] != '/' by {
                assert(tail[i] == id[at + 1 + i]);
            }
        },
        Some(TargetText::Pair { first, second }) => {
            assert(id =~= first + seq!['.'] + second);
            assert forall|i: int| 0 <= i < first.len() implies first[i] != '.' by {
                assert(!just('.')(id[i]));
            }
        },
        None => {
            if capability == ConnectorCapability::AwsCollectCommand {
                assert forall|i: int| 0 <= i < id.len() implies id[i] != '.' by {
                    assert(!just('.')(id[i]));
                }
            }
        },
        _ => {},
    }
}

/// A log that is asked for by its number is the one that is collected.
pub proof fn law_numbered_logs_are_found(
    capability: ConnectorCapability,
    base: Seq<char>,
    number: u64,
)
    requires
        capability == ConnectorCapability::GitHubCollectLogs || capability
            == ConnectorCapability::JenkinsCollectLog,
    ensures
        target_of(capability, base + seq!['/'] + decimal(number as nat)) == Some(
            TargetText::Numbered { base, number },
        ),
{
    let tail = decimal(number as nat);
    let id = base + seq!['/'] + tail;
    let at = last_position(id, '/');
    lemma_last_position(id, '/');
    lemma_decimal_digits(number as nat);
    assert(id[base.len() as int] == '/');
    if at > base.len() {
        assert(id[at] == tail[at - base.len() - 1]);
        assert(is_ascii_digit_char(tail[at - base.len() - 1]));
    }
    assert(at == base.len());
    assert(id.skip(at + 1) =~= tail);
    assert(id.take(at) =~= base);
    law_numbers_are_read_back(number);
}

/// A search asks for the project or the space that the step names, newest first;
/// documents are all asked for, and no other call has a query.
pub proof fn law_searches_name_their_project(call: ConnectorCall, name: Seq<char>)
    ensures
        call.capability == ConnectorCapability::JiraDiscoverIssues && call.target@
            == TargetText::Named(name) ==> query_text(call) == Some(
            "project = "@ + name + " ORDER BY updated DESC"@,
        ),
        call.capability == ConnectorCapability::ConfluenceDiscoverPages && call.target@
            == TargetText::Named(name) ==> query_text(call) == Some(
            "space = "@ + name + " and type = page order by lastmodified desc"@,
        ),
        call.capability == ConnectorCapability::SharePointDiscoverDocuments ==> query_text(call)
            == Some("*"@),
        query_text(call) is Some ==> call.capability == ConnectorCapability::JiraDiscoverIssues
            || call.capability == ConnectorCapability::ConfluenceDiscoverPages || call.capability
            == ConnectorCapability::SharePointDiscoverDocuments,
{
}

/// Calls are bounded: a discovery returns at most twenty items; a collection of
/// logs at most three of them, each of at most a mebibyte and three together.
pub proof fn law_calls_are_bounded(capability: ConnectorCapability)
    ensures
        ({
            let bounds = bounds_of(capability);
            let discovers = capability == ConnectorCapability::GitHubDiscover || capability
                == ConnectorCapability::JenkinsDiscoverJobs || capability
                == ConnectorCapability::JenkinsDiscoverBuilds || capability
                == ConnectorCapability::SonarDiscoverIssues || capability
                == ConnectorCapability::JiraDiscoverIssues || capability
                == ConnectorCapability::ConfluenceDiscoverPages || capability
                == ConnectorCapability::SharePointDiscoverDocuments || capability
                == ConnectorCapability::SharePointDiscoverLists;
            &&& bounds.items == Some(20usize) <==> discovers
            &&& bounds.items == Some(3usize) <==> capability
                == ConnectorCapability::GitHubCollectLogs
            &&& bounds.log_bytes == Some(1_048_576usize) <==> capability
                == ConnectorCapability::GitHubCollectLogs || capability
                == ConnectorCapability::JenkinsCollectLog
            &&& bounds.log_bytes is Some <==> bounds.log_bytes == Some(1_048_576usize)
            &&& bounds.total_log_bytes is Some <==> capability
                == ConnectorCapability::GitHubCollectLogs
            &&& bounds.total_log_bytes is Some ==> bounds.total_log_bytes == Some(3_145_728usize)
        }),
{
}

/// A call goes to the service that it is a capability of, and every capability is
/// one of its service under its own name and for its own kind of resource.
pub proof fn law_calls_go_to_their_own_service(
    service: Service,
    step: PreparedConnectorStep,
    capability: ConnectorCapability,
)
    ensures
        planned_call(service, step) matches Ok((planned, _)) ==> service_for(planned) == service,
        asks_for(
            service_for(capability),
            capability_name(capability),
            resource_kind_for(capability),
            capability,
        ),
        asks_for(service, step.capability@, step.resource_kind@, capability) ==> service_for(
            capability,
        ) == service,
{
}

/// A capability that a service does not have is answered with those that it has.
pub proof fn law_unsupported_capabilities_are_answered_with_the_supported(name: Seq<char>)
    ensures
        unsupported_message(Service::GitHub, name) == "connector capability "@ + name
            + " is not executable; supported read-only capabilities are "@ + (
        "runs.discover-failed"@ + " and "@ + "runs.collect-logs"@),
        unsupported_message(Service::Jenkins, name) == "connector capability "@ + name
            + " is not executable; supported read-only capabilities are "@ + ("jobs.discover"@
            + ", "@ + "builds.discover"@ + ", and "@ + "builds.collect-log"@),
        unsupported_message(Service::Sonar, name) == "connector capability "@ + name
            + " is not executable; supported read-only capabilities are "@ + ("gate.inspect"@
            + " and "@ + "issues.discover"@),
        unsupported_message(Service::Jira, name) == "connector capability "@ + name
            + " is not executable; supported read-only capabilities are "@ + ("issues.discover"@
            + " and "@ + "issues.collect"@),
        unsupported_message(Service::Confluence, name) == "connector capability "@ + name
            + " is not executable; supported read-only capabilities are "@ + ("pages.discover"@
            + " and "@ + "pages.collect"@),
        unsupported_message(Service::SharePoint, name) == "connector capability "@ + name
            + " is not executable; supported read-only capabilities are "@ + (
        "documents.discover"@ + " and "@ + "lists.discover"@),
        unsupported_message(Service::Aws, name) == "connector capability "@ + name
            + " is not executable; supported read-only capabilities are "@ + (
        "commands.discover"@ + " and "@ + "commands.collect"@),
{
}

/// A coordinate is called the same before the call, where the resource has to hold
/// it, and after, where the service refused it. Calls on a log, on a command or
/// on the service itself have no coordinate of their own.
pub proof fn law_coordinates_are_called_the_same(capability: ConnectorCapability)
    ensures
        coordinate_noun(capability) is None <==> capability
            == ConnectorCapability::GitHubCollectLogs || capability
            == ConnectorCapability::JenkinsDiscoverJobs || capability
            == ConnectorCapability::JenkinsCollectLog || capability
            == ConnectorCapability::AwsDiscoverCommands || capability
            == ConnectorCapability::AwsCollectCommand,
        coordinate_noun(capability) is Some && capability != ConnectorCapability::GitHubDiscover
            ==> holding_text(capability) == " holding a "@ + coordinate_noun(capability)->0,
        coordinate_noun(ConnectorCapability::GitHubDiscover) == Some("OWNER/REPOSITORY coordinate"@),
{
    reveal_strlit(" holding a ");
    reveal_strlit("Jenkins job path");
    reveal_strlit(" holding a Jenkins job path");
    reveal_strlit("SonarQube project key");
    reveal_strlit(" holding a SonarQube project key");
    reveal_strlit("Jira project key");
    reveal_strlit(" holding a Jira project key");
    reveal_strlit("Jira issue key");
    reveal_strlit(" holding a Jira issue key");
    reveal_strlit("Confluence space key");
    reveal_strlit(" holding a Confluence space key");
    reveal_strlit("Confluence page id");
    reveal_strlit(" holding a Confluence page id");
    reveal_strlit("Microsoft Graph site id");
    reveal_strlit(" holding a Microsoft Graph site id");
    assert(" holding a Jenkins job path"@ =~= " holding a "@ + "Jenkins job path"@);
    assert(" holding a SonarQube project key"@ =~= " holding a "@ + "SonarQube project key"@);
    assert(" holding a Jira project key"@ =~= " holding a "@ + "Jira project key"@);
    assert(" holding a Jira issue key"@ =~= " holding a "@ + "Jira issue key"@);
    assert(" holding a Confluence space key"@ =~= " holding a "@ + "Confluence space key"@);
    assert(" holding a Confluence page id"@ =~= " holding a "@ + "Confluence page id"@);
    assert(" holding a Microsoft Graph site id"@ =~= " holding a "@ + "Microsoft Graph site id"@);
}

/// A refused coordinate is told by the resource that it was read from; a refused
/// query or limit by what was searched for.
pub proof fn law_refused_calls_tell_what_was_refused(
    capability: ConnectorCapability,
    resource_id: Seq<char>,
)
    ensures
        coordinate_noun(capability) matches Some(noun) ==> refusal_message(
            capability,
            resource_id,
            CallRefusal::Coordinate,
        ) == "connector resource "@ + resource_id + " is not a valid "@ + noun,
        coordinate_noun(capability) is None ==> refusal_message(
            capability,
            resource_id,
            CallRefusal::Coordinate,
        ) == "connector capability "@ + capability_name(capability)
            + " requires a resource of kind "@ + resource_kind_for(capability) + holding_text(
            capability,
        ),
        service_for(capability) == Service::Confluence ==> refusal_message(
            capability,
            resource_id,
            CallRefusal::Query,
        ) == "connector page discovery query is invalid"@,
        service_for(capability) == Service::SharePoint ==> refusal_message(
            capability,
            resource_id,
            CallRefusal::Query,
        ) == "connector document discovery query is invalid"@,
        service_for(capability) == Service::Jira ==> refusal_message(
            capability,
            resource_id,
            CallRefusal::Query,
        ) == "connector issue discovery query is invalid"@,
        service_for(capability) == Service::Aws ==> refusal_message(
            capability,
            resource_id,
            CallRefusal::Bounds,
        ) == "connector command arguments are invalid"@,
{
}

} // verus!
