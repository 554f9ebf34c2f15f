//! Requests that look at the daemon, its callers and the network, and the
//! revocation of grants.

use vstd::prelude::*;

use crate::answers::{Answer, AuditNote, Conclusion};
use crate::protocol::{Failure, FailureCode, OperationTruth, truth_label, truth_name};
use crate::split::texts;
use crate::text::{concat4, decimal, decimal_text, flag_label, flag_name, same_text};

verus! {

// Limits

pub const DEFAULT_ACTIVITY_LIMIT: u32 = 50;

pub const MAX_ACTIVITY_LIMIT: u32 = 100;

pub const DEFAULT_LOGS_LIMIT: usize = 200;

pub const MAX_LOGS_LIMIT: u32 = 512;

pub const DEFAULT_STATS_DAYS: u64 = 182;

pub const MAX_STATS_DAYS: u32 = 366;

/// The milliseconds of a day.
pub const DAY_MS: u64 = 86_400_000;

/// A number between one and a maximum; zero asks for the default.
pub open spec fn clamped(asked: int, default: int, maximum: int) -> int {
    if asked == 0 {
        default
    } else if asked > maximum {
        maximum
    } else {
        asked
    }
}

/// The number of activity events to report.
pub fn clamp_activity_limit(limit: u32) -> (clamped_limit: u32)
    ensures
        clamped_limit == clamped(
            limit as int,
            DEFAULT_ACTIVITY_LIMIT as int,
            MAX_ACTIVITY_LIMIT as int,
        ),
        1 <= clamped_limit <= MAX_ACTIVITY_LIMIT,
{
    if limit == 0 {
        DEFAULT_ACTIVITY_LIMIT
    } else if limit > MAX_ACTIVITY_LIMIT {
        MAX_ACTIVITY_LIMIT
    } else {
        limit
    }
}

/// The number of log entries to report.
pub fn clamp_logs_limit(limit: u32) -> (clamped_limit: usize)
    ensures
        clamped_limit == clamped(limit as int, DEFAULT_LOGS_LIMIT as int, MAX_LOGS_LIMIT as int),
        1 <= clamped_limit <= MAX_LOGS_LIMIT,
{
    if limit == 0 {
        DEFAULT_LOGS_LIMIT
    } else if limit > MAX_LOGS_LIMIT {
        MAX_LOGS_LIMIT as usize
    } else {
        limit as usize
    }
}

/// The number of days to report on.
pub fn clamp_stats_days(days: u32) -> (clamped_days: u64)
    ensures
        clamped_days == clamped(days as int, DEFAULT_STATS_DAYS as int, MAX_STATS_DAYS as int),
        1 <= clamped_days <= MAX_STATS_DAYS,
{
    if days == 0 {
        DEFAULT_STATS_DAYS
    } else if days > MAX_STATS_DAYS {
        MAX_STATS_DAYS as u64
    } else {
        days as u64
    }
}

/// The start of the first day that a report covers.
pub fn stats_since(days: u32, now_ms: u64) -> (since: u64)
    ensures
        since % DAY_MS == 0,
        ({
            let window = clamped(days as int, DEFAULT_STATS_DAYS as int, MAX_STATS_DAYS as int)
                * DAY_MS;
            let from: int = if now_ms < window {
                0
            } else {
                now_ms - window
            };
            since <= from < since + DAY_MS
        }),
{
    let window: u64 = clamp_stats_days(days) * DAY_MS;
    let from = now_ms.saturating_sub(window);
    from - from % DAY_MS
}

// The network

#[derive(Clone, Copy, Debug, PartialEq, Eq, Structural)]
pub enum ConfigurationPresence {
    Configured,
    NotConfigured,
    Invalid,
}

pub open spec fn presence_name(presence: ConfigurationPresence) -> Seq<char> {
    match presence {
        ConfigurationPresence::Configured => "configured"@,
        ConfigurationPresence::NotConfigured => "not_configured"@,
        ConfigurationPresence::Invalid => "invalid"@,
    }
}

pub fn configuration_presence_label(presence: ConfigurationPresence) -> (label: &'static str)
    ensures
        label@ == presence_name(presence),
{
    match presence {
        ConfigurationPresence::Configured => "configured",
        ConfigurationPresence::NotConfigured => "not_configured",
        ConfigurationPresence::Invalid => "invalid",
    }
}

/// Whether a proxy is configured by a script.
#[derive(Clone, Copy, Debug, PartialEq, Eq, Structural)]
pub enum PacState {
    NotDetected,
    DetectedUnsupported,
    InspectionUnavailable,
}

pub open spec fn pac_name(state: PacState) -> Seq<char> {
    match state {
        PacState::NotDetected => "not_detected"@,
        PacState::DetectedUnsupported => "detected_unsupported"@,
        PacState::InspectionUnavailable => "inspection_unavailable"@,
    }
}

pub fn pac_state_label(state: PacState) -> (label: &'static str)
    ensures
        label@ == pac_name(state),
{
    match state {
        PacState::NotDetected => "not_detected",
        PacState::DetectedUnsupported => "detected_unsupported",
        PacState::InspectionUnavailable => "inspection_unavailable",
    }
}

/// Where a setting comes from.
#[derive(Clone, Copy, Debug, PartialEq, Eq, Structural)]
pub enum ProxySource {
    Environment,
    System,
}

/// The route of one scheme: by a proxy of this source, or without one.
#[derive(Clone, Copy, Debug, PartialEq, Eq, Structural)]
pub enum ProxyRoute {
    Configured(ProxySource),
    Other,
}

/// The setting for what goes around the proxy.
#[derive(Clone, Copy, Debug, PartialEq, Eq, Structural)]
pub enum ProxyBypass {
    Configured(ProxySource),
    Malformed(ProxySource),
    NotConfigured,
    SuppressedByCgi,
    Unresolved,
}

#[derive(Clone, Copy, Debug, PartialEq, Eq, Structural)]
pub enum ProxyVariable {
    HttpProxyUpper,
    HttpProxyLower,
    HttpsProxyUpper,
    HttpsProxyLower,
    AllProxyUpper,
    AllProxyLower,
    /// One that names no proxy.
    Other,
}

/// An environment variable that was ignored.
#[derive(Clone, Copy, Debug, PartialEq, Eq, Structural)]
pub struct ProxyInputIssue {
    pub malformed: bool,
    pub variable: ProxyVariable,
}

/// What is known of the proxy of this process.
pub struct ProxyDiagnostic {
    /// Everything could be read.
    pub observed: bool,
    pub http: ProxyRoute,
    pub https: ProxyRoute,
    pub bypass: ProxyBypass,
    pub pac: PacState,
    pub ignored_inputs: Vec<ProxyInputIssue>,
}

/// A variable for a proxy was ignored because it is malformed.
pub open spec fn has_malformed_proxy(issues: Seq<ProxyInputIssue>) -> bool {
    exists|i: int|
        0 <= i < issues.len() && (#[trigger] issues[i]).malformed && issues[i].variable
            != ProxyVariable::Other
}

pub open spec fn environment_presence(proxy: ProxyDiagnostic) -> ConfigurationPresence {
    if proxy.http == ProxyRoute::Configured(ProxySource::Environment) || proxy.https
        == ProxyRoute::Configured(ProxySource::Environment) {
        ConfigurationPresence::Configured
    } else if has_malformed_proxy(proxy.ignored_inputs@) {
        ConfigurationPresence::Invalid
    } else {
        ConfigurationPresence::NotConfigured
    }
}

/// Whether the environment configures a proxy.
pub fn proxy_environment_presence(proxy: &ProxyDiagnostic) -> (presence: ConfigurationPresence)
    ensures
        presence == environment_presence(*proxy),
{
    if proxy.http == ProxyRoute::Configured(ProxySource::Environment) || proxy.https
        == ProxyRoute::Configured(ProxySource::Environment) {
        return ConfigurationPresence::Configured;
    }
    let mut index: usize = 0;
    while index < proxy.ignored_inputs.len()
        invariant
            index <= proxy.ignored_inputs@.len(),
            proxy.http != ProxyRoute::Configured(ProxySource::Environment),
            proxy.https != ProxyRoute::Configured(ProxySource::Environment),
            forall|i: int|
                0 <= i < index ==> !((#[trigger] proxy.ignored_inputs@[i]).malformed
                    && proxy.ignored_inputs@[i].variable != ProxyVariable::Other),
        decreases proxy.ignored_inputs@.len() - index,
    {
        let issue = proxy.ignored_inputs[index];
        if issue.malformed && issue.variable != ProxyVariable::Other {
            assert(proxy.ignored_inputs@[index as int] == issue);
            return ConfigurationPresence::Invalid;
        }
        index = index + 1;
    }
    ConfigurationPresence::NotConfigured
}

pub open spec fn bypass_presence(bypass: ProxyBypass) -> ConfigurationPresence {
    match bypass {
        ProxyBypass::Configured(ProxySource::Environment) => ConfigurationPresence::Configured,
        ProxyBypass::Malformed(ProxySource::Environment) => ConfigurationPresence::Invalid,
        _ => ConfigurationPresence::NotConfigured,
    }
}

/// Whether the environment configures what goes around the proxy.
pub fn no_proxy_presence(proxy: &ProxyDiagnostic) -> (presence: ConfigurationPresence)
    ensures
        presence == bypass_presence(proxy.bypass),
{
    match proxy.bypass {
        ProxyBypass::Configured(ProxySource::Environment) => ConfigurationPresence::Configured,
        ProxyBypass::Malformed(ProxySource::Environment) => ConfigurationPresence::Invalid,
        _ => ConfigurationPresence::NotConfigured,
    }
}

/// What is told of the network.
#[derive(Clone, Copy, Debug, PartialEq, Eq, Structural)]
pub struct NetworkDiagnostics {
    pub platform_roots_enabled: bool,
    pub system_proxy_discovery_enabled: bool,
    pub proxy_environment_presence: ConfigurationPresence,
    pub no_proxy_presence: ConfigurationPresence,
    pub pac_state: PacState,
}

/// What is known of the network, given whether a client could be built.
pub open spec fn diagnostics_of(proxy: ProxyDiagnostic, client_ready: bool) -> NetworkDiagnostics {
    NetworkDiagnostics {
        platform_roots_enabled: client_ready,
        system_proxy_discovery_enabled: client_ready,
        proxy_environment_presence: environment_presence(proxy),
        no_proxy_presence: bypass_presence(proxy.bypass),
        pac_state: proxy.pac,
    }
}

pub open spec fn diagnostics_truth(proxy: ProxyDiagnostic, client_ready: bool) -> OperationTruth {
    if client_ready && proxy.observed {
        OperationTruth::Observed
    } else {
        OperationTruth::Unresolved
    }
}

pub open spec fn diagnostics_detail(found: NetworkDiagnostics) -> Seq<char> {
    "platform_roots="@ + flag_name(found.platform_roots_enabled) + " system_proxy="@ + flag_name(
        found.system_proxy_discovery_enabled,
    ) + " proxy_environment="@ + presence_name(found.proxy_environment_presence) + " no_proxy="@
        + presence_name(found.no_proxy_presence) + " pac="@ + pac_name(found.pac_state)
}

/// Concludes a look at the network.
pub fn network_diagnosed(proxy: &ProxyDiagnostic, client_ready: bool) -> (conclusion: Conclusion<
    NetworkDiagnostics,
>)
    ensures
        conclusion.answer == (Answer::Success {
            truth: diagnostics_truth(*proxy, client_ready),
            payload: diagnostics_of(*proxy, client_ready),
        }),
        conclusion.audit.says(
            "network-observation"@,
            "network.diagnostics"@,
            "observe"@,
            truth_name(diagnostics_truth(*proxy, client_ready)),
            diagnostics_detail(diagnostics_of(*proxy, client_ready)),
        ),
{
    let truth = if client_ready && proxy.observed {
        OperationTruth::Observed
    } else {
        OperationTruth::Unresolved
    };
    let found = NetworkDiagnostics {
        platform_roots_enabled: client_ready,
        system_proxy_discovery_enabled: client_ready,
        proxy_environment_presence: proxy_environment_presence(proxy),
        no_proxy_presence: no_proxy_presence(proxy),
        pac_state: proxy.pac,
    };
    let mut detail = concat4(
        "platform_roots=",
        flag_label(found.platform_roots_enabled),
        " system_proxy=",
        flag_label(found.system_proxy_discovery_enabled),
    );
    detail.append(" proxy_environment=");
    detail.append(configuration_presence_label(found.proxy_environment_presence));
    detail.append(" no_proxy=");
    detail.append(configuration_presence_label(found.no_proxy_presence));
    detail.append(" pac=");
    detail.append(pac_state_label(found.pac_state));
    Conclusion {
        audit: AuditNote {
            purpose: "network-observation".to_owned(),
            action: "network.diagnostics".to_owned(),
            decision: "observe".to_owned(),
            outcome: truth_label(truth).to_owned(),
            detail,
        },
        answer: Answer::Success { truth, payload: found },
    }
}

// Grants

/// A grant that a caller holds.
pub struct ActiveGrant {
    pub id: String,
    pub capability: String,
}

/// The identities of the grants for `capability`, in their order.
pub open spec fn granted_ids(active: Seq<ActiveGrant>, capability: Seq<char>) -> Seq<Seq<char>>
    decreases active.len(),
{
    if active.len() == 0 {
        seq![]
    } else {
        let before = granted_ids(active.drop_last(), capability);
        if active.last().capability@ == capability {
            before.push(active.last().id@)
        } else {
            before
        }
    }
}

/// Lists the grants to revoke: of those that the caller holds, all that are for
/// `capability`.
pub fn grants_to_revoke(active: &Vec<ActiveGrant>, capability: &str) -> (ids: Vec<String>)
    ensures
        texts(ids@) == granted_ids(active@, capability@),
{
    let mut ids: Vec<String> = Vec::new();
    let mut index: usize = 0;
    assert(texts(ids@) =~= seq![]);
    while index < active.len()
        invariant
            index <= active@.len(),
            texts(ids@) == granted_ids(active@.take(index as int), capability@),
        decreases active@.len() - index,
    {
        proof {
            assert(active@.take(index + 1).drop_last() =~= active@.take(index as int));
            assert(active@.take(index + 1).last() == active@[index as int]);
        }
        if same_text(active[index].capability.as_str(), capability) {
            let ghost before = ids@;
            ids.push(active[index].id.clone());
            assert(texts(ids@) =~= texts(before).push(active@[index as int].id@));
        }
        index = index + 1;
    }
    assert(active@.take(active@.len() as int) =~= active@);
    ids
}

/// What is told of revoked grants.
pub struct GrantsRevoked {
    pub capability: String,
    pub revoked: u32,
}

/// Concludes the revocation of a caller's grants for one capability, all of
/// which were revoked.
pub fn grants_revoked(capability: &str, matching: usize) -> (conclusion: Conclusion<GrantsRevoked>)
    ensures
        ({
            let revoked: nat = if matching > u32::MAX {
                u32::MAX as nat
            } else {
                matching as nat
            };
            &&& conclusion.audit.says_change(
                "grant.revoke"@,
                "revoked"@,
                "capability="@ + capability@ + " revoked="@ + decimal(revoked),
            )
            &&& conclusion.answer matches Answer::Success { truth, payload } && truth
                == OperationTruth::Changed && payload.capability@ == capability@ && payload.revoked
                == revoked
        }),
{
    let revoked: u32 = if matching > u32::MAX as usize {
        u32::MAX
    } else {
        matching as u32
    };
    let count = decimal_text(revoked as u64);
    Conclusion {
        audit: AuditNote::change(
            "grant.revoke",
            "revoked",
            concat4("capability=", capability, " revoked=", count.as_str()),
        ),
        answer: Answer::Success {
            truth: OperationTruth::Changed,
            payload: GrantsRevoked { capability: capability.to_owned(), revoked },
        },
    }
}

/// The failure of a revocation of what is no capability.
pub fn invalid_capability() -> (failure: Failure)
    ensures
        failure.says(
            FailureCode::InvalidRequest,
            "capability name is not a valid policy capability"@,
            None,
        ),
{
    Failure::new(
        FailureCode::InvalidRequest,
        "capability name is not a valid policy capability",
    )
}

/// The failure of a project summary that the protocol cannot carry.
pub fn project_current_too_large() -> (failure: Failure)
    ensures
        failure.says(
            FailureCode::FrameTooLarge,
            "project current metadata exceeded bounded protocol limits"@,
            None,
        ),
{
    Failure::new(
        FailureCode::FrameTooLarge,
        "project current metadata exceeded bounded protocol limits",
    )
}

/// Whatever is asked for, a report covers at least one and at most the maximum;
/// within these what is asked for is given, and only nothing asks for the
/// default.
pub proof fn law_limits_are_kept(asked: int, default: int, maximum: int)
    requires
        0 <= asked,
        1 <= default <= maximum,
    ensures
        1 <= clamped(asked, default, maximum) <= maximum,
        1 <= asked <= maximum ==> clamped(asked, default, maximum) == asked,
        asked > maximum ==> clamped(asked, default, maximum) == maximum,
        clamped(0, default, maximum) == default,
        DEFAULT_ACTIVITY_LIMIT == 50 && MAX_ACTIVITY_LIMIT == 100,
        DEFAULT_LOGS_LIMIT == 200 && MAX_LOGS_LIMIT == 512,
        DEFAULT_STATS_DAYS == 182 && MAX_STATS_DAYS == 366,
        DAY_MS == 24 * 60 * 60 * 1000,
{
}

/// A proxy counts as configured by the environment where one of the two schemes
/// goes by it, and the environment as invalid only where neither does and a
/// variable for a proxy is malformed. What the system sets does not count.
pub proof fn law_only_the_environment_counts(proxy: ProxyDiagnostic)
    ensures
        environment_presence(proxy) == ConfigurationPresence::Configured <==> proxy.http
            == ProxyRoute::Configured(ProxySource::Environment) || proxy.https
            == ProxyRoute::Configured(ProxySource::Environment),
        environment_presence(proxy) == ConfigurationPresence::Invalid <==> proxy.http
            != ProxyRoute::Configured(ProxySource::Environment) && proxy.https
            != ProxyRoute::Configured(ProxySource::Environment) && exists|i: int|
            0 <= i < proxy.ignored_inputs@.len() && (
            #[trigger] proxy.ignored_inputs@[i]).malformed && proxy.ignored_inputs@[i].variable
                != ProxyVariable::Other,
        bypass_presence(proxy.bypass) == ConfigurationPresence::Configured <==> proxy.bypass
            == ProxyBypass::Configured(ProxySource::Environment),
        bypass_presence(proxy.bypass) == ConfigurationPresence::Invalid <==> proxy.bypass
            == ProxyBypass::Malformed(ProxySource::Environment),
{
}

/// What is told of the network is what was found; it counts as observed only where
/// a client could be built and everything could be read.
pub proof fn law_diagnostics_tell_what_was_found(proxy: ProxyDiagnostic, client_ready: bool)
    ensures
        ({
            let found = diagnostics_of(proxy, client_ready);
            &&& found.platform_roots_enabled == client_ready
            &&& found.system_proxy_discovery_enabled == client_ready
            &&& found.pac_state == proxy.pac
            &&& found.proxy_environment_presence == environment_presence(proxy)
            &&& found.no_proxy_presence == bypass_presence(proxy.bypass)
        }),
        diagnostics_truth(proxy, client_ready) == OperationTruth::Observed <==> client_ready
            && proxy.observed,
        diagnostics_truth(proxy, client_ready) == OperationTruth::Unresolved <==> !client_ready
            || !proxy.observed,
{
}

/// Settings and scripts have their own words.
pub proof fn law_settings_have_their_own_words(presence: ConfigurationPresence, state: PacState)
    ensures
        presence_name(presence) == "configured"@ <==> presence == ConfigurationPresence::Configured,
        presence_name(presence) == "not_configured"@ <==> presence
            == ConfigurationPresence::NotConfigured,
        presence_name(presence) == "invalid"@ <==> presence == ConfigurationPresence::Invalid,
        pac_name(state) == "not_detected"@ <==> state == PacState::NotDetected,
        pac_name(state) == "detected_unsupported"@ <==> state == PacState::DetectedUnsupported,
        pac_name(state) == "inspection_unavailable"@ <==> state == PacState::InspectionUnavailable,
{
    reveal_strlit("configured");
    reveal_strlit("not_configured");
    reveal_strlit("invalid");
    reveal_strlit("not_detected");
    reveal_strlit("detected_unsupported");
    reveal_strlit("inspection_unavailable");
    assert("configured"@[0] == 'c');
    assert("not_configured"@[0] == 'n');
    assert("invalid"@[0] == 'i');
    assert("not_detected"@[0] == 'n');
    assert("detected_unsupported"@[0] == 'd');
    assert("inspection_unavailable"@[0] == 'i');
}

/// A revocation takes every grant for the capability and no other.
pub proof fn law_revocations_take_the_capability_alone(
    active: Seq<ActiveGrant>,
    capability: Seq<char>,
    id: Seq<char>,
)
    ensures
        granted_ids(active, capability).contains(id) <==> exists|i: int|
            0 <= i < active.len() && (#[trigger] active[i]).id@ == id && active[i].capability@
                == capability,
        granted_ids(active, capability).len() <= active.len(),
    decreases active.len(),
{
    let all = granted_ids(active, capability);
    if active.len() > 0 {
        let earlier = active.drop_last();
        let before = granted_ids(earlier, capability);
        law_revocations_take_the_capability_alone(earlier, capability, id);
        if all.contains(id) {
            let k = choose|k: int| 0 <= k < all.len() && all[k] == id;
            if k < before.len() {
                assert(before[k] == id);
                let i = choose|i: int|
                    0 <= i < earlier.len() && (#[trigger] earlier[i]).id@ == id
                        && earlier[i].capability@ == capability;
                assert(active[i] == earlier[i]);
            } else {
                assert(active[active.len() - 1] == active.last());
            }
        }
        if exists|i: int|
            0 <= i < active.len() && (#[trigger] active[i]).id@ == id && active[i].capability@
                == capability {
            let i = choose|i: int|
                0 <= i < active.len() && (#[trigger] active[i]).id@ == id && active[i].capability@
                    == capability;
            if i < earlier.len() {
                assert(earlier[i] == active[i]);
                let k = choose|k: int| 0 <= k < before.len() && before[k] == id;
                assert(all[k] == id);
            } else {
                assert(all[before.len() as int] == id);
            }
        }
    }
}

} // verus!
