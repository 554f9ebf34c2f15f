//! What a reset reports, and the tiers that it comes in.

use vstd::prelude::*;

use super::walk::Footprint;
use super::ResetError;
use crate::answers::{Answer, AuditNote, Conclusion};
use crate::protocol::{
    Failure, FailureCode, OperationTruth, truth_label, truth_name,
};
use crate::split::texts;
use crate::text::{concat2, concat4, decimal, decimal_text, flag_label, flag_name};

verus! {

/// How many entries of one kind go, and with how many bytes.
pub struct ResetItem {
    pub kind: String,
    pub count: u64,
    pub bytes: u64,
    /// The names of the entries, where the owner is told them.
    pub names: Vec<String>,
}

/// What a reset covers, or would cover.
pub struct ResetResult {
    pub scope: String,
    pub dry_run: bool,
    pub items: Vec<ResetItem>,
    pub total_items: u64,
    pub total_bytes: u64,
}

/// The item says this, without names.
pub open spec fn says_item(item: ResetItem, kind: Seq<char>, count: u64, bytes: u64) -> bool {
    &&& item.kind@ == kind
    &&& item.count == count
    &&& item.bytes == bytes
    &&& item.names@.len() == 0
}

pub fn reset_item(kind: &str, count: u64, bytes: u64) -> (item: ResetItem)
    ensures
        says_item(item, kind@, count, bytes),
{
    ResetItem { kind: kind.to_owned(), count, bytes, names: Vec::new() }
}

pub fn footprint_item(kind: &str, footprint: Footprint) -> (item: ResetItem)
    ensures
        says_item(item, kind@, footprint.entries, footprint.bytes),
{
    reset_item(kind, footprint.entries, footprint.bytes)
}

pub fn named_item(kind: &str, footprint: Footprint, names: Vec<String>) -> (item: ResetItem)
    ensures
        item.kind@ == kind@,
        item.count == footprint.entries,
        item.bytes == footprint.bytes,
        item.names == names,
{
    ResetItem { kind: kind.to_owned(), count: footprint.entries, bytes: footprint.bytes, names }
}

// Totals

pub open spec fn sum_of_counts(items: Seq<ResetItem>) -> nat
    decreases items.len(),
{
    if items.len() == 0 {
        0
    } else {
        sum_of_counts(items.drop_last()) + items.last().count as nat
    }
}

pub open spec fn sum_of_bytes(items: Seq<ResetItem>) -> nat
    decreases items.len(),
{
    if items.len() == 0 {
        0
    } else {
        sum_of_bytes(items.drop_last()) + items.last().bytes as nat
    }
}

/// A sum, or the largest number that can be told.
pub open spec fn capped(sum: nat) -> u64 {
    if sum > u64::MAX {
        u64::MAX
    } else {
        sum as u64
    }
}

/// Puts items together, with their totals.
pub fn compose(scope: &str, dry_run: bool, items: Vec<ResetItem>) -> (result: ResetResult)
    ensures
        result.scope@ == scope@,
        result.dry_run == dry_run,
        result.items == items,
        result.total_items == capped(sum_of_counts(items@)),
        result.total_bytes == capped(sum_of_bytes(items@)),
{
    let mut total_items: u64 = 0;
    let mut total_bytes: u64 = 0;
    let mut index: usize = 0;
    while index < items.len()
        invariant
            index <= items@.len(),
            total_items == capped(sum_of_counts(items@.take(index as int))),
            total_bytes == capped(sum_of_bytes(items@.take(index as int))),
        decreases items@.len() - index,
    {
        proof {
            assert(items@.take(index + 1).drop_last() =~= items@.take(index as int));
            assert(items@.take(index + 1).last() == items@[index as int]);
        }
        total_items = total_items.saturating_add(items[index].count);
        total_bytes = total_bytes.saturating_add(items[index].bytes);
        index = index + 1;
    }
    assert(items@.take(items@.len() as int) =~= items@);
    ResetResult { scope: scope.to_owned(), dry_run, items, total_items, total_bytes }
}

// Tiers

/// The scoped resets.
#[derive(Clone, Copy, Debug, PartialEq, Eq, Structural)]
pub enum ResetTier {
    Access,
    Identity,
    History,
    Registry,
}

pub open spec fn tier_name(tier: ResetTier) -> Seq<char> {
    match tier {
        ResetTier::Access => "access"@,
        ResetTier::Identity => "identity"@,
        ResetTier::History => "history"@,
        ResetTier::Registry => "registry"@,
    }
}

impl ResetTier {
    pub fn label(self) -> (label: &'static str)
        ensures
            label@ == tier_name(self),
    {
        match self {
            ResetTier::Access => "access",
            ResetTier::Identity => "identity",
            ResetTier::History => "history",
            ResetTier::Registry => "registry",
        }
    }

    /// Every tier, in the order of a factory reset.
    pub fn all() -> (tiers: [ResetTier; 4])
        ensures
            tiers@ == seq![
                ResetTier::Access,
                ResetTier::Identity,
                ResetTier::History,
                ResetTier::Registry,
            ],
    {
        [ResetTier::Access, ResetTier::Identity, ResetTier::History, ResetTier::Registry]
    }
}

/// The items of an access reset: what was, or would be, dropped.
pub fn access_items(grants: u64, approvals: u64, flow_authorizations: u64) -> (items: Vec<
    ResetItem,
>)
    ensures
        items@.len() == 3,
        says_item(items@[0], "grants"@, grants, 0),
        says_item(items@[1], "approvals"@, approvals, 0),
        says_item(items@[2], "flow_authorizations"@, flow_authorizations, 0),
{
    let mut items: Vec<ResetItem> = Vec::new();
    items.push(reset_item("grants", grants, 0));
    items.push(reset_item("approvals", approvals, 0));
    items.push(reset_item("flow_authorizations", flow_authorizations, 0));
    items
}

/// The items of an identity reset.
pub fn identity_items(callers: u64, files: Footprint, keychain_entries: u64) -> (items: Vec<
    ResetItem,
>)
    ensures
        items@.len() == 3,
        says_item(items@[0], "callers"@, callers, 0),
        says_item(items@[1], "caller_files"@, files.entries, files.bytes),
        says_item(items@[2], "keychain_entries"@, keychain_entries, 0),
{
    let mut items: Vec<ResetItem> = Vec::new();
    items.push(reset_item("callers", callers, 0));
    items.push(footprint_item("caller_files", files));
    items.push(reset_item("keychain_entries", keychain_entries, 0));
    items
}

/// A count, and its bytes.
#[derive(Clone, Copy, Debug, PartialEq, Eq, Structural)]
pub struct ResetTally {
    pub count: u64,
    pub bytes: u64,
}

/// The items say this of the history. `purged` counts the evidence that went,
/// where there was a purge.
pub open spec fn says_history(
    items: Seq<ResetItem>,
    audit_events: ResetTally,
    evidence: ResetTally,
    purged: Option<u64>,
    flow_runs: ResetTally,
) -> bool {
    &&& items.len() == 3
    &&& says_item(items[0], "audit_events"@, audit_events.count, audit_events.bytes)
    &&& says_item(
        items[1],
        "evidence"@,
        (match purged {
            Some(handles) => handles,
            None => evidence.count,
        }),
        evidence.bytes,
    )
    &&& says_item(items[2], "flow_runs"@, flow_runs.count, flow_runs.bytes)
}

/// The items of a history reset. The bytes of the evidence are those of the
/// forecast, since a purge only counts handles.
pub fn history_items(
    audit_events: ResetTally,
    evidence: ResetTally,
    purged: Option<u64>,
    flow_runs: ResetTally,
) -> (items: Vec<ResetItem>)
    ensures
        says_history(items@, audit_events, evidence, purged, flow_runs),
{
    let handles = match purged {
        Some(handles) => handles,
        None => evidence.count,
    };
    let mut items: Vec<ResetItem> = Vec::new();
    items.push(reset_item("audit_events", audit_events.count, audit_events.bytes));
    items.push(reset_item("evidence", handles, evidence.bytes));
    items.push(reset_item("flow_runs", flow_runs.count, flow_runs.bytes));
    items
}

/// The items of a registry reset. No bytes go: the weights stay.
pub fn registry_items(models: u64) -> (items: Vec<ResetItem>)
    ensures
        items@.len() == 1,
        says_item(items@[0], "models"@, models, 0),
{
    let mut items: Vec<ResetItem> = Vec::new();
    items.push(reset_item("models", models, 0));
    items
}

// Identity

/// A caller that was registered, and whether it still is.
pub struct CallerRegistration {
    pub caller_id: String,
    pub revoked_at_ms: Option<u64>,
}

/// The callers that are not revoked, in their order.
pub open spec fn active_of(registrations: Seq<CallerRegistration>) -> Seq<Seq<char>>
    decreases registrations.len(),
{
    if registrations.len() == 0 {
        seq![]
    } else {
        let before = active_of(registrations.drop_last());
        if registrations.last().revoked_at_ms is None {
            before.push(registrations.last().caller_id@)
        } else {
            before
        }
    }
}

/// Lists the callers that an identity reset revokes.
pub fn active_callers(registrations: &Vec<CallerRegistration>) -> (callers: Vec<String>)
    ensures
        texts(callers@) == active_of(registrations@),
{
    let mut callers: Vec<String> = Vec::new();
    let mut index: usize = 0;
    assert(texts(callers@) =~= seq![]);
    while index < registrations.len()
        invariant
            index <= registrations@.len(),
            texts(callers@) == active_of(registrations@.take(index as int)),
        decreases registrations@.len() - index,
    {
        proof {
            assert(registrations@.take(index + 1).drop_last() =~= registrations@.take(
                index as int,
            ));
            assert(registrations@.take(index + 1).last() == registrations@[index as int]);
        }
        if registrations[index].revoked_at_ms.is_none() {
            let ghost before = callers@;
            callers.push(registrations[index].caller_id.clone());
            assert(texts(callers@) =~= texts(before).push(
                registrations@[index as int].caller_id@,
            ));
        }
        index = index + 1;
    }
    assert(registrations@.take(registrations@.len() as int) =~= registrations@);
    callers
}

/// The callers that were ever registered, revoked or not, in their order.
pub open spec fn registered_of(registrations: Seq<CallerRegistration>) -> Seq<Seq<char>> {
    Seq::new(registrations.len(), |i: int| registrations[i].caller_id@)
}

/// Lists the callers whose credentials go with an identity reset: every one
/// that was registered. A revoked caller may still have a credential.
pub fn registered_callers(registrations: &Vec<CallerRegistration>) -> (callers: Vec<String>)
    ensures
        texts(callers@) == registered_of(registrations@),
{
    let mut callers: Vec<String> = Vec::new();
    let mut index: usize = 0;
    while index < registrations.len()
        invariant
            index <= registrations@.len(),
            callers@.len() == index,
            forall|i: int|
                0 <= i < index ==> (#[trigger] callers@[i])@ == registrations@[i].caller_id@,
        decreases registrations@.len() - index,
    {
        callers.push(registrations[index].caller_id.clone());
        index = index + 1;
    }
    assert(texts(callers@) =~= registered_of(registrations@));
    callers
}

/// The registration is revoked once `callers` have been.
pub open spec fn is_revoked_after(registration: CallerRegistration, callers: Seq<Seq<char>>) -> bool {
    registration.revoked_at_ms is Some || callers.contains(registration.caller_id@)
}

/// The callers that still have a credential once those of `callers` are purged.
pub open spec fn credentials_after(credentials: Set<Seq<char>>, callers: Seq<Seq<char>>) -> Set<
    Seq<char>,
> {
    credentials.filter(|caller: Seq<char>| !callers.contains(caller))
}

proof fn lemma_active_are_listed(registrations: Seq<CallerRegistration>, at: int)
    requires
        0 <= at < registrations.len(),
    ensures
        is_revoked_after(registrations[at], active_of(registrations)),
    decreases registrations.len(),
{
    let before = registrations.drop_last();
    let listed = active_of(before);
    if registrations[at].revoked_at_ms is None {
        if at < before.len() {
            lemma_active_are_listed(before, at);
            let i = choose|i: int|
                0 <= i < listed.len() && listed[i] == registrations[at].caller_id@;
            assert(active_of(registrations)[i] == registrations[at].caller_id@);
        } else {
            assert(active_of(registrations)[listed.len() as int] == registrations[at].caller_id@);
        }
    }
}

/// What came of the last action.
#[derive(Clone, Copy, Debug, PartialEq, Eq, Structural)]
pub enum IdentityEvent {
    /// The credentials that are stored, or that were removed.
    Credentials(u64),
    Files(Footprint),
    Revoked,
}

/// Work to perform before the next event. A failure ends the reset.
#[derive(Clone, Copy, Debug, PartialEq, Eq, Structural)]
pub enum IdentityAction {
    CountCredentials,
    MeasureFiles,
    /// Revoke the active caller at this position.
    Revoke(usize),
    PurgeCredentials,
    RemoveFiles,
    Report { callers: u64, files: Footprint, keychain_entries: u64 },
    Ignore,
}

/// What an identity reset is waiting for.
#[derive(Clone, Copy, Debug, PartialEq, Eq, Structural)]
pub enum IdentityPhase {
    Revoking { revoked: usize },
    Credentials,
    Files { keychain_entries: u64 },
    Done,
}

/// An identity reset of `active` callers, or the forecast of one.
#[derive(Clone, Copy, Debug, PartialEq, Eq, Structural)]
pub struct IdentityFacts {
    pub dry_run: bool,
    pub active: usize,
}

pub open spec fn identity_credentials(facts: IdentityFacts) -> (IdentityPhase, IdentityAction) {
    (
        IdentityPhase::Credentials,
        if facts.dry_run {
            IdentityAction::CountCredentials
        } else {
            IdentityAction::PurgeCredentials
        },
    )
}

/// The first action: revoke the first caller, unless this is a forecast.
pub open spec fn identity_start_of(facts: IdentityFacts) -> (IdentityPhase, IdentityAction) {
    if facts.dry_run || facts.active == 0 {
        identity_credentials(facts)
    } else {
        (IdentityPhase::Revoking { revoked: 0 }, IdentityAction::Revoke(0))
    }
}

/// The rule of an identity reset.
pub open spec fn spec_identity_step(
    facts: IdentityFacts,
    phase: IdentityPhase,
    event: IdentityEvent,
) -> (IdentityPhase, IdentityAction) {
    match (phase, event) {
        (IdentityPhase::Revoking { revoked }, IdentityEvent::Revoked) => if revoked + 1
            < facts.active {
            (
                IdentityPhase::Revoking { revoked: (revoked + 1) as usize },
                IdentityAction::Revoke((revoked + 1) as usize),
            )
        } else {
            identity_credentials(facts)
        },
        (IdentityPhase::Credentials, IdentityEvent::Credentials(keychain_entries)) => (
            IdentityPhase::Files { keychain_entries },
            if facts.dry_run {
                IdentityAction::MeasureFiles
            } else {
                IdentityAction::RemoveFiles
            },
        ),
        (IdentityPhase::Files { keychain_entries }, IdentityEvent::Files(files)) => (
            IdentityPhase::Done,
            IdentityAction::Report { callers: facts.active as u64, files, keychain_entries },
        ),
        _ => (phase, IdentityAction::Ignore),
    }
}

fn go_on_to_credentials(facts: IdentityFacts) -> (next: (IdentityPhase, IdentityAction))
    ensures
        next == identity_credentials(facts),
{
    if facts.dry_run {
        (IdentityPhase::Credentials, IdentityAction::CountCredentials)
    } else {
        (IdentityPhase::Credentials, IdentityAction::PurgeCredentials)
    }
}

/// Chooses the first action of an identity reset.
pub fn identity_start(facts: IdentityFacts) -> (next: (IdentityPhase, IdentityAction))
    ensures
        next == identity_start_of(facts),
{
    if facts.dry_run || facts.active == 0 {
        go_on_to_credentials(facts)
    } else {
        (IdentityPhase::Revoking { revoked: 0 }, IdentityAction::Revoke(0))
    }
}

/// Decides what follows `event` in an identity reset.
pub fn identity_step(facts: IdentityFacts, phase: IdentityPhase, event: IdentityEvent) -> (next: (
    IdentityPhase,
    IdentityAction,
))
    ensures
        next == spec_identity_step(facts, phase, event),
{
    match (phase, event) {
        (IdentityPhase::Revoking { revoked }, IdentityEvent::Revoked) => {
            if revoked < facts.active && facts.active - revoked > 1 {
                (
                    IdentityPhase::Revoking { revoked: revoked + 1 },
                    IdentityAction::Revoke(revoked + 1),
                )
            } else {
                go_on_to_credentials(facts)
            }
        },
        (IdentityPhase::Credentials, IdentityEvent::Credentials(keychain_entries)) => {
            let action = if facts.dry_run {
                IdentityAction::MeasureFiles
            } else {
                IdentityAction::RemoveFiles
            };
            (IdentityPhase::Files { keychain_entries }, action)
        },
        (IdentityPhase::Files { keychain_entries }, IdentityEvent::Files(files)) => (
            IdentityPhase::Done,
            IdentityAction::Report { callers: facts.active as u64, files, keychain_entries },
        ),
        _ => (phase, IdentityAction::Ignore),
    }
}

/// Phase and action after `events` of an identity reset.
pub open spec fn identity_run(facts: IdentityFacts, events: Seq<IdentityEvent>) -> (
    IdentityPhase,
    IdentityAction,
)
    decreases events.len(),
{
    if events.len() == 0 {
        identity_start_of(facts)
    } else {
        spec_identity_step(facts, identity_run(facts, events.drop_last()).0, events.last())
    }
}

/// The action changes something.
pub open spec fn identity_changes(action: IdentityAction) -> bool {
    action is Revoke || action == IdentityAction::PurgeCredentials || action
        == IdentityAction::RemoveFiles
}

/// The forecast of an identity reset changes nothing.
pub proof fn law_identity_forecasts_change_nothing(
    facts: IdentityFacts,
    events: Seq<IdentityEvent>,
)
    requires
        facts.dry_run,
    ensures
        !identity_changes(identity_run(facts, events).1),
        !(identity_run(facts, events).0 is Revoking),
    decreases events.len(),
{
    if events.len() > 0 {
        law_identity_forecasts_change_nothing(facts, events.drop_last());
    }
}

/// The events of an identity reset that revokes `revoked` callers first.
pub open spec fn identity_events(revoked: nat, keychain_entries: u64, files: Footprint) -> Seq<
    IdentityEvent,
> {
    Seq::new(revoked, |i: int| IdentityEvent::Revoked).push(
        IdentityEvent::Credentials(keychain_entries),
    ).push(IdentityEvent::Files(files))
}

proof fn lemma_revocations_in_a_row(facts: IdentityFacts, revoked: nat)
    requires
        !facts.dry_run,
        revoked <= facts.active,
    ensures
        identity_run(facts, Seq::new(revoked, |i: int| IdentityEvent::Revoked)) == if revoked
            == facts.active {
            identity_credentials(facts)
        } else {
            (
                IdentityPhase::Revoking { revoked: revoked as usize },
                IdentityAction::Revoke(revoked as usize),
            )
        },
    decreases revoked,
{
    let events = Seq::new(revoked, |i: int| IdentityEvent::Revoked);
    if revoked > 0 {
        let before = (revoked - 1) as nat;
        lemma_revocations_in_a_row(facts, before);
        assert(events.drop_last() =~= Seq::new(before, |i: int| IdentityEvent::Revoked));
    }
}

/// An identity reset reports what its forecast told, where the credentials and
/// files that go are those that were there.
pub proof fn law_identity_forecasts_are_exact(
    active: usize,
    keychain_entries: u64,
    files: Footprint,
)
    ensures
        identity_run(
            IdentityFacts { dry_run: true, active },
            identity_events(0, keychain_entries, files),
        ).1 == (IdentityAction::Report { callers: active as u64, files, keychain_entries }),
        identity_run(
            IdentityFacts { dry_run: false, active },
            identity_events(active as nat, keychain_entries, files),
        ).1 == (IdentityAction::Report { callers: active as u64, files, keychain_entries }),
{
    let forecast = IdentityFacts { dry_run: true, active };
    let reset = IdentityFacts { dry_run: false, active };
    let none = Seq::new(0, |i: int| IdentityEvent::Revoked);
    let all = Seq::new(active as nat, |i: int| IdentityEvent::Revoked);
    let credentials = IdentityEvent::Credentials(keychain_entries);
    lemma_revocations_in_a_row(reset, active as nat);
    assert(none =~= Seq::<IdentityEvent>::empty());
    assert(identity_run(forecast, none) == identity_credentials(forecast));
    assert(none.push(credentials).drop_last() =~= none);
    assert(identity_run(forecast, none.push(credentials)).0 == (IdentityPhase::Files {
        keychain_entries,
    }));
    assert(all.push(credentials).drop_last() =~= all);
    assert(identity_run(reset, all.push(credentials)).0 == (IdentityPhase::Files {
        keychain_entries,
    }));
    assert(identity_events(0, keychain_entries, files).drop_last() =~= none.push(credentials));
    assert(identity_events(active as nat, keychain_entries, files).drop_last() =~= all.push(
        credentials,
    ));
}

/// An identity reset reaches every caller that was registered. Each active one
/// has its turn to be revoked, so that all are revoked in the end; then the
/// credential of every one of them goes, also of those that were revoked
/// before, and no other; then the files go.
pub proof fn law_identity_resets_reach_every_caller(
    registrations: Seq<CallerRegistration>,
    credentials: Set<Seq<char>>,
    active: usize,
    keychain_entries: u64,
)
    requires
        active == active_of(registrations).len(),
    ensures
        ({
            let facts = IdentityFacts { dry_run: false, active };
            let revoked = |count: nat| Seq::new(count, |i: int| IdentityEvent::Revoked);
            let left = credentials_after(credentials, registered_of(registrations));
            &&& forall|k: nat|
                k < active ==> (#[trigger] identity_run(facts, revoked(k))).1
                    == IdentityAction::Revoke(k as usize)
            &&& identity_run(facts, revoked(active as nat)).1 == IdentityAction::PurgeCredentials
            &&& identity_run(
                facts,
                revoked(active as nat).push(IdentityEvent::Credentials(keychain_entries)),
            ).1 == IdentityAction::RemoveFiles
            &&& forall|i: int|
                0 <= i < registrations.len() ==> is_revoked_after(
                    #[trigger] registrations[i],
                    active_of(registrations),
                ) && !left.contains(registrations[i].caller_id@)
            &&& forall|caller: Seq<char>|
                !registered_of(registrations).contains(caller) ==> (#[trigger] left.contains(caller)
                    <==> credentials.contains(caller))
        }),
{
    let facts = IdentityFacts { dry_run: false, active };
    let revoked = |count: nat| Seq::new(count, |i: int| IdentityEvent::Revoked);
    let left = credentials_after(credentials, registered_of(registrations));
    assert forall|k: nat| k < active implies (#[trigger] identity_run(facts, revoked(k))).1
        == IdentityAction::Revoke(k as usize) by {
        lemma_revocations_in_a_row(facts, k);
    }
    lemma_revocations_in_a_row(facts, active as nat);
    let all = revoked(active as nat);
    assert(all.push(IdentityEvent::Credentials(keychain_entries)).drop_last() =~= all);
    assert forall|i: int| 0 <= i < registrations.len() implies is_revoked_after(
        #[trigger] registrations[i],
        active_of(registrations),
    ) && !left.contains(registrations[i].caller_id@) by {
        lemma_active_are_listed(registrations, i);
        assert(registered_of(registrations)[i] == registrations[i].caller_id@);
    }
}

// Evidence

/// The most evidence that one round of a purge removes.
pub const EVIDENCE_PURGE_PAGE: u32 = 1_000;

/// The most rounds of a purge.
pub const EVIDENCE_PURGE_ROUNDS: u32 = 8_192;

/// A purge of evidence, round by round.
#[derive(Clone, Copy, Debug, PartialEq, Eq, Structural)]
pub struct EvidencePurge {
    pub rounds: u32,
    pub handles: u64,
}

impl EvidencePurge {
    pub fn new() -> (purge: EvidencePurge)
        ensures
            purge == (EvidencePurge { rounds: 0, handles: 0 }),
    {
        EvidencePurge { rounds: 0, handles: 0 }
    }

    /// Counts a round, and tells whether there is another. A purge ends where
    /// the store has nothing more, and after the last round in any case.
    pub fn round(&mut self, handles_deleted: u32, has_more: bool) -> (again: bool)
        requires
            old(self).rounds < EVIDENCE_PURGE_ROUNDS,
        ensures
            final(self).rounds == old(self).rounds + 1,
            final(self).handles == capped((old(self).handles + handles_deleted) as nat),
            forall|rounds: Seq<u32>|
                old(self).handles == purged_in(rounds) ==> final(self).handles == #[trigger] purged_in(
                    rounds.push(handles_deleted),
                ),
            again == (has_more && final(self).rounds < EVIDENCE_PURGE_ROUNDS),
    {
        self.rounds = self.rounds + 1;
        self.handles = self.handles.saturating_add(handles_deleted as u64);
        assert forall|rounds: Seq<u32>| old(self).handles == purged_in(rounds) implies self.handles
            == #[trigger] purged_in(rounds.push(handles_deleted)) by {
            assert(rounds.push(handles_deleted).drop_last() =~= rounds);
        }
        has_more && self.rounds < EVIDENCE_PURGE_ROUNDS
    }
}

/// The evidence that went in the rounds of a purge.
pub open spec fn deleted_in(rounds: Seq<u32>) -> nat
    decreases rounds.len(),
{
    if rounds.len() == 0 {
        0
    } else {
        deleted_in(rounds.drop_last()) + rounds.last() as nat
    }
}

/// What a purge has counted after these rounds.
pub open spec fn purged_in(rounds: Seq<u32>) -> u64
    decreases rounds.len(),
{
    if rounds.len() == 0 {
        0
    } else {
        capped((purged_in(rounds.drop_last()) + rounds.last()) as nat)
    }
}

proof fn lemma_purge_counts_what_goes(rounds: Seq<u32>)
    ensures
        purged_in(rounds) == capped(deleted_in(rounds)),
    decreases rounds.len(),
{
    if rounds.len() > 0 {
        lemma_purge_counts_what_goes(rounds.drop_last());
    }
}

/// The items tell the owner the same.
pub open spec fn same_item(item: ResetItem, other: ResetItem) -> bool {
    &&& item.kind@ == other.kind@
    &&& item.count == other.count
    &&& item.bytes == other.bytes
    &&& texts(item.names@) == texts(other.names@)
}

/// A history reset reports what its forecast told, where the evidence that goes
/// round by round is what was tallied.
pub proof fn law_history_forecasts_are_exact(
    forecast: Seq<ResetItem>,
    items: Seq<ResetItem>,
    audit_events: ResetTally,
    evidence: ResetTally,
    rounds: Seq<u32>,
    flow_runs: ResetTally,
)
    requires
        says_history(forecast, audit_events, evidence, None, flow_runs),
        says_history(items, audit_events, evidence, Some(purged_in(rounds)), flow_runs),
        deleted_in(rounds) == evidence.count,
    ensures
        items.len() == forecast.len(),
        forall|i: int| 0 <= i < items.len() ==> same_item(#[trigger] items[i], forecast[i]),
{
    lemma_purge_counts_what_goes(rounds);
    assert forall|i: int| 0 <= i < items.len() implies same_item(
        #[trigger] items[i],
        forecast[i],
    ) by {
        assert(texts(items[i].names@) =~= texts(forecast[i].names@));
    }
}

// Answers

/// The items in an audit detail.
pub open spec fn items_detail(items: Seq<ResetItem>) -> Seq<char>
    decreases items.len(),
{
    if items.len() == 0 {
        seq![]
    } else {
        items_detail(items.drop_last()) + (" "@ + items.last().kind@ + "="@ + decimal(
            items.last().count as nat,
        ))
    }
}

/// The audit detail of a reset.
pub open spec fn reset_detail(result: ResetResult) -> Seq<char> {
    "scope="@ + result.scope@ + " dry_run="@ + flag_name(result.dry_run) + " items="@ + decimal(
        result.total_items as nat,
    ) + " bytes="@ + decimal(result.total_bytes as nat) + items_detail(result.items@)
}

/// Writes the audit detail of a reset.
pub fn reset_audit_detail(result: &ResetResult) -> (detail: String)
    ensures
        detail@ == reset_detail(*result),
{
    let flag = flag_label(result.dry_run);
    let count = decimal_text(result.total_items);
    let bytes = decimal_text(result.total_bytes);
    let mut detail = concat4("scope=", result.scope.as_str(), " dry_run=", flag);
    detail.append(" items=");
    detail.append(count.as_str());
    detail.append(" bytes=");
    detail.append(bytes.as_str());
    let ghost start = detail@;
    let mut index: usize = 0;
    assert(result.items@.take(0) =~= Seq::<ResetItem>::empty());
    assert(start + items_detail(result.items@.take(0)) =~= start);
    while index < result.items.len()
        invariant
            index <= result.items@.len(),
            detail@ == start + items_detail(result.items@.take(index as int)),
        decreases result.items@.len() - index,
    {
        let entry = &result.items[index];
        let number = decimal_text(entry.count);
        let part = concat4(" ", entry.kind.as_str(), "=", number.as_str());
        proof {
            let next = result.items@.take(index + 1);
            assert(next.drop_last() =~= result.items@.take(index as int));
            assert(next.last() == *entry);
            assert(start + items_detail(next) =~= start + items_detail(
                result.items@.take(index as int),
            ) + part@);
        }
        detail.append(part.as_str());
        index = index + 1;
    }
    assert(result.items@.take(result.items@.len() as int) =~= result.items@);
    detail
}

/// What a reset claims: a forecast observes, and a reset changes.
pub open spec fn reset_truth(dry_run: bool) -> OperationTruth {
    if dry_run {
        OperationTruth::Observed
    } else {
        OperationTruth::Changed
    }
}

/// Concludes a tier that ran, or that was forecast.
pub fn reset_conclusion(tier: ResetTier, dry_run: bool, result: ResetResult) -> (conclusion:
    Conclusion<ResetResult>)
    ensures
        conclusion.audit.says(
            "reset"@,
            "reset."@ + tier_name(tier),
            if dry_run {
                "observe"@
            } else {
                "allow"@
            },
            truth_name(reset_truth(dry_run)),
            reset_detail(result),
        ),
        conclusion.answer == (Answer::Success { truth: reset_truth(dry_run), payload: result }),
{
    let truth = if dry_run {
        OperationTruth::Observed
    } else {
        OperationTruth::Changed
    };
    let decision = if dry_run {
        "observe"
    } else {
        "allow"
    };
    let detail = reset_audit_detail(&result);
    Conclusion {
        audit: AuditNote {
            purpose: "reset".to_owned(),
            action: concat2("reset.", tier.label()),
            decision: decision.to_owned(),
            outcome: truth_label(truth).to_owned(),
            detail,
        },
        answer: Answer::Success { truth, payload: result },
    }
}

/// The failure of a tier that did not run.
pub fn reset_failure(error: &ResetError) -> (failure: Failure)
    ensures
        failure.says(
            super::reset_failure_code(*error),
            super::reset_error_text(*error),
            super::reset_recovery(*error),
        ),
{
    let code = error.failure_code();
    let message = error.message();
    match error.recovery() {
        Some(recovery) => Failure::recoverable(code, message.as_str(), recovery.as_str()),
        None => Failure::new(code, message.as_str()),
    }
}

/// A forecast only observes; a reset changes.
pub proof fn law_only_resets_claim_a_change(dry_run: bool)
    ensures
        reset_truth(dry_run) == OperationTruth::Changed <==> !dry_run,
        reset_truth(dry_run) == OperationTruth::Observed <==> dry_run,
{
}

/// Each tier goes by its own name.
pub proof fn law_tiers_have_their_own_names(tier: ResetTier)
    ensures
        tier_name(tier) == "access"@ <==> tier == ResetTier::Access,
        tier_name(tier) == "identity"@ <==> tier == ResetTier::Identity,
        tier_name(tier) == "history"@ <==> tier == ResetTier::History,
        tier_name(tier) == "registry"@ <==> tier == ResetTier::Registry,
{
    reveal_strlit("access");
    reveal_strlit("identity");
    reveal_strlit("history");
    reveal_strlit("registry");
    assert("access"@[0] == 'a' && "identity"@[0] == 'i' && "history"@[0] == 'h' && "registry"@[0]
        == 'r');
}

/// A caller is among the active ones exactly where one of its registrations is
/// not revoked.
pub proof fn law_active_callers_are_not_revoked(
    registrations: Seq<CallerRegistration>,
    caller: Seq<char>,
)
    ensures
        active_of(registrations).contains(caller) <==> exists|i: int|
            0 <= i < registrations.len() && (#[trigger] registrations[i]).caller_id@ == caller
                && registrations[i].revoked_at_ms is None,
        active_of(registrations).len() <= registrations.len(),
    decreases registrations.len(),
{
    if registrations.len() > 0 {
        let before = registrations.drop_last();
        let last = registrations.last();
        law_active_callers_are_not_revoked(before, caller);
        let listed = active_of(before);
        if exists|i: int|
            0 <= i < registrations.len() && (#[trigger] registrations[i]).caller_id@ == caller
                && registrations[i].revoked_at_ms is None {
            let i = choose|i: int|
                0 <= i < registrations.len() && (#[trigger] registrations[i]).caller_id@ == caller
                    && registrations[i].revoked_at_ms is None;
            if i < before.len() {
                assert(before[i] == registrations[i]);
                let k = choose|k: int| 0 <= k < listed.len() && listed[k] == caller;
                assert(active_of(registrations)[k] == caller);
            } else {
                assert(active_of(registrations)[listed.len() as int] == caller);
            }
        }
        if active_of(registrations).contains(caller) {
            let k = choose|k: int|
                0 <= k < active_of(registrations).len() && active_of(registrations)[k] == caller;
            if k < listed.len() {
                assert(listed[k] == caller);
                let i = choose|i: int|
                    0 <= i < before.len() && (#[trigger] before[i]).caller_id@ == caller
                        && before[i].revoked_at_ms is None;
                assert(registrations[i] == before[i]);
            } else {
                assert(registrations[registrations.len() - 1].caller_id@ == caller);
            }
        }
    }
}

// Identity resets, told by what came of them alone

/// The event can come of the action.
pub open spec fn identity_fits(action: IdentityAction, event: IdentityEvent) -> bool {
    match action {
        IdentityAction::Revoke(_) => event is Revoked,
        IdentityAction::CountCredentials | IdentityAction::PurgeCredentials => event is Credentials,
        IdentityAction::MeasureFiles | IdentityAction::RemoveFiles => event is Files,
        _ => false,
    }
}

/// Every one of `events` came of the action before it.
pub open spec fn identity_told(facts: IdentityFacts, events: Seq<IdentityEvent>) -> bool
    decreases events.len(),
{
    events.len() == 0 || {
        &&& identity_told(facts, events.drop_last())
        &&& identity_fits(identity_run(facts, events.drop_last()).1, events.last())
    }
}

spec fn identity_waits(
    facts: IdentityFacts,
    phase: IdentityPhase,
    action: IdentityAction,
    events: Seq<IdentityEvent>,
) -> bool {
    match phase {
        IdentityPhase::Revoking { revoked } => action == IdentityAction::Revoke(revoked)
            && !facts.dry_run && revoked < facts.active,
        IdentityPhase::Credentials => action == if facts.dry_run {
            IdentityAction::CountCredentials
        } else {
            IdentityAction::PurgeCredentials
        },
        IdentityPhase::Files { keychain_entries } => {
            &&& action == if facts.dry_run {
                IdentityAction::MeasureFiles
            } else {
                IdentityAction::RemoveFiles
            }
            &&& events.len() > 0 && events.last() == IdentityEvent::Credentials(keychain_entries)
        },
        IdentityPhase::Done => action is Report,
    }
}

proof fn lemma_identity_told(facts: IdentityFacts, events: Seq<IdentityEvent>)
    requires
        identity_told(facts, events),
    ensures
        identity_waits(
            facts,
            identity_run(facts, events).0,
            identity_run(facts, events).1,
            events,
        ),
    decreases events.len(),
{
    if events.len() > 0 {
        lemma_identity_told(facts, events.drop_last());
    }
}

/// An identity reset revokes one caller after the other, from the first to the
/// last, then purges the credentials, then removes the files; a forecast only
/// counts and measures. The report tells what came back: the callers, the
/// credentials and the files.
pub proof fn law_identity_resets_go_in_order(facts: IdentityFacts, events: Seq<IdentityEvent>)
    requires
        identity_told(facts, events),
    ensures
        events.len() == 0 ==> identity_run(facts, events).1 == if facts.dry_run {
            IdentityAction::CountCredentials
        } else if facts.active > 0 {
            IdentityAction::Revoke(0)
        } else {
            IdentityAction::PurgeCredentials
        },
        events.len() > 0 ==> {
            let asked = identity_run(facts, events.drop_last()).1;
            let next = identity_run(facts, events).1;
            let last = events.last();
            &&& asked matches IdentityAction::Revoke(at) ==> next == if at + 1 < facts.active {
                IdentityAction::Revoke((at + 1) as usize)
            } else {
                IdentityAction::PurgeCredentials
            }
            &&& next is Revoke || next == IdentityAction::PurgeCredentials <==> last
                == IdentityEvent::Revoked
            &&& next == IdentityAction::RemoveFiles <==> last is Credentials && !facts.dry_run
            &&& next == IdentityAction::MeasureFiles <==> last is Credentials && facts.dry_run
            &&& next is Report <==> last is Files
            &&& next matches IdentityAction::Report { callers, files, keychain_entries } ==> {
                &&& callers == facts.active
                &&& last == IdentityEvent::Files(files)
                &&& events.len() > 1 && events[events.len() - 2] == IdentityEvent::Credentials(
                    keychain_entries,
                )
            }
            &&& next != IdentityAction::Ignore
        },
{
    lemma_identity_told(facts, events);
    if events.len() > 0 {
        let before = events.drop_last();
        lemma_identity_told(facts, before);
        if before.len() > 0 {
            assert(before.last() == events[events.len() - 2]);
        }
    }
}

/// What did not come of what was asked is passed over and changes nothing, and
/// once an identity reset is over it is not taken up again.
pub proof fn law_stray_reports_are_passed_over(
    facts: IdentityFacts,
    events: Seq<IdentityEvent>,
    event: IdentityEvent,
)
    requires
        identity_told(facts, events),
        !identity_fits(identity_run(facts, events).1, event),
    ensures
        identity_run(facts, events.push(event)).1 == IdentityAction::Ignore,
        identity_run(facts, events.push(event)).0 == identity_run(facts, events).0,
{
    lemma_identity_told(facts, events);
    assert(events.push(event).drop_last() =~= events);
}

/// The record of a reset tells its scope, whether it was a forecast, its totals
/// and the count of every item, in their order.
pub proof fn law_records_tell_every_item(
    result: ResetResult,
    items: Seq<ResetItem>,
    item: ResetItem,
)
    ensures
        reset_detail(result) == "scope="@ + result.scope@ + " dry_run="@ + flag_name(result.dry_run)
            + " items="@ + decimal(result.total_items as nat) + " bytes="@ + decimal(
            result.total_bytes as nat,
        ) + items_detail(result.items@),
        items_detail(items.push(item)) == items_detail(items) + (" "@ + item.kind@ + "="@ + decimal(
            item.count as nat,
        )),
        items_detail(Seq::<ResetItem>::empty()) == Seq::<char>::empty(),
{
    assert(items.push(item).drop_last() =~= items);
}

/// A purge removes a thousand pieces of evidence in a round, and has rounds for
/// eight million.
pub proof fn law_purges_have_rounds_enough()
    ensures
        EVIDENCE_PURGE_PAGE == 1_000,
        EVIDENCE_PURGE_PAGE * EVIDENCE_PURGE_ROUNDS == 8_192_000,
{
}

} // verus!
