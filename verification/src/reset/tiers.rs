//! The course of a tier: what is counted, or dropped, and what is reported.

use vstd::prelude::*;

use super::items::{
    EVIDENCE_PURGE_ROUNDS, EvidencePurge, IdentityAction, IdentityEvent, IdentityFacts,
    IdentityPhase, ResetItem, ResetTally, ResetTier, access_items, capped, deleted_in,
    history_items, identity_changes, identity_fits, identity_items, identity_start, identity_start_of,
    identity_step, registry_items, says_item, spec_identity_step, sum_of_bytes,
    sum_of_counts,
};
use super::walk::Footprint;

verus! {

/// What came of the last action. A failure ends the reset.
#[derive(Clone, Copy, Debug, PartialEq, Eq, Structural)]
pub enum TierEvent {
    /// What is there, or what was dropped.
    Access { grants: u64, approvals: u64, flow_authorizations: u64 },
    /// How many callers are active.
    Callers(usize),
    Identity(IdentityEvent),
    Evidence(ResetTally),
    /// What is there, or what was dropped.
    History { audit_events: ResetTally, flow_runs: ResetTally },
    /// The evidence that went in one round, and whether there is more.
    Purged { handles: u32, has_more: bool },
    /// The models that are registered, or that were.
    Models(u64),
}

/// What a tier reports.
#[derive(Clone, Copy, Debug, PartialEq, Eq, Structural)]
pub enum TierCounts {
    Access { grants: u64, approvals: u64, flow_authorizations: u64 },
    Identity { callers: u64, files: Footprint, keychain_entries: u64 },
    History {
        audit_events: ResetTally,
        evidence: ResetTally,
        purged: Option<u64>,
        flow_runs: ResetTally,
    },
    Registry { models: u64 },
}

/// Work to perform before the next event.
#[derive(Clone, Copy, Debug, PartialEq, Eq, Structural)]
pub enum TierAction {
    CountAccess,
    DropAccess,
    ListCallers,
    Identity(IdentityAction),
    CountEvidence,
    CountHistory,
    DropHistory,
    /// Remove one page of evidence.
    PurgeEvidence,
    CountModels,
    DropModels,
    Report(TierCounts),
    Ignore,
}

/// What a tier is waiting for.
#[derive(Clone, Copy, Debug, PartialEq, Eq, Structural)]
pub enum TierPhase {
    Access,
    Callers,
    Identity { active: usize, phase: IdentityPhase },
    Evidence,
    History { evidence: ResetTally },
    Purging {
        evidence: ResetTally,
        audit_events: ResetTally,
        flow_runs: ResetTally,
        purge: EvidencePurge,
    },
    Registry,
    Done,
}

/// A tier, or the forecast of one.
#[derive(Clone, Copy, Debug, PartialEq, Eq, Structural)]
pub struct TierFacts {
    pub tier: ResetTier,
    pub dry_run: bool,
}

/// The first action of a tier.
pub open spec fn tier_start_of(facts: TierFacts) -> (TierPhase, TierAction) {
    match facts.tier {
        ResetTier::Access => (
            TierPhase::Access,
            if facts.dry_run {
                TierAction::CountAccess
            } else {
                TierAction::DropAccess
            },
        ),
        ResetTier::Identity => (TierPhase::Callers, TierAction::ListCallers),
        ResetTier::History => (TierPhase::Evidence, TierAction::CountEvidence),
        ResetTier::Registry => (
            TierPhase::Registry,
            if facts.dry_run {
                TierAction::CountModels
            } else {
                TierAction::DropModels
            },
        ),
    }
}

pub open spec fn tier_reports(counts: TierCounts) -> (TierPhase, TierAction) {
    (TierPhase::Done, TierAction::Report(counts))
}

/// An identity reset goes on.
pub open spec fn identity_goes_on(active: usize, next: (IdentityPhase, IdentityAction)) -> (
    TierPhase,
    TierAction,
) {
    match next.1 {
        IdentityAction::Report { callers, files, keychain_entries } => tier_reports(
            TierCounts::Identity { callers, files, keychain_entries },
        ),
        _ => (TierPhase::Identity { active, phase: next.0 }, TierAction::Identity(next.1)),
    }
}

/// The purge after one more round.
pub open spec fn purge_after(purge: EvidencePurge, handles: u32) -> EvidencePurge {
    EvidencePurge {
        rounds: (purge.rounds + 1) as u32,
        handles: capped((purge.handles + handles) as nat),
    }
}

/// The rule of a tier.
pub open spec fn spec_tier_step(facts: TierFacts, phase: TierPhase, event: TierEvent) -> (
    TierPhase,
    TierAction,
) {
    match (phase, event) {
        (TierPhase::Access, TierEvent::Access { grants, approvals, flow_authorizations }) =>
            tier_reports(TierCounts::Access { grants, approvals, flow_authorizations }),
        (TierPhase::Callers, TierEvent::Callers(active)) => identity_goes_on(
            active,
            identity_start_of(IdentityFacts { dry_run: facts.dry_run, active }),
        ),
        (TierPhase::Identity { active, phase: at }, TierEvent::Identity(what)) => identity_goes_on(
            active,
            spec_identity_step(IdentityFacts { dry_run: facts.dry_run, active }, at, what),
        ),
        (TierPhase::Evidence, TierEvent::Evidence(evidence)) => (
            TierPhase::History { evidence },
            if facts.dry_run {
                TierAction::CountHistory
            } else {
                TierAction::DropHistory
            },
        ),
        (TierPhase::History { evidence }, TierEvent::History { audit_events, flow_runs }) =>
            if facts.dry_run {
                tier_reports(
                    TierCounts::History { audit_events, evidence, purged: None, flow_runs },
                )
            } else {
                (
                    TierPhase::Purging {
                        evidence,
                        audit_events,
                        flow_runs,
                        purge: EvidencePurge { rounds: 0, handles: 0 },
                    },
                    TierAction::PurgeEvidence,
                )
            },
        (
            TierPhase::Purging { evidence, audit_events, flow_runs, purge },
            TierEvent::Purged { handles, has_more },
        ) => if purge.rounds >= EVIDENCE_PURGE_ROUNDS {
            (phase, TierAction::Ignore)
        } else if has_more && purge.rounds + 1 < EVIDENCE_PURGE_ROUNDS {
            (
                TierPhase::Purging {
                    evidence,
                    audit_events,
                    flow_runs,
                    purge: purge_after(purge, handles),
                },
                TierAction::PurgeEvidence,
            )
        } else {
            tier_reports(
                TierCounts::History {
                    audit_events,
                    evidence,
                    purged: Some(purge_after(purge, handles).handles),
                    flow_runs,
                },
            )
        },
        (TierPhase::Registry, TierEvent::Models(models)) => tier_reports(
            TierCounts::Registry { models },
        ),
        _ => (phase, TierAction::Ignore),
    }
}

/// Chooses the first action of a tier.
pub fn tier_start(facts: TierFacts) -> (next: (TierPhase, TierAction))
    ensures
        next == tier_start_of(facts),
{
    match (facts.tier, facts.dry_run) {
        (ResetTier::Access, true) => (TierPhase::Access, TierAction::CountAccess),
        (ResetTier::Access, false) => (TierPhase::Access, TierAction::DropAccess),
        (ResetTier::Identity, _) => (TierPhase::Callers, TierAction::ListCallers),
        (ResetTier::History, _) => (TierPhase::Evidence, TierAction::CountEvidence),
        (ResetTier::Registry, true) => (TierPhase::Registry, TierAction::CountModels),
        (ResetTier::Registry, false) => (TierPhase::Registry, TierAction::DropModels),
    }
}

fn go_on_with_identity(active: usize, next: (IdentityPhase, IdentityAction)) -> (after: (
    TierPhase,
    TierAction,
))
    ensures
        after == identity_goes_on(active, next),
{
    match next.1 {
        IdentityAction::Report { callers, files, keychain_entries } => (
            TierPhase::Done,
            TierAction::Report(TierCounts::Identity { callers, files, keychain_entries }),
        ),
        _ => (TierPhase::Identity { active, phase: next.0 }, TierAction::Identity(next.1)),
    }
}

/// Decides what follows `event` in a tier.
pub fn tier_step(facts: TierFacts, phase: TierPhase, event: TierEvent) -> (next: (
    TierPhase,
    TierAction,
))
    ensures
        next == spec_tier_step(facts, phase, event),
{
    match (phase, event) {
        (TierPhase::Access, TierEvent::Access { grants, approvals, flow_authorizations }) => (
            TierPhase::Done,
            TierAction::Report(TierCounts::Access { grants, approvals, flow_authorizations }),
        ),
        (TierPhase::Callers, TierEvent::Callers(active)) => go_on_with_identity(
            active,
            identity_start(IdentityFacts { dry_run: facts.dry_run, active }),
        ),
        (TierPhase::Identity { active, phase: at }, TierEvent::Identity(what)) => {
            go_on_with_identity(
                active,
                identity_step(IdentityFacts { dry_run: facts.dry_run, active }, at, what),
            )
        },
        (TierPhase::Evidence, TierEvent::Evidence(evidence)) => {
            let action = if facts.dry_run {
                TierAction::CountHistory
            } else {
                TierAction::DropHistory
            };
            (TierPhase::History { evidence }, action)
        },
        (TierPhase::History { evidence }, TierEvent::History { audit_events, flow_runs }) => {
            if facts.dry_run {
                let counts = TierCounts::History {
                    audit_events,
                    evidence,
                    purged: None,
                    flow_runs,
                };
                (TierPhase::Done, TierAction::Report(counts))
            } else {
                let purge = EvidencePurge::new();
                (
                    TierPhase::Purging { evidence, audit_events, flow_runs, purge },
                    TierAction::PurgeEvidence,
                )
            }
        },
        (
            TierPhase::Purging { evidence, audit_events, flow_runs, purge },
            TierEvent::Purged { handles, has_more },
        ) => {
            if purge.rounds >= EVIDENCE_PURGE_ROUNDS {
                return (phase, TierAction::Ignore);
            }
            let mut purge = purge;
            if purge.round(handles, has_more) {
                (
                    TierPhase::Purging { evidence, audit_events, flow_runs, purge },
                    TierAction::PurgeEvidence,
                )
            } else {
                let counts = TierCounts::History {
                    audit_events,
                    evidence,
                    purged: Some(purge.handles),
                    flow_runs,
                };
                (TierPhase::Done, TierAction::Report(counts))
            }
        },
        (TierPhase::Registry, TierEvent::Models(models)) => (
            TierPhase::Done,
            TierAction::Report(TierCounts::Registry { models }),
        ),
        _ => (phase, TierAction::Ignore),
    }
}

/// What an item tells.
pub ghost struct Line {
    pub kind: Seq<char>,
    pub count: u64,
    pub bytes: u64,
}

pub open spec fn line(kind: Seq<char>, count: u64, bytes: u64) -> Line {
    Line { kind, count, bytes }
}

/// What the items of a tier tell.
pub open spec fn lines_of(counts: TierCounts) -> Seq<Line> {
    match counts {
        TierCounts::Access { grants, approvals, flow_authorizations } => seq![
            line("grants"@, grants, 0),
            line("approvals"@, approvals, 0),
            line("flow_authorizations"@, flow_authorizations, 0),
        ],
        TierCounts::Identity { callers, files, keychain_entries } => seq![
            line("callers"@, callers, 0),
            line("caller_files"@, files.entries, files.bytes),
            line("keychain_entries"@, keychain_entries, 0),
        ],
        TierCounts::History { audit_events, evidence, purged, flow_runs } => seq![
            line("audit_events"@, audit_events.count, audit_events.bytes),
            line(
                "evidence"@,
                match purged {
                    Some(handles) => handles,
                    None => evidence.count,
                },
                evidence.bytes,
            ),
            line("flow_runs"@, flow_runs.count, flow_runs.bytes),
        ],
        TierCounts::Registry { models } => seq![line("models"@, models, 0)],
    }
}

/// The items tell these lines.
pub open spec fn tells(items: Seq<ResetItem>, lines: Seq<Line>) -> bool {
    &&& items.len() == lines.len()
    &&& forall|i: int|
        0 <= i < lines.len() ==> says_item(
            #[trigger] items[i],
            lines[i].kind,
            lines[i].count,
            lines[i].bytes,
        )
}

/// Writes the items of a tier.
pub fn tier_items(counts: TierCounts) -> (items: Vec<ResetItem>)
    ensures
        tells(items@, lines_of(counts)),
{
    match counts {
        TierCounts::Access { grants, approvals, flow_authorizations } => access_items(
            grants,
            approvals,
            flow_authorizations,
        ),
        TierCounts::Identity { callers, files, keychain_entries } => identity_items(
            callers,
            files,
            keychain_entries,
        ),
        TierCounts::History { audit_events, evidence, purged, flow_runs } => history_items(
            audit_events,
            evidence,
            purged,
            flow_runs,
        ),
        TierCounts::Registry { models } => registry_items(models),
    }
}

// What there is, and what a tier does to it

/// What the tiers cover.
pub ghost struct Holdings {
    pub grants: u64,
    pub approvals: u64,
    pub flow_authorizations: u64,
    /// The callers that are not revoked.
    pub active: usize,
    pub keychain_entries: u64,
    pub caller_files: Footprint,
    pub audit_events: ResetTally,
    pub flow_runs: ResetTally,
    /// The pages in which the evidence goes, the first one last.
    pub evidence_pages: Seq<u32>,
    pub evidence_bytes: u64,
    pub models: u64,
}

pub open spec fn nothing() -> ResetTally {
    ResetTally { count: 0, bytes: 0 }
}

/// The evidence as it is tallied.
pub open spec fn evidence_of(holdings: Holdings) -> ResetTally {
    ResetTally {
        count: capped(deleted_in(holdings.evidence_pages)),
        bytes: holdings.evidence_bytes,
    }
}

/// What an action does to what there is, and what comes of it.
pub open spec fn performed(holdings: Holdings, action: TierAction) -> (Holdings, TierEvent) {
    let access = TierEvent::Access {
        grants: holdings.grants,
        approvals: holdings.approvals,
        flow_authorizations: holdings.flow_authorizations,
    };
    let history = TierEvent::History {
        audit_events: holdings.audit_events,
        flow_runs: holdings.flow_runs,
    };
    let credentials = TierEvent::Identity(IdentityEvent::Credentials(holdings.keychain_entries));
    let files = TierEvent::Identity(IdentityEvent::Files(holdings.caller_files));
    let pages = holdings.evidence_pages;
    match action {
        TierAction::CountAccess => (holdings, access),
        TierAction::DropAccess => (
            Holdings { grants: 0, approvals: 0, flow_authorizations: 0, ..holdings },
            access,
        ),
        TierAction::ListCallers => (holdings, TierEvent::Callers(holdings.active)),
        TierAction::Identity(IdentityAction::Revoke(_)) => (
            Holdings { active: (holdings.active - 1) as usize, ..holdings },
            TierEvent::Identity(IdentityEvent::Revoked),
        ),
        TierAction::Identity(IdentityAction::CountCredentials) => (holdings, credentials),
        TierAction::Identity(IdentityAction::PurgeCredentials) => (
            Holdings { keychain_entries: 0, ..holdings },
            credentials,
        ),
        TierAction::Identity(IdentityAction::MeasureFiles) => (holdings, files),
        TierAction::Identity(IdentityAction::RemoveFiles) => (
            Holdings { caller_files: Footprint { entries: 0, bytes: 0 }, ..holdings },
            files,
        ),
        TierAction::CountEvidence => (holdings, TierEvent::Evidence(evidence_of(holdings))),
        TierAction::CountHistory => (holdings, history),
        TierAction::DropHistory => (
            Holdings { audit_events: nothing(), flow_runs: nothing(), ..holdings },
            history,
        ),
        TierAction::PurgeEvidence => (
            Holdings {
                evidence_pages: if pages.len() == 0 {
                    pages
                } else {
                    pages.drop_last()
                },
                evidence_bytes: if pages.len() <= 1 {
                    0
                } else {
                    holdings.evidence_bytes
                },
                ..holdings
            },
            TierEvent::Purged {
                handles: if pages.len() == 0 {
                    0
                } else {
                    pages.last()
                },
                has_more: pages.len() > 1,
            },
        ),
        TierAction::CountModels => (holdings, TierEvent::Models(holdings.models)),
        TierAction::DropModels => (
            Holdings { models: 0, ..holdings },
            TierEvent::Models(holdings.models),
        ),
        _ => (holdings, TierEvent::Callers(holdings.active)),
    }
}

/// A tier under way.
pub ghost struct Course {
    pub holdings: Holdings,
    pub phase: TierPhase,
    pub action: TierAction,
}

/// The tier after its first `steps` actions.
pub open spec fn driven(facts: TierFacts, course: Course, steps: nat) -> Course
    decreases steps,
{
    if steps == 0 {
        course
    } else {
        let (holdings, event) = performed(course.holdings, course.action);
        let (phase, action) = spec_tier_step(facts, course.phase, event);
        driven(facts, Course { holdings, phase, action }, (steps - 1) as nat)
    }
}

pub open spec fn started(facts: TierFacts, holdings: Holdings) -> Course {
    let (phase, action) = tier_start_of(facts);
    Course { holdings, phase, action }
}

/// The actions that a tier takes.
pub open spec fn tier_steps(facts: TierFacts, holdings: Holdings) -> nat {
    match (facts.tier, facts.dry_run) {
        (ResetTier::Access, _) => 1,
        (ResetTier::Identity, true) => 3,
        (ResetTier::Identity, false) => 1 + holdings.active as nat + 2,
        (ResetTier::History, true) => 2,
        (ResetTier::History, false) => 2 + if holdings.evidence_pages.len() == 0 {
            1
        } else {
            holdings.evidence_pages.len()
        },
        (ResetTier::Registry, _) => 1,
    }
}

/// The tier when it has run, or has been forecast.
pub open spec fn ended(facts: TierFacts, holdings: Holdings) -> Course {
    driven(facts, started(facts, holdings), tier_steps(facts, holdings))
}

/// What there is without what a tier covers.
pub open spec fn without(holdings: Holdings, tier: ResetTier) -> Holdings {
    match tier {
        ResetTier::Access => Holdings {
            grants: 0,
            approvals: 0,
            flow_authorizations: 0,
            ..holdings
        },
        ResetTier::Identity => Holdings {
            active: 0,
            keychain_entries: 0,
            caller_files: Footprint { entries: 0, bytes: 0 },
            ..holdings
        },
        ResetTier::History => Holdings {
            audit_events: nothing(),
            flow_runs: nothing(),
            evidence_pages: seq![],
            evidence_bytes: 0,
            ..holdings
        },
        ResetTier::Registry => Holdings { models: 0, ..holdings },
    }
}

/// What a tier covers of what there is.
pub open spec fn covered(holdings: Holdings, tier: ResetTier) -> Seq<Line> {
    match tier {
        ResetTier::Access => lines_of(
            TierCounts::Access {
                grants: holdings.grants,
                approvals: holdings.approvals,
                flow_authorizations: holdings.flow_authorizations,
            },
        ),
        ResetTier::Identity => lines_of(
            TierCounts::Identity {
                callers: holdings.active as u64,
                files: holdings.caller_files,
                keychain_entries: holdings.keychain_entries,
            },
        ),
        ResetTier::History => lines_of(
            TierCounts::History {
                audit_events: holdings.audit_events,
                evidence: evidence_of(holdings),
                purged: None,
                flow_runs: holdings.flow_runs,
            },
        ),
        ResetTier::Registry => lines_of(TierCounts::Registry { models: holdings.models }),
    }
}

/// A purge of the evidence ends within its rounds.
pub open spec fn is_purgeable(holdings: Holdings) -> bool {
    holdings.evidence_pages.len() <= EVIDENCE_PURGE_ROUNDS
}

proof fn lemma_driven_on(facts: TierFacts, course: Course, first: nat, more: nat)
    ensures
        driven(facts, course, first + more) == driven(facts, driven(facts, course, first), more),
    decreases first,
{
    if first > 0 {
        let (holdings, event) = performed(course.holdings, course.action);
        let (phase, action) = spec_tier_step(facts, course.phase, event);
        lemma_driven_on(facts, Course { holdings, phase, action }, (first - 1) as nat, more);
    }
}

/// Every caller that is left is revoked.
proof fn lemma_callers_are_revoked(facts: TierFacts, course: Course, active: usize, revoked: usize)
    requires
        !facts.dry_run,
        revoked < active,
        course.holdings.active == active - revoked,
        course.phase == (TierPhase::Identity {
            active,
            phase: IdentityPhase::Revoking { revoked },
        }),
        course.action == TierAction::Identity(IdentityAction::Revoke(revoked)),
    ensures
        driven(facts, course, (active - revoked) as nat) == (Course {
            holdings: Holdings { active: 0, ..course.holdings },
            phase: TierPhase::Identity { active, phase: IdentityPhase::Credentials },
            action: TierAction::Identity(IdentityAction::PurgeCredentials),
        }),
    decreases active - revoked,
{
    let (holdings, event) = performed(course.holdings, course.action);
    let (phase, action) = spec_tier_step(facts, course.phase, event);
    let next = Course { holdings, phase, action };
    if revoked + 1 < active {
        lemma_callers_are_revoked(facts, next, active, (revoked + 1) as usize);
    } else {
        assert(driven(facts, next, 0) == next);
    }
}

/// All evidence goes, page by page.
proof fn lemma_evidence_goes(
    facts: TierFacts,
    course: Course,
    evidence: ResetTally,
    audit_events: ResetTally,
    flow_runs: ResetTally,
    purge: EvidencePurge,
)
    requires
        course.phase == (TierPhase::Purging { evidence, audit_events, flow_runs, purge }),
        course.action == TierAction::PurgeEvidence,
        course.holdings.evidence_pages.len() > 0,
        purge.rounds + course.holdings.evidence_pages.len() <= EVIDENCE_PURGE_ROUNDS,
    ensures
        driven(facts, course, course.holdings.evidence_pages.len()) == (Course {
            holdings: Holdings { evidence_pages: seq![], evidence_bytes: 0, ..course.holdings },
            phase: TierPhase::Done,
            action: TierAction::Report(
                TierCounts::History {
                    audit_events,
                    evidence,
                    purged: Some(
                        capped(purge.handles as nat + deleted_in(course.holdings.evidence_pages)),
                    ),
                    flow_runs,
                },
            ),
        }),
    decreases course.holdings.evidence_pages.len(),
{
    let pages = course.holdings.evidence_pages;
    let (holdings, event) = performed(course.holdings, course.action);
    let (phase, action) = spec_tier_step(facts, course.phase, event);
    let next = Course { holdings, phase, action };
    if pages.len() > 1 {
        lemma_evidence_goes(
            facts,
            next,
            evidence,
            audit_events,
            flow_runs,
            purge_after(purge, pages.last()),
        );
    } else {
        assert(pages.drop_last() =~= seq![]);
        assert(deleted_in(pages.drop_last()) == 0);
        assert(driven(facts, next, 0) == next);
    }
}

proof fn lemma_identity_runs(facts: TierFacts, holdings: Holdings)
    requires
        facts.tier == ResetTier::Identity,
    ensures
        ended(facts, holdings) == (Course {
            holdings: if facts.dry_run {
                holdings
            } else {
                without(holdings, facts.tier)
            },
            phase: TierPhase::Done,
            action: TierAction::Report(
                TierCounts::Identity {
                    callers: holdings.active as u64,
                    files: holdings.caller_files,
                    keychain_entries: holdings.keychain_entries,
                },
            ),
        }),
{
    reveal_with_fuel(driven, 4);
    let start = started(facts, holdings);
    let active = holdings.active;
    if !facts.dry_run && active > 0 {
        let listed = driven(facts, start, 1);
        lemma_callers_are_revoked(facts, listed, active, 0);
        lemma_driven_on(facts, start, 1, active as nat);
        lemma_driven_on(facts, start, 1 + active as nat, 2);
    }
}

proof fn lemma_history_runs(facts: TierFacts, holdings: Holdings)
    requires
        facts.tier == ResetTier::History,
        !facts.dry_run ==> is_purgeable(holdings),
    ensures
        ended(facts, holdings) == (Course {
            holdings: if facts.dry_run {
                holdings
            } else {
                without(holdings, facts.tier)
            },
            phase: TierPhase::Done,
            action: TierAction::Report(
                TierCounts::History {
                    audit_events: holdings.audit_events,
                    evidence: evidence_of(holdings),
                    purged: if facts.dry_run {
                        None
                    } else {
                        Some(evidence_of(holdings).count)
                    },
                    flow_runs: holdings.flow_runs,
                },
            ),
        }),
{
    reveal_with_fuel(driven, 4);
    if !facts.dry_run {
        let start = started(facts, holdings);
        let dropped = driven(facts, start, 2);
        let pages = holdings.evidence_pages;
        if pages.len() > 0 {
            lemma_evidence_goes(
                facts,
                dropped,
                evidence_of(holdings),
                holdings.audit_events,
                holdings.flow_runs,
                EvidencePurge { rounds: 0, handles: 0 },
            );
            lemma_driven_on(facts, start, 2, pages.len());
        } else {
            assert(pages =~= seq![]);
        }
    }
}

proof fn lemma_tier_runs(facts: TierFacts, holdings: Holdings)
    requires
        facts.tier == ResetTier::History && !facts.dry_run ==> is_purgeable(holdings),
    ensures
        ended(facts, holdings).holdings == (if facts.dry_run {
            holdings
        } else {
            without(holdings, facts.tier)
        }),
        ended(facts, holdings).action matches TierAction::Report(counts) && lines_of(counts)
            == covered(holdings, facts.tier),
{
    reveal_with_fuel(driven, 2);
    match facts.tier {
        ResetTier::Identity => lemma_identity_runs(facts, holdings),
        ResetTier::History => lemma_history_runs(facts, holdings),
        _ => {},
    }
}

/// A forecast tells what there is, and leaves it as it is, so that a second
/// forecast tells the same.
pub proof fn law_tier_forecasts_tell_what_there_is(tier: ResetTier, holdings: Holdings)
    ensures
        ended(TierFacts { tier, dry_run: true }, holdings).holdings == holdings,
        ended(TierFacts { tier, dry_run: true }, holdings).action matches TierAction::Report(
            counts,
        ) && lines_of(counts) == covered(holdings, tier),
{
    lemma_tier_runs(TierFacts { tier, dry_run: true }, holdings);
}

/// Forecasts are exact, whatever the tier: the forecast and the reset report
/// the same kinds with the same counts and bytes, namely what there is. The
/// reset leaves nothing of what its tier covers.
pub proof fn law_tier_forecasts_are_exact(tier: ResetTier, holdings: Holdings)
    requires
        tier == ResetTier::History ==> is_purgeable(holdings),
    ensures
        ended(TierFacts { tier, dry_run: true }, holdings).action matches TierAction::Report(
            counts,
        ) && lines_of(counts) == covered(holdings, tier),
        ended(TierFacts { tier, dry_run: false }, holdings).action matches TierAction::Report(
            counts,
        ) && lines_of(counts) == covered(holdings, tier),
        ended(TierFacts { tier, dry_run: false }, holdings).holdings == without(holdings, tier),
{
    lemma_tier_runs(TierFacts { tier, dry_run: true }, holdings);
    lemma_tier_runs(TierFacts { tier, dry_run: false }, holdings);
}

/// The action changes something.
pub open spec fn tier_changes(action: TierAction) -> bool {
    match action {
        TierAction::DropAccess | TierAction::DropHistory | TierAction::PurgeEvidence
        | TierAction::DropModels => true,
        TierAction::Identity(what) => identity_changes(what),
        _ => false,
    }
}

/// Phase and action after `events` of a tier.
pub open spec fn tier_run(facts: TierFacts, events: Seq<TierEvent>) -> (TierPhase, TierAction)
    decreases events.len(),
{
    if events.len() == 0 {
        tier_start_of(facts)
    } else {
        spec_tier_step(facts, tier_run(facts, events.drop_last()).0, events.last())
    }
}

/// Whatever comes back, the forecast of a tier changes nothing.
pub proof fn law_tier_forecasts_change_nothing(facts: TierFacts, events: Seq<TierEvent>)
    requires
        facts.dry_run,
    ensures
        !tier_changes(tier_run(facts, events).1),
        !(tier_run(facts, events).0 is Purging),
        tier_run(facts, events).0 matches TierPhase::Identity { phase, .. } ==> !(
        phase is Revoking),
    decreases events.len(),
{
    if events.len() > 0 {
        law_tier_forecasts_change_nothing(facts, events.drop_last());
    }
}

/// The action counts or drops what the tier covers, or ends it.
pub open spec fn is_own_action(tier: ResetTier, action: TierAction) -> bool {
    ||| action is Report
    ||| action == TierAction::Ignore
    ||| match tier {
        ResetTier::Access => action == TierAction::CountAccess || action == TierAction::DropAccess,
        ResetTier::Identity => action == TierAction::ListCallers || action is Identity,
        ResetTier::History => action == TierAction::CountEvidence || action
            == TierAction::CountHistory || action == TierAction::DropHistory || action
            == TierAction::PurgeEvidence,
        ResetTier::Registry => action == TierAction::CountModels || action
            == TierAction::DropModels,
    }
}

spec fn is_own_phase(tier: ResetTier, phase: TierPhase) -> bool {
    match phase {
        TierPhase::Access => tier == ResetTier::Access,
        TierPhase::Callers | TierPhase::Identity { .. } => tier == ResetTier::Identity,
        TierPhase::Evidence | TierPhase::History { .. } | TierPhase::Purging { .. } => tier
            == ResetTier::History,
        TierPhase::Registry => tier == ResetTier::Registry,
        TierPhase::Done => true,
    }
}

proof fn lemma_tiers_stay(facts: TierFacts, events: Seq<TierEvent>)
    ensures
        is_own_phase(facts.tier, tier_run(facts, events).0),
        is_own_action(facts.tier, tier_run(facts, events).1),
    decreases events.len(),
{
    if events.len() > 0 {
        lemma_tiers_stay(facts, events.drop_last());
    }
}

/// Whatever comes back, a tier works on what it covers and on nothing else. Only
/// the identity tier looks at files or removes them: a registry reset leaves
/// every weight where it is.
pub proof fn law_tiers_keep_to_their_own(facts: TierFacts, events: Seq<TierEvent>)
    ensures
        is_own_action(facts.tier, tier_run(facts, events).1),
        facts.tier != ResetTier::Identity ==> !(tier_run(facts, events).1 is Identity),
{
    lemma_tiers_stay(facts, events);
}

/// After a reset there is nothing left for its tier: a forecast then counts
/// nothing, and its totals are zero.
pub proof fn law_nothing_is_left_of_a_tier(
    tier: ResetTier,
    holdings: Holdings,
    items: Seq<ResetItem>,
)
    requires
        tells(items, covered(without(holdings, tier), tier)),
    ensures
        sum_of_counts(items) == 0,
        sum_of_bytes(items) == 0,
{
    reveal_with_fuel(sum_of_counts, 4);
    reveal_with_fuel(sum_of_bytes, 4);
    let lines = covered(without(holdings, tier), tier);
    assert(deleted_in(seq![]) == 0);
    assert forall|i: int| 0 <= i < items.len() implies (#[trigger] items[i]).count == 0
        && items[i].bytes == 0 by {
        assert(lines[i].count == 0 && lines[i].bytes == 0);
    }
}

/// A tier leaves alone what the other tiers cover.
pub proof fn law_tiers_leave_the_others_alone(
    tier: ResetTier,
    other: ResetTier,
    holdings: Holdings,
)
    requires
        tier != other,
    ensures
        covered(without(holdings, tier), other) == covered(holdings, other),
{
}

/// The line of a kind among `lines`.
pub open spec fn tells_line(lines: Seq<Line>, kind: Seq<char>, count: u64, bytes: u64) -> bool {
    exists|i: int| 0 <= i < lines.len() && #[trigger] lines[i] == line(kind, count, bytes)
}

/// Each count is told under its own kind, and only files, records and evidence
/// have bytes.
pub proof fn law_counts_are_told_under_their_kind(counts: TierCounts)
    ensures
        match counts {
            TierCounts::Access { grants, approvals, flow_authorizations } => {
                let lines = lines_of(counts);
                &&& lines.len() == 3
                &&& tells_line(lines, "grants"@, grants, 0)
                &&& tells_line(lines, "approvals"@, approvals, 0)
                &&& tells_line(lines, "flow_authorizations"@, flow_authorizations, 0)
            },
            TierCounts::Identity { callers, files, keychain_entries } => {
                let lines = lines_of(counts);
                &&& lines.len() == 3
                &&& tells_line(lines, "callers"@, callers, 0)
                &&& tells_line(lines, "caller_files"@, files.entries, files.bytes)
                &&& tells_line(lines, "keychain_entries"@, keychain_entries, 0)
            },
            TierCounts::History { audit_events, evidence, purged, flow_runs } => {
                let lines = lines_of(counts);
                &&& lines.len() == 3
                &&& tells_line(lines, "audit_events"@, audit_events.count, audit_events.bytes)
                &&& purged is None ==> tells_line(
                    lines,
                    "evidence"@,
                    evidence.count,
                    evidence.bytes,
                )
                &&& purged is Some ==> tells_line(lines, "evidence"@, purged->0, evidence.bytes)
                &&& tells_line(lines, "flow_runs"@, flow_runs.count, flow_runs.bytes)
            },
            TierCounts::Registry { models } => {
                let lines = lines_of(counts);
                &&& lines.len() == 1
                &&& tells_line(lines, "models"@, models, 0)
            },
        },
{
    let lines = lines_of(counts);
    match counts {
        TierCounts::Access { grants, approvals, flow_authorizations } => {
            assert(lines[0] == line("grants"@, grants, 0));
            assert(lines[1] == line("approvals"@, approvals, 0));
            assert(lines[2] == line("flow_authorizations"@, flow_authorizations, 0));
        },
        TierCounts::Identity { callers, files, keychain_entries } => {
            assert(lines[0] == line("callers"@, callers, 0));
            assert(lines[1] == line("caller_files"@, files.entries, files.bytes));
            assert(lines[2] == line("keychain_entries"@, keychain_entries, 0));
        },
        TierCounts::History { audit_events, evidence, purged, flow_runs } => {
            assert(lines[0] == line("audit_events"@, audit_events.count, audit_events.bytes));
            if purged is None {
                assert(lines[1] == line("evidence"@, evidence.count, evidence.bytes));
            } else {
                assert(lines[1] == line("evidence"@, purged->0, evidence.bytes));
            }
            assert(lines[2] == line("flow_runs"@, flow_runs.count, flow_runs.bytes));
        },
        TierCounts::Registry { models } => {
            assert(lines[0] == line("models"@, models, 0));
        },
    }
}

/// A reset tells how many of each thing went: for each tier the lines are those
/// of what was there, under their own kinds.
pub proof fn law_tiers_tell_what_was_there(tier: ResetTier, holdings: Holdings)
    ensures
        ({
            let lines = covered(holdings, tier);
            match tier {
                ResetTier::Access => tells_line(lines, "grants"@, holdings.grants, 0)
                    && tells_line(lines, "approvals"@, holdings.approvals, 0) && tells_line(
                    lines,
                    "flow_authorizations"@,
                    holdings.flow_authorizations,
                    0,
                ),
                ResetTier::Identity => tells_line(lines, "callers"@, holdings.active as u64, 0)
                    && tells_line(
                    lines,
                    "caller_files"@,
                    holdings.caller_files.entries,
                    holdings.caller_files.bytes,
                ) && tells_line(lines, "keychain_entries"@, holdings.keychain_entries, 0),
                ResetTier::History => tells_line(
                    lines,
                    "audit_events"@,
                    holdings.audit_events.count,
                    holdings.audit_events.bytes,
                ) && tells_line(
                    lines,
                    "evidence"@,
                    capped(deleted_in(holdings.evidence_pages)),
                    holdings.evidence_bytes,
                ) && tells_line(
                    lines,
                    "flow_runs"@,
                    holdings.flow_runs.count,
                    holdings.flow_runs.bytes,
                ),
                ResetTier::Registry => tells_line(lines, "models"@, holdings.models, 0),
            }
        }),
{
    let access = TierCounts::Access {
        grants: holdings.grants,
        approvals: holdings.approvals,
        flow_authorizations: holdings.flow_authorizations,
    };
    let identity = TierCounts::Identity {
        callers: holdings.active as u64,
        files: holdings.caller_files,
        keychain_entries: holdings.keychain_entries,
    };
    let history = TierCounts::History {
        audit_events: holdings.audit_events,
        evidence: evidence_of(holdings),
        purged: None,
        flow_runs: holdings.flow_runs,
    };
    law_counts_are_told_under_their_kind(access);
    law_counts_are_told_under_their_kind(identity);
    law_counts_are_told_under_their_kind(history);
    law_counts_are_told_under_their_kind(TierCounts::Registry { models: holdings.models });
}

// Tiers, told by what came of them alone

/// The event can come of the action.
pub open spec fn tier_fits(action: TierAction, event: TierEvent) -> bool {
    match action {
        TierAction::CountAccess | TierAction::DropAccess => event is Access,
        TierAction::ListCallers => event is Callers,
        TierAction::Identity(asked) => event matches TierEvent::Identity(what) && identity_fits(
            asked,
            what,
        ),
        TierAction::CountEvidence => event is Evidence,
        TierAction::CountHistory | TierAction::DropHistory => event is History,
        TierAction::PurgeEvidence => event is Purged,
        TierAction::CountModels | TierAction::DropModels => event is Models,
        _ => false,
    }
}

/// Every one of `events` came of the action before it.
pub open spec fn tier_told(facts: TierFacts, events: Seq<TierEvent>) -> bool
    decreases events.len(),
{
    events.len() == 0 || {
        &&& tier_told(facts, events.drop_last())
        &&& tier_fits(tier_run(facts, events.drop_last()).1, events.last())
    }
}

spec fn tier_waits(
    facts: TierFacts,
    phase: TierPhase,
    action: TierAction,
    events: Seq<TierEvent>,
) -> bool {
    match phase {
        TierPhase::Access => action is CountAccess || action is DropAccess,
        TierPhase::Callers => action is ListCallers && events.len() == 0,
        TierPhase::Identity { active, phase: at } => {
            &&& events.len() > 0 && events[0] == TierEvent::Callers(active)
            &&& action matches TierAction::Identity(asked) && match at {
                IdentityPhase::Revoking { revoked } => asked == IdentityAction::Revoke(revoked),
                IdentityPhase::Credentials => asked is CountCredentials
                    || asked is PurgeCredentials,
                IdentityPhase::Files { .. } => asked is MeasureFiles || asked is RemoveFiles,
                IdentityPhase::Done => false,
            }
        },
        TierPhase::Evidence => action is CountEvidence && events.len() == 0,
        TierPhase::History { evidence } => (action is CountHistory || action is DropHistory)
            && events.len() == 1 && events[0] == TierEvent::Evidence(evidence),
        TierPhase::Purging { evidence, audit_events, flow_runs, purge } => {
            &&& action is PurgeEvidence
            &&& !facts.dry_run
            &&& events.len() == purge.rounds + 2
            &&& purge.rounds < EVIDENCE_PURGE_ROUNDS
            &&& events[0] == TierEvent::Evidence(evidence)
            &&& events[1] == (TierEvent::History { audit_events, flow_runs })
        },
        TierPhase::Registry => action is CountModels || action is DropModels,
        TierPhase::Done => action is Report,
    }
}

proof fn lemma_tier_told(facts: TierFacts, events: Seq<TierEvent>)
    requires
        tier_told(facts, events),
    ensures
        tier_waits(facts, tier_run(facts, events).0, tier_run(facts, events).1, events),
    decreases events.len(),
{
    if events.len() > 0 {
        let before = events.drop_last();
        lemma_tier_told(facts, before);
        if before.len() > 0 {
            assert(before[0] == events[0]);
        }
        if before.len() > 1 {
            assert(before[1] == events[1]);
        }
    }
}

/// A tier reports what came back, each count as it came. History is counted before
/// it is dropped, and evidence is purged page by page until there is no more of
/// it, or the rounds are used up; a forecast purges nothing. Nothing that
/// comes back is passed over.
pub proof fn law_tiers_report_what_came_back(facts: TierFacts, events: Seq<TierEvent>)
    requires
        events.len() > 0,
        tier_told(facts, events),
    ensures
        ({
            let next = tier_run(facts, events).1;
            let last = events.last();
            &&& last matches TierEvent::Access { grants, approvals, flow_authorizations } ==> next
                == TierAction::Report(TierCounts::Access { grants, approvals, flow_authorizations })
            &&& last matches TierEvent::Models(models) ==> next == TierAction::Report(
                TierCounts::Registry { models },
            )
            &&& last is Evidence ==> next == if facts.dry_run {
                TierAction::CountHistory
            } else {
                TierAction::DropHistory
            }
            &&& last matches TierEvent::History { audit_events, flow_runs } ==> facts.dry_run
                ==> next == TierAction::Report(
                TierCounts::History {
                    audit_events,
                    evidence: events[0]->Evidence_0,
                    purged: None,
                    flow_runs,
                },
            )
            &&& last is History && !facts.dry_run ==> next == TierAction::PurgeEvidence
            &&& last matches TierEvent::Purged { has_more, .. } ==> {
                &&& next == TierAction::PurgeEvidence <==> has_more && events.len() - 2
                    < EVIDENCE_PURGE_ROUNDS
                &&& next is Report <==> !has_more || events.len() - 2 >= EVIDENCE_PURGE_ROUNDS
                &&& next matches TierAction::Report(counts) ==> (counts matches TierCounts::History {
                    audit_events,
                    evidence,
                    purged,
                    flow_runs,
                } && purged is Some && events[0] == TierEvent::Evidence(evidence) && events[1] == (
                TierEvent::History { audit_events, flow_runs }))
            }
            &&& last is Callers ==> next is Identity
            &&& next is Report ==> !(last is Callers) && !(last is Evidence)
            &&& next != TierAction::Ignore
        }),
{
    let before = events.drop_last();
    lemma_tier_told(facts, before);
    lemma_tier_told(facts, events);
    if before.len() > 0 {
        assert(before[0] == events[0]);
    }
    if before.len() > 1 {
        assert(before[1] == events[1]);
    }
}

/// What did not come of what was asked is passed over and does not end a tier, and
/// once one is over it is not taken up again.
pub proof fn law_stray_counts_are_passed_over(
    facts: TierFacts,
    events: Seq<TierEvent>,
    event: TierEvent,
)
    requires
        tier_told(facts, events),
        !tier_fits(tier_run(facts, events).1, event),
    ensures
        ({
            let next = tier_run(facts, events.push(event));
            &&& next.1 == TierAction::Ignore || next.1 == TierAction::Identity(
                IdentityAction::Ignore,
            )
            &&& next.0 == tier_run(facts, events).0
        }),
{
    lemma_tier_told(facts, events);
    assert(events.push(event).drop_last() =~= events);
}

} // verus!
