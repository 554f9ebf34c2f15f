//! The factory reset: every tier, the settings, the flow library, and
//! everything else below the data root.

use vstd::prelude::*;

use super::items::{
    CallerRegistration, ResetItem, ResetResult, ResetTier, capped, compose, footprint_item,
    named_item, reset_item, says_item, sum_of_bytes, sum_of_counts,
};
use super::tiers::{Holdings, Line, covered, tells};
use super::walk::{Footprint, both};
use super::{
    CALLERS_DIRECTORY, EVIDENCE_DIRECTORY, FLOW_LIBRARY_NAME, FLOW_LIBRARY_PARENT, LOGS_DIRECTORY,
    RUNTIME_DIRECTORY, ResetError, SETTINGS_FILE, STATE_FILE,
};
use crate::answers::AuditNote;
use crate::ordered::{ordered_texts, orders, strictly_ordered};
use crate::policy::AUDIT_RETENTION_MS;
use crate::split::{split_by, split_text, texts};
use crate::text::{
    chars_of, concat3, concat4, concat5, decimal, decimal_text, has_prefix, same_text,
    starts_with, strip_prefix, text_of, trim, trim_start, trimmed, trimmed_start,
};

verus! {

/// What a factory reset covers beyond the tiers.
#[derive(Clone, Copy, Debug, PartialEq, Eq, Structural)]
pub struct FactoryResetOptions {
    /// Also delete the weights of every registered model.
    pub include_weights: bool,
}

impl Default for FactoryResetOptions {
    /// The weights stay.
    fn default() -> (options: FactoryResetOptions)
        ensures
            !options.include_weights,
    {
        FactoryResetOptions { include_weights: false }
    }
}

// What is below the root

/// How an entry of the data root is counted.
#[derive(Clone, Copy, Debug, PartialEq, Eq, Structural)]
pub enum DataEntryKind {
    /// The state database and what goes with it.
    StateDatabase,
    /// A tier counts it: the callers' files and the evidence.
    Tier,
    Settings,
    Logs,
    Runtime,
    /// The directory of the flow library, which is counted by what is in it.
    FlowLibrary,
    Other,
}

/// How an entry of this name is counted; `None` stands for a name that is not
/// text.
pub open spec fn entry_kind(name: Option<Seq<char>>) -> DataEntryKind {
    match name {
        Some(text) => if has_prefix(text, STATE_FILE@) {
            DataEntryKind::StateDatabase
        } else if text == CALLERS_DIRECTORY@ || text == EVIDENCE_DIRECTORY@ {
            DataEntryKind::Tier
        } else if text == SETTINGS_FILE@ {
            DataEntryKind::Settings
        } else if text == LOGS_DIRECTORY@ {
            DataEntryKind::Logs
        } else if text == RUNTIME_DIRECTORY@ {
            DataEntryKind::Runtime
        } else if text == FLOW_LIBRARY_PARENT@ {
            DataEntryKind::FlowLibrary
        } else {
            DataEntryKind::Other
        },
        None => DataEntryKind::Other,
    }
}

/// The text of a name, where it is text.
pub open spec fn name_text(name: Option<String>) -> Option<Seq<char>> {
    match name {
        Some(text) => Some(text@),
        None => None,
    }
}

/// Tells how an entry of the data root is counted.
pub fn data_entry_kind(name: &Option<String>) -> (kind: DataEntryKind)
    ensures
        kind == entry_kind(name_text(*name)),
{
    let text = match name {
        Some(text) => text.as_str(),
        None => return DataEntryKind::Other,
    };
    if starts_with(text, STATE_FILE) {
        DataEntryKind::StateDatabase
    } else if same_text(text, CALLERS_DIRECTORY) || same_text(text, EVIDENCE_DIRECTORY) {
        DataEntryKind::Tier
    } else if same_text(text, SETTINGS_FILE) {
        DataEntryKind::Settings
    } else if same_text(text, LOGS_DIRECTORY) {
        DataEntryKind::Logs
    } else if same_text(text, RUNTIME_DIRECTORY) {
        DataEntryKind::Runtime
    } else if same_text(text, FLOW_LIBRARY_PARENT) {
        DataEntryKind::FlowLibrary
    } else {
        DataEntryKind::Other
    }
}

/// Tells whether a forecast measures an entry of the data root as a whole: one
/// that a tier counts is not looked into, and the directory of the flow
/// library is measured entry by entry.
pub fn is_measured_whole(name: &Option<String>) -> (measured: bool)
    ensures
        measured == (entry_kind(name_text(*name)) != DataEntryKind::Tier && entry_kind(
            name_text(*name),
        ) != DataEntryKind::FlowLibrary),
{
    match data_entry_kind(name) {
        DataEntryKind::Tier | DataEntryKind::FlowLibrary => false,
        _ => true,
    }
}

/// What is in a directory: names, where they are text, and footprints.
pub struct DataEntry {
    pub name: Option<String>,
    pub footprint: Footprint,
}

/// The entry of the data root is counted as `kind`.
pub open spec fn counts_as(entry: DataEntry, kind: DataEntryKind) -> bool {
    entry_kind(name_text(entry.name)) == kind
}

/// The footprint of the entries of one kind.
pub open spec fn footprint_of(entries: Seq<DataEntry>, kind: DataEntryKind) -> Footprint
    decreases entries.len(),
{
    if entries.len() == 0 {
        Footprint { entries: 0, bytes: 0 }
    } else {
        let before = footprint_of(entries.drop_last(), kind);
        if counts_as(entries.last(), kind) {
            both(before, entries.last().footprint)
        } else {
            before
        }
    }
}

/// Adds up the entries of one kind.
pub fn kind_footprint(entries: &Vec<DataEntry>, kind: DataEntryKind) -> (total: Footprint)
    ensures
        total == footprint_of(entries@, kind),
{
    let mut total = Footprint::none();
    let mut index: usize = 0;
    while index < entries.len()
        invariant
            index <= entries@.len(),
            total == footprint_of(entries@.take(index as int), kind),
        decreases entries@.len() - index,
    {
        proof {
            assert(entries@.take(index + 1).drop_last() =~= entries@.take(index as int));
            assert(entries@.take(index + 1).last() == entries@[index as int]);
        }
        let entry = &entries[index];
        if data_entry_kind(&entry.name) == kind {
            total = total.plus(entry.footprint);
        }
        index = index + 1;
    }
    assert(entries@.take(entries@.len() as int) =~= entries@);
    total
}

/// Every entry of the data root is counted, and none is counted twice: it
/// counts as one kind and as no other.
pub proof fn law_entries_are_counted_once(
    entry: DataEntry,
    kind: DataEntryKind,
    other: DataEntryKind,
)
    ensures
        exists|counted: DataEntryKind| counts_as(entry, counted),
        counts_as(entry, kind) && counts_as(entry, other) ==> kind == other,
{
    assert(counts_as(entry, entry_kind(name_text(entry.name))));
}

/// The entry of the flow library's directory is the library.
pub open spec fn is_library(entry: DataEntry) -> bool {
    name_text(entry.name) == Some(FLOW_LIBRARY_NAME@)
}

/// The footprint of the entries that are the flow library, or of those that
/// are not.
pub open spec fn library_part(entries: Seq<DataEntry>, library: bool) -> Footprint
    decreases entries.len(),
{
    if entries.len() == 0 {
        Footprint { entries: 0, bytes: 0 }
    } else {
        let before = library_part(entries.drop_last(), library);
        if is_library(entries.last()) == library {
            both(before, entries.last().footprint)
        } else {
            before
        }
    }
}

/// Adds up what the flow library's directory holds: the library, or what is
/// beside it.
pub fn library_footprint(entries: &Vec<DataEntry>, library: bool) -> (total: Footprint)
    ensures
        total == library_part(entries@, library),
{
    let mut total = Footprint::none();
    let mut index: usize = 0;
    while index < entries.len()
        invariant
            index <= entries@.len(),
            total == library_part(entries@.take(index as int), library),
        decreases entries@.len() - index,
    {
        proof {
            assert(entries@.take(index + 1).drop_last() =~= entries@.take(index as int));
            assert(entries@.take(index + 1).last() == entries@[index as int]);
        }
        let entry = &entries[index];
        let found = match &entry.name {
            Some(name) => same_text(name.as_str(), FLOW_LIBRARY_NAME),
            None => false,
        };
        if found == library {
            total = total.plus(entry.footprint);
        }
        index = index + 1;
    }
    assert(entries@.take(entries@.len() as int) =~= entries@);
    total
}

/// The footprint of weights on disk; `None` stands for one that is no file.
pub open spec fn weights_of(sizes: Seq<Option<u64>>) -> Footprint
    decreases sizes.len(),
{
    if sizes.len() == 0 {
        Footprint { entries: 0, bytes: 0 }
    } else {
        let before = weights_of(sizes.drop_last());
        match sizes.last() {
            Some(bytes) => both(before, Footprint { entries: 1, bytes }),
            None => before,
        }
    }
}

/// Adds up the registered weights that are there.
pub fn weight_footprint(sizes: &Vec<Option<u64>>) -> (total: Footprint)
    ensures
        total == weights_of(sizes@),
{
    let mut total = Footprint::none();
    let mut index: usize = 0;
    while index < sizes.len()
        invariant
            index <= sizes@.len(),
            total == weights_of(sizes@.take(index as int)),
        decreases sizes@.len() - index,
    {
        proof {
            assert(sizes@.take(index + 1).drop_last() =~= sizes@.take(index as int));
            assert(sizes@.take(index + 1).last() == sizes@[index as int]);
        }
        if let Some(bytes) = sizes[index] {
            total = total.plus(Footprint { entries: 1, bytes });
        }
        index = index + 1;
    }
    assert(sizes@.take(sizes@.len() as int) =~= sizes@);
    total
}

/// Tells whether a registered weight is removed. `found` tells whether it is a
/// file, if anything is there; a directory or a link is left alone.
pub fn removes_weight(found: Option<bool>) -> (removes: bool)
    ensures
        removes == (found == Some(true)),
{
    match found {
        Some(is_file) => is_file,
        None => false,
    }
}

/// What a factory reset finds beside the tiers' own items.
pub struct FactoryFindings {
    /// The names in the flow library.
    pub flow_names: Vec<String>,
    pub flow_bytes: u64,
    pub settings: Footprint,
    pub logs: Footprint,
    pub runtime: Footprint,
    pub state_database: Footprint,
    /// What no other item counts.
    pub other: Footprint,
    /// The weights, where they go too.
    pub weights: Option<Footprint>,
}

impl FactoryFindings {
    /// What the entries of the data root, and those of the directory that holds
    /// the flow library, come to.
    pub open spec fn describes(
        self,
        entries: Seq<DataEntry>,
        parent_entries: Seq<DataEntry>,
    ) -> bool {
        &&& self.flow_bytes == library_part(parent_entries, true).bytes
        &&& self.settings == footprint_of(entries, DataEntryKind::Settings)
        &&& self.logs == footprint_of(entries, DataEntryKind::Logs)
        &&& self.runtime == footprint_of(entries, DataEntryKind::Runtime)
        &&& self.state_database == footprint_of(entries, DataEntryKind::StateDatabase)
        &&& self.other == both(
            footprint_of(entries, DataEntryKind::Other),
            library_part(parent_entries, false),
        )
    }
}

/// Sorts what is in the data root. `entries` are those of the root itself, and
/// `parent_entries` those of the directory that holds the flow library.
pub fn factory_findings(
    entries: &Vec<DataEntry>,
    parent_entries: &Vec<DataEntry>,
    flow_names: Vec<String>,
    weights: Option<Footprint>,
) -> (findings: FactoryFindings)
    ensures
        findings.flow_names == flow_names,
        findings.weights == weights,
        findings.describes(entries@, parent_entries@),
{
    let beside = library_footprint(parent_entries, false);
    FactoryFindings {
        flow_names,
        flow_bytes: library_footprint(parent_entries, true).bytes,
        settings: kind_footprint(entries, DataEntryKind::Settings),
        logs: kind_footprint(entries, DataEntryKind::Logs),
        runtime: kind_footprint(entries, DataEntryKind::Runtime),
        state_database: kind_footprint(entries, DataEntryKind::StateDatabase),
        other: kind_footprint(entries, DataEntryKind::Other).plus(beside),
        weights,
    }
}

/// The bytes of all `entries`.
pub open spec fn entry_bytes(entries: Seq<DataEntry>) -> nat
    decreases entries.len(),
{
    if entries.len() == 0 {
        0
    } else {
        entry_bytes(entries.drop_last()) + entries.last().footprint.bytes as nat
    }
}

/// The bytes of the entries of one kind.
pub open spec fn kind_bytes(entries: Seq<DataEntry>, kind: DataEntryKind) -> nat
    decreases entries.len(),
{
    if entries.len() == 0 {
        0
    } else {
        kind_bytes(entries.drop_last(), kind) + (if counts_as(entries.last(), kind) {
            entries.last().footprint.bytes as nat
        } else {
            0
        })
    }
}

/// The bytes that the items beside those of the tiers report.
pub open spec fn reported_bytes(findings: FactoryFindings) -> nat {
    (findings.flow_bytes + findings.settings.bytes + findings.logs.bytes + findings.runtime.bytes
        + findings.state_database.bytes + findings.other.bytes) as nat
}

/// The bytes of the data root apart from what the tiers count: those of its
/// entries, where the directory of the flow library has the bytes of what is
/// in it.
pub open spec fn root_bytes(entries: Seq<DataEntry>, parent_entries: Seq<DataEntry>) -> nat {
    (entry_bytes(entries) - kind_bytes(entries, DataEntryKind::Tier) - kind_bytes(
        entries,
        DataEntryKind::FlowLibrary,
    ) + entry_bytes(parent_entries)) as nat
}

proof fn lemma_kind_bytes(entries: Seq<DataEntry>, kind: DataEntryKind)
    ensures
        footprint_of(entries, kind).bytes == capped(kind_bytes(entries, kind)),
    decreases entries.len(),
{
    if entries.len() > 0 {
        lemma_kind_bytes(entries.drop_last(), kind);
    }
}

proof fn lemma_kinds_are_all(entries: Seq<DataEntry>)
    ensures
        entry_bytes(entries) == kind_bytes(entries, DataEntryKind::StateDatabase) + kind_bytes(
            entries,
            DataEntryKind::Tier,
        ) + kind_bytes(entries, DataEntryKind::Settings) + kind_bytes(entries, DataEntryKind::Logs)
            + kind_bytes(entries, DataEntryKind::Runtime) + kind_bytes(
            entries,
            DataEntryKind::FlowLibrary,
        ) + kind_bytes(entries, DataEntryKind::Other),
    decreases entries.len(),
{
    if entries.len() > 0 {
        lemma_kinds_are_all(entries.drop_last());
    }
}

proof fn lemma_library_parts(entries: Seq<DataEntry>)
    ensures
        entry_bytes(entries) <= u64::MAX ==> library_part(entries, true).bytes + library_part(
            entries,
            false,
        ).bytes == entry_bytes(entries),
        entry_bytes(entries) > u64::MAX ==> library_part(entries, true).bytes + library_part(
            entries,
            false,
        ).bytes >= u64::MAX,
    decreases entries.len(),
{
    if entries.len() > 0 {
        lemma_library_parts(entries.drop_last());
    }
}

/// The forecast of a factory reset is a partition of the data root: the bytes
/// of the flows, the settings, the logs, the runtime files, the state database
/// and the other data files add up to those of the root apart from the
/// callers' files and the evidence, up to the largest number.
pub proof fn law_forecasts_partition_the_root(
    entries: Seq<DataEntry>,
    parent_entries: Seq<DataEntry>,
    findings: FactoryFindings,
)
    requires
        findings.describes(entries, parent_entries),
    ensures
        capped(reported_bytes(findings)) == capped(root_bytes(entries, parent_entries)),
{
    lemma_kind_bytes(entries, DataEntryKind::Settings);
    lemma_kind_bytes(entries, DataEntryKind::Logs);
    lemma_kind_bytes(entries, DataEntryKind::Runtime);
    lemma_kind_bytes(entries, DataEntryKind::StateDatabase);
    lemma_kind_bytes(entries, DataEntryKind::Other);
    lemma_kinds_are_all(entries);
    lemma_library_parts(parent_entries);
}

/// The flows' item: one for each name, in order.
pub open spec fn is_flows_item(item: ResetItem, names: Seq<Seq<char>>, bytes: u64) -> bool {
    &&& item.kind@ == "flows"@
    &&& orders(texts(item.names@), names)
    &&& item.count == item.names@.len()
    &&& item.bytes == bytes
}

/// The items say what is beside the tiers.
pub open spec fn says_findings(rest: Seq<ResetItem>, findings: FactoryFindings) -> bool {
    &&& rest.len() == (if findings.weights is Some {
        7int
    } else {
        6
    })
    &&& is_flows_item(rest[0], texts(findings.flow_names@), findings.flow_bytes)
    &&& says_item(rest[1], "settings"@, findings.settings.entries, findings.settings.bytes)
    &&& says_item(rest[2], "logs"@, findings.logs.entries, findings.logs.bytes)
    &&& says_item(rest[3], "runtime"@, findings.runtime.entries, findings.runtime.bytes)
    &&& says_item(
        rest[4],
        "state_database"@,
        findings.state_database.entries,
        findings.state_database.bytes,
    )
    &&& says_item(rest[5], "other_data_files"@, findings.other.entries, findings.other.bytes)
    &&& findings.weights matches Some(weights) ==> says_item(
        rest[6],
        "model_weights"@,
        weights.entries,
        weights.bytes,
    )
}

/// Puts the items of a factory reset together: those of the tiers, and then
/// what is beside them.
pub fn factory_items(tiers: Vec<ResetItem>, findings: &FactoryFindings) -> (items: Vec<ResetItem>)
    ensures
        items@.len() >= tiers@.len(),
        items@.take(tiers@.len() as int) == tiers@,
        says_findings(items@.skip(tiers@.len() as int), *findings),
{
    let ghost given = tiers@;
    let mut items = tiers;
    let names = ordered_texts(&findings.flow_names);
    let flows = Footprint { entries: names.len() as u64, bytes: findings.flow_bytes };
    items.push(named_item("flows", flows, names));
    items.push(footprint_item("settings", findings.settings));
    items.push(footprint_item("logs", findings.logs));
    items.push(footprint_item("runtime", findings.runtime));
    items.push(footprint_item("state_database", findings.state_database));
    items.push(footprint_item("other_data_files", findings.other));
    if let Some(weights) = findings.weights {
        items.push(reset_item("model_weights", weights.entries, weights.bytes));
    }
    assert(items@.take(given.len() as int) =~= given);
    items
}

/// What a factory reset covers, or would cover where it is only forecast.
pub fn factory_result(preview: bool, items: Vec<ResetItem>) -> (result: ResetResult)
    ensures
        result.scope@ == "factory"@,
        result.dry_run == preview,
        result.items == items,
        result.total_items == capped(sum_of_counts(items@)),
        result.total_bytes == capped(sum_of_bytes(items@)),
{
    compose("factory", preview, items)
}

/// What the tiers tell, one after the other.
pub open spec fn tier_lines(holdings: Holdings) -> Seq<Line> {
    covered(holdings, ResetTier::Access) + covered(holdings, ResetTier::Identity) + covered(
        holdings,
        ResetTier::History,
    ) + covered(holdings, ResetTier::Registry)
}

/// The length and the first character of a kind, which tell the kinds apart.
spec fn mark(kind: Seq<char>) -> (nat, char) {
    (kind.len(), kind[0])
}

spec fn marks() -> Seq<(nat, char)> {
    seq![
        (6nat, 'g'),
        (9nat, 'a'),
        (19nat, 'f'),
        (7nat, 'c'),
        (12nat, 'c'),
        (16nat, 'k'),
        (12nat, 'a'),
        (8nat, 'e'),
        (9nat, 'f'),
        (6nat, 'm'),
        (5nat, 'f'),
        (8nat, 's'),
        (4nat, 'l'),
        (7nat, 'r'),
        (14nat, 's'),
        (16nat, 'o'),
        (13nat, 'm'),
    ]
}

proof fn lemma_marks_of_tiers(holdings: Holdings)
    ensures
        tier_lines(holdings).len() == 10,
        forall|i: int| 0 <= i < 10 ==> mark((#[trigger] tier_lines(holdings)[i]).kind) == marks()[i],
{
    reveal_strlit("grants");
    reveal_strlit("approvals");
    reveal_strlit("flow_authorizations");
    reveal_strlit("callers");
    reveal_strlit("caller_files");
    reveal_strlit("keychain_entries");
    reveal_strlit("audit_events");
    reveal_strlit("evidence");
    reveal_strlit("flow_runs");
    reveal_strlit("models");
    let lines = tier_lines(holdings);
    assert(lines[0].kind == "grants"@);
    assert(lines[1].kind == "approvals"@);
    assert(lines[2].kind == "flow_authorizations"@);
    assert(lines[3].kind == "callers"@);
    assert(lines[4].kind == "caller_files"@);
    assert(lines[5].kind == "keychain_entries"@);
    assert(lines[6].kind == "audit_events"@);
    assert(lines[7].kind == "evidence"@);
    assert(lines[8].kind == "flow_runs"@);
    assert(lines[9].kind == "models"@);
}

proof fn lemma_marks_of_findings(rest: Seq<ResetItem>, findings: FactoryFindings)
    requires
        says_findings(rest, findings),
    ensures
        forall|i: int|
            0 <= i < rest.len() ==> mark((#[trigger] rest[i]).kind@) == marks()[10 + i],
{
    reveal_strlit("flows");
    reveal_strlit("settings");
    reveal_strlit("logs");
    reveal_strlit("runtime");
    reveal_strlit("state_database");
    reveal_strlit("other_data_files");
    reveal_strlit("model_weights");
}

/// No kind occurs twice in what a factory reset reports.
pub proof fn law_factory_kinds_are_distinct(
    holdings: Holdings,
    tiers: Seq<ResetItem>,
    findings: FactoryFindings,
    items: Seq<ResetItem>,
    i: int,
    j: int,
)
    requires
        tells(tiers, tier_lines(holdings)),
        items.len() >= tiers.len(),
        items.take(tiers.len() as int) == tiers,
        says_findings(items.skip(tiers.len() as int), findings),
        0 <= i < j < items.len(),
    ensures
        items[i].kind@ != items[j].kind@,
{
    let rest = items.skip(10);
    lemma_marks_of_tiers(holdings);
    lemma_marks_of_findings(rest, findings);
    assert forall|k: int| 0 <= k < items.len() implies mark((#[trigger] items[k]).kind@)
        == marks()[k] by {
        if k < 10 {
            assert(items.take(10)[k] == items[k]);
            assert(tiers[k].kind@ == tier_lines(holdings)[k].kind);
        } else {
            assert(rest[k - 10] == items[k]);
        }
    }
    assert(mark(items[i].kind@) == marks()[i]);
    assert(mark(items[j].kind@) == marks()[j]);
}

/// The first item of `kind` among `items`.
pub open spec fn is_first_of_kind(items: Seq<ResetItem>, kind: Seq<char>, at: int) -> bool {
    &&& 0 <= at < items.len()
    &&& items[at].kind@ == kind
    &&& forall|i: int| 0 <= i < at ==> (#[trigger] items[i]).kind@ != kind
}

/// Replaces the number of credentials that the identity tier counts, which
/// knows the registered callers alone: by those that are there for a forecast,
/// and by those that were removed after a reset.
pub fn with_purged(items: Vec<ResetItem>, purged: u64) -> (counted: Vec<ResetItem>)
    ensures
        counted@.len() == items@.len(),
        forall|i: int|
            #![trigger counted@[i]]
            0 <= i < items@.len() ==> if is_first_of_kind(items@, "keychain_entries"@, i) {
                counted@[i] == (ResetItem { count: purged, ..items@[i] })
            } else {
                counted@[i] == items@[i]
            },
{
    let mut counted = items;
    let mut index: usize = 0;
    while index < counted.len()
        invariant
            index <= counted@.len(),
            counted@ == items@,
            forall|i: int|
                0 <= i < index ==> (#[trigger] items@[i]).kind@ != "keychain_entries"@,
        decreases counted@.len() - index,
    {
        if same_text(counted[index].kind.as_str(), "keychain_entries") {
            let entry = counted.remove(index);
            counted.insert(index, ResetItem { count: purged, ..entry });
            proof {
                assert(is_first_of_kind(items@, "keychain_entries"@, index as int));
                assert forall|i: int|
                    #![trigger counted@[i]]
                    0 <= i < items@.len() implies if is_first_of_kind(
                    items@,
                    "keychain_entries"@,
                    i,
                ) {
                    counted@[i] == (ResetItem { count: purged, ..items@[i] })
                } else {
                    counted@[i] == items@[i]
                } by {
                    if is_first_of_kind(items@, "keychain_entries"@, i) && i != index {
                        if i < index {
                            assert(items@[i].kind@ != "keychain_entries"@);
                        } else {
                            assert(items@[index as int].kind@ != "keychain_entries"@);
                        }
                    }
                }
            }
            return counted;
        }
        index = index + 1;
    }
    counted
}

// The record

/// The identity of the audit record of a factory reset.
pub fn factory_event_id(occurred_at_ms: u64, caller_id: &str) -> (id: String)
    ensures
        id@ == "reset-factory-"@ + decimal(occurred_at_ms as nat) + "-"@ + caller_id@,
{
    let moment = decimal_text(occurred_at_ms);
    concat4("reset-factory-", moment.as_str(), "-", caller_id)
}

/// The audit record of a factory reset, from its forecast.
pub fn factory_audit(forecast: &ResetResult) -> (note: AuditNote)
    ensures
        note.says_change(
            "reset.factory"@,
            "changed"@,
            "scope=factory items="@ + decimal(forecast.total_items as nat) + " bytes="@ + decimal(
                forecast.total_bytes as nat,
            ),
        ),
{
    let count = decimal_text(forecast.total_items);
    let bytes = decimal_text(forecast.total_bytes);
    let detail = concat4("scope=factory items=", count.as_str(), " bytes=", bytes.as_str());
    AuditNote::change("reset.factory", "changed", detail)
}

/// How long the audit record of a factory reset is kept.
pub fn factory_retain_until(occurred_at_ms: u64) -> (until: u64)
    ensures
        until == capped((occurred_at_ms + AUDIT_RETENTION_MS) as nat),
{
    occurred_at_ms.saturating_add(AUDIT_RETENTION_MS)
}

/// The newest audit records that are searched for a reset's own.
pub const AUDIT_READBACK_LIMIT: u32 = 16;

/// Checks that a factory reset is among the newest audit records.
pub fn confirm_audit_recorded(recent: &Vec<String>, event_id: &str) -> (result: Result<
    (),
    ResetError,
>)
    ensures
        match result {
            Ok(_) => texts(recent@).contains(event_id@),
            Err(error) => !texts(recent@).contains(event_id@) && (
            error matches ResetError::Store(reason) && reason@
                == "the factory reset could not record itself in the audit ledger"@),
        },
{
    let mut index: usize = 0;
    while index < recent.len()
        invariant
            index <= recent@.len(),
            forall|i: int| 0 <= i < index ==> #[trigger] texts(recent@)[i] != event_id@,
        decreases recent@.len() - index,
    {
        assert(texts(recent@)[index as int] == recent@[index as int]@);
        if same_text(recent[index].as_str(), event_id) {
            return Ok(());
        }
        index = index + 1;
    }
    Err(
        ResetError::Store(
            "the factory reset could not record itself in the audit ledger".to_owned(),
        ),
    )
}

// Callers

/// The value of a line `caller_id = "..."`.
pub open spec fn caller_on_line(line: Seq<char>) -> Option<Seq<char>> {
    let text = trimmed(line);
    if !has_prefix(text, "caller_id"@) {
        None
    } else {
        let rest = trimmed_start(text.skip("caller_id"@.len() as int));
        if rest.len() == 0 || rest[0] != '=' {
            None
        } else {
            let value = trimmed(rest.skip(1));
            if value.len() >= 2 && value[0] == '"' && value.last() == '"' {
                Some(value.subrange(1, value.len() - 1))
            } else {
                None
            }
        }
    }
}

/// The first value on the lines from `from` on.
pub open spec fn first_caller(lines: Seq<Seq<char>>, from: int) -> Option<Seq<char>>
    decreases lines.len() - from,
{
    if from >= lines.len() {
        None
    } else {
        match caller_on_line(lines[from]) {
            Some(caller) => Some(caller),
            None => first_caller(lines, from + 1),
        }
    }
}

/// Some registration is of this caller.
pub open spec fn is_registered(registered: Seq<CallerRegistration>, caller: Seq<char>) -> bool {
    exists|i: int| 0 <= i < registered.len() && (#[trigger] registered[i]).caller_id@ == caller
}

/// Gathers the callers whose credentials a factory reset removes: those that
/// the store has registered and those that a file in the data root names, each
/// of them once.
pub fn callers_to_purge(registered: &Vec<CallerRegistration>, named: &Vec<String>) -> (callers: Vec<
    String,
>)
    ensures
        strictly_ordered(texts(callers@)),
        forall|caller: Seq<char>| #[trigger]
            texts(callers@).contains(caller) <==> is_registered(registered@, caller) || texts(
                named@,
            ).contains(caller),
{
    let mut all: Vec<String> = Vec::new();
    let mut index: usize = 0;
    while index < registered.len()
        invariant
            index <= registered@.len(),
            all@.len() == index,
            forall|i: int|
                0 <= i < index ==> (#[trigger] all@[i])@ == registered@[i].caller_id@,
        decreases registered@.len() - index,
    {
        all.push(registered[index].caller_id.clone());
        index = index + 1;
    }
    let mut next: usize = 0;
    while next < named.len()
        invariant
            next <= named@.len(),
            all@.len() == registered@.len() + next,
            forall|i: int|
                0 <= i < registered@.len() ==> (#[trigger] all@[i])@
                    == registered@[i].caller_id@,
            forall|i: int|
                registered@.len() <= i < all@.len() ==> (#[trigger] all@[i])@ == named@[i
                    - registered@.len()]@,
        decreases named@.len() - next,
    {
        all.push(named[next].clone());
        next = next + 1;
    }
    let callers = ordered_texts(&all);
    proof {
        let count = registered@.len() as int;
        assert forall|caller: Seq<char>| #[trigger]
            texts(callers@).contains(caller) <==> is_registered(registered@, caller) || texts(
                named@,
            ).contains(caller) by {
            if texts(callers@).contains(caller) {
                assert(texts(all@).contains(caller));
                let i = choose|i: int| 0 <= i < texts(all@).len() && texts(all@)[i] == caller;
                if i < count {
                    assert(registered@[i].caller_id@ == caller);
                } else {
                    assert(texts(named@)[i - count] == caller);
                }
            }
            if is_registered(registered@, caller) {
                let i = choose|i: int|
                    0 <= i < registered@.len() && (#[trigger] registered@[i]).caller_id@ == caller;
                assert(texts(all@)[i] == caller);
                assert(texts(all@).contains(caller));
            }
            if texts(named@).contains(caller) {
                let i = choose|i: int| 0 <= i < texts(named@).len() && texts(named@)[i] == caller;
                assert(texts(all@)[count + i] == caller);
                assert(texts(all@).contains(caller));
            }
        }
    }
    callers
}

fn read_caller(line: &str) -> (caller: Option<String>)
    ensures
        match (caller, caller_on_line(line@)) {
            (Some(text), Some(expected)) => text@ == expected,
            (None, None) => true,
            _ => false,
        },
{
    let text = trim(line);
    let after = match strip_prefix(text.as_str(), "caller_id") {
        Some(after) => after,
        None => return None,
    };
    let rest = trim_start(after.as_str());
    let characters = chars_of(rest.as_str());
    if characters.len() == 0 || characters[0] != '=' {
        return None;
    }
    let quoted = text_of(&characters, 1, characters.len());
    assert(quoted@ =~= rest@.skip(1));
    let value = trim(quoted.as_str());
    let letters = chars_of(value.as_str());
    let count = letters.len();
    if count >= 2 && letters[0] == '"' && letters[count - 1] == '"' {
        Some(text_of(&letters, 1, count - 1))
    } else {
        None
    }
}

/// Reads the caller that an identity file names.
pub fn parse_caller_id(contents: &str) -> (caller: Option<String>)
    ensures
        match (caller, first_caller(split_by(contents@, '\n'), 0)) {
            (Some(text), Some(expected)) => text@ == expected,
            (None, None) => true,
            _ => false,
        },
{
    let lines = split_text(contents, '\n');
    let mut index: usize = 0;
    while index < lines.len()
        invariant
            index <= lines@.len(),
            texts(lines@) == split_by(contents@, '\n'),
            first_caller(texts(lines@), 0) == first_caller(texts(lines@), index as int),
        decreases lines@.len() - index,
    {
        assert(texts(lines@)[index as int] == lines@[index as int]@);
        let caller = read_caller(lines[index].as_str());
        if caller.is_some() {
            return caller;
        }
        index = index + 1;
    }
    None
}

// The receipt

pub open spec fn name_lines(names: Seq<Seq<char>>) -> Seq<char>
    decreases names.len(),
{
    if names.len() == 0 {
        seq![]
    } else {
        name_lines(names.drop_last()) + ("    "@ + names.last() + "\n"@)
    }
}

pub open spec fn item_lines(item: ResetItem) -> Seq<char> {
    "  "@ + item.kind@ + " count="@ + decimal(item.count as nat) + " bytes="@ + decimal(
        item.bytes as nat,
    ) + "\n"@ + name_lines(texts(item.names@))
}

pub open spec fn items_lines(items: Seq<ResetItem>) -> Seq<char>
    decreases items.len(),
{
    if items.len() == 0 {
        seq![]
    } else {
        items_lines(items.drop_last()) + item_lines(items.last())
    }
}

pub open spec fn path_lines(paths: Seq<Seq<char>>) -> Seq<char>
    decreases paths.len(),
{
    if paths.len() == 0 {
        seq![]
    } else {
        path_lines(paths.drop_last()) + ("  "@ + paths.last() + "\n"@)
    }
}

/// The receipt of a factory reset.
pub open spec fn receipt_of(
    now_ms: u64,
    audit_event_id: Seq<char>,
    root: Seq<char>,
    result: ResetResult,
    weights: Seq<Seq<char>>,
) -> Seq<char> {
    "PAM factory reset receipt\n"@ + "occurred_at_unix_ms="@ + decimal(now_ms as nat) + "\n"@
        + "audit_event_id="@ + audit_event_id + "\n"@ + "data_directory="@ + root + "\n"@
        + "total_items="@ + decimal(result.total_items as nat) + " total_bytes="@ + decimal(
        result.total_bytes as nat,
    ) + "\n"@ + "removed:\n"@ + items_lines(result.items@) + (if weights.len() == 0 {
        "model_weights: kept\n"@
    } else {
        "model_weights:\n"@ + path_lines(weights)
    })
}

fn append_names(text: &mut String, names: &Vec<String>)
    ensures
        final(text)@ == old(text)@ + name_lines(texts(names@)),
{
    let ghost start = text@;
    let ghost all = texts(names@);
    let mut index: usize = 0;
    assert(all.take(0) =~= Seq::<Seq<char>>::empty());
    assert(start + name_lines(all.take(0)) =~= start);
    while index < names.len()
        invariant
            index <= names@.len(),
            all == texts(names@),
            text@ == start + name_lines(all.take(index as int)),
        decreases names@.len() - index,
    {
        let line = concat3("    ", names[index].as_str(), "\n");
        proof {
            assert(all.take(index + 1).drop_last() =~= all.take(index as int));
            assert(all.take(index + 1).last() == names@[index as int]@);
            assert(start + name_lines(all.take(index + 1)) =~= start + name_lines(
                all.take(index as int),
            ) + line@);
        }
        text.append(line.as_str());
        index = index + 1;
    }
    assert(all.take(names@.len() as int) =~= all);
}

fn append_items(text: &mut String, items: &Vec<ResetItem>)
    ensures
        final(text)@ == old(text)@ + items_lines(items@),
{
    let ghost start = text@;
    let mut index: usize = 0;
    assert(items@.take(0) =~= Seq::<ResetItem>::empty());
    assert(start + items_lines(items@.take(0)) =~= start);
    while index < items.len()
        invariant
            index <= items@.len(),
            text@ == start + items_lines(items@.take(index as int)),
        decreases items@.len() - index,
    {
        let entry = &items[index];
        let ghost before = text@;
        let count = decimal_text(entry.count);
        let bytes = decimal_text(entry.bytes);
        let mut line = concat5("  ", entry.kind.as_str(), " count=", count.as_str(), " bytes=");
        line.append(bytes.as_str());
        line.append("\n");
        text.append(line.as_str());
        append_names(text, &entry.names);
        proof {
            assert(items@.take(index + 1).drop_last() =~= items@.take(index as int));
            assert(items@.take(index + 1).last() == *entry);
            assert(text@ =~= before + item_lines(*entry));
            assert(start + items_lines(items@.take(index + 1)) =~= before + item_lines(*entry));
        }
        index = index + 1;
    }
    assert(items@.take(items@.len() as int) =~= items@);
}

fn append_paths(text: &mut String, paths: &Vec<String>)
    ensures
        final(text)@ == old(text)@ + path_lines(texts(paths@)),
{
    let ghost start = text@;
    let ghost all = texts(paths@);
    let mut index: usize = 0;
    assert(all.take(0) =~= Seq::<Seq<char>>::empty());
    assert(start + path_lines(all.take(0)) =~= start);
    while index < paths.len()
        invariant
            index <= paths@.len(),
            all == texts(paths@),
            text@ == start + path_lines(all.take(index as int)),
        decreases paths@.len() - index,
    {
        let line = concat3("  ", paths[index].as_str(), "\n");
        proof {
            assert(all.take(index + 1).drop_last() =~= all.take(index as int));
            assert(all.take(index + 1).last() == paths@[index as int]@);
            assert(start + path_lines(all.take(index + 1)) =~= start + path_lines(
                all.take(index as int),
            ) + line@);
        }
        text.append(line.as_str());
        index = index + 1;
    }
    assert(all.take(paths@.len() as int) =~= all);
}

/// Writes the receipt of a factory reset.
pub fn receipt_text(
    now_ms: u64,
    audit_event_id: &str,
    root: &str,
    result: &ResetResult,
    weights: &Vec<String>,
) -> (text: String)
    ensures
        text@ == receipt_of(now_ms, audit_event_id@, root@, *result, texts(weights@)),
{
    let moment = decimal_text(now_ms);
    let count = decimal_text(result.total_items);
    let bytes = decimal_text(result.total_bytes);
    let mut text = concat4(
        "PAM factory reset receipt\n",
        "occurred_at_unix_ms=",
        moment.as_str(),
        "\n",
    );
    text.append("audit_event_id=");
    text.append(audit_event_id);
    text.append("\n");
    text.append("data_directory=");
    text.append(root);
    text.append("\n");
    text.append("total_items=");
    text.append(count.as_str());
    text.append(" total_bytes=");
    text.append(bytes.as_str());
    text.append("\n");
    text.append("removed:\n");
    append_items(&mut text, &result.items);
    if weights.len() == 0 {
        text.append("model_weights: kept\n");
    } else {
        let ghost before = text@;
        text.append("model_weights:\n");
        append_paths(&mut text, weights);
        assert(text@ =~= before + ("model_weights:\n"@ + path_lines(texts(weights@))));
    }
    text
}

// The course of a factory reset

/// What came of the last action: whether it succeeded.
#[derive(Clone, Copy, Debug, PartialEq, Eq, Structural)]
pub enum FactoryEvent {
    /// Whether it is known that no daemon runs.
    Owner { known_stopped: bool },
    StoreOpened(bool),
    CallersListed(bool),
    ItemsCounted(bool),
    WeightsListed(bool),
    Audited(bool),
    /// Whether the audit record was read back.
    Confirmed(bool),
    StoreClosed(bool),
    CredentialsPurged(bool),
    RootEmptied(bool),
    WeightsRemoved(bool),
    ReceiptWritten(bool),
}

/// Work to perform before the next event.
#[derive(Clone, Copy, Debug, PartialEq, Eq, Structural)]
pub enum FactoryAction {
    ProbeOwner,
    /// Open the store; for a forecast, only to read it.
    OpenStore { read_only: bool },
    /// Note whose credentials go, while the store still tells.
    ListCallers,
    /// Count what goes, with the credentials of those callers.
    CountItems,
    ListWeights,
    Audit,
    ConfirmAudit,
    CloseStore,
    PurgeCredentials,
    EmptyRoot,
    RemoveWeights,
    WriteReceipt,
    Report,
    /// A daemon owns the store, or may own it.
    RefuseRunning,
    /// End with the error of the action that failed first.
    Fail,
    Ignore,
}

/// What a factory reset is waiting for.
#[derive(Clone, Copy, Debug, PartialEq, Eq, Structural)]
pub enum FactoryPhase {
    Probing,
    Opening,
    ListingCallers,
    Counting,
    ListingWeights,
    Auditing,
    Confirming,
    /// The store is closed whether or not the preparation succeeded.
    Closing { prepared: bool },
    Purging,
    Emptying,
    RemovingWeights,
    WritingReceipt,
    Done,
}

/// A factory reset, or the forecast of one.
#[derive(Clone, Copy, Debug, PartialEq, Eq, Structural)]
pub struct FactoryFacts {
    pub preview: bool,
    pub include_weights: bool,
}

/// The first action. A forecast does not ask who owns the store.
pub open spec fn factory_start_of(facts: FactoryFacts) -> (FactoryPhase, FactoryAction) {
    if facts.preview {
        factory_opening(facts)
    } else {
        (FactoryPhase::Probing, FactoryAction::ProbeOwner)
    }
}

pub open spec fn factory_opening(facts: FactoryFacts) -> (FactoryPhase, FactoryAction) {
    (FactoryPhase::Opening, FactoryAction::OpenStore { read_only: facts.preview })
}

pub open spec fn factory_closing(prepared: bool) -> (FactoryPhase, FactoryAction) {
    (FactoryPhase::Closing { prepared }, FactoryAction::CloseStore)
}

pub open spec fn factory_failed() -> (FactoryPhase, FactoryAction) {
    (FactoryPhase::Done, FactoryAction::Fail)
}

/// The rule of a factory reset.
pub open spec fn spec_factory_step(
    facts: FactoryFacts,
    phase: FactoryPhase,
    event: FactoryEvent,
) -> (FactoryPhase, FactoryAction) {
    match (phase, event) {
        (FactoryPhase::Probing, FactoryEvent::Owner { known_stopped }) => if known_stopped {
            factory_opening(facts)
        } else {
            (FactoryPhase::Done, FactoryAction::RefuseRunning)
        },
        (FactoryPhase::Opening, FactoryEvent::StoreOpened(opened)) => if opened {
            (FactoryPhase::ListingCallers, FactoryAction::ListCallers)
        } else {
            factory_failed()
        },
        (FactoryPhase::ListingCallers, FactoryEvent::CallersListed(listed)) => if listed {
            (FactoryPhase::Counting, FactoryAction::CountItems)
        } else {
            factory_closing(false)
        },
        (FactoryPhase::Counting, FactoryEvent::ItemsCounted(counted)) => if !counted
            || facts.preview {
            factory_closing(counted)
        } else if facts.include_weights {
            (FactoryPhase::ListingWeights, FactoryAction::ListWeights)
        } else {
            (FactoryPhase::Auditing, FactoryAction::Audit)
        },
        (FactoryPhase::ListingWeights, FactoryEvent::WeightsListed(listed)) => if listed {
            (FactoryPhase::Auditing, FactoryAction::Audit)
        } else {
            factory_closing(false)
        },
        (FactoryPhase::Auditing, FactoryEvent::Audited(audited)) => if audited {
            (FactoryPhase::Confirming, FactoryAction::ConfirmAudit)
        } else {
            factory_closing(false)
        },
        (FactoryPhase::Confirming, FactoryEvent::Confirmed(confirmed)) => factory_closing(
            confirmed,
        ),
        (FactoryPhase::Closing { prepared }, FactoryEvent::StoreClosed(closed)) => if !prepared
            || !closed {
            factory_failed()
        } else if facts.preview {
            (FactoryPhase::Done, FactoryAction::Report)
        } else {
            (FactoryPhase::Purging, FactoryAction::PurgeCredentials)
        },
        (FactoryPhase::Purging, FactoryEvent::CredentialsPurged(purged)) => if purged {
            (FactoryPhase::Emptying, FactoryAction::EmptyRoot)
        } else {
            factory_failed()
        },
        (FactoryPhase::Emptying, FactoryEvent::RootEmptied(emptied)) => if !emptied {
            factory_failed()
        } else if facts.include_weights {
            (FactoryPhase::RemovingWeights, FactoryAction::RemoveWeights)
        } else {
            (FactoryPhase::WritingReceipt, FactoryAction::WriteReceipt)
        },
        (FactoryPhase::RemovingWeights, FactoryEvent::WeightsRemoved(removed)) => if removed {
            (FactoryPhase::WritingReceipt, FactoryAction::WriteReceipt)
        } else {
            factory_failed()
        },
        (FactoryPhase::WritingReceipt, FactoryEvent::ReceiptWritten(written)) => if written {
            (FactoryPhase::Done, FactoryAction::Report)
        } else {
            factory_failed()
        },
        _ => (phase, FactoryAction::Ignore),
    }
}

fn open_store(facts: FactoryFacts) -> (next: (FactoryPhase, FactoryAction))
    ensures
        next == factory_opening(facts),
{
    (FactoryPhase::Opening, FactoryAction::OpenStore { read_only: facts.preview })
}

fn close_store(prepared: bool) -> (next: (FactoryPhase, FactoryAction))
    ensures
        next == factory_closing(prepared),
{
    (FactoryPhase::Closing { prepared }, FactoryAction::CloseStore)
}

fn fail_factory() -> (next: (FactoryPhase, FactoryAction))
    ensures
        next == factory_failed(),
{
    (FactoryPhase::Done, FactoryAction::Fail)
}

/// Chooses the first action of a factory reset.
pub fn factory_start(facts: FactoryFacts) -> (next: (FactoryPhase, FactoryAction))
    ensures
        next == factory_start_of(facts),
{
    if facts.preview {
        open_store(facts)
    } else {
        (FactoryPhase::Probing, FactoryAction::ProbeOwner)
    }
}

/// Decides what follows `event` in a factory reset.
pub fn factory_step(facts: FactoryFacts, phase: FactoryPhase, event: FactoryEvent) -> (next: (
    FactoryPhase,
    FactoryAction,
))
    ensures
        next == spec_factory_step(facts, phase, event),
{
    match (phase, event) {
        (FactoryPhase::Probing, FactoryEvent::Owner { known_stopped }) => {
            if known_stopped {
                open_store(facts)
            } else {
                (FactoryPhase::Done, FactoryAction::RefuseRunning)
            }
        },
        (FactoryPhase::Opening, FactoryEvent::StoreOpened(opened)) => {
            if opened {
                (FactoryPhase::ListingCallers, FactoryAction::ListCallers)
            } else {
                fail_factory()
            }
        },
        (FactoryPhase::ListingCallers, FactoryEvent::CallersListed(listed)) => {
            if listed {
                (FactoryPhase::Counting, FactoryAction::CountItems)
            } else {
                close_store(false)
            }
        },
        (FactoryPhase::Counting, FactoryEvent::ItemsCounted(counted)) => {
            if !counted || facts.preview {
                close_store(counted)
            } else if facts.include_weights {
                (FactoryPhase::ListingWeights, FactoryAction::ListWeights)
            } else {
                (FactoryPhase::Auditing, FactoryAction::Audit)
            }
        },
        (FactoryPhase::ListingWeights, FactoryEvent::WeightsListed(listed)) => {
            if listed {
                (FactoryPhase::Auditing, FactoryAction::Audit)
            } else {
                close_store(false)
            }
        },
        (FactoryPhase::Auditing, FactoryEvent::Audited(audited)) => {
            if audited {
                (FactoryPhase::Confirming, FactoryAction::ConfirmAudit)
            } else {
                close_store(false)
            }
        },
        (FactoryPhase::Confirming, FactoryEvent::Confirmed(confirmed)) => close_store(confirmed),
        (FactoryPhase::Closing { prepared }, FactoryEvent::StoreClosed(closed)) => {
            if !prepared || !closed {
                fail_factory()
            } else if facts.preview {
                (FactoryPhase::Done, FactoryAction::Report)
            } else {
                (FactoryPhase::Purging, FactoryAction::PurgeCredentials)
            }
        },
        (FactoryPhase::Purging, FactoryEvent::CredentialsPurged(purged)) => {
            if purged {
                (FactoryPhase::Emptying, FactoryAction::EmptyRoot)
            } else {
                fail_factory()
            }
        },
        (FactoryPhase::Emptying, FactoryEvent::RootEmptied(emptied)) => {
            if !emptied {
                fail_factory()
            } else if facts.include_weights {
                (FactoryPhase::RemovingWeights, FactoryAction::RemoveWeights)
            } else {
                (FactoryPhase::WritingReceipt, FactoryAction::WriteReceipt)
            }
        },
        (FactoryPhase::RemovingWeights, FactoryEvent::WeightsRemoved(removed)) => {
            if removed {
                (FactoryPhase::WritingReceipt, FactoryAction::WriteReceipt)
            } else {
                fail_factory()
            }
        },
        (FactoryPhase::WritingReceipt, FactoryEvent::ReceiptWritten(written)) => {
            if written {
                (FactoryPhase::Done, FactoryAction::Report)
            } else {
                fail_factory()
            }
        },
        _ => (phase, FactoryAction::Ignore),
    }
}

/// Phase and action after `events` of a factory reset.
pub open spec fn factory_run(facts: FactoryFacts, events: Seq<FactoryEvent>) -> (
    FactoryPhase,
    FactoryAction,
)
    decreases events.len(),
{
    if events.len() == 0 {
        factory_start_of(facts)
    } else {
        spec_factory_step(facts, factory_run(facts, events.drop_last()).0, events.last())
    }
}

/// The action removes something.
pub open spec fn removes(action: FactoryAction) -> bool {
    action == FactoryAction::PurgeCredentials || action == FactoryAction::EmptyRoot || action
        == FactoryAction::RemoveWeights
}

/// The action may change what is stored or what is on disk.
pub open spec fn changes(action: FactoryAction) -> bool {
    ||| removes(action)
    ||| action == (FactoryAction::OpenStore { read_only: false })
    ||| action == FactoryAction::Audit
    ||| action == FactoryAction::WriteReceipt
}

spec fn is_past_preparation(phase: FactoryPhase) -> bool {
    phase is Purging || phase is Emptying || phase is RemovingWeights || phase is WritingReceipt
}

proof fn lemma_factory_invariant(facts: FactoryFacts, events: Seq<FactoryEvent>)
    ensures
        ({
            let (phase, action) = factory_run(facts, events);
            let stopped = events.contains(FactoryEvent::Owner { known_stopped: true });
            let confirmed = events.contains(FactoryEvent::Confirmed(true));
            let named = events.contains(FactoryEvent::CallersListed(true));
            &&& !facts.preview && !(phase is Probing) && !(phase is Done) ==> stopped
            &&& phase is Confirming || phase is Auditing || phase is ListingWeights
                || phase is Probing ==> !facts.preview
            &&& phase is Confirming || phase is Auditing || phase is ListingWeights
                || phase is Counting ==> named
            &&& phase == (FactoryPhase::Closing { prepared: true }) ==> named && (facts.preview
                || confirmed)
            &&& is_past_preparation(phase) ==> !facts.preview && confirmed && named
            &&& changes(action) ==> !facts.preview && stopped
            &&& removes(action) ==> confirmed && named
            &&& phase is RemovingWeights || action == FactoryAction::RemoveWeights
                ==> facts.include_weights
        }),
    decreases events.len(),
{
    if events.len() > 0 {
        let before = events.drop_last();
        lemma_factory_invariant(facts, before);
        assert forall|event: FactoryEvent| before.contains(event) implies events.contains(event) by {
            let i = choose|i: int| 0 <= i < before.len() && before[i] == event;
            assert(events[i] == event);
        }
        assert(events.contains(events.last())) by {
            assert(events[events.len() - 1] == events.last());
        }
    }
}

/// Nothing is removed before the reset has read its own audit record back and
/// noted whose credentials go, nor while a daemon may own the store.
pub proof fn law_factory_resets_are_recorded_first(
    facts: FactoryFacts,
    events: Seq<FactoryEvent>,
)
    requires
        removes(factory_run(facts, events).1),
    ensures
        events.contains(FactoryEvent::Owner { known_stopped: true }),
        events.contains(FactoryEvent::Confirmed(true)),
        events.contains(FactoryEvent::CallersListed(true)),
{
    lemma_factory_invariant(facts, events);
}

/// The forecast of a factory reset changes nothing: it opens the store only to
/// read it, records nothing and removes nothing.
pub proof fn law_factory_forecasts_change_nothing(facts: FactoryFacts, events: Seq<FactoryEvent>)
    requires
        facts.preview,
    ensures
        !changes(factory_run(facts, events).1),
        factory_run(facts, events).1 matches FactoryAction::OpenStore { read_only } ==> read_only,
{
    lemma_factory_invariant(facts, events);
}

/// Weights go only where the owner asked for it.
pub proof fn law_weights_stay_unless_asked(facts: FactoryFacts, events: Seq<FactoryEvent>)
    requires
        factory_run(facts, events).1 == FactoryAction::RemoveWeights,
    ensures
        facts.include_weights,
{
    lemma_factory_invariant(facts, events);
}

// What a whole reset comes to

/// The event is an answer to the action.
pub open spec fn factory_fits(action: FactoryAction, event: FactoryEvent) -> bool {
    match event {
        FactoryEvent::Owner { .. } => action == FactoryAction::ProbeOwner,
        FactoryEvent::StoreOpened(_) => action is OpenStore,
        FactoryEvent::CallersListed(_) => action == FactoryAction::ListCallers,
        FactoryEvent::ItemsCounted(_) => action == FactoryAction::CountItems,
        FactoryEvent::WeightsListed(_) => action == FactoryAction::ListWeights,
        FactoryEvent::Audited(_) => action == FactoryAction::Audit,
        FactoryEvent::Confirmed(_) => action == FactoryAction::ConfirmAudit,
        FactoryEvent::StoreClosed(_) => action == FactoryAction::CloseStore,
        FactoryEvent::CredentialsPurged(_) => action == FactoryAction::PurgeCredentials,
        FactoryEvent::RootEmptied(_) => action == FactoryAction::EmptyRoot,
        FactoryEvent::WeightsRemoved(_) => action == FactoryAction::RemoveWeights,
        FactoryEvent::ReceiptWritten(_) => action == FactoryAction::WriteReceipt,
    }
}

/// Every event answers what was asked before it.
pub open spec fn factory_told(facts: FactoryFacts, events: Seq<FactoryEvent>) -> bool
    decreases events.len(),
{
    events.len() == 0 || (factory_told(facts, events.drop_last()) && factory_fits(
        factory_run(facts, events.drop_last()).1,
        events.last(),
    ))
}

spec fn factory_waits(facts: FactoryFacts, phase: FactoryPhase, action: FactoryAction) -> bool {
    match phase {
        FactoryPhase::Probing => action == FactoryAction::ProbeOwner && !facts.preview,
        FactoryPhase::Opening => action == (FactoryAction::OpenStore { read_only: facts.preview }),
        FactoryPhase::ListingCallers => action == FactoryAction::ListCallers,
        FactoryPhase::Counting => action == FactoryAction::CountItems,
        FactoryPhase::ListingWeights => action == FactoryAction::ListWeights && !facts.preview
            && facts.include_weights,
        FactoryPhase::Auditing => action == FactoryAction::Audit && !facts.preview,
        FactoryPhase::Confirming => action == FactoryAction::ConfirmAudit && !facts.preview,
        FactoryPhase::Closing { .. } => action == FactoryAction::CloseStore,
        FactoryPhase::Purging => action == FactoryAction::PurgeCredentials && !facts.preview,
        FactoryPhase::Emptying => action == FactoryAction::EmptyRoot && !facts.preview,
        FactoryPhase::RemovingWeights => action == FactoryAction::RemoveWeights && !facts.preview
            && facts.include_weights,
        FactoryPhase::WritingReceipt => action == FactoryAction::WriteReceipt && !facts.preview,
        FactoryPhase::Done => action == FactoryAction::Report || action
            == FactoryAction::RefuseRunning || action == FactoryAction::Fail,
    }
}

/// Everything that was done so far succeeded.
pub open spec fn all_went_well(events: Seq<FactoryEvent>) -> bool {
    forall|i: int| 0 <= i < events.len() ==> went_well(#[trigger] events[i])
}

/// What was done succeeded.
pub open spec fn went_well(event: FactoryEvent) -> bool {
    match event {
        FactoryEvent::Owner { known_stopped } => known_stopped,
        FactoryEvent::StoreOpened(done) => done,
        FactoryEvent::CallersListed(done) => done,
        FactoryEvent::ItemsCounted(done) => done,
        FactoryEvent::WeightsListed(done) => done,
        FactoryEvent::Audited(done) => done,
        FactoryEvent::Confirmed(done) => done,
        FactoryEvent::StoreClosed(done) => done,
        FactoryEvent::CredentialsPurged(done) => done,
        FactoryEvent::RootEmptied(done) => done,
        FactoryEvent::WeightsRemoved(done) => done,
        FactoryEvent::ReceiptWritten(done) => done,
    }
}

/// The events of a reset, or of a forecast, on which everything succeeds, in
/// their order.
pub open spec fn factory_course(facts: FactoryFacts) -> Seq<FactoryEvent> {
    let counted = seq![
        FactoryEvent::StoreOpened(true),
        FactoryEvent::CallersListed(true),
        FactoryEvent::ItemsCounted(true),
    ];
    let closed = seq![FactoryEvent::StoreClosed(true)];
    if facts.preview {
        counted + closed
    } else {
        let listed: Seq<FactoryEvent> = if facts.include_weights {
            seq![FactoryEvent::WeightsListed(true)]
        } else {
            seq![]
        };
        let removed: Seq<FactoryEvent> = if facts.include_weights {
            seq![FactoryEvent::WeightsRemoved(true)]
        } else {
            seq![]
        };
        seq![FactoryEvent::Owner { known_stopped: true }] + counted + listed + seq![
            FactoryEvent::Audited(true),
            FactoryEvent::Confirmed(true),
        ] + closed + seq![FactoryEvent::CredentialsPurged(true), FactoryEvent::RootEmptied(true)]
            + removed + seq![FactoryEvent::ReceiptWritten(true)]
    }
}

spec fn place_of(facts: FactoryFacts, phase: FactoryPhase) -> int {
    let listed: int = if facts.include_weights {
        1
    } else {
        0
    };
    let start: int = if facts.preview {
        0
    } else {
        1
    };
    match phase {
        FactoryPhase::Probing => 0,
        FactoryPhase::Opening => start,
        FactoryPhase::ListingCallers => start + 1,
        FactoryPhase::Counting => start + 2,
        FactoryPhase::ListingWeights => 4,
        FactoryPhase::Auditing => 4 + listed,
        FactoryPhase::Confirming => 5 + listed,
        FactoryPhase::Closing { .. } => if facts.preview {
            3
        } else {
            6 + listed
        },
        FactoryPhase::Purging => 7 + listed,
        FactoryPhase::Emptying => 8 + listed,
        FactoryPhase::RemovingWeights => 10,
        FactoryPhase::WritingReceipt => 9 + 2 * listed,
        FactoryPhase::Done => if facts.preview {
            4
        } else {
            10 + 2 * listed
        },
    }
}

#[verifier::spinoff_prover]
#[verifier::rlimit(60)]
proof fn lemma_factory_told(facts: FactoryFacts, events: Seq<FactoryEvent>)
    requires
        factory_told(facts, events),
    ensures
        ({
            let (phase, action) = factory_run(facts, events);
            let course = factory_course(facts);
            let well = phase != (FactoryPhase::Closing { prepared: false }) && action
                != FactoryAction::RefuseRunning && action != FactoryAction::Fail;
            &&& factory_waits(facts, phase, action)
            &&& well <==> all_went_well(events)
            &&& well ==> events.len() == place_of(facts, phase) && events == course.take(
                events.len() as int,
            )
            &&& well && phase is Done ==> action == FactoryAction::Report
        }),
    decreases events.len(),
{
    let course = factory_course(facts);
    if events.len() > 0 {
        let before = events.drop_last();
        lemma_factory_told(facts, before);
        let last = events.last();
        if all_went_well(events) {
            assert forall|i: int| 0 <= i < before.len() implies went_well(#[trigger] before[i]) by {
                assert(before[i] == events[i]);
            }
            assert(went_well(events[events.len() - 1]));
            assert(events =~= course.take(before.len() as int).push(last));
            assert(course[before.len() as int] == last);
            assert(events =~= course.take(events.len() as int));
        } else if went_well(last) {
            assert(!all_went_well(before)) by {
                let i = choose|i: int| 0 <= i < events.len() && !went_well(#[trigger] events[i]);
                assert(before[i] == events[i]);
            }
        }
        if !all_went_well(before) {
            let i = choose|i: int| 0 <= i < before.len() && !went_well(#[trigger] before[i]);
            assert(!went_well(events[i]));
        }
        if !went_well(last) {
            assert(!went_well(events[events.len() - 1]));
        }
    } else {
        assert(events =~= course.take(0));
    }
}

/// A factory reset reports only when all of it was done, in its order: nobody
/// ran the daemon, the store was opened, the callers were listed, everything was
/// counted, the record was written and read back, the store was closed, the
/// credentials were purged, the root was emptied, the weights were removed where
/// that was asked for, and the receipt was written. A forecast reports when it
/// has opened the store, listed the callers, counted everything and closed the
/// store, and has done nothing else.
pub proof fn law_reports_come_when_all_is_done(facts: FactoryFacts, events: Seq<FactoryEvent>)
    requires
        factory_told(facts, events),
    ensures
        factory_run(facts, events).1 == FactoryAction::Report <==> events == factory_course(facts),
        factory_run(facts, events).1 == FactoryAction::Report && !facts.preview ==> {
            &&& events.contains(FactoryEvent::CredentialsPurged(true))
            &&& events.contains(FactoryEvent::RootEmptied(true))
            &&& facts.include_weights ==> events.contains(FactoryEvent::WeightsRemoved(true))
            &&& events.last() == FactoryEvent::ReceiptWritten(true)
        },
{
    let course = factory_course(facts);
    let listed: int = if facts.include_weights {
        1
    } else {
        0
    };
    lemma_factory_told(facts, events);
    if factory_run(facts, events).1 == FactoryAction::Report {
        assert(course.take(events.len() as int) =~= course);
        if !facts.preview {
            assert(events[7 + listed] == FactoryEvent::CredentialsPurged(true));
            assert(events[8 + listed] == FactoryEvent::RootEmptied(true));
            if facts.include_weights {
                assert(events[10] == FactoryEvent::WeightsRemoved(true));
            }
        }
    }
    if events == course {
        assert forall|i: int| 0 <= i < events.len() implies went_well(#[trigger] events[i]) by {}
        let phase = factory_run(facts, events).0;
        assert(place_of(facts, phase) == course.len());
        assert(phase is Done);
    }
}

/// Whatever fails, the reset fails: nothing that went wrong is passed over. A
/// daemon that may be running refuses it at once, and an opened store is closed
/// before it ends.
pub proof fn law_failed_resets_fail(facts: FactoryFacts, events: Seq<FactoryEvent>)
    requires
        factory_told(facts, events),
        !all_went_well(events),
    ensures
        ({
            let action = factory_run(facts, events).1;
            &&& action == FactoryAction::RefuseRunning || action == FactoryAction::Fail || action
                == FactoryAction::CloseStore
            &&& action == FactoryAction::RefuseRunning <==> events.last() == (FactoryEvent::Owner {
                known_stopped: false,
            })
            &&& action == FactoryAction::CloseStore ==> {
                ||| events.last() == FactoryEvent::CallersListed(false)
                ||| events.last() == FactoryEvent::ItemsCounted(false)
                ||| events.last() == FactoryEvent::WeightsListed(false)
                ||| events.last() == FactoryEvent::Audited(false)
                ||| events.last() == FactoryEvent::Confirmed(false)
            }
            &&& events.last() == FactoryEvent::CallersListed(false) || events.last()
                == FactoryEvent::ItemsCounted(false) || events.last()
                == FactoryEvent::WeightsListed(false) || events.last() == FactoryEvent::Audited(
                false,
            ) || events.last() == FactoryEvent::Confirmed(false) ==> action
                == FactoryAction::CloseStore
        }),
{
    lemma_factory_told(facts, events);
    if events.len() > 0 {
        let before = events.drop_last();
        lemma_factory_told(facts, before);
        if all_went_well(before) && went_well(events.last()) {
            assert forall|i: int| 0 <= i < events.len() implies went_well(#[trigger] events[i]) by {
                if i < before.len() {
                    assert(before[i] == events[i]);
                }
            }
        }
    }
}

/// A reset that goes well goes on in one way only: each answer is followed by
/// the next piece of work.
pub proof fn law_resets_go_on_in_order(facts: FactoryFacts, events: Seq<FactoryEvent>)
    requires
        factory_told(facts, events),
        all_went_well(events),
    ensures
        events.len() <= factory_course(facts).len(),
        events.len() < factory_course(facts).len() ==> factory_fits(
            factory_run(facts, events).1,
            factory_course(facts)[events.len() as int],
        ),
        factory_run(facts, events).1 matches FactoryAction::OpenStore { read_only } ==> read_only
            == facts.preview,
{
    lemma_factory_told(facts, events);
}

// What is counted

/// Which entries of the data root an item stands for, by their literal names.
pub proof fn law_entries_are_sorted_by_name(name: Seq<char>)
    ensures
        name == "callers"@ || name == "evidence"@ ==> entry_kind(Some(name)) == DataEntryKind::Tier,
        name == "settings.json"@ ==> entry_kind(Some(name)) == DataEntryKind::Settings,
        name == "logs"@ ==> entry_kind(Some(name)) == DataEntryKind::Logs,
        name == "runtime"@ ==> entry_kind(Some(name)) == DataEntryKind::Runtime,
        name == ".pam"@ ==> entry_kind(Some(name)) == DataEntryKind::FlowLibrary,
        entry_kind(Some(name)) == DataEntryKind::StateDatabase <==> has_prefix(
            name,
            "state.sqlite3"@,
        ),
        entry_kind(Some(name)) == DataEntryKind::Tier ==> name == "callers"@ || name
            == "evidence"@,
        entry_kind(Some(name)) == DataEntryKind::Settings ==> name == "settings.json"@,
        entry_kind(Some(name)) == DataEntryKind::Logs ==> name == "logs"@,
        entry_kind(Some(name)) == DataEntryKind::Runtime ==> name == "runtime"@,
        entry_kind(Some(name)) == DataEntryKind::FlowLibrary ==> name == ".pam"@,
        entry_kind(None) == DataEntryKind::Other,
{
    reveal_strlit("callers");
    reveal_strlit("evidence");
    reveal_strlit("settings.json");
    reveal_strlit("logs");
    reveal_strlit("runtime");
    reveal_strlit(".pam");
    reveal_strlit("state.sqlite3");
    assert("state.sqlite3"@.len() == 13);
    assert("callers"@.len() == 7 && "callers"@[0] == 'c');
    assert("evidence"@.len() == 8 && "evidence"@[0] == 'e');
    assert("settings.json"@.len() == 13 && "settings.json"@[1] == 'e');
    assert("logs"@.len() == 4 && "runtime"@.len() == 7 && "runtime"@[0] == 'r');
    assert(".pam"@.len() == 4 && ".pam"@[0] == '.' && "logs"@[0] == 'l');
    if has_prefix(name, "state.sqlite3"@) {
        assert(name.take(13)[1] == 't');
        assert(name[1] == 't');
    }
}

/// Weights are counted where they are there, each with its size.
pub proof fn law_weights_are_counted_where_they_are(sizes: Seq<Option<u64>>, more: Option<u64>)
    ensures
        weights_of(Seq::empty()) == (Footprint { entries: 0, bytes: 0 }),
        more is None ==> weights_of(sizes.push(more)) == weights_of(sizes),
        more matches Some(bytes) ==> {
            let before = weights_of(sizes);
            let after = weights_of(sizes.push(more));
            &&& before.entries < u64::MAX ==> after.entries == before.entries + 1
            &&& before.bytes + bytes <= u64::MAX ==> after.bytes == before.bytes + bytes
        },
{
    assert(sizes.push(more).drop_last() =~= sizes);
}

/// The caller of an identity file is what stands between the quotes behind
/// `caller_id =`, whatever white space is around it, and other lines name none.
pub proof fn law_identity_lines_name_the_caller(line: Seq<char>)
    ensures
        caller_on_line(line) is Some ==> has_prefix(trimmed(line), "caller_id"@),
        caller_on_line(line) matches Some(caller) ==> {
            let rest = trimmed_start(trimmed(line).skip(9));
            &&& rest[0] == '='
            &&& trimmed(rest.skip(1)) == seq!['"'] + caller + seq!['"']
        },
{
    reveal_strlit("caller_id");
    assert("caller_id"@.len() == 9);
    if let Some(caller) = caller_on_line(line) {
        let rest = trimmed_start(trimmed(line).skip(9));
        let value = trimmed(rest.skip(1));
        assert(value =~= seq!['"'] + caller + seq!['"']);
    }
}

/// The first line that names a caller decides, and there is no caller exactly
/// where no line names one.
pub proof fn law_the_first_caller_counts(lines: Seq<Seq<char>>, from: int)
    requires
        0 <= from <= lines.len(),
    ensures
        first_caller(lines, from) is None <==> forall|i: int|
            from <= i < lines.len() ==> caller_on_line(#[trigger] lines[i]) is None,
        from < lines.len() && caller_on_line(lines[from]) is Some ==> first_caller(lines, from)
            == caller_on_line(lines[from]),
        from < lines.len() && caller_on_line(lines[from]) is None ==> first_caller(lines, from)
            == first_caller(lines, from + 1),
    decreases lines.len() - from,
{
    if from < lines.len() {
        law_the_first_caller_counts(lines, from + 1);
        if caller_on_line(lines[from]) is None && first_caller(lines, from) is None {
            assert forall|i: int| from <= i < lines.len() implies caller_on_line(
                #[trigger] lines[i],
            ) is None by {}
        }
    }
}

/// What did not come of what was asked is passed over and changes nothing, and
/// once a reset is over it is not taken up again.
pub proof fn law_stray_outcomes_are_passed_over(
    facts: FactoryFacts,
    events: Seq<FactoryEvent>,
    event: FactoryEvent,
)
    requires
        factory_told(facts, events),
        !factory_fits(factory_run(facts, events).1, event),
    ensures
        factory_run(facts, events.push(event)).1 == FactoryAction::Ignore,
        factory_run(facts, events.push(event)).0 == factory_run(facts, events).0,
{
    lemma_factory_told(facts, events);
    assert(events.push(event).drop_last() =~= events);
}

/// A receipt has a line for every item, with its kind, count and bytes, and one
/// for every name and every path, in their order; it says of weights that they
/// were kept exactly where none went.
pub proof fn law_receipts_tell_everything(
    now_ms: u64,
    audit_event_id: Seq<char>,
    root: Seq<char>,
    result: ResetResult,
    weights: Seq<Seq<char>>,
    items: Seq<ResetItem>,
    item: ResetItem,
    name: Seq<char>,
)
    ensures
        ({
            let head = "PAM factory reset receipt\n"@ + "occurred_at_unix_ms="@ + decimal(
                now_ms as nat,
            ) + "\n"@ + "audit_event_id="@ + audit_event_id + "\n"@ + "data_directory="@ + root
                + "\n"@ + "total_items="@ + decimal(result.total_items as nat) + " total_bytes="@
                + decimal(result.total_bytes as nat) + "\n"@ + "removed:\n"@ + items_lines(
                result.items@,
            );
            receipt_of(now_ms, audit_event_id, root, result, weights) == if weights.len() == 0 {
                head + "model_weights: kept\n"@
            } else {
                head + ("model_weights:\n"@ + path_lines(weights))
            }
        }),
        items_lines(items.push(item)) == items_lines(items) + ("  "@ + item.kind@ + " count="@
            + decimal(item.count as nat) + " bytes="@ + decimal(item.bytes as nat) + "\n"@
            + name_lines(texts(item.names@))),
        name_lines(weights.push(name)) == name_lines(weights) + ("    "@ + name + "\n"@),
        path_lines(weights.push(name)) == path_lines(weights) + ("  "@ + name + "\n"@),
{
    assert(items.push(item).drop_last() =~= items);
    assert(weights.push(name).drop_last() =~= weights);
}

} // verus!
