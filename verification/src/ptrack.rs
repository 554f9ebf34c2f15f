//! Briefs from the ptrack command line, and the projects that it knows.

use vstd::prelude::*;
use vstd::utf8::encode_utf8;

use crate::brief::{
    BriefItem, BriefProvenance, BriefResult, SourceAvailability, brief_bounded, item_bounded,
    section_bounded,
};
use crate::digest::{sha256_digest, sha256_hex};
use crate::paths::{is_absolute, join_path, joined, path_is_absolute, paths_equal, same_path};
use crate::protocol::{OperationTruth, optional_text};
use crate::split::texts;
use crate::text::{
    byte_len, concat2, concat3, concat4, concat5, decimal, decimal_text, has_prefix, hex,
    lemma_truncated, lemma_utf8_len_concat, same_text, starts_with, trim, trimmed, truncate_text,
    truncated, utf8_len,
};

verus! {

/// How long a ptrack command may take, in milliseconds.
pub const COMMAND_TIMEOUT_MS: u64 = 1_000;

/// How long its output may stay open after it exits, in milliseconds.
pub const OUTPUT_DRAIN_TIMEOUT_MS: u64 = 250;

/// The most output that is read of a command.
pub const MAX_STDOUT_BYTES: usize = 262_144;

/// The most diagnostics that are read of a command.
pub const MAX_STDERR_BYTES: usize = 4096;

/// The most items in a section.
pub const MAX_SECTION_ITEMS: usize = 16;

/// The longest item.
pub const MAX_ITEM_BYTES: usize = 4096;

/// The longest detail.
pub const MAX_DETAIL_BYTES: usize = 4096;

/// The most projects in a catalog.
pub const MAX_REGISTERED_PROJECTS: usize = 256;

/// The longest name of a project.
pub const MAX_PROJECT_NAME_BYTES: usize = 256;

/// The longest path of a project.
pub const MAX_PROJECT_PATH_BYTES: usize = 4096;

/// What marks a text of which some is left out.
pub const TRUNCATION_SUFFIX: &'static str = "... [truncated]";

// Bounded texts

/// `text` within `maximum` bytes: all of it, or what fits before the mark.
pub open spec fn bounded(text: Seq<char>, maximum: nat) -> Seq<char> {
    if utf8_len(text) <= maximum {
        text
    } else {
        truncated(
            text,
            if maximum <= utf8_len(TRUNCATION_SUFFIX@) {
                0nat
            } else {
                (maximum - utf8_len(TRUNCATION_SUFFIX@)) as nat
            },
        ) + TRUNCATION_SUFFIX@
    }
}

/// A bounded text keeps within its bound, wherever the mark itself does.
pub proof fn law_bounded_texts_fit(text: Seq<char>, maximum: nat)
    requires
        maximum >= utf8_len(TRUNCATION_SUFFIX@),
    ensures
        utf8_len(bounded(text, maximum)) <= maximum,
        utf8_len(text) <= maximum ==> bounded(text, maximum) == text,
{
    if utf8_len(text) > maximum {
        let limit = (maximum - utf8_len(TRUNCATION_SUFFIX@)) as nat;
        lemma_truncated(text, limit);
        lemma_utf8_len_concat(truncated(text, limit), TRUNCATION_SUFFIX@);
    }
}

proof fn lemma_suffix_length()
    ensures
        utf8_len(TRUNCATION_SUFFIX@) == 15,
{
    reveal_strlit("... [truncated]");
    reveal_with_fuel(encode_utf8, 16);
    assert(TRUNCATION_SUFFIX@.len() == 15);
    let suffix = TRUNCATION_SUFFIX@;
    lemma_ascii_length(suffix);
}

/// The encoding of ASCII text has one byte for each character.
proof fn lemma_ascii_length(text: Seq<char>)
    requires
        forall|i: int| 0 <= i < text.len() ==> (#[trigger] text[i] as u32) < 0x80,
    ensures
        utf8_len(text) == text.len(),
    decreases text.len(),
{
    if text.len() == 0 {
        reveal_with_fuel(encode_utf8, 1);
    } else {
        lemma_ascii_length(text.drop_last());
        crate::text::lemma_utf8_len_push(text.drop_last(), text.last());
        assert(text =~= text.drop_last().push(text.last()));
    }
}

/// Bounds a text, and tells whether some of it was left out.
pub fn bounded_text(text: &str, maximum: usize) -> (result: (String, bool))
    ensures
        result.0@ == bounded(text@, maximum as nat),
        result.1 == (utf8_len(text@) > maximum),
{
    if byte_len(text) <= maximum {
        return (text.to_owned(), false);
    }
    let content_limit = maximum.saturating_sub(byte_len(TRUNCATION_SUFFIX));
    let mut kept = truncate_text(text, content_limit);
    kept.append(TRUNCATION_SUFFIX);
    (kept, true)
}

/// Bounds the detail of a source.
pub fn bounded_detail(detail: &str) -> (result: String)
    ensures
        result@ == bounded(detail@, MAX_DETAIL_BYTES as nat),
        utf8_len(result@) <= MAX_DETAIL_BYTES,
{
    proof {
        lemma_suffix_length();
        law_bounded_texts_fit(detail@, MAX_DETAIL_BYTES as nat);
    }
    bounded_text(detail, MAX_DETAIL_BYTES).0
}

// What ptrack reports

/// The context of a project, as ptrack reports it.
pub struct ContextDigest {
    pub goal: String,
    pub summary: String,
    pub active_plan: Option<Plan>,
    pub blocked: Option<Vec<Task>>,
    pub blocked_more: usize,
    pub on_hold: Option<Vec<Task>>,
    pub on_hold_more: usize,
    pub open_issues: Option<Vec<Issue>>,
    pub open_issues_more: usize,
    pub recent_notes: Option<Vec<Note>>,
}

pub struct Plan {
    pub id: u64,
    pub title: String,
    pub open_tasks: Option<Vec<Task>>,
    pub hold_reason: Option<String>,
}

pub struct Task {
    pub id: u64,
    pub title: String,
    pub status: String,
    pub hold_reason: Option<String>,
}

pub struct Issue {
    pub id: u64,
    pub title: String,
    pub severity: String,
}

pub struct Note {
    pub target: String,
    pub target_id: u64,
    pub body: String,
}

/// The listed entries; none where there is no list.
pub open spec fn listed<T>(list: Option<Vec<T>>) -> Seq<T> {
    match list {
        Some(entries) => entries@,
        None => seq![],
    }
}

pub open spec fn note_text(note: Note) -> Seq<char> {
    note.target@ + " #"@ + decimal(note.target_id as nat) + ": "@ + note.body@
}

pub open spec fn task_text(task: Task) -> Seq<char> {
    "#"@ + decimal(task.id as nat) + " ["@ + task.status@ + "] "@ + task.title@ + (
    match task.hold_reason {
        Some(reason) => " hold="@ + reason@,
        None => seq![],
    })
}

/// A task that is blocked or on hold is reported as blocked.
pub open spec fn task_truth(task: Task) -> OperationTruth {
    if task.status@ == "blocked"@ || task.hold_reason is Some {
        OperationTruth::Blocked
    } else {
        OperationTruth::Unresolved
    }
}

pub open spec fn issue_text(issue: Issue) -> Seq<char> {
    "issue #"@ + decimal(issue.id as nat) + " [severity="@ + issue.severity@ + "] "@ + issue.title@
}

pub open spec fn plan_text(plan: Plan) -> Seq<char> {
    "active plan #"@ + decimal(plan.id as nat) + " "@ + plan.title@ + (match plan.hold_reason {
        Some(reason) => "; hold="@ + reason@,
        None => seq![],
    })
}

// Sections

/// What a section says so far, and whether anything had to be left out of the
/// brief.
pub ghost struct Section {
    pub items: Seq<(Seq<char>, OperationTruth)>,
    pub partial: bool,
}

/// What items say.
pub open spec fn said(items: Seq<BriefItem>) -> Seq<(Seq<char>, OperationTruth)> {
    Seq::new(items.len(), |i: int| (items[i].text@, items[i].truth))
}

/// Every item points at the one handle.
pub open spec fn all_cite(items: Seq<BriefItem>, handle: Seq<char>) -> bool {
    forall|i: int|
        0 <= i < items.len() ==> (#[trigger] items[i]).evidence@.len() == 1
            && items[i].evidence@[0]@ == handle
}

/// The section with one more item, if there is room for it.
pub open spec fn with_item(section: Section, text: Seq<char>, truth: OperationTruth) -> Section {
    if section.items.len() >= MAX_SECTION_ITEMS {
        Section { items: section.items, partial: true }
    } else {
        Section {
            items: section.items.push((bounded(text, MAX_ITEM_BYTES as nat), truth)),
            partial: section.partial || utf8_len(text) > MAX_ITEM_BYTES,
        }
    }
}

pub open spec fn with_notes(section: Section, notes: Seq<Note>) -> Section
    decreases notes.len(),
{
    if notes.len() == 0 {
        section
    } else {
        with_item(
            with_notes(section, notes.drop_last()),
            note_text(notes.last()),
            OperationTruth::Observed,
        )
    }
}

pub open spec fn with_task(section: Section, task: Task) -> Section {
    with_item(section, task_text(task), task_truth(task))
}

pub open spec fn with_tasks(section: Section, tasks: Seq<Task>) -> Section
    decreases tasks.len(),
{
    if tasks.len() == 0 {
        section
    } else {
        with_task(with_tasks(section, tasks.drop_last()), tasks.last())
    }
}

/// An item for the task `id` is there already.
pub open spec fn has_task(items: Seq<(Seq<char>, OperationTruth)>, id: u64) -> bool {
    exists|i: int|
        0 <= i < items.len() && has_prefix(
            (#[trigger] items[i]).0,
            "#"@ + decimal(id as nat) + " "@,
        )
}

/// The section with those of `tasks` that it does not have yet.
pub open spec fn with_other_tasks(section: Section, tasks: Seq<Task>) -> Section
    decreases tasks.len(),
{
    if tasks.len() == 0 {
        section
    } else {
        let before = with_other_tasks(section, tasks.drop_last());
        if has_task(before.items, tasks.last().id) {
            before
        } else {
            with_task(before, tasks.last())
        }
    }
}

pub open spec fn with_issues(section: Section, issues: Seq<Issue>) -> Section
    decreases issues.len(),
{
    if issues.len() == 0 {
        section
    } else {
        with_item(
            with_issues(section, issues.drop_last()),
            issue_text(issues.last()),
            OperationTruth::Unresolved,
        )
    }
}

// The brief of a context

/// The goal was longer than an item may be.
pub open spec fn goal_partial(digest: ContextDigest) -> bool {
    trimmed(digest.goal@).len() > 0 && utf8_len(digest.goal@) > MAX_ITEM_BYTES
}

pub open spec fn decisions_of(digest: ContextDigest) -> Section {
    with_notes(
        Section { items: seq![], partial: goal_partial(digest) },
        listed(digest.recent_notes),
    )
}

pub open spec fn verified_of(digest: ContextDigest) -> Section {
    let start = Section { items: seq![], partial: decisions_of(digest).partial };
    if trimmed(digest.summary@).len() > 0 {
        with_item(start, digest.summary@, OperationTruth::Observed)
    } else {
        start
    }
}

/// What comes next: the open tasks of the active plan, the blocked tasks and
/// the tasks on hold that are not among them, and the open issues.
pub open spec fn next_of(digest: ContextDigest) -> Section {
    let start = Section { items: seq![], partial: verified_of(digest).partial };
    let planned = match digest.active_plan {
        Some(plan) => with_tasks(start, listed(plan.open_tasks)),
        None => start,
    };
    let blocked = with_other_tasks(planned, listed(digest.blocked));
    let held = with_other_tasks(blocked, listed(digest.on_hold));
    with_issues(held, listed(digest.open_issues))
}

/// Something of the context is not in its brief.
pub open spec fn is_partial(digest: ContextDigest) -> bool {
    next_of(digest).partial || digest.blocked_more > 0 || digest.on_hold_more > 0
        || digest.open_issues_more > 0
}

pub open spec fn context_detail(digest: ContextDigest) -> Seq<char> {
    let plan = match digest.active_plan {
        Some(plan) => "ptrack context --json via the supported CLI"@ + "; "@ + plan_text(plan),
        None => "ptrack context --json via the supported CLI"@,
    };
    if is_partial(digest) {
        plan + "; bounded fields were truncated or omitted"@
    } else {
        plan
    }
}

/// `entry` is the one source of the brief of `digest`.
pub open spec fn names_context(
    entry: BriefProvenance,
    digest: ContextDigest,
    handle: Seq<char>,
) -> bool {
    &&& entry.source@ == "ptrack"@
    &&& entry.availability == (if is_partial(digest) {
        SourceAvailability::Partial
    } else {
        SourceAvailability::Available
    })
    &&& entry.truth == OperationTruth::Observed
    &&& optional_text(entry.evidence) == Some(handle)
    &&& optional_text(entry.detail) == Some(
        bounded(context_detail(digest), MAX_DETAIL_BYTES as nat),
    )
}

/// `brief` is the brief of `digest`, with `handle` as its evidence.
pub open spec fn is_brief_of(brief: BriefResult, digest: ContextDigest, handle: Seq<char>) -> bool {
    &&& match brief.goal {
        Some(item) => {
            &&& trimmed(digest.goal@).len() > 0
            &&& item.text@ == bounded(digest.goal@, MAX_ITEM_BYTES as nat)
            &&& item.truth == OperationTruth::Observed
            &&& item.evidence@.len() == 1
            &&& item.evidence@[0]@ == handle
        },
        None => trimmed(digest.goal@).len() == 0,
    }
    &&& said(brief.decisions@) == decisions_of(digest).items
    &&& said(brief.verified@) == verified_of(digest).items
    &&& said(brief.next@) == next_of(digest).items
    &&& all_cite(brief.decisions@, handle)
    &&& all_cite(brief.verified@, handle)
    &&& all_cite(brief.next@, handle)
    &&& brief.provenance@.len() == 1
    &&& names_context(brief.provenance@[0], digest, handle)
}

/// The items and the mark, as a section.
pub open spec fn section_of(items: Seq<BriefItem>, partial: bool) -> Section {
    Section { items: said(items), partial }
}

fn push_item(
    items: &mut Vec<BriefItem>,
    text: &str,
    truth: OperationTruth,
    handle: &str,
    partial: &mut bool,
)
    requires
        all_cite(old(items)@, handle@),
        section_bounded(old(items)@),
    ensures
        section_of(final(items)@, *final(partial)) == with_item(
            section_of(old(items)@, *old(partial)),
            text@,
            truth,
        ),
        all_cite(final(items)@, handle@),
        section_bounded(final(items)@),
{
    if items.len() >= MAX_SECTION_ITEMS {
        *partial = true;
        return;
    }
    proof {
        lemma_suffix_length();
        law_bounded_texts_fit(text@, MAX_ITEM_BYTES as nat);
    }
    let ghost before = items@;
    let (text, truncated) = bounded_text(text, MAX_ITEM_BYTES);
    if truncated {
        *partial = true;
    }
    let mut evidence: Vec<String> = Vec::new();
    evidence.push(handle.to_owned());
    items.push(BriefItem { text, truth, evidence });
    proof {
        assert(said(items@) =~= said(before).push((text@, truth)));
        assert forall|i: int| 0 <= i < items@.len() implies item_bounded(
            #[trigger] items@[i],
        ) by {
            if i < before.len() {
                assert(items@[i] == before[i]);
            }
        }
        assert forall|i: int| 0 <= i < items@.len() implies (#[trigger] items@[i]).evidence@.len()
            == 1 && items@[i].evidence@[0]@ == handle@ by {
            if i < before.len() {
                assert(items@[i] == before[i]);
            }
        }
    }
}

fn push_task(items: &mut Vec<BriefItem>, task: &Task, handle: &str, partial: &mut bool)
    requires
        all_cite(old(items)@, handle@),
        section_bounded(old(items)@),
    ensures
        section_of(final(items)@, *final(partial)) == with_task(
            section_of(old(items)@, *old(partial)),
            *task,
        ),
        all_cite(final(items)@, handle@),
        section_bounded(final(items)@),
{
    let truth = if same_text(task.status.as_str(), "blocked") || task.hold_reason.is_some() {
        OperationTruth::Blocked
    } else {
        OperationTruth::Unresolved
    };
    let number = decimal_text(task.id);
    let mut text = concat5("#", number.as_str(), " [", task.status.as_str(), "] ");
    text.append(task.title.as_str());
    assert(text@ + seq![] =~= text@);
    if let Some(reason) = &task.hold_reason {
        let held = concat2(" hold=", reason.as_str());
        text.append(held.as_str());
    }
    push_item(items, text.as_str(), truth, handle, partial);
}

fn has_task_item(items: &Vec<BriefItem>, id: u64) -> (found: bool)
    ensures
        found == has_task(said(items@), id),
{
    let number = decimal_text(id);
    let prefix = concat3("#", number.as_str(), " ");
    let mut index: usize = 0;
    while index < items.len()
        invariant
            index <= items@.len(),
            prefix@ == "#"@ + decimal(id as nat) + " "@,
            forall|i: int|
                0 <= i < index ==> !has_prefix((#[trigger] said(items@)[i]).0, prefix@),
        decreases items@.len() - index,
    {
        assert(said(items@)[index as int].0 == items@[index as int].text@);
        if starts_with(items[index].text.as_str(), prefix.as_str()) {
            return true;
        }
        index = index + 1;
    }
    false
}

fn push_tasks(
    items: &mut Vec<BriefItem>,
    tasks: &Option<Vec<Task>>,
    handle: &str,
    partial: &mut bool,
)
    requires
        all_cite(old(items)@, handle@),
        section_bounded(old(items)@),
    ensures
        section_of(final(items)@, *final(partial)) == with_tasks(
            section_of(old(items)@, *old(partial)),
            listed(*tasks),
        ),
        all_cite(final(items)@, handle@),
        section_bounded(final(items)@),
{
    let ghost start = section_of(items@, *partial);
    if let Some(tasks) = tasks {
        let mut index: usize = 0;
        assert(tasks@.take(0) =~= Seq::<Task>::empty());
        while index < tasks.len()
            invariant
                index <= tasks@.len(),
                section_of(items@, *partial) == with_tasks(start, tasks@.take(index as int)),
                all_cite(items@, handle@),
                section_bounded(items@),
            decreases tasks@.len() - index,
        {
            proof {
                assert(tasks@.take(index + 1).drop_last() =~= tasks@.take(index as int));
                assert(tasks@.take(index + 1).last() == tasks@[index as int]);
            }
            push_task(items, &tasks[index], handle, partial);
            index = index + 1;
        }
        assert(tasks@.take(tasks@.len() as int) =~= tasks@);
    }
}

fn push_other_tasks(
    items: &mut Vec<BriefItem>,
    tasks: &Option<Vec<Task>>,
    handle: &str,
    partial: &mut bool,
)
    requires
        all_cite(old(items)@, handle@),
        section_bounded(old(items)@),
    ensures
        section_of(final(items)@, *final(partial)) == with_other_tasks(
            section_of(old(items)@, *old(partial)),
            listed(*tasks),
        ),
        all_cite(final(items)@, handle@),
        section_bounded(final(items)@),
{
    let ghost start = section_of(items@, *partial);
    if let Some(tasks) = tasks {
        let mut index: usize = 0;
        assert(tasks@.take(0) =~= Seq::<Task>::empty());
        while index < tasks.len()
            invariant
                index <= tasks@.len(),
                section_of(items@, *partial) == with_other_tasks(start, tasks@.take(index as int)),
                all_cite(items@, handle@),
                section_bounded(items@),
            decreases tasks@.len() - index,
        {
            proof {
                assert(tasks@.take(index + 1).drop_last() =~= tasks@.take(index as int));
                assert(tasks@.take(index + 1).last() == tasks@[index as int]);
            }
            if !has_task_item(items, tasks[index].id) {
                push_task(items, &tasks[index], handle, partial);
            }
            index = index + 1;
        }
        assert(tasks@.take(tasks@.len() as int) =~= tasks@);
    }
}

fn push_issues(
    items: &mut Vec<BriefItem>,
    issues: &Option<Vec<Issue>>,
    handle: &str,
    partial: &mut bool,
)
    requires
        all_cite(old(items)@, handle@),
        section_bounded(old(items)@),
    ensures
        section_of(final(items)@, *final(partial)) == with_issues(
            section_of(old(items)@, *old(partial)),
            listed(*issues),
        ),
        all_cite(final(items)@, handle@),
        section_bounded(final(items)@),
{
    let ghost start = section_of(items@, *partial);
    if let Some(issues) = issues {
        let mut index: usize = 0;
        assert(issues@.take(0) =~= Seq::<Issue>::empty());
        while index < issues.len()
            invariant
                index <= issues@.len(),
                section_of(items@, *partial) == with_issues(start, issues@.take(index as int)),
                all_cite(items@, handle@),
                section_bounded(items@),
            decreases issues@.len() - index,
        {
            proof {
                assert(issues@.take(index + 1).drop_last() =~= issues@.take(index as int));
                assert(issues@.take(index + 1).last() == issues@[index as int]);
            }
            let issue = &issues[index];
            let number = decimal_text(issue.id);
            let mut text = concat5(
                "issue #",
                number.as_str(),
                " [severity=",
                issue.severity.as_str(),
                "] ",
            );
            text.append(issue.title.as_str());
            push_item(items, text.as_str(), OperationTruth::Unresolved, handle, partial);
            index = index + 1;
        }
        assert(issues@.take(issues@.len() as int) =~= issues@);
    }
}

fn push_notes(
    items: &mut Vec<BriefItem>,
    notes: &Option<Vec<Note>>,
    handle: &str,
    partial: &mut bool,
)
    requires
        all_cite(old(items)@, handle@),
        section_bounded(old(items)@),
    ensures
        section_of(final(items)@, *final(partial)) == with_notes(
            section_of(old(items)@, *old(partial)),
            listed(*notes),
        ),
        all_cite(final(items)@, handle@),
        section_bounded(final(items)@),
{
    let ghost start = section_of(items@, *partial);
    if let Some(notes) = notes {
        let mut index: usize = 0;
        assert(notes@.take(0) =~= Seq::<Note>::empty());
        while index < notes.len()
            invariant
                index <= notes@.len(),
                section_of(items@, *partial) == with_notes(start, notes@.take(index as int)),
                all_cite(items@, handle@),
                section_bounded(items@),
            decreases notes@.len() - index,
        {
            proof {
                assert(notes@.take(index + 1).drop_last() =~= notes@.take(index as int));
                assert(notes@.take(index + 1).last() == notes@[index as int]);
            }
            let note = &notes[index];
            let number = decimal_text(note.target_id);
            let text = concat5(
                note.target.as_str(),
                " #",
                number.as_str(),
                ": ",
                note.body.as_str(),
            );
            push_item(items, text.as_str(), OperationTruth::Observed, handle, partial);
            index = index + 1;
        }
        assert(notes@.take(notes@.len() as int) =~= notes@);
    }
}

fn item_if_present(text: &str, handle: &str, partial: &mut bool) -> (item: Option<BriefItem>)
    ensures
        match item {
            Some(found) => {
                &&& trimmed(text@).len() > 0
                &&& found.text@ == bounded(text@, MAX_ITEM_BYTES as nat)
                &&& found.truth == OperationTruth::Observed
                &&& found.evidence@.len() == 1
                &&& found.evidence@[0]@ == handle@
                &&& item_bounded(found)
            },
            None => trimmed(text@).len() == 0,
        },
        *final(partial) == (*old(partial) || (trimmed(text@).len() > 0 && utf8_len(text@)
            > MAX_ITEM_BYTES)),
{
    if is_blank(text) {
        return None;
    }
    proof {
        lemma_suffix_length();
        law_bounded_texts_fit(text@, MAX_ITEM_BYTES as nat);
    }
    let (text, truncated) = bounded_text(text, MAX_ITEM_BYTES);
    if truncated {
        *partial = true;
    }
    let mut evidence: Vec<String> = Vec::new();
    evidence.push(handle.to_owned());
    Some(BriefItem { text, truth: OperationTruth::Observed, evidence })
}

fn is_blank(text: &str) -> (blank: bool)
    ensures
        blank == (trimmed(text@).len() == 0),
{
    let rest = trim(text);
    rest.as_str().is_empty()
}

fn plan_detail(plan: &Plan) -> (text: String)
    ensures
        text@ == plan_text(*plan),
{
    let number = decimal_text(plan.id);
    let mut text = concat4("active plan #", number.as_str(), " ", plan.title.as_str());
    assert(text@ + seq![] =~= text@);
    if let Some(reason) = &plan.hold_reason {
        let held = concat2("; hold=", reason.as_str());
        text.append(held.as_str());
    }
    text
}

impl ContextDigest {
    /// The brief of a context, with `handle` as its evidence. Whatever ptrack
    /// reported, the brief is within its limits, and says so where something
    /// had to be left out.
    pub fn into_brief(self, handle: &str) -> (brief: BriefResult)
        ensures
            is_brief_of(brief, self, handle@),
            brief_bounded(brief),
    {
        let mut partial = false;
        let goal = item_if_present(self.goal.as_str(), handle, &mut partial);
        let mut decisions: Vec<BriefItem> = Vec::new();
        assert(said(decisions@) =~= Seq::<(Seq<char>, OperationTruth)>::empty());
        push_notes(&mut decisions, &self.recent_notes, handle, &mut partial);
        let mut verified: Vec<BriefItem> = Vec::new();
        assert(said(verified@) =~= Seq::<(Seq<char>, OperationTruth)>::empty());
        if !is_blank(self.summary.as_str()) {
            push_item(
                &mut verified,
                self.summary.as_str(),
                OperationTruth::Observed,
                handle,
                &mut partial,
            );
        }
        let mut next: Vec<BriefItem> = Vec::new();
        assert(said(next@) =~= Seq::<(Seq<char>, OperationTruth)>::empty());
        if let Some(plan) = &self.active_plan {
            push_tasks(&mut next, &plan.open_tasks, handle, &mut partial);
        }
        push_other_tasks(&mut next, &self.blocked, handle, &mut partial);
        push_other_tasks(&mut next, &self.on_hold, handle, &mut partial);
        push_issues(&mut next, &self.open_issues, handle, &mut partial);
        if self.blocked_more > 0 || self.on_hold_more > 0 || self.open_issues_more > 0 {
            partial = true;
        }
        let mut detail = "ptrack context --json via the supported CLI".to_owned();
        if let Some(plan) = &self.active_plan {
            detail.append("; ");
            detail.append(plan_detail(plan).as_str());
        }
        if partial {
            detail.append("; bounded fields were truncated or omitted");
        }
        let availability = if partial {
            SourceAvailability::Partial
        } else {
            SourceAvailability::Available
        };
        let entry = BriefProvenance {
            source: "ptrack".to_owned(),
            availability,
            truth: OperationTruth::Observed,
            evidence: Some(handle.to_owned()),
            detail: Some(bounded_detail(detail.as_str())),
        };
        proof {
            lemma_source_length();
        }
        let mut provenance: Vec<BriefProvenance> = Vec::new();
        provenance.push(entry);
        BriefResult { goal, decisions, verified, next, provenance }
    }
}

proof fn lemma_source_length()
    ensures
        utf8_len("ptrack"@) == 6,
{
    reveal_strlit("ptrack");
    lemma_ascii_length("ptrack"@);
}

/// The brief of a source that could not be read.
pub fn unavailable(detail: &str) -> (brief: BriefResult)
    ensures
        brief.goal is None,
        brief.decisions@.len() == 0,
        brief.verified@.len() == 0,
        brief.next@.len() == 0,
        brief.provenance@.len() == 1,
        ({
            let entry = brief.provenance@[0];
            &&& entry.source@ == "ptrack"@
            &&& entry.availability == SourceAvailability::Unavailable
            &&& entry.truth == OperationTruth::Unresolved
            &&& entry.evidence is None
            &&& optional_text(entry.detail) == Some(bounded(detail@, MAX_DETAIL_BYTES as nat))
        }),
        brief_bounded(brief),
{
    proof {
        lemma_source_length();
    }
    let mut provenance: Vec<BriefProvenance> = Vec::new();
    provenance.push(
        BriefProvenance {
            source: "ptrack".to_owned(),
            availability: SourceAvailability::Unavailable,
            truth: OperationTruth::Unresolved,
            evidence: None,
            detail: Some(bounded_detail(detail)),
        },
    );
    BriefResult {
        goal: None,
        decisions: Vec::new(),
        verified: Vec::new(),
        next: Vec::new(),
        provenance,
    }
}

/// The handle under which the exact bytes of a context are kept.
pub fn context_handle(bytes: &[u8]) -> (handle: String)
    ensures
        handle@ == "evidence://ptrack/context/"@ + hex(sha256_digest(bytes@)),
{
    let digest = sha256_hex(bytes);
    concat2("evidence://ptrack/context/", digest.as_str())
}

// The catalog

/// A project that ptrack knows.
#[derive(Clone, Debug, PartialEq, Eq)]
pub struct RegisteredProject {
    pub name: String,
    pub path: String,
    pub last_seen: String,
}

impl RegisteredProject {
    pub fn name(&self) -> (name: &str)
        ensures
            name@ == self.name@,
    {
        self.name.as_str()
    }

    pub fn path(&self) -> (path: &str)
        ensures
            path@ == self.path@,
    {
        self.path.as_str()
    }

    pub fn last_seen(&self) -> (last_seen: &str)
        ensures
            last_seen@ == self.last_seen@,
    {
        self.last_seen.as_str()
    }
}

/// The entry has a name, an absolute path, and no part that is too long.
pub open spec fn is_valid_project(project: RegisteredProject) -> bool {
    &&& trimmed(project.name@).len() > 0
    &&& utf8_len(project.name@) <= MAX_PROJECT_NAME_BYTES
    &&& is_absolute(project.path@)
    &&& utf8_len(project.path@) <= MAX_PROJECT_PATH_BYTES
    &&& utf8_len(project.last_seen@) <= MAX_PROJECT_NAME_BYTES
}

/// Why a catalog is refused; nothing where it is not.
pub open spec fn catalog_fault(projects: Seq<RegisteredProject>) -> Option<Seq<char>> {
    if projects.len() > MAX_REGISTERED_PROJECTS {
        Some("ptrack returned too many registered projects."@)
    } else if exists|i: int|
        0 <= i < projects.len() && !is_valid_project(#[trigger] projects[i]) {
        Some("ptrack returned an invalid registered project entry."@)
    } else {
        None
    }
}

/// Checks a catalog that ptrack returned: it is handed on whole or not at all.
pub fn check_registered_projects(projects: Vec<RegisteredProject>) -> (checked: Result<
    Vec<RegisteredProject>,
    String,
>)
    ensures
        match checked {
            Ok(accepted) => accepted == projects && catalog_fault(projects@) is None,
            Err(text) => catalog_fault(projects@) == Some(text@),
        },
{
    if projects.len() > MAX_REGISTERED_PROJECTS {
        return Err("ptrack returned too many registered projects.".to_owned());
    }
    let mut index: usize = 0;
    while index < projects.len()
        invariant
            index <= projects@.len(),
            projects@.len() <= MAX_REGISTERED_PROJECTS,
            forall|i: int| 0 <= i < index ==> is_valid_project(#[trigger] projects@[i]),
        decreases projects@.len() - index,
    {
        let project = &projects[index];
        if is_blank(project.name.as_str()) || byte_len(project.name.as_str())
            > MAX_PROJECT_NAME_BYTES || !path_is_absolute(project.path.as_str()) || byte_len(
            project.path.as_str(),
        ) > MAX_PROJECT_PATH_BYTES || byte_len(project.last_seen.as_str())
            > MAX_PROJECT_NAME_BYTES {
            assert(!is_valid_project(projects@[index as int]));
            return Err("ptrack returned an invalid registered project entry.".to_owned());
        }
        index = index + 1;
    }
    Ok(projects)
}

/// The message for a catalog that is not JSON of the expected form.
pub fn incompatible_projects(error: &str) -> (text: String)
    ensures
        text@ == bounded(
            "ptrack returned incompatible projects JSON: "@ + error@,
            MAX_DETAIL_BYTES as nat,
        ),
{
    let message = concat2("ptrack returned incompatible projects JSON: ", error);
    bounded_detail(message.as_str())
}

/// A project of the catalog is at `directory`.
pub open spec fn catalog_has(projects: Seq<RegisteredProject>, directory: Seq<char>) -> bool {
    exists|i: int| 0 <= i < projects.len() && same_path((#[trigger] projects[i]).path@, directory)
}

/// Checks that the project at `directory` is in a checked catalog.
pub fn validate_registered_project(projects: &Vec<RegisteredProject>, directory: &str) -> (result:
    Result<(), String>)
    ensures
        match result {
            Ok(_) => catalog_has(projects@, directory@),
            Err(text) => !catalog_has(projects@, directory@) && text@
                == "ptrack does not report this Pam project root through its supported projects interface."@,
        },
{
    let mut index: usize = 0;
    while index < projects.len()
        invariant
            index <= projects@.len(),
            forall|i: int|
                0 <= i < index ==> !same_path((#[trigger] projects@[i]).path@, directory@),
        decreases projects@.len() - index,
    {
        if paths_equal(projects[index].path.as_str(), directory) {
            return Ok(());
        }
        index = index + 1;
    }
    Err(
        "ptrack does not report this Pam project root through its supported projects interface.".to_owned(),
    )
}

// Where ptrack is

/// The places to look for ptrack, in order: where the owner says, beside the
/// daemon, and in the usual directories.
pub open spec fn candidates_of(
    configured: Option<Seq<char>>,
    beside: Option<Seq<char>>,
    home: Option<Seq<char>>,
) -> Seq<Seq<char>> {
    let first = match configured {
        Some(path) => if is_absolute(path) {
            seq![path]
        } else {
            seq![]
        },
        None => seq![],
    };
    let second = match beside {
        Some(directory) => seq![joined(directory, "ptrack"@)],
        None => seq![],
    };
    let third = match home {
        Some(directory) => if is_absolute(directory) {
            seq![
                joined(joined(joined(directory, ".local"@), "bin"@), "ptrack"@),
                joined(joined(joined(directory, ".cargo"@), "bin"@), "ptrack"@),
                joined(joined(joined(directory, "go"@), "bin"@), "ptrack"@),
            ]
        } else {
            seq![]
        },
        None => seq![],
    };
    first + second + third + seq![
        joined("/opt/homebrew/bin"@, "ptrack"@),
        joined("/usr/local/bin"@, "ptrack"@),
    ]
}

fn in_home(home: &str, part: &str) -> (path: String)
    ensures
        path@ == joined(joined(joined(home@, part@), "bin"@), "ptrack"@),
{
    let directory = join_path(home, part);
    let binaries = join_path(directory.as_str(), "bin");
    join_path(binaries.as_str(), "ptrack")
}

pub open spec fn borrowed_text(text: Option<&str>) -> Option<Seq<char>> {
    match text {
        Some(found) => Some(found@),
        None => None,
    }
}

/// Lists the places to look for ptrack.
pub fn ptrack_candidates(configured: Option<&str>, beside: Option<&str>, home: Option<&str>) -> (
    candidates: Vec<String>)
    ensures
        texts(candidates@) == candidates_of(
            borrowed_text(configured),
            borrowed_text(beside),
            borrowed_text(home),
        ),
{
    let mut candidates: Vec<String> = Vec::new();
    if let Some(path) = configured {
        if path_is_absolute(path) {
            candidates.push(path.to_owned());
        }
    }
    if let Some(directory) = beside {
        candidates.push(join_path(directory, "ptrack"));
    }
    if let Some(directory) = home {
        if path_is_absolute(directory) {
            candidates.push(in_home(directory, ".local"));
            candidates.push(in_home(directory, ".cargo"));
            candidates.push(in_home(directory, "go"));
        }
    }
    candidates.push(join_path("/opt/homebrew/bin", "ptrack"));
    candidates.push(join_path("/usr/local/bin", "ptrack"));
    assert(texts(candidates@) =~= candidates_of(
        borrowed_text(configured),
        borrowed_text(beside),
        borrowed_text(home),
    ));
    candidates
}

/// Picks the first candidate that is a file; without one, the bare name is left
/// to the search path.
pub fn first_existing_executable(candidates: &Vec<String>, is_file: &Vec<bool>) -> (executable:
    String)
    requires
        is_file@.len() == candidates@.len(),
    ensures
        (forall|i: int| 0 <= i < is_file@.len() ==> !(#[trigger] is_file@[i])) ==> executable@
            == "ptrack"@,
        forall|i: int|
            #![trigger is_file@[i]]
            0 <= i < is_file@.len() && is_file@[i] && (forall|j: int|
                0 <= j < i ==> !(#[trigger] is_file@[j])) ==> executable@ == candidates@[i]@,
{
    let mut index: usize = 0;
    while index < candidates.len()
        invariant
            index <= candidates@.len(),
            is_file@.len() == candidates@.len(),
            forall|i: int| 0 <= i < index ==> !(#[trigger] is_file@[i]),
        decreases candidates@.len() - index,
    {
        if is_file[index] {
            return candidates[index].clone();
        }
        index = index + 1;
    }
    "ptrack".to_owned()
}

// Running ptrack

/// How waiting for a command ended.
#[derive(Clone, Copy, Debug, PartialEq, Eq, Structural)]
pub enum WaitEnd {
    Exited { success: bool },
    Failed,
    DeadlineElapsed,
}

/// How reading a stream of a command ended.
#[derive(Clone, Copy, Debug, PartialEq, Eq, Structural)]
pub enum ReaderEnd {
    Read { exceeded: bool },
    Failed,
    /// The stream stayed open after the command exited.
    Open,
}

/// Why the output of a command cannot be used.
#[derive(Clone, Copy, Debug, PartialEq, Eq, Structural)]
pub enum RunFault {
    NotStarted,
    NoOutput,
    NoDiagnostics,
    WaitFailed,
    DeadlineElapsed,
    OutputUnread,
    OutputOpen,
    DiagnosticsUnread,
    DiagnosticsOpen,
    OutputTooLong,
    ExitedInFailure,
}

/// The fault of a command that was started and waited for, if it has one.
pub open spec fn run_fault_of(waited: WaitEnd, output: ReaderEnd, diagnostics: ReaderEnd) -> Option<
    RunFault,
> {
    match waited {
        WaitEnd::Failed => Some(RunFault::WaitFailed),
        WaitEnd::DeadlineElapsed => Some(RunFault::DeadlineElapsed),
        WaitEnd::Exited { success } => match (output, diagnostics) {
            (ReaderEnd::Failed, _) => Some(RunFault::OutputUnread),
            (ReaderEnd::Open, _) => Some(RunFault::OutputOpen),
            (_, ReaderEnd::Failed) => Some(RunFault::DiagnosticsUnread),
            (_, ReaderEnd::Open) => Some(RunFault::DiagnosticsOpen),
            (ReaderEnd::Read { exceeded: true }, _) => Some(RunFault::OutputTooLong),
            _ => if success {
                None
            } else {
                Some(RunFault::ExitedInFailure)
            },
        },
    }
}

/// Judges a command that was started and waited for. Diagnostics that are too
/// long are no fault.
pub fn run_fault(waited: WaitEnd, output: ReaderEnd, diagnostics: ReaderEnd) -> (fault: Option<
    RunFault,
>)
    ensures
        fault == run_fault_of(waited, output, diagnostics),
{
    match waited {
        WaitEnd::Failed => Some(RunFault::WaitFailed),
        WaitEnd::DeadlineElapsed => Some(RunFault::DeadlineElapsed),
        WaitEnd::Exited { success } => {
            let exceeded = match output {
                ReaderEnd::Failed => return Some(RunFault::OutputUnread),
                ReaderEnd::Open => return Some(RunFault::OutputOpen),
                ReaderEnd::Read { exceeded } => exceeded,
            };
            match diagnostics {
                ReaderEnd::Failed => return Some(RunFault::DiagnosticsUnread),
                ReaderEnd::Open => return Some(RunFault::DiagnosticsOpen),
                ReaderEnd::Read { .. } => {},
            }
            if exceeded {
                Some(RunFault::OutputTooLong)
            } else if success {
                None
            } else {
                Some(RunFault::ExitedInFailure)
            }
        },
    }
}

/// A fault in words.
pub open spec fn fault_text(
    fault: RunFault,
    operation: Seq<char>,
    status: Seq<char>,
    diagnostic: Seq<char>,
) -> Seq<char> {
    match fault {
        RunFault::NotStarted => "The ptrack executable is unavailable."@,
        RunFault::NoOutput => "Pam could not capture ptrack output."@,
        RunFault::NoDiagnostics => "Pam could not capture ptrack diagnostics."@,
        RunFault::WaitFailed => "Pam could not wait for ptrack context."@,
        RunFault::DeadlineElapsed => operation + " exceeded the one-second deadline."@,
        RunFault::OutputUnread => "Pam could not read ptrack output."@,
        RunFault::OutputOpen => "ptrack output did not close after exit."@,
        RunFault::DiagnosticsUnread => "Pam could not read ptrack diagnostics."@,
        RunFault::DiagnosticsOpen => "ptrack diagnostics did not close after exit."@,
        RunFault::OutputTooLong => operation + " exceeded the 262144-byte output limit."@,
        RunFault::ExitedInFailure => bounded(
            operation + " exited with status "@ + status + "."@ + (if trimmed(diagnostic).len()
                == 0 {
                seq![]
            } else {
                " Details: "@ + trimmed(diagnostic)
            }),
            MAX_DETAIL_BYTES as nat,
        ),
    }
}

/// Puts a fault into words. `status` is the exit status as the system writes
/// it, and `diagnostic` what the command itself said.
pub fn run_fault_text(fault: RunFault, operation: &str, status: &str, diagnostic: &str) -> (text:
    String)
    ensures
        text@ == fault_text(fault, operation@, status@, diagnostic@),
{
    match fault {
        RunFault::NotStarted => "The ptrack executable is unavailable.".to_owned(),
        RunFault::NoOutput => "Pam could not capture ptrack output.".to_owned(),
        RunFault::NoDiagnostics => "Pam could not capture ptrack diagnostics.".to_owned(),
        RunFault::WaitFailed => "Pam could not wait for ptrack context.".to_owned(),
        RunFault::DeadlineElapsed => concat2(operation, " exceeded the one-second deadline."),
        RunFault::OutputUnread => "Pam could not read ptrack output.".to_owned(),
        RunFault::OutputOpen => "ptrack output did not close after exit.".to_owned(),
        RunFault::DiagnosticsUnread => "Pam could not read ptrack diagnostics.".to_owned(),
        RunFault::DiagnosticsOpen => "ptrack diagnostics did not close after exit.".to_owned(),
        RunFault::OutputTooLong => concat2(operation, " exceeded the 262144-byte output limit."),
        RunFault::ExitedInFailure => {
            let mut text = concat4(operation, " exited with status ", status, ".");
            let said = trim(diagnostic);
            assert(text@ + seq![] =~= text@);
            if !said.as_str().is_empty() {
                let details = concat2(" Details: ", said.as_str());
                text.append(details.as_str());
            }
            bounded_detail(text.as_str())
        },
    }
}

// Making a brief

/// Why a brief could not be made.
#[derive(Clone, Copy, Debug, PartialEq, Eq, Structural)]
pub enum BriefFault {
    OtherProject,
    ProjectsNotRead,
    ProjectsRefused,
    NotRegistered,
    ContextNotRead,
    ContextRefused,
    NotRetained,
}

/// What came of the last action.
#[derive(Clone, Copy, Debug, PartialEq, Eq, Structural)]
pub enum BriefEvent {
    ProjectsRead(bool),
    /// Whether the catalog is valid, and whether the project is in it.
    ProjectsChecked { valid: bool, registered: bool },
    ContextRead(bool),
    ContextDecoded(bool),
    EvidenceRetained(bool),
}

/// Work to perform before the next event.
#[derive(Clone, Copy, Debug, PartialEq, Eq, Structural)]
pub enum BriefAction {
    ReadProjects,
    CheckProjects,
    ReadContext,
    DecodeContext,
    RetainEvidence,
    /// Tell of the context.
    Tell,
    Unavailable(BriefFault),
    Ignore,
}

/// What the source is waiting for.
#[derive(Clone, Copy, Debug, PartialEq, Eq, Structural)]
pub enum BriefPhase {
    ReadingProjects,
    CheckingProjects,
    ReadingContext,
    DecodingContext,
    Retaining,
    Done,
}

pub open spec fn brief_failed(fault: BriefFault) -> (BriefPhase, BriefAction) {
    (BriefPhase::Done, BriefAction::Unavailable(fault))
}

/// The first action of a brief on the project that the source was set up for,
/// or on another.
pub open spec fn brief_start_of(own_project: bool) -> (BriefPhase, BriefAction) {
    if own_project {
        (BriefPhase::ReadingProjects, BriefAction::ReadProjects)
    } else {
        brief_failed(BriefFault::OtherProject)
    }
}

/// The rule of making a brief.
pub open spec fn spec_brief_step(phase: BriefPhase, event: BriefEvent) -> (BriefPhase, BriefAction) {
    match (phase, event) {
        (BriefPhase::ReadingProjects, BriefEvent::ProjectsRead(read)) => if read {
            (BriefPhase::CheckingProjects, BriefAction::CheckProjects)
        } else {
            brief_failed(BriefFault::ProjectsNotRead)
        },
        (BriefPhase::CheckingProjects, BriefEvent::ProjectsChecked { valid, registered }) => {
            if !valid {
                brief_failed(BriefFault::ProjectsRefused)
            } else if !registered {
                brief_failed(BriefFault::NotRegistered)
            } else {
                (BriefPhase::ReadingContext, BriefAction::ReadContext)
            }
        },
        (BriefPhase::ReadingContext, BriefEvent::ContextRead(read)) => if read {
            (BriefPhase::DecodingContext, BriefAction::DecodeContext)
        } else {
            brief_failed(BriefFault::ContextNotRead)
        },
        (BriefPhase::DecodingContext, BriefEvent::ContextDecoded(decoded)) => if decoded {
            (BriefPhase::Retaining, BriefAction::RetainEvidence)
        } else {
            brief_failed(BriefFault::ContextRefused)
        },
        (BriefPhase::Retaining, BriefEvent::EvidenceRetained(retained)) => if retained {
            (BriefPhase::Done, BriefAction::Tell)
        } else {
            brief_failed(BriefFault::NotRetained)
        },
        _ => (phase, BriefAction::Ignore),
    }
}

fn fail_brief(fault: BriefFault) -> (next: (BriefPhase, BriefAction))
    ensures
        next == brief_failed(fault),
{
    (BriefPhase::Done, BriefAction::Unavailable(fault))
}

/// Chooses the first action of a brief.
pub fn brief_start(project_id: &str, own_project_id: &str) -> (next: (BriefPhase, BriefAction))
    ensures
        next == brief_start_of(project_id@ == own_project_id@),
{
    if same_text(project_id, own_project_id) {
        (BriefPhase::ReadingProjects, BriefAction::ReadProjects)
    } else {
        fail_brief(BriefFault::OtherProject)
    }
}

/// Decides what follows `event` in making a brief.
pub fn brief_step(phase: BriefPhase, event: BriefEvent) -> (next: (BriefPhase, BriefAction))
    ensures
        next == spec_brief_step(phase, event),
{
    match (phase, event) {
        (BriefPhase::ReadingProjects, BriefEvent::ProjectsRead(read)) => {
            if read {
                (BriefPhase::CheckingProjects, BriefAction::CheckProjects)
            } else {
                fail_brief(BriefFault::ProjectsNotRead)
            }
        },
        (BriefPhase::CheckingProjects, BriefEvent::ProjectsChecked { valid, registered }) => {
            if !valid {
                fail_brief(BriefFault::ProjectsRefused)
            } else if !registered {
                fail_brief(BriefFault::NotRegistered)
            } else {
                (BriefPhase::ReadingContext, BriefAction::ReadContext)
            }
        },
        (BriefPhase::ReadingContext, BriefEvent::ContextRead(read)) => {
            if read {
                (BriefPhase::DecodingContext, BriefAction::DecodeContext)
            } else {
                fail_brief(BriefFault::ContextNotRead)
            }
        },
        (BriefPhase::DecodingContext, BriefEvent::ContextDecoded(decoded)) => {
            if decoded {
                (BriefPhase::Retaining, BriefAction::RetainEvidence)
            } else {
                fail_brief(BriefFault::ContextRefused)
            }
        },
        (BriefPhase::Retaining, BriefEvent::EvidenceRetained(retained)) => {
            if retained {
                (BriefPhase::Done, BriefAction::Tell)
            } else {
                fail_brief(BriefFault::NotRetained)
            }
        },
        _ => (phase, BriefAction::Ignore),
    }
}

/// Phase and action after `events` of making a brief.
pub open spec fn brief_run(own_project: bool, events: Seq<BriefEvent>) -> (BriefPhase, BriefAction)
    decreases events.len(),
{
    if events.len() == 0 {
        brief_start_of(own_project)
    } else {
        spec_brief_step(brief_run(own_project, events.drop_last()).0, events.last())
    }
}

proof fn lemma_brief_invariant(own_project: bool, events: Seq<BriefEvent>)
    ensures
        ({
            let (phase, action) = brief_run(own_project, events);
            let registered = events.contains(
                BriefEvent::ProjectsChecked { valid: true, registered: true },
            );
            &&& !(phase is Done) ==> own_project
            &&& phase is ReadingContext || phase is DecodingContext || phase is Retaining
                ==> registered
            &&& action == BriefAction::Tell ==> own_project && registered && events.last()
                == BriefEvent::EvidenceRetained(true)
        }),
    decreases events.len(),
{
    if events.len() > 0 {
        let before = events.drop_last();
        lemma_brief_invariant(own_project, before);
        let checked = BriefEvent::ProjectsChecked { valid: true, registered: true };
        if before.contains(checked) {
            let i = choose|i: int| 0 <= i < before.len() && before[i] == checked;
            assert(events[i] == checked);
        }
        if events.last() == checked {
            assert(events[events.len() - 1] == checked);
        }
    }
}

/// A context is told of only for the source's own project, once ptrack has
/// reported that project and the exact evidence is kept.
pub proof fn law_briefs_are_backed_by_evidence(own_project: bool, events: Seq<BriefEvent>)
    requires
        brief_run(own_project, events).1 == BriefAction::Tell,
    ensures
        own_project,
        events.contains(BriefEvent::ProjectsChecked { valid: true, registered: true }),
        events.last() == BriefEvent::EvidenceRetained(true),
{
    lemma_brief_invariant(own_project, events);
}

/// What an unavailable source says. `reason` is what was said of the failed
/// command, the catalog, the decoding or the store.
pub open spec fn brief_fault_text(fault: BriefFault, reason: Seq<char>) -> Seq<char> {
    match fault {
        BriefFault::OtherProject => "The configured ptrack source belongs to another project."@,
        BriefFault::ProjectsNotRead
        | BriefFault::ProjectsRefused
        | BriefFault::NotRegistered
        | BriefFault::ContextNotRead => reason,
        BriefFault::ContextRefused => bounded(
            "ptrack returned incompatible context JSON: "@ + reason,
            MAX_DETAIL_BYTES as nat,
        ),
        BriefFault::NotRetained => bounded(
            "ptrack context was read, but Pam could not retain its exact evidence: "@ + reason,
            MAX_DETAIL_BYTES as nat,
        ),
    }
}

/// Puts into words why a brief could not be made.
pub fn brief_fault_detail(fault: BriefFault, reason: &str) -> (text: String)
    ensures
        text@ == brief_fault_text(fault, reason@),
{
    match fault {
        BriefFault::OtherProject => {
            "The configured ptrack source belongs to another project.".to_owned()
        },
        BriefFault::ProjectsNotRead
        | BriefFault::ProjectsRefused
        | BriefFault::NotRegistered
        | BriefFault::ContextNotRead => reason.to_owned(),
        BriefFault::ContextRefused => {
            let text = concat2("ptrack returned incompatible context JSON: ", reason);
            bounded_detail(text.as_str())
        },
        BriefFault::NotRetained => {
            let text = concat2(
                "ptrack context was read, but Pam could not retain its exact evidence: ",
                reason,
            );
            bounded_detail(text.as_str())
        },
    }
}

// What a context leads to

/// The event can come of the action.
pub open spec fn brief_fits(action: BriefAction, event: BriefEvent) -> bool {
    match action {
        BriefAction::ReadProjects => event is ProjectsRead,
        BriefAction::CheckProjects => event is ProjectsChecked,
        BriefAction::ReadContext => event is ContextRead,
        BriefAction::DecodeContext => event is ContextDecoded,
        BriefAction::RetainEvidence => event is EvidenceRetained,
        _ => false,
    }
}

/// Every one of `events` came of the action before it.
pub open spec fn brief_told(own_project: bool, events: Seq<BriefEvent>) -> bool
    decreases events.len(),
{
    events.len() == 0 || {
        &&& brief_told(own_project, events.drop_last())
        &&& brief_fits(brief_run(own_project, events.drop_last()).1, events.last())
    }
}

spec fn brief_waits(phase: BriefPhase, action: BriefAction) -> bool {
    match phase {
        BriefPhase::ReadingProjects => action is ReadProjects,
        BriefPhase::CheckingProjects => action is CheckProjects,
        BriefPhase::ReadingContext => action is ReadContext,
        BriefPhase::DecodingContext => action is DecodeContext,
        BriefPhase::Retaining => action is RetainEvidence,
        BriefPhase::Done => action is Tell || action is Unavailable,
    }
}

proof fn lemma_brief_told(own_project: bool, events: Seq<BriefEvent>)
    requires
        brief_told(own_project, events),
    ensures
        brief_waits(brief_run(own_project, events).0, brief_run(own_project, events).1),
    decreases events.len(),
{
    if events.len() > 0 {
        lemma_brief_told(own_project, events.drop_last());
    }
}

/// A brief of another project is never begun. Each thing that goes well leads to
/// the next, and each that does not is what the source is unavailable for; a
/// catalog that is refused is told before a project that is missing in it.
pub proof fn law_briefs_go_on_while_all_goes_well(own_project: bool, events: Seq<BriefEvent>)
    requires
        brief_told(own_project, events),
    ensures
        events.len() == 0 ==> brief_run(own_project, events).1 == if own_project {
            BriefAction::ReadProjects
        } else {
            BriefAction::Unavailable(BriefFault::OtherProject)
        },
        events.len() > 0 ==> {
            let next = brief_run(own_project, events).1;
            let last = events.last();
            &&& next == BriefAction::CheckProjects <==> last == BriefEvent::ProjectsRead(true)
            &&& next == BriefAction::ReadContext <==> last == (BriefEvent::ProjectsChecked {
                valid: true,
                registered: true,
            })
            &&& next == BriefAction::DecodeContext <==> last == BriefEvent::ContextRead(true)
            &&& next == BriefAction::RetainEvidence <==> last == BriefEvent::ContextDecoded(true)
            &&& next == BriefAction::Tell <==> last == BriefEvent::EvidenceRetained(true)
            &&& next == BriefAction::Unavailable(BriefFault::ProjectsNotRead) <==> last
                == BriefEvent::ProjectsRead(false)
            &&& next == BriefAction::Unavailable(BriefFault::ProjectsRefused) <==> (
            last matches BriefEvent::ProjectsChecked { valid, .. } && !valid)
            &&& next == BriefAction::Unavailable(BriefFault::NotRegistered) <==> last == (
            BriefEvent::ProjectsChecked { valid: true, registered: false })
            &&& next == BriefAction::Unavailable(BriefFault::ContextNotRead) <==> last
                == BriefEvent::ContextRead(false)
            &&& next == BriefAction::Unavailable(BriefFault::ContextRefused) <==> last
                == BriefEvent::ContextDecoded(false)
            &&& next == BriefAction::Unavailable(BriefFault::NotRetained) <==> last
                == BriefEvent::EvidenceRetained(false)
            &&& next != BriefAction::Ignore
        },
{
    lemma_brief_told(own_project, events);
    if events.len() > 0 {
        lemma_brief_told(own_project, events.drop_last());
    }
}

/// The output of a command counts exactly where the command ended well in time and
/// both its streams were read to their end, the output within its limit. What
/// it said beside is cut without harm.
pub proof fn law_only_whole_outputs_count(
    waited: WaitEnd,
    output: ReaderEnd,
    diagnostics: ReaderEnd,
)
    ensures
        ({
            let fault = run_fault_of(waited, output, diagnostics);
            let ended = waited is Exited;
            &&& fault is None <==> waited == (WaitEnd::Exited { success: true }) && output == (
            ReaderEnd::Read { exceeded: false }) && diagnostics is Read
            &&& fault == Some(RunFault::WaitFailed) <==> waited == WaitEnd::Failed
            &&& fault == Some(RunFault::DeadlineElapsed) <==> waited == WaitEnd::DeadlineElapsed
            &&& fault == Some(RunFault::OutputUnread) <==> ended && output == ReaderEnd::Failed
            &&& fault == Some(RunFault::OutputOpen) <==> ended && output == ReaderEnd::Open
            &&& fault == Some(RunFault::DiagnosticsUnread) <==> ended && output is Read
                && diagnostics == ReaderEnd::Failed
            &&& fault == Some(RunFault::DiagnosticsOpen) <==> ended && output is Read
                && diagnostics == ReaderEnd::Open
            &&& fault == Some(RunFault::OutputTooLong) <==> ended && output == (ReaderEnd::Read {
                exceeded: true,
            }) && diagnostics is Read
            &&& fault == Some(RunFault::ExitedInFailure) <==> waited == (WaitEnd::Exited {
                success: false,
            }) && output == (ReaderEnd::Read { exceeded: false }) && diagnostics is Read
        }),
{
}

/// A catalog is taken whole: at most 256 projects, each with a name and an
/// absolute path of bounded lengths.
pub proof fn law_catalogs_are_taken_whole(projects: Seq<RegisteredProject>)
    ensures
        catalog_fault(projects) is None <==> projects.len() <= 256 && forall|i: int|
            0 <= i < projects.len() ==> {
                &&& trimmed((#[trigger] projects[i]).name@).len() > 0
                &&& utf8_len(projects[i].name@) <= 256
                &&& is_absolute(projects[i].path@)
                &&& utf8_len(projects[i].path@) <= 4096
                &&& utf8_len(projects[i].last_seen@) <= 256
            },
        catalog_fault(projects) == Some("ptrack returned too many registered projects."@)
            <==> projects.len() > 256,
{
    reveal_strlit("ptrack returned too many registered projects.");
    reveal_strlit("ptrack returned an invalid registered project entry.");
    assert("ptrack returned too many registered projects."@.len() == 45);
    assert("ptrack returned an invalid registered project entry."@.len() == 52);
    if catalog_fault(projects) is None {
        assert forall|i: int| 0 <= i < projects.len() implies is_valid_project(
            #[trigger] projects[i],
        ) by {}
    }
}

/// The owner's own choice comes first, but only where it is named in full; so does
/// what is in the owner's home. The usual directories come last, whatever else
/// there is.
pub proof fn law_the_owners_choice_comes_first(
    configured: Seq<char>,
    beside: Option<Seq<char>>,
    home: Option<Seq<char>>,
)
    ensures
        ({
            let with = candidates_of(Some(configured), beside, home);
            let without = candidates_of(None, beside, home);
            let count = without.len() as int;
            &&& is_absolute(configured) ==> with == seq![configured] + without
            &&& !is_absolute(configured) ==> with == without
            &&& beside matches Some(directory) ==> without[0] == joined(directory, "ptrack"@)
            &&& (home matches Some(directory) && !is_absolute(directory)) ==> without
                == candidates_of(None, beside, None)
            &&& count >= 2
            &&& without[count - 2] == joined("/opt/homebrew/bin"@, "ptrack"@)
            &&& without[count - 1] == joined("/usr/local/bin"@, "ptrack"@)
        }),
{
    let with = candidates_of(Some(configured), beside, home);
    let without = candidates_of(None, beside, home);
    if is_absolute(configured) {
        assert(with =~= seq![configured] + without);
    } else {
        assert(with =~= without);
    }
    if let Some(directory) = home {
        if !is_absolute(directory) {
            assert(without =~= candidates_of(None, beside, None));
        }
    }
}

/// What a section holds stays in it and in its place; it never holds more than
/// sixteen items, and that something was left out is never forgotten.
pub proof fn law_sections_only_grow(section: Section, text: Seq<char>, truth: OperationTruth)
    ensures
        ({
            let after = with_item(section, text, truth);
            let room = section.items.len() < 16;
            &&& section.partial ==> after.partial
            &&& !room ==> after.items == section.items && after.partial
            &&& room ==> after.items.len() == section.items.len() + 1 && after.items.drop_last()
                == section.items && after.items.last().1 == truth
            &&& room && utf8_len(text) <= 4096 ==> after.items.last().0 == text && after.partial
                == section.partial
            &&& room && utf8_len(text) > 4096 ==> after.partial && utf8_len(after.items.last().0)
                <= 4096
        }),
{
    let after = with_item(section, text, truth);
    if section.items.len() < 16 {
        assert(after.items.drop_last() =~= section.items);
        lemma_suffix_length();
        law_bounded_texts_fit(text, 4096);
    }
}

/// Where nothing is left out, every note is told, whole and in its place, and each
/// as observed.
pub proof fn law_notes_are_told_whole(section: Section, notes: Seq<Note>, i: int)
    requires
        !with_notes(section, notes).partial,
        0 <= i < notes.len(),
    ensures
        with_notes(section, notes).items.len() == section.items.len() + notes.len(),
        with_notes(section, notes).items[section.items.len() + i] == (
            note_text(notes[i]),
            OperationTruth::Observed,
        ),
        !section.partial,
    decreases notes.len(),
{
    let before = notes.drop_last();
    let earlier = with_notes(section, before);
    law_sections_only_grow(earlier, note_text(notes.last()), OperationTruth::Observed);
    if before.len() > 0 {
        law_notes_are_told_whole(section, before, if i < before.len() { i } else { 0 });
    }
    if i < before.len() {
        assert(before[i] == notes[i]);
    }
}

/// Where nothing is left out, every task of the plan is told, whole and in its
/// place: as blocked where it is blocked or on hold, and else as unresolved.
pub proof fn law_tasks_are_told_whole(section: Section, tasks: Seq<Task>, i: int)
    requires
        !with_tasks(section, tasks).partial,
        0 <= i < tasks.len(),
    ensures
        with_tasks(section, tasks).items.len() == section.items.len() + tasks.len(),
        with_tasks(section, tasks).items[section.items.len() + i].0 == task_text(tasks[i]),
        with_tasks(section, tasks).items[section.items.len() + i].1 == OperationTruth::Blocked
            <==> tasks[i].status@ == "blocked"@ || tasks[i].hold_reason is Some,
        with_tasks(section, tasks).items[section.items.len() + i].1 == OperationTruth::Unresolved
            <==> tasks[i].status@ != "blocked"@ && tasks[i].hold_reason is None,
        !section.partial,
    decreases tasks.len(),
{
    let before = tasks.drop_last();
    let earlier = with_tasks(section, before);
    law_sections_only_grow(earlier, task_text(tasks.last()), task_truth(tasks.last()));
    if before.len() > 0 {
        law_tasks_are_told_whole(section, before, if i < before.len() { i } else { 0 });
    }
    if i < before.len() {
        assert(before[i] == tasks[i]);
    }
}

/// Where nothing is left out, every issue is told, whole and in its place, and
/// each as unresolved.
pub proof fn law_issues_are_told_whole(section: Section, issues: Seq<Issue>, i: int)
    requires
        !with_issues(section, issues).partial,
        0 <= i < issues.len(),
    ensures
        with_issues(section, issues).items.len() == section.items.len() + issues.len(),
        with_issues(section, issues).items[section.items.len() + i] == (
            issue_text(issues[i]),
            OperationTruth::Unresolved,
        ),
        !section.partial,
    decreases issues.len(),
{
    let before = issues.drop_last();
    let earlier = with_issues(section, before);
    law_sections_only_grow(earlier, issue_text(issues.last()), OperationTruth::Unresolved);
    if before.len() > 0 {
        law_issues_are_told_whole(section, before, if i < before.len() { i } else { 0 });
    }
    if i < before.len() {
        assert(before[i] == issues[i]);
    }
}

/// A task that is told already is not told again; any other is, unless there is no
/// room.
pub proof fn law_tasks_are_told_once(section: Section, tasks: Seq<Task>)
    requires
        tasks.len() > 0,
    ensures
        ({
            let before = with_other_tasks(section, tasks.drop_last());
            let after = with_other_tasks(section, tasks);
            let task = tasks.last();
            &&& has_task(before.items, task.id) ==> after == before
            &&& !has_task(before.items, task.id) && before.items.len() < 16 ==> after.items.len()
                == before.items.len() + 1 && after.items.last().1 == task_truth(task)
            &&& !has_task(before.items, task.id) && before.items.len() >= 16 ==> after.partial
        }),
{
}

/// A brief says of its context whether it is all there: it is partial exactly
/// where a text was cut, an item found no room, or ptrack itself left
/// something out. Every statement points at the retained evidence.
pub proof fn law_briefs_say_what_is_left_out(
    brief: BriefResult,
    digest: ContextDigest,
    handle: Seq<char>,
    i: int,
)
    requires
        is_brief_of(brief, digest, handle),
    ensures
        brief.provenance@.len() == 1,
        brief.provenance@[0].availability == SourceAvailability::Partial <==> next_of(digest).partial
            || digest.blocked_more > 0 || digest.on_hold_more > 0 || digest.open_issues_more > 0,
        brief.provenance@[0].availability == SourceAvailability::Available
            <==> brief.provenance@[0].availability != SourceAvailability::Partial,
        brief.provenance@[0].truth == OperationTruth::Observed,
        brief.provenance@[0].evidence is Some && brief.provenance@[0].evidence->0@ == handle,
        brief.goal is Some <==> trimmed(digest.goal@).len() > 0,
        utf8_len(digest.goal@) <= 4096 ==> (brief.goal matches Some(goal) ==> goal.text@
            == digest.goal@),
        0 <= i < brief.decisions@.len() ==> brief.decisions@[i].evidence@[0]@ == handle,
        0 <= i < brief.verified@.len() ==> brief.verified@[i].evidence@[0]@ == handle,
        0 <= i < brief.next@.len() ==> brief.next@[i].evidence@[0]@ == handle,
        decisions_of(digest).partial ==> verified_of(digest).partial,
        utf8_len(digest.goal@) > 4096 && trimmed(digest.goal@).len() > 0 ==> goal_partial(digest),
{
    if 0 <= i < brief.decisions@.len() {
        assert(brief.decisions@[i].evidence@.len() == 1);
    }
    if 0 <= i < brief.verified@.len() {
        assert(brief.verified@[i].evidence@.len() == 1);
    }
    if 0 <= i < brief.next@.len() {
        assert(brief.next@[i].evidence@.len() == 1);
    }
}

/// What did not come of what was asked is passed over and changes nothing, and
/// once a brief is over it is not taken up again.
pub proof fn law_stray_readings_are_passed_over(
    own_project: bool,
    events: Seq<BriefEvent>,
    event: BriefEvent,
)
    requires
        brief_told(own_project, events),
        !brief_fits(brief_run(own_project, events).1, event),
    ensures
        brief_run(own_project, events.push(event)).1 == BriefAction::Ignore,
        brief_run(own_project, events.push(event)).0 == brief_run(own_project, events).0,
{
    lemma_brief_told(own_project, events);
    assert(events.push(event).drop_last() =~= events);
}

/// Why there is no brief is told in the words of what failed; what the daemon says
/// itself says what it was about.
pub proof fn law_missing_briefs_are_explained(fault: BriefFault, reason: Seq<char>)
    ensures
        fault == BriefFault::ProjectsNotRead || fault == BriefFault::ProjectsRefused || fault
            == BriefFault::NotRegistered || fault == BriefFault::ContextNotRead ==> brief_fault_text(
            fault,
            reason,
        ) == reason,
        brief_fault_text(BriefFault::OtherProject, reason)
            == "The configured ptrack source belongs to another project."@,
        brief_fault_text(BriefFault::ContextRefused, reason) == bounded(
            "ptrack returned incompatible context JSON: "@ + reason,
            4096,
        ),
        brief_fault_text(BriefFault::NotRetained, reason) == bounded(
            "ptrack context was read, but Pam could not retain its exact evidence: "@ + reason,
            4096,
        ),
{
}

/// The detail of a source names the active plan, if there is one, and says that
/// something is left out exactly where something is.
pub proof fn law_details_name_the_plan(digest: ContextDigest)
    ensures
        digest.active_plan is None && !is_partial(digest) ==> context_detail(digest)
            == "ptrack context --json via the supported CLI"@,
        digest.active_plan is None && is_partial(digest) ==> context_detail(digest)
            == "ptrack context --json via the supported CLI"@
            + "; bounded fields were truncated or omitted"@,
        digest.active_plan matches Some(plan) ==> context_detail(digest)
            == "ptrack context --json via the supported CLI"@ + "; "@ + ("active plan #"@ + decimal(
            plan.id as nat,
        ) + " "@ + plan.title@ + (match plan.hold_reason {
            Some(reason) => "; hold="@ + reason@,
            None => seq![],
        })) + (if is_partial(digest) {
            "; bounded fields were truncated or omitted"@
        } else {
            seq![]
        }),
{
    if digest.active_plan is Some && !is_partial(digest) {
        assert(context_detail(digest) + Seq::<char>::empty() =~= context_detail(digest));
    }
}

/// What is told of notes, tasks and issues is what they say.
pub proof fn law_items_say_what_they_are(note: Note, task: Task, issue: Issue)
    ensures
        note_text(note) == note.target@ + " #"@ + decimal(note.target_id as nat) + ": "@
            + note.body@,
        task.hold_reason is None ==> task_text(task) == "#"@ + decimal(task.id as nat) + " ["@
            + task.status@ + "] "@ + task.title@,
        task.hold_reason matches Some(reason) ==> task_text(task) == "#"@ + decimal(task.id as nat)
            + " ["@ + task.status@ + "] "@ + task.title@ + (" hold="@ + reason@),
        issue_text(issue) == "issue #"@ + decimal(issue.id as nat) + " [severity="@
            + issue.severity@ + "] "@ + issue.title@,
        has_prefix(task_text(task), "#"@ + decimal(task.id as nat) + " "@),
{
    let start = "#"@ + decimal(task.id as nat) + " "@;
    reveal_strlit(" ");
    reveal_strlit(" [");
    assert(task_text(task).take(start.len() as int) =~= start);
    if task.hold_reason is None {
        assert(task_text(task) =~= "#"@ + decimal(task.id as nat) + " ["@ + task.status@ + "] "@
            + task.title@);
    }
}

} // verus!
