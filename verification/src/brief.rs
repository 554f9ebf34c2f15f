//! Briefs: what is told of a project's goal, decisions and next steps, and how
//! much of it a caller may get.

use vstd::prelude::*;

use crate::answers::Answer;
use crate::protocol::{Failure, FailureCode, OperationTruth, optional_text};
use crate::text::{byte_len, utf8_len};

verus! {

/// The most items that one section of a brief may have.
pub const MAX_BRIEF_SECTION_ITEMS: usize = 16;

/// The most sources that a brief may name.
pub const MAX_BRIEF_PROVENANCE_ITEMS: usize = 32;

/// The longest text of an item.
pub const MAX_BRIEF_TEXT_BYTES: usize = 4096;

/// The most evidence that an item may point at.
pub const MAX_BRIEF_EVIDENCE_HANDLES: usize = 4;

/// The longest name of a source.
pub const MAX_BRIEF_SOURCE_BYTES: usize = 256;

/// The longest detail of a source.
pub const MAX_BRIEF_DETAIL_BYTES: usize = 4096;

/// One statement of a brief.
pub struct BriefItem {
    pub text: String,
    pub truth: OperationTruth,
    pub evidence: Vec<String>,
}

/// How much of a source could be read.
#[derive(Clone, Copy, Debug, PartialEq, Eq, Structural)]
pub enum SourceAvailability {
    Available,
    Partial,
    Unavailable,
}

/// Where a brief comes from.
pub struct BriefProvenance {
    pub source: String,
    pub availability: SourceAvailability,
    pub truth: OperationTruth,
    pub evidence: Option<String>,
    pub detail: Option<String>,
}

/// What is told of a project.
pub struct BriefResult {
    pub goal: Option<BriefItem>,
    pub decisions: Vec<BriefItem>,
    pub verified: Vec<BriefItem>,
    pub next: Vec<BriefItem>,
    pub provenance: Vec<BriefProvenance>,
}

/// The brief of a daemon that has no source for one.
pub fn unconfigured_brief() -> (brief: BriefResult)
    ensures
        brief.goal is None,
        brief.decisions@.len() == 0,
        brief.verified@.len() == 0,
        brief.next@.len() == 0,
        brief.provenance@.len() == 1,
        ({
            let entry = brief.provenance@[0];
            &&& entry.source@ == "planning-context"@
            &&& entry.availability == SourceAvailability::Unavailable
            &&& entry.truth == OperationTruth::Unresolved
            &&& entry.evidence is None
            &&& optional_text(entry.detail) == Some(
                "No planning-context provider is configured."@,
            )
        }),
{
    let mut provenance: Vec<BriefProvenance> = Vec::new();
    provenance.push(
        BriefProvenance {
            source: "planning-context".to_owned(),
            availability: SourceAvailability::Unavailable,
            truth: OperationTruth::Unresolved,
            evidence: None,
            detail: Some("No planning-context provider is configured.".to_owned()),
        },
    );
    BriefResult {
        goal: None,
        decisions: Vec::new(),
        verified: Vec::new(),
        next: Vec::new(),
        provenance,
    }
}

// Bounds

pub open spec fn item_bounded(item: BriefItem) -> bool {
    &&& utf8_len(item.text@) <= MAX_BRIEF_TEXT_BYTES
    &&& item.evidence@.len() <= MAX_BRIEF_EVIDENCE_HANDLES
}

pub open spec fn section_bounded(items: Seq<BriefItem>) -> bool {
    &&& items.len() <= MAX_BRIEF_SECTION_ITEMS
    &&& forall|i: int| 0 <= i < items.len() ==> item_bounded(#[trigger] items[i])
}

pub open spec fn provenance_bounded(entry: BriefProvenance) -> bool {
    &&& utf8_len(entry.source@) <= MAX_BRIEF_SOURCE_BYTES
    &&& entry.detail matches Some(detail) ==> utf8_len(detail@) <= MAX_BRIEF_DETAIL_BYTES
}

/// Every part of the brief is within its limit.
pub open spec fn brief_bounded(brief: BriefResult) -> bool {
    &&& brief.goal matches Some(item) ==> item_bounded(item)
    &&& section_bounded(brief.decisions@)
    &&& section_bounded(brief.verified@)
    &&& section_bounded(brief.next@)
    &&& brief.provenance@.len() <= MAX_BRIEF_PROVENANCE_ITEMS
    &&& forall|i: int|
        0 <= i < brief.provenance@.len() ==> provenance_bounded(#[trigger] brief.provenance@[i])
}

/// Whether an item is within its limits.
pub fn brief_item_is_bounded(item: &BriefItem) -> (bounded: bool)
    ensures
        bounded == item_bounded(*item),
{
    byte_len(item.text.as_str()) <= MAX_BRIEF_TEXT_BYTES && item.evidence.len()
        <= MAX_BRIEF_EVIDENCE_HANDLES
}

fn section_is_bounded(items: &Vec<BriefItem>) -> (bounded: bool)
    ensures
        bounded == section_bounded(items@),
{
    if items.len() > MAX_BRIEF_SECTION_ITEMS {
        return false;
    }
    let mut index: usize = 0;
    while index < items.len()
        invariant
            index <= items@.len(),
            items@.len() <= MAX_BRIEF_SECTION_ITEMS,
            forall|i: int| 0 <= i < index ==> item_bounded(#[trigger] items@[i]),
        decreases items@.len() - index,
    {
        if !brief_item_is_bounded(&items[index]) {
            assert(!item_bounded(items@[index as int]));
            return false;
        }
        index = index + 1;
    }
    true
}

/// Whether a brief is within every limit.
pub fn brief_is_bounded(brief: &BriefResult) -> (bounded: bool)
    ensures
        bounded == brief_bounded(*brief),
{
    if let Some(goal) = &brief.goal {
        if !brief_item_is_bounded(goal) {
            return false;
        }
    }
    if !section_is_bounded(&brief.decisions) || !section_is_bounded(&brief.verified)
        || !section_is_bounded(&brief.next) {
        return false;
    }
    if brief.provenance.len() > MAX_BRIEF_PROVENANCE_ITEMS {
        return false;
    }
    let mut index: usize = 0;
    while index < brief.provenance.len()
        invariant
            index <= brief.provenance@.len(),
            forall|i: int|
                0 <= i < index ==> provenance_bounded(#[trigger] brief.provenance@[i]),
        decreases brief.provenance@.len() - index,
    {
        let entry = &brief.provenance[index];
        let detail_fits = match &entry.detail {
            Some(detail) => byte_len(detail.as_str()) <= MAX_BRIEF_DETAIL_BYTES,
            None => true,
        };
        if byte_len(entry.source.as_str()) > MAX_BRIEF_SOURCE_BYTES || !detail_fits {
            assert(!provenance_bounded(brief.provenance@[index as int]));
            return false;
        }
        index = index + 1;
    }
    true
}

// Truth

/// Some source claims `truth`.
pub open spec fn some_source_is(sources: Seq<BriefProvenance>, truth: OperationTruth) -> bool {
    exists|i: int| 0 <= i < sources.len() && (#[trigger] sources[i]).truth == truth
}

/// A brief claims no more than its weakest source; without sources it claims
/// nothing.
pub open spec fn truth_of_brief(sources: Seq<BriefProvenance>) -> OperationTruth {
    if sources.len() == 0 {
        OperationTruth::Unresolved
    } else if some_source_is(sources, OperationTruth::Blocked) {
        OperationTruth::Blocked
    } else if some_source_is(sources, OperationTruth::Unresolved) {
        OperationTruth::Unresolved
    } else {
        OperationTruth::Observed
    }
}

/// What a brief may claim.
pub fn brief_truth(brief: &BriefResult) -> (truth: OperationTruth)
    ensures
        truth == truth_of_brief(brief.provenance@),
{
    let sources = &brief.provenance;
    if sources.len() == 0 {
        return OperationTruth::Unresolved;
    }
    let mut unresolved = false;
    let mut index: usize = 0;
    while index < sources.len()
        invariant
            index <= sources@.len(),
            sources@ == brief.provenance@,
            forall|i: int|
                0 <= i < index ==> (#[trigger] sources@[i]).truth != OperationTruth::Blocked,
            unresolved <==> exists|i: int|
                0 <= i < index && (#[trigger] sources@[i]).truth == OperationTruth::Unresolved,
        decreases sources@.len() - index,
    {
        match sources[index].truth {
            OperationTruth::Blocked => return OperationTruth::Blocked,
            OperationTruth::Unresolved => unresolved = true,
            _ => {},
        }
        index = index + 1;
    }
    if unresolved {
        OperationTruth::Unresolved
    } else {
        OperationTruth::Observed
    }
}

/// Answers a request for a brief. A source that says too much is refused as a
/// whole.
pub fn brief_answer(brief: BriefResult) -> (answer: Answer<BriefResult>)
    ensures
        if brief_bounded(brief) {
            answer == (Answer::Success {
                truth: truth_of_brief(brief.provenance@),
                payload: brief,
            })
        } else {
            answer.fails(
                FailureCode::FrameTooLarge,
                "brief provider response exceeded bounded limits"@,
                None,
            )
        },
{
    if !brief_is_bounded(&brief) {
        return Answer::Failure(
            Failure::new(
                FailureCode::FrameTooLarge,
                "brief provider response exceeded bounded limits",
            ),
        );
    }
    let truth = brief_truth(&brief);
    Answer::Success { truth, payload: brief }
}

/// A brief is only as good as its weakest source: one that is blocked blocks it,
/// and without that one that is unresolved, or none at all, leaves it
/// unresolved. At best it is observed; it is never verified.
pub proof fn law_briefs_are_as_good_as_their_sources(sources: Seq<BriefProvenance>)
    ensures
        truth_of_brief(sources) == OperationTruth::Blocked <==> exists|i: int|
            0 <= i < sources.len() && (#[trigger] sources[i]).truth == OperationTruth::Blocked,
        truth_of_brief(sources) == OperationTruth::Observed <==> sources.len() > 0 && forall|i: int|
            0 <= i < sources.len() ==> (#[trigger] sources[i]).truth != OperationTruth::Blocked
                && sources[i].truth != OperationTruth::Unresolved,
        truth_of_brief(sources) == OperationTruth::Unresolved <==> truth_of_brief(sources)
            != OperationTruth::Blocked && truth_of_brief(sources) != OperationTruth::Observed,
{
    if sources.len() > 0 && !some_source_is(sources, OperationTruth::Blocked) && !some_source_is(
        sources,
        OperationTruth::Unresolved,
    ) {
        assert forall|i: int| 0 <= i < sources.len() implies (#[trigger] sources[i]).truth
            != OperationTruth::Blocked && sources[i].truth != OperationTruth::Unresolved by {}
    }
}

/// A brief that is within its limits has at most sixteen items in a section, each
/// of at most 4096 bytes with at most four pieces of evidence, and at most
/// thirty-two sources, whose names and details are bounded too.
pub proof fn law_bounded_briefs_are_small(brief: BriefResult, i: int)
    requires
        brief_bounded(brief),
    ensures
        brief.goal matches Some(goal) ==> utf8_len(goal.text@) <= 4096 && goal.evidence@.len() <= 4,
        brief.decisions@.len() <= 16 && brief.verified@.len() <= 16 && brief.next@.len() <= 16,
        0 <= i < brief.decisions@.len() ==> utf8_len(brief.decisions@[i].text@) <= 4096
            && brief.decisions@[i].evidence@.len() <= 4,
        0 <= i < brief.verified@.len() ==> utf8_len(brief.verified@[i].text@) <= 4096
            && brief.verified@[i].evidence@.len() <= 4,
        0 <= i < brief.next@.len() ==> utf8_len(brief.next@[i].text@) <= 4096
            && brief.next@[i].evidence@.len() <= 4,
        brief.provenance@.len() <= 32,
        0 <= i < brief.provenance@.len() ==> utf8_len(brief.provenance@[i].source@) <= 256,
        0 <= i < brief.provenance@.len() ==> (brief.provenance@[i].detail matches Some(detail)
            ==> utf8_len(detail@) <= 4096),
{
    if 0 <= i < brief.decisions@.len() {
        assert(item_bounded(brief.decisions@[i]));
    }
    if 0 <= i < brief.verified@.len() {
        assert(item_bounded(brief.verified@[i]));
    }
    if 0 <= i < brief.next@.len() {
        assert(item_bounded(brief.next@[i]));
    }
    if 0 <= i < brief.provenance@.len() {
        assert(provenance_bounded(brief.provenance@[i]));
    }
}

/// A brief without anything in it is within every limit.
pub proof fn law_empty_briefs_are_bounded(brief: BriefResult)
    requires
        brief.goal is None,
        brief.decisions@.len() == 0 && brief.verified@.len() == 0 && brief.next@.len() == 0,
        brief.provenance@.len() == 0,
    ensures
        brief_bounded(brief),
{
}

} // verus!
