//! Which identifiers and cursors a request may carry.

use vstd::prelude::*;

use crate::protocol::{
    RequestEnvelope, RequestPayload, target_of_payload, target_request_id,
};
use crate::text::{byte_len, chars_of, is_control, lemma_utf8_len_take, spec_is_control, utf8_len};

verus! {

/// The longest identifier that a request may carry.
pub const MAX_REQUEST_IDENTIFIER_BYTES: usize = 256;

/// The largest event sequence that the store can hold.
pub const MAX_SEQUENCE: u64 = 9_223_372_036_854_775_807;

/// Control characters, and the format characters that make text look like
/// other text.
pub open spec fn is_unsafe_character(c: char) -> bool {
    let code = c as u32;
    ||| spec_is_control(c)
    ||| code == 0xad
    ||| 0x600 <= code <= 0x605
    ||| code == 0x61c
    ||| code == 0x6dd
    ||| code == 0x70f
    ||| 0x890 <= code <= 0x891
    ||| code == 0x8e2
    ||| code == 0x180e
    ||| 0x200b <= code <= 0x200f
    ||| 0x202a <= code <= 0x202e
    ||| 0x2060 <= code <= 0x2064
    ||| 0x2066 <= code <= 0x206f
    ||| code == 0xfeff
    ||| 0xfff9 <= code <= 0xfffb
    ||| code == 0x110bd
    ||| code == 0x110cd
    ||| 0x13430 <= code <= 0x1343f
    ||| 0x1bca0 <= code <= 0x1bca3
    ||| 0x1d173 <= code <= 0x1d17a
    ||| code == 0xe0001
    ||| 0xe0020 <= code <= 0xe007f
}

/// Whether a character has no place in an identifier.
pub fn is_unsafe_identifier_character(character: char) -> (found: bool)
    ensures
        found == is_unsafe_character(character),
{
    let code: u32 = character as u32;
    is_control(character) || code == 0xad || (0x600 <= code && code <= 0x605) || code == 0x61c
        || code == 0x6dd || code == 0x70f || (0x890 <= code && code <= 0x891) || code == 0x8e2
        || code == 0x180e || (0x200b <= code && code <= 0x200f) || (0x202a <= code && code
        <= 0x202e) || (0x2060 <= code && code <= 0x2064) || (0x2066 <= code && code <= 0x206f)
        || code == 0xfeff || (0xfff9 <= code && code <= 0xfffb) || code == 0x110bd || code
        == 0x110cd || (0x13430 <= code && code <= 0x1343f) || (0x1bca0 <= code && code <= 0x1bca3)
        || (0x1d173 <= code && code <= 0x1d17a) || code == 0xe0001 || (0xe0020 <= code && code
        <= 0xe007f)
}

/// An identifier is not empty, not too long, and shows what it holds.
pub open spec fn is_bounded_identifier(value: Seq<char>) -> bool {
    &&& value.len() > 0
    &&& utf8_len(value) <= MAX_REQUEST_IDENTIFIER_BYTES
    &&& forall|i: int| 0 <= i < value.len() ==> !is_unsafe_character(#[trigger] value[i])
}

pub fn identifier_is_bounded(value: &str) -> (bounded: bool)
    ensures
        bounded == is_bounded_identifier(value@),
{
    if value.is_empty() || byte_len(value) > MAX_REQUEST_IDENTIFIER_BYTES {
        return false;
    }
    let characters = chars_of(value);
    let mut index: usize = 0;
    while index < characters.len()
        invariant
            characters@ == value@,
            index <= characters@.len(),
            forall|i: int| 0 <= i < index ==> !is_unsafe_character(#[trigger] value@[i]),
        decreases characters@.len() - index,
    {
        if is_unsafe_identifier_character(characters[index]) {
            assert(is_unsafe_character(value@[index as int]));
            return false;
        }
        index = index + 1;
    }
    true
}

/// Every identifier that the request carries is bounded.
pub open spec fn identifiers_bounded(request: RequestEnvelope) -> bool {
    &&& is_bounded_identifier(request.request_id@)
    &&& is_bounded_identifier(request.caller_id@)
    &&& is_bounded_identifier(request.project_id@)
    &&& is_bounded_identifier(request.idempotency_key@)
    &&& request.approval_id matches Some(id) ==> is_bounded_identifier(id@)
    &&& target_of_payload(request.payload) matches Some(id) ==> is_bounded_identifier(id)
    &&& request.payload matches RequestPayload::ApprovalDecide { approval_id, .. }
        ==> is_bounded_identifier(approval_id@)
}

pub fn request_identifiers_are_bounded(request: &RequestEnvelope) -> (bounded: bool)
    ensures
        bounded == identifiers_bounded(*request),
{
    if !(identifier_is_bounded(request.request_id.as_str()) && identifier_is_bounded(
        request.caller_id.as_str(),
    ) && identifier_is_bounded(request.project_id.as_str()) && identifier_is_bounded(
        request.idempotency_key.as_str(),
    )) {
        return false;
    }
    if let Some(approval_id) = &request.approval_id {
        if !identifier_is_bounded(approval_id.as_str()) {
            return false;
        }
    }
    if let Some(target) = target_request_id(request) {
        if !identifier_is_bounded(target) {
            return false;
        }
    }
    if let RequestPayload::ApprovalDecide { approval_id, .. } = &request.payload {
        if !identifier_is_bounded(approval_id.as_str()) {
            return false;
        }
    }
    true
}

/// Whether a replay cursor is one that the store can hold.
pub fn valid_replay_cursor(sequence: u64) -> (valid: bool)
    ensures
        valid == (sequence <= i64::MAX),
{
    sequence <= MAX_SEQUENCE
}

/// A character that does something else than to show itself is unsafe: those
/// that control, that break lines, that hide, and that turn text around. What
/// is printed plainly is safe, in ASCII and in the scripts.
pub proof fn law_characters_show_themselves(c: char)
    ensures
        (c as u32) < 0x20 || 0x7f <= c as u32 <= 0x9f ==> is_unsafe_character(c),
        0x200b <= c as u32 <= 0x200f || 0x202a <= c as u32 <= 0x202e || 0x2066 <= c as u32 <= 0x2069
            ==> is_unsafe_character(c),
        c as u32 == 0xfeff || c as u32 == 0xad || 0xe0020 <= c as u32 <= 0xe007f
            ==> is_unsafe_character(c),
        0x20 <= c as u32 <= 0x7e ==> !is_unsafe_character(c),
        0xa1 <= c as u32 <= 0x5ff && c as u32 != 0xad ==> !is_unsafe_character(c),
        0x3000 <= c as u32 <= 0xd7ff ==> !is_unsafe_character(c),
{
}

/// An identifier is accepted exactly where it has one to 256 bytes and every
/// character shows itself; so what is cut from an accepted one is accepted, as
/// long as something is left.
pub proof fn law_identifiers_are_bounded(value: Seq<char>, length: int)
    requires
        is_bounded_identifier(value),
        0 < length <= value.len(),
    ensures
        0 < utf8_len(value) <= 256,
        forall|i: int| 0 <= i < value.len() ==> (#[trigger] value[i]) as u32 >= 0x20,
        is_bounded_identifier(value.take(length)),
{
    let part = value.take(length);
    lemma_utf8_len_take(value, length);
    lemma_utf8_len_take(value, 0);
    if length < value.len() {
        lemma_utf8_len_take(value, length);
    } else {
        assert(part =~= value);
    }
    assert(value.take(0) =~= Seq::<char>::empty());
    assert forall|i: int| 0 <= i < value.len() implies (#[trigger] value[i]) as u32 >= 0x20 by {
        assert(!is_unsafe_character(value[i]));
        law_characters_show_themselves(value[i]);
    }
    assert forall|i: int| 0 <= i < part.len() implies !is_unsafe_character(#[trigger] part[i]) by {
        assert(part[i] == value[i]);
    }
}

/// No name that a request carries escapes the check: neither its own, nor its
/// caller's, nor its project's, nor that of an approval, nor that of another
/// request.
pub proof fn law_every_name_is_checked(request: RequestEnvelope)
    ensures
        !is_bounded_identifier(request.request_id@) ==> !identifiers_bounded(request),
        !is_bounded_identifier(request.caller_id@) ==> !identifiers_bounded(request),
        !is_bounded_identifier(request.project_id@) ==> !identifiers_bounded(request),
        !is_bounded_identifier(request.idempotency_key@) ==> !identifiers_bounded(request),
        request.approval_id matches Some(id) ==> !is_bounded_identifier(id@)
            ==> !identifiers_bounded(request),
        request.payload matches RequestPayload::ApprovalDecide { approval_id, .. }
            ==> !is_bounded_identifier(approval_id@) ==> !identifiers_bounded(request),
        request.payload matches RequestPayload::Cancel { target_request_id, .. }
            ==> !is_bounded_identifier(target_request_id@) ==> !identifiers_bounded(request),
        request.payload matches RequestPayload::Replay { target_request_id, .. }
            ==> !is_bounded_identifier(target_request_id@) ==> !identifiers_bounded(request),
        request.payload matches RequestPayload::WaitForResult { target_request_id, .. }
            ==> !is_bounded_identifier(target_request_id@) ==> !identifiers_bounded(request),
        request.payload matches RequestPayload::GetResult { target_request_id, .. }
            ==> !is_bounded_identifier(target_request_id@) ==> !identifiers_bounded(request),
        is_bounded_identifier(request.request_id@) && is_bounded_identifier(request.caller_id@)
            && is_bounded_identifier(request.project_id@) && is_bounded_identifier(
            request.idempotency_key@,
        ) && request.approval_id is None && request.payload is Status ==> identifiers_bounded(
            request,
        ),
{
}

} // verus!
