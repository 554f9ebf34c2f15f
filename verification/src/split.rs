//! Cutting text into pieces, and ASCII case.

use vstd::prelude::*;

use crate::text::{chars_of, text_of};

verus! {

/// The texts behind a sequence of strings.
pub open spec fn texts(strings: Seq<String>) -> Seq<Seq<char>> {
    strings.map_values(|s: String| s@)
}

/// The set that holds `wanted` alone.
pub open spec fn just(wanted: char) -> spec_fn(char) -> bool {
    |c: char| c == wanted
}

/// The number of characters of `text` before the first one in `stops`.
pub open spec fn span_before(text: Seq<char>, stops: spec_fn(char) -> bool) -> nat
    decreases text.len(),
{
    if text.len() == 0 || stops(text[0]) {
        0
    } else {
        1 + span_before(text.drop_first(), stops)
    }
}

pub proof fn lemma_span_before(text: Seq<char>, stops: spec_fn(char) -> bool)
    ensures
        span_before(text, stops) <= text.len(),
        forall|i: int| 0 <= i < span_before(text, stops) ==> !stops(#[trigger] text[i]),
        span_before(text, stops) < text.len() ==> stops(
            text[span_before(text, stops) as int],
        ),
    decreases text.len(),
{
    if text.len() > 0 && !stops(text[0]) {
        lemma_span_before(text.drop_first(), stops);
        assert forall|i: int| 0 <= i < span_before(text, stops) implies !stops(
            #[trigger] text[i],
        ) by {
            if i > 0 {
                assert(text.drop_first()[i - 1] == text[i]);
            }
        }
    }
}

/// The span is the one position with no stop before it and a stop, or the end,
/// at it.
pub proof fn lemma_span_is(text: Seq<char>, stops: spec_fn(char) -> bool, count: int)
    requires
        0 <= count <= text.len(),
        forall|i: int| 0 <= i < count ==> !stops(#[trigger] text[i]),
        count < text.len() ==> stops(text[count]),
    ensures
        span_before(text, stops) == count,
{
    lemma_span_before(text, stops);
    let span = span_before(text, stops) as int;
    if span < count {
        assert(!stops(text[span]));
    }
}

/// The pieces of `text` between occurrences of `separator`.
pub open spec fn split_by(text: Seq<char>, separator: char) -> Seq<Seq<char>>
    decreases text.len(),
{
    let at = span_before(text, just(separator));
    if at >= text.len() {
        seq![text]
    } else {
        seq![text.take(at as int)] + split_by(text.skip(at as int + 1), separator)
    }
}

/// The pieces of `text` that `separator` ends. Text after the last separator is
/// a piece too, unless it is empty.
pub open spec fn split_terminated(text: Seq<char>, separator: char) -> Seq<Seq<char>> {
    let pieces = split_by(text, separator);
    if pieces.last().len() == 0 {
        pieces.drop_last()
    } else {
        pieces
    }
}

pub proof fn lemma_split_by_nonempty(text: Seq<char>, separator: char)
    ensures
        split_by(text, separator).len() > 0,
    decreases text.len(),
{
}

/// A separator parts what is before it from what is after it.
pub proof fn lemma_split_at_separator(before: Seq<char>, after: Seq<char>, separator: char)
    ensures
        split_by(before + seq![separator] + after, separator) == split_by(before, separator)
            + split_by(after, separator),
    decreases before.len(),
{
    let whole = before + seq![separator] + after;
    let at = span_before(before, just(separator)) as int;
    lemma_span_before(before, just(separator));
    assert forall|i: int| 0 <= i < at implies !just(separator)(#[trigger] whole[i]) by {
        assert(whole[i] == before[i]);
    }
    assert(just(separator)(whole[at]));
    lemma_span_is(whole, just(separator), at);
    assert(whole.take(at) =~= before.take(at));
    if at >= before.len() {
        assert(before.take(at) =~= before);
        assert(whole.skip(at + 1) =~= after);
        assert(split_by(whole, separator) =~= split_by(before, separator) + split_by(
            after,
            separator,
        ));
    } else {
        lemma_split_at_separator(before.skip(at + 1), after, separator);
        assert(whole.skip(at + 1) =~= before.skip(at + 1) + seq![separator] + after);
        assert(split_by(whole, separator) =~= split_by(before, separator) + split_by(
            after,
            separator,
        ));
    }
}

/// The pieces of `text` between occurrences of `separator`.
pub fn split_text(text: &str, separator: char) -> (pieces: Vec<String>)
    ensures
        texts(pieces@) == split_by(text@, separator),
{
    let characters = chars_of(text);
    let mut pieces: Vec<String> = Vec::new();
    let mut start: usize = 0;
    let mut index: usize = 0;
    proof {
        assert(text@.skip(0) =~= text@);
        assert(texts(pieces@) + split_by(text@, separator) =~= split_by(text@, separator));
    }
    while index < characters.len()
        invariant
            characters@ == text@,
            start <= index <= characters@.len(),
            forall|i: int| start <= i < index ==> #[trigger] text@[i] != separator,
            texts(pieces@) + split_by(text@.skip(start as int), separator) == split_by(
                text@,
                separator,
            ),
        decreases characters@.len() - index,
    {
        if characters[index] == separator {
            let piece = text_of(&characters, start, index);
            proof {
                let rest = text@.skip(start as int);
                let span = (index - start) as int;
                assert forall|i: int| 0 <= i < span implies !just(separator)(
                    #[trigger] rest[i],
                ) by {
                    assert(rest[i] == text@[start + i]);
                }
                lemma_span_is(rest, just(separator), span);
                assert(rest.take(span) =~= piece@);
                assert(rest.skip(span + 1) =~= text@.skip(index + 1));
                assert(texts(pieces@.push(piece)) =~= texts(pieces@).push(piece@));
                assert(texts(pieces@.push(piece)) + split_by(text@.skip(index + 1), separator)
                    =~= texts(pieces@) + split_by(rest, separator));
            }
            pieces.push(piece);
            start = index + 1;
        }
        index = index + 1;
    }
    let last = text_of(&characters, start, characters.len());
    proof {
        let rest = text@.skip(start as int);
        assert forall|i: int| 0 <= i < rest.len() implies !just(separator)(
            #[trigger] rest[i],
        ) by {
            assert(rest[i] == text@[start + i]);
        }
        lemma_span_is(rest, just(separator), rest.len() as int);
        assert(rest =~= last@);
        assert(texts(pieces@.push(last)) =~= texts(pieces@) + split_by(rest, separator));
    }
    pieces.push(last);
    pieces
}

/// The pieces of `text` that `separator` ends.
pub fn split_text_terminated(text: &str, separator: char) -> (pieces: Vec<String>)
    ensures
        texts(pieces@) == split_terminated(text@, separator),
{
    let mut pieces = split_text(text, separator);
    proof {
        lemma_split_by_nonempty(text@, separator);
    }
    let count = pieces.len();
    if pieces[count - 1].as_str().is_empty() {
        let ghost before = pieces@;
        let _ = pieces.pop();
        assert(texts(pieces@) =~= texts(before).drop_last());
    }
    pieces
}

/// `text` with its ASCII letters in lower case.
pub open spec fn ascii_lower(text: Seq<char>) -> Seq<char> {
    text.map_values(|c: char| lower_char(c))
}

pub open spec fn lower_char(c: char) -> char {
    if 'A' <= c && c <= 'Z' {
        ((c as u8) + 32) as char
    } else {
        c
    }
}

/// `text` with its ASCII letters in upper case.
pub open spec fn ascii_upper(text: Seq<char>) -> Seq<char> {
    text.map_values(|c: char| upper_char(c))
}

pub open spec fn upper_char(c: char) -> char {
    if 'a' <= c && c <= 'z' {
        ((c as u8) - 32) as char
    } else {
        c
    }
}

/// `text` with its ASCII letters in lower case.
pub fn lowercase_ascii(text: &str) -> (result: String)
    ensures
        result@ == ascii_lower(text@),
{
    let characters = chars_of(text);
    let mut result = String::new();
    let mut index: usize = 0;
    assert(ascii_lower(text@.take(0)) =~= Seq::<char>::empty());
    while index < characters.len()
        invariant
            characters@ == text@,
            index <= characters@.len(),
            result@ == ascii_lower(text@.take(index as int)),
        decreases characters@.len() - index,
    {
        let c = characters[index];
        let mapped = if 'A' <= c && c <= 'Z' {
            ((c as u8) + 32) as char
        } else {
            c
        };
        result.push(mapped);
        assert(ascii_lower(text@.take(index + 1)) =~= ascii_lower(text@.take(index as int)).push(
            mapped,
        ));
        index = index + 1;
    }
    assert(text@.take(text@.len() as int) =~= text@);
    result
}

/// `text` with its ASCII letters in upper case.
pub fn uppercase_ascii(text: &str) -> (result: String)
    ensures
        result@ == ascii_upper(text@),
{
    let characters = chars_of(text);
    let mut result = String::new();
    let mut index: usize = 0;
    assert(ascii_upper(text@.take(0)) =~= Seq::<char>::empty());
    while index < characters.len()
        invariant
            characters@ == text@,
            index <= characters@.len(),
            result@ == ascii_upper(text@.take(index as int)),
        decreases characters@.len() - index,
    {
        let c = characters[index];
        let mapped = if 'a' <= c && c <= 'z' {
            ((c as u8) - 32) as char
        } else {
            c
        };
        result.push(mapped);
        assert(ascii_upper(text@.take(index + 1)) =~= ascii_upper(text@.take(index as int)).push(
            mapped,
        ));
        index = index + 1;
    }
    assert(text@.take(text@.len() as int) =~= text@);
    result
}

/// `text` without its leading quotation marks.
pub open spec fn unquoted_start(text: Seq<char>) -> Seq<char>
    decreases text.len(),
{
    if text.len() > 0 && text[0] == '"' {
        unquoted_start(text.drop_first())
    } else {
        text
    }
}

/// `text` without its trailing quotation marks.
pub open spec fn unquoted_end(text: Seq<char>) -> Seq<char>
    decreases text.len(),
{
    if text.len() > 0 && text.last() == '"' {
        unquoted_end(text.drop_last())
    } else {
        text
    }
}

/// `text` without the quotation marks around it.
pub open spec fn unquoted(text: Seq<char>) -> Seq<char> {
    unquoted_end(unquoted_start(text))
}

/// `text` without the quotation marks around it.
pub fn trim_quotes(text: &str) -> (result: String)
    ensures
        result@ == unquoted(text@),
{
    let characters = chars_of(text);
    let mut from: usize = 0;
    let mut to: usize = characters.len();
    assert(text@.subrange(0, text@.len() as int) =~= text@);
    while from < to && characters[from] == '"'
        invariant
            characters@ == text@,
            from <= to,
            to == characters@.len(),
            unquoted_start(text@.subrange(from as int, to as int)) == unquoted_start(text@),
        decreases to - from,
    {
        assert(text@.subrange(from as int, to as int).drop_first() =~= text@.subrange(
            from + 1,
            to as int,
        ));
        from = from + 1;
    }
    assert(unquoted_start(text@) == text@.subrange(from as int, to as int));
    while from < to && characters[to - 1] == '"'
        invariant
            characters@ == text@,
            from <= to <= characters@.len(),
            unquoted_end(text@.subrange(from as int, to as int)) == unquoted(text@),
        decreases to - from,
    {
        assert(text@.subrange(from as int, to as int).drop_last() =~= text@.subrange(
            from as int,
            to - 1,
        ));
        to = to - 1;
    }
    text_of(&characters, from, to)
}

} // verus!
