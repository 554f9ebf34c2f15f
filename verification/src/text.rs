//! Text building blocks: exact lengths, prefixes, truncation and numerals.
//!
//! A string is modelled by its sequence of characters. Byte lengths are those
//! of the UTF-8 encoding of that sequence.

use vstd::prelude::*;
use vstd::utf8::{decode_utf8, encode_utf8, encode_utf8_decode_utf8, valid_utf8};

verus! {

/// `String::push` appends one character to the end of the string.
pub assume_specification[ String::push ](text: &mut String, character: char)
    ensures
        final(text)@ == old(text)@.push(character),
;

/// `core::str::from_utf8` borrows the bytes as text when they are valid UTF-8
/// and reports an error when they are not. The text it returns has exactly the
/// bytes that were passed in.
#[verifier::external_body]
fn text_from_utf8(bytes: &[u8]) -> (text: Option<&str>)
    ensures
        text is Some <==> valid_utf8(bytes@),
        text matches Some(t) ==> encode_utf8(t@) == bytes@,
{
    core::str::from_utf8(bytes).ok()
}

/// Borrows `bytes` as text when they are valid UTF-8.
pub fn decode_text(bytes: &[u8]) -> (text: Option<&str>)
    ensures
        text is Some <==> valid_utf8(bytes@),
        text matches Some(t) ==> t@ == decode_utf8(bytes@) && encode_utf8(t@) == bytes@,
{
    let text = text_from_utf8(bytes);
    proof {
        if let Some(t) = text {
            encode_utf8_decode_utf8(t@);
        }
    }
    text
}

// Lengths

/// Number of bytes in the UTF-8 encoding of `text`.
pub open spec fn utf8_len(text: Seq<char>) -> nat {
    encode_utf8(text).len()
}

/// Number of bytes in the UTF-8 encoding of one character.
pub open spec fn utf8_width(c: char) -> nat {
    if (c as u32) < 0x80 {
        1
    } else if (c as u32) < 0x800 {
        2
    } else if (c as u32) < 0x10000 {
        3
    } else {
        4
    }
}

pub proof fn lemma_utf8_len_push(text: Seq<char>, c: char)
    ensures
        utf8_len(text.push(c)) == utf8_len(text) + utf8_width(c),
    decreases text.len(),
{
    reveal_with_fuel(encode_utf8, 2);
    if text.len() == 0 {
        assert(text.push(c).drop_first() =~= Seq::<char>::empty());
    } else {
        assert(text.push(c).drop_first() =~= text.drop_first().push(c));
        lemma_utf8_len_push(text.drop_first(), c);
    }
}

pub proof fn lemma_utf8_len_concat(left: Seq<char>, right: Seq<char>)
    ensures
        utf8_len(left + right) == utf8_len(left) + utf8_len(right),
    decreases right.len(),
{
    if right.len() == 0 {
        assert(left + right =~= left);
    } else {
        let c = right.last();
        let init = right.drop_last();
        assert(left + right =~= (left + init).push(c));
        assert(right =~= init.push(c));
        lemma_utf8_len_concat(left, init);
        lemma_utf8_len_push(left + init, c);
        lemma_utf8_len_push(init, c);
    }
}

pub proof fn lemma_utf8_len_take(text: Seq<char>, count: int)
    requires
        0 <= count <= text.len(),
    ensures
        utf8_len(text.take(count)) <= utf8_len(text),
        count < text.len() ==> utf8_len(text.take(count)) < utf8_len(text),
        count <= utf8_len(text),
    decreases text.len(),
{
    if text.len() == 0 {
        assert(text.take(count) =~= text);
    } else {
        let init = text.drop_last();
        assert(text =~= init.push(text.last()));
        lemma_utf8_len_push(init, text.last());
        if count == text.len() {
            assert(text.take(count) =~= text);
            lemma_utf8_len_take(init, count - 1);
        } else {
            assert(text.take(count) =~= init.take(count));
            lemma_utf8_len_take(init, count);
        }
    }
}

pub proof fn lemma_encoding_is_injective(left: Seq<char>, right: Seq<char>)
    requires
        encode_utf8(left) == encode_utf8(right),
    ensures
        left == right,
{
    encode_utf8_decode_utf8(left);
    encode_utf8_decode_utf8(right);
}

/// The UTF-8 byte length of `text`.
pub fn byte_len(text: &str) -> (length: usize)
    ensures
        length == utf8_len(text@),
{
    text.as_bytes().len()
}

/// The UTF-8 byte length of one character.
pub fn char_width(c: char) -> (width: usize)
    ensures
        width == utf8_width(c),
        1 <= width <= 4,
{
    let code: u32 = c as u32;
    if code < 0x80 {
        1
    } else if code < 0x800 {
        2
    } else if code < 0x10000 {
        3
    } else {
        4
    }
}

// Characters

/// The characters of `text`, in order.
pub fn chars_of(text: &str) -> (characters: Vec<char>)
    ensures
        characters@ == text@,
{
    let mut characters: Vec<char> = Vec::new();
    for c in iter: text.chars()
        invariant
            iter.seq() == text@,
            characters@ == text@.take(iter.index() as int),
    {
        characters.push(c);
        proof {
            assert(text@.take(iter.index() + 1) =~= text@.take(iter.index() as int).push(c));
        }
    }
    proof {
        assert(text@.take(text@.len() as int) =~= text@);
    }
    characters
}

/// The text made of `characters[from..to]`.
pub fn text_of(characters: &Vec<char>, from: usize, to: usize) -> (text: String)
    requires
        from <= to <= characters@.len(),
    ensures
        text@ == characters@.subrange(from as int, to as int),
{
    let mut text = String::new();
    let mut index: usize = from;
    proof {
        assert(characters@.subrange(from as int, from as int) =~= Seq::<char>::empty());
    }
    while index < to
        invariant
            from <= index <= to <= characters@.len(),
            text@ == characters@.subrange(from as int, index as int),
        decreases to - index,
    {
        text.push(characters[index]);
        proof {
            assert(characters@.subrange(from as int, index + 1) =~= characters@.subrange(
                from as int,
                index as int,
            ).push(characters@[index as int]));
        }
        index = index + 1;
    }
    text
}

/// Unicode White_Space characters.
pub open spec fn spec_is_whitespace(c: char) -> bool {
    let code = c as u32;
    ||| 0x9 <= code <= 0xd
    ||| code == 0x20
    ||| code == 0x85
    ||| code == 0xa0
    ||| code == 0x1680
    ||| 0x2000 <= code <= 0x200a
    ||| code == 0x2028
    ||| code == 0x2029
    ||| code == 0x202f
    ||| code == 0x205f
    ||| code == 0x3000
}

/// Whether `c` is a Unicode White_Space character.
pub fn is_whitespace(c: char) -> (whitespace: bool)
    ensures
        whitespace == spec_is_whitespace(c),
{
    let code: u32 = c as u32;
    (0x9 <= code && code <= 0xd) || code == 0x20 || code == 0x85 || code == 0xa0 || code == 0x1680
        || (0x2000 <= code && code <= 0x200a) || code == 0x2028 || code == 0x2029 || code == 0x202f
        || code == 0x205f || code == 0x3000
}

/// Unicode control characters: general category Cc.
pub open spec fn spec_is_control(c: char) -> bool {
    (c as u32) < 0x20 || 0x7f <= (c as u32) <= 0x9f
}

/// Whether `c` is a Unicode control character.
pub fn is_control(c: char) -> (control: bool)
    ensures
        control == spec_is_control(c),
{
    let code: u32 = c as u32;
    code < 0x20 || (0x7f <= code && code <= 0x9f)
}

pub open spec fn is_ascii_digit_char(c: char) -> bool {
    '0' <= c && c <= '9'
}

pub open spec fn is_ascii_alphanumeric_char(c: char) -> bool {
    is_ascii_digit_char(c) || ('a' <= c && c <= 'z') || ('A' <= c && c <= 'Z')
}

/// Some character of `text` is a control character.
pub open spec fn has_control(text: Seq<char>) -> bool {
    exists|i: int| 0 <= i < text.len() && spec_is_control(#[trigger] text[i])
}

/// Whether `text` holds a control character.
pub fn contains_control(text: &str) -> (found: bool)
    ensures
        found == has_control(text@),
{
    let characters = chars_of(text);
    let mut index: usize = 0;
    while index < characters.len()
        invariant
            characters@ == text@,
            index <= characters@.len(),
            forall|i: int| 0 <= i < index ==> !spec_is_control(#[trigger] text@[i]),
        decreases characters@.len() - index,
    {
        if is_control(characters[index]) {
            assert(spec_is_control(text@[index as int]));
            return true;
        }
        index = index + 1;
    }
    false
}

// Comparison

/// Whether two strings hold the same text.
pub fn same_text(left: &str, right: &str) -> (same: bool)
    ensures
        same == (left@ == right@),
{
    let a = left.as_bytes();
    let b = right.as_bytes();
    if a.len() != b.len() {
        return false;
    }
    let mut index: usize = 0;
    while index < a.len()
        invariant
            a@ == encode_utf8(left@),
            b@ == encode_utf8(right@),
            a@.len() == b@.len(),
            index <= a@.len(),
            forall|i: int| 0 <= i < index ==> a@[i] == b@[i],
        decreases a@.len() - index,
    {
        if a[index] != b[index] {
            return false;
        }
        index = index + 1;
    }
    proof {
        assert(a@ =~= b@);
        lemma_encoding_is_injective(left@, right@);
    }
    true
}

/// `text` begins with `prefix`.
pub open spec fn has_prefix(text: Seq<char>, prefix: Seq<char>) -> bool {
    prefix.len() <= text.len() && text.take(prefix.len() as int) == prefix
}

/// Whether `text` begins with `prefix`.
pub fn starts_with(text: &str, prefix: &str) -> (found: bool)
    ensures
        found == has_prefix(text@, prefix@),
{
    let characters = chars_of(text);
    let wanted = chars_of(prefix);
    if wanted.len() > characters.len() {
        return false;
    }
    let mut index: usize = 0;
    while index < wanted.len()
        invariant
            characters@ == text@,
            wanted@ == prefix@,
            wanted@.len() <= characters@.len(),
            index <= wanted@.len(),
            forall|i: int| 0 <= i < index ==> text@[i] == prefix@[i],
        decreases wanted@.len() - index,
    {
        if characters[index] != wanted[index] {
            assert(text@.take(prefix@.len() as int)[index as int] != prefix@[index as int]);
            return false;
        }
        index = index + 1;
    }
    assert(text@.take(prefix@.len() as int) =~= prefix@);
    true
}

/// What follows `prefix` in `text`, when `text` begins with it.
pub fn strip_prefix(text: &str, prefix: &str) -> (rest: Option<String>)
    ensures
        rest is Some <==> has_prefix(text@, prefix@),
        rest matches Some(r) ==> r@ == text@.skip(prefix@.len() as int),
{
    if starts_with(text, prefix) {
        let characters = chars_of(text);
        let skipped = chars_of(prefix).len();
        assert(text@.skip(prefix@.len() as int) =~= text@.subrange(
            prefix@.len() as int,
            text@.len() as int,
        ));
        Some(text_of(&characters, skipped, characters.len()))
    } else {
        None
    }
}

/// Whether some element of `texts` is `wanted`.
pub fn contains_text(texts: &Vec<String>, wanted: &str) -> (found: bool)
    ensures
        found <==> exists|i: int| 0 <= i < texts@.len() && (#[trigger] texts@[i])@ == wanted@,
{
    let mut index: usize = 0;
    while index < texts.len()
        invariant
            index <= texts@.len(),
            forall|i: int| 0 <= i < index ==> (#[trigger] texts@[i])@ != wanted@,
        decreases texts@.len() - index,
    {
        if same_text(texts[index].as_str(), wanted) {
            return true;
        }
        index = index + 1;
    }
    false
}

// Trimming

/// `text` without its leading white space.
pub open spec fn trimmed_start(text: Seq<char>) -> Seq<char>
    decreases text.len(),
{
    if text.len() > 0 && spec_is_whitespace(text[0]) {
        trimmed_start(text.drop_first())
    } else {
        text
    }
}

/// `text` without its trailing white space.
pub open spec fn trimmed_end(text: Seq<char>) -> Seq<char>
    decreases text.len(),
{
    if text.len() > 0 && spec_is_whitespace(text.last()) {
        trimmed_end(text.drop_last())
    } else {
        text
    }
}

/// `text` without its surrounding white space.
pub open spec fn trimmed(text: Seq<char>) -> Seq<char> {
    trimmed_end(trimmed_start(text))
}

proof fn lemma_trimmed_start_skips(text: Seq<char>, count: int)
    requires
        0 <= count <= text.len(),
        forall|i: int| 0 <= i < count ==> spec_is_whitespace(#[trigger] text[i]),
    ensures
        trimmed_start(text) == trimmed_start(text.skip(count)),
    decreases count,
{
    if count == 0 {
        assert(text.skip(0) =~= text);
    } else {
        let rest = text.drop_first();
        assert forall|i: int| 0 <= i < count - 1 implies spec_is_whitespace(#[trigger] rest[i]) by {
            assert(rest[i] == text[i + 1]);
        }
        lemma_trimmed_start_skips(rest, count - 1);
        assert(rest.skip(count - 1) =~= text.skip(count));
        assert(spec_is_whitespace(text[0]));
    }
}

proof fn lemma_trimmed_end_drops(text: Seq<char>, count: int)
    requires
        0 <= count <= text.len(),
        forall|i: int| count <= i < text.len() ==> spec_is_whitespace(#[trigger] text[i]),
    ensures
        trimmed_end(text) == trimmed_end(text.take(count)),
    decreases text.len(),
{
    if count == text.len() {
        assert(text.take(count) =~= text);
    } else {
        assert(spec_is_whitespace(text.last()));
        lemma_trimmed_end_drops(text.drop_last(), count);
        assert(text.drop_last().take(count) =~= text.take(count));
    }
}

/// `text` without its leading white space.
pub fn trim_start(text: &str) -> (result: String)
    ensures
        result@ == trimmed_start(text@),
{
    let characters = chars_of(text);
    let mut from: usize = 0;
    while from < characters.len() && is_whitespace(characters[from])
        invariant
            characters@ == text@,
            from <= characters@.len(),
            forall|i: int| 0 <= i < from ==> spec_is_whitespace(#[trigger] text@[i]),
        decreases characters@.len() - from,
    {
        from = from + 1;
    }
    proof {
        lemma_trimmed_start_skips(text@, from as int);
        assert(text@.skip(from as int) =~= text@.subrange(from as int, text@.len() as int));
    }
    text_of(&characters, from, characters.len())
}

/// `text` without its surrounding white space.
pub fn trim(text: &str) -> (result: String)
    ensures
        result@ == trimmed(text@),
{
    let characters = chars_of(text);
    let mut from: usize = 0;
    while from < characters.len() && is_whitespace(characters[from])
        invariant
            from <= characters@.len(),
            forall|i: int| 0 <= i < from ==> spec_is_whitespace(#[trigger] characters@[i]),
        decreases characters@.len() - from,
    {
        from = from + 1;
    }
    proof {
        lemma_trimmed_start_skips(text@, from as int);
        assert(trimmed_start(text@) == text@.skip(from as int)) by {
            if from < text@.len() {
                assert(text@.skip(from as int)[0] == text@[from as int]);
            }
        }
    }
    let mut to: usize = characters.len();
    while from < to && is_whitespace(characters[to - 1])
        invariant
            from <= to <= characters@.len(),
            forall|i: int| to <= i < characters@.len() ==> spec_is_whitespace(
                #[trigger] characters@[i],
            ),
        decreases to - from,
    {
        to = to - 1;
    }
    proof {
        let rest = text@.skip(from as int);
        let kept = (to - from) as int;
        assert forall|i: int| kept <= i < rest.len() implies spec_is_whitespace(
            #[trigger] rest[i],
        ) by {
            assert(rest[i] == characters@[i + from]);
        }
        lemma_trimmed_end_drops(rest, kept);
        assert(rest.take(kept) =~= text@.subrange(from as int, to as int));
        if kept > 0 {
            assert(rest.take(kept).last() == characters@[to - 1]);
        }
    }
    text_of(&characters, from, to)
}

// Truncation

/// The longest prefix of `text` whose encoding has at most `limit` bytes.
pub open spec fn truncated(text: Seq<char>, limit: nat) -> Seq<char>
    decreases text.len(),
{
    if utf8_len(text) <= limit || text.len() == 0 {
        text
    } else {
        truncated(text.drop_last(), limit)
    }
}

proof fn lemma_truncated_is_take(text: Seq<char>, limit: nat, count: int)
    requires
        0 <= count <= text.len(),
        utf8_len(text.take(count)) <= limit,
        count < text.len() ==> utf8_len(text.take(count + 1)) > limit,
    ensures
        truncated(text, limit) == text.take(count),
    decreases text.len(),
{
    if count == text.len() {
        assert(text.take(count) =~= text);
    } else {
        lemma_utf8_len_take(text, count + 1);
        let init = text.drop_last();
        assert(init.take(count) =~= text.take(count));
        if count < init.len() {
            assert(init.take(count + 1) =~= text.take(count + 1));
        }
        lemma_truncated_is_take(init, limit, count);
    }
}

/// Truncation keeps a prefix that fits, leaves text that fits alone, and drops
/// no character that would still have fitted.
pub proof fn lemma_truncated(text: Seq<char>, limit: nat)
    ensures
        has_prefix(text, truncated(text, limit)),
        utf8_len(truncated(text, limit)) <= limit,
        utf8_len(text) <= limit ==> truncated(text, limit) == text,
        truncated(text, limit).len() < text.len() ==> utf8_len(
            text.take((truncated(text, limit).len() + 1) as int),
        ) > limit,
    decreases text.len(),
{
    reveal_with_fuel(encode_utf8, 1);
    if utf8_len(text) <= limit || text.len() == 0 {
        assert(text.take(text.len() as int) =~= text);
    } else {
        let init = text.drop_last();
        lemma_truncated(init, limit);
        let kept = truncated(init, limit).len() as int;
        assert(text.take(kept) =~= init.take(kept));
        if kept < init.len() {
            assert(init.take(kept + 1) =~= text.take(kept + 1));
        } else {
            assert(text.take(kept + 1) =~= text);
        }
    }
}

/// The longest prefix of `text` that fits in `limit` bytes.
pub fn truncate_text(text: &str, limit: usize) -> (result: String)
    ensures
        result@ == truncated(text@, limit as nat),
{
    let characters = chars_of(text);
    let mut count: usize = 0;
    let mut used: usize = 0;
    proof {
        assert(text@.take(0) =~= Seq::<char>::empty());
        reveal_with_fuel(encode_utf8, 1);
    }
    while count < characters.len()
        invariant
            characters@ == text@,
            count <= characters@.len(),
            used == utf8_len(text@.take(count as int)),
            used <= limit,
        ensures
            count <= text@.len(),
            utf8_len(text@.take(count as int)) <= limit,
            count < text@.len() ==> utf8_len(text@.take(count + 1)) > limit,
        decreases characters@.len() - count,
    {
        let width = char_width(characters[count]);
        proof {
            assert(text@.take(count + 1) =~= text@.take(count as int).push(text@[count as int]));
            lemma_utf8_len_push(text@.take(count as int), text@[count as int]);
        }
        if width > limit - used {
            break;
        }
        used = used + width;
        count = count + 1;
    }
    proof {
        lemma_truncated_is_take(text@, limit as nat, count as int);
        assert(text@.take(count as int) =~= text@.subrange(0, count as int));
    }
    text_of(&characters, 0, count)
}

// Flags

pub open spec fn flag_name(flag: bool) -> Seq<char> {
    if flag {
        "true"@
    } else {
        "false"@
    }
}

/// A flag as a word.
pub fn flag_label(flag: bool) -> (label: &'static str)
    ensures
        label@ == flag_name(flag),
{
    if flag {
        "true"
    } else {
        "false"
    }
}

// Concatenation

pub fn concat2(a: &str, b: &str) -> (text: String)
    ensures
        text@ == a@ + b@,
{
    let mut text = a.to_owned();
    text.append(b);
    text
}

pub fn concat3(a: &str, b: &str, c: &str) -> (text: String)
    ensures
        text@ == a@ + b@ + c@,
{
    let mut text = a.to_owned();
    text.append(b);
    text.append(c);
    text
}

pub fn concat4(a: &str, b: &str, c: &str, d: &str) -> (text: String)
    ensures
        text@ == a@ + b@ + c@ + d@,
{
    let mut text = concat3(a, b, c);
    text.append(d);
    text
}

pub fn concat5(a: &str, b: &str, c: &str, d: &str, e: &str) -> (text: String)
    ensures
        text@ == a@ + b@ + c@ + d@ + e@,
{
    let mut text = concat4(a, b, c, d);
    text.append(e);
    text
}

// Numerals

/// The decimal digit for `value`, which is below ten.
pub open spec fn digit_char(value: nat) -> char {
    ('0' as u32 + value) as char
}

/// `value` in decimal, without leading zeros.
pub open spec fn decimal(value: nat) -> Seq<char>
    decreases value,
{
    if value < 10 {
        seq![digit_char(value)]
    } else {
        decimal(value / 10).push(digit_char(value % 10))
    }
}

pub proof fn lemma_decimal_digits(value: nat)
    ensures
        decimal(value).len() > 0,
        decimal(value).len() == 1 <==> value < 10,
        forall|i: int|
            0 <= i < decimal(value).len() ==> is_ascii_digit_char(#[trigger] decimal(value)[i]),
    decreases value,
{
    if value >= 10 {
        lemma_decimal_digits(value / 10);
    }
}

pub proof fn lemma_decimal_is_injective(left: nat, right: nat)
    requires
        decimal(left) == decimal(right),
    ensures
        left == right,
    decreases left,
{
    lemma_decimal_digits(left);
    lemma_decimal_digits(right);
    assert(decimal(left).last() == digit_char(left % 10));
    assert(decimal(right).last() == digit_char(right % 10));
    if left >= 10 {
        assert(decimal(left).drop_last() =~= decimal(left / 10));
        assert(decimal(right).drop_last() =~= decimal(right / 10));
        lemma_decimal_is_injective(left / 10, right / 10);
    }
}

/// `count` zeros.
pub open spec fn zeros(count: nat) -> Seq<char> {
    Seq::new(count, |i: int| '0')
}

/// `value` in decimal, with leading zeros up to `width` characters.
pub open spec fn padded_decimal(value: nat, width: nat) -> Seq<char> {
    let digits = decimal(value);
    if digits.len() < width {
        zeros((width - digits.len()) as nat) + digits
    } else {
        digits
    }
}

fn digit(value: u64) -> (c: char)
    requires
        value < 10,
    ensures
        c == digit_char(value as nat),
{
    if value == 0 {
        '0'
    } else if value == 1 {
        '1'
    } else if value == 2 {
        '2'
    } else if value == 3 {
        '3'
    } else if value == 4 {
        '4'
    } else if value == 5 {
        '5'
    } else if value == 6 {
        '6'
    } else if value == 7 {
        '7'
    } else if value == 8 {
        '8'
    } else {
        '9'
    }
}

/// `value` in decimal.
pub fn decimal_text(value: u64) -> (text: String)
    ensures
        text@ == decimal(value as nat),
    decreases value,
{
    if value < 10 {
        let mut text = String::new();
        text.push(digit(value));
        assert(text@ =~= seq![digit_char(value as nat)]);
        text
    } else {
        let mut text = decimal_text(value / 10);
        text.push(digit(value % 10));
        text
    }
}

/// `value` in decimal, zero-padded to `width` characters.
pub fn padded_decimal_text(value: u64, width: usize) -> (text: String)
    ensures
        text@ == padded_decimal(value as nat, width as nat),
{
    let digits = decimal_text(value);
    let length = chars_of(digits.as_str()).len();
    let mut text = String::new();
    let mut padded: usize = length;
    assert(zeros(0) =~= Seq::<char>::empty());
    while padded < width
        invariant
            length <= padded,
            padded <= width || padded == length,
            text@ == zeros((padded - length) as nat),
        decreases width - padded,
    {
        text.push('0');
        assert(zeros((padded - length) as nat).push('0') =~= zeros((padded + 1 - length) as nat));
        padded = padded + 1;
    }
    text.append(digits.as_str());
    assert(length >= width ==> text@ =~= digits@);
    text
}

/// The lower-case hexadecimal digit for `value`, which is below sixteen.
pub open spec fn hex_digit(value: nat) -> char {
    if value < 10 {
        ('0' as u32 + value) as char
    } else {
        ('a' as u32 + (value - 10)) as char
    }
}

/// Two lower-case hexadecimal digits for each byte.
pub open spec fn hex(bytes: Seq<u8>) -> Seq<char> {
    Seq::new(
        2 * bytes.len(),
        |i: int|
            if i % 2 == 0 {
                hex_digit((bytes[i / 2] / 16) as nat)
            } else {
                hex_digit((bytes[i / 2] % 16) as nat)
            },
    )
}

pub proof fn lemma_hex_is_injective(left: Seq<u8>, right: Seq<u8>)
    requires
        hex(left) == hex(right),
    ensures
        left == right,
{
    assert(hex(left).len() == 2 * left.len());
    assert(hex(right).len() == 2 * right.len());
    assert forall|i: int| 0 <= i < left.len() implies left[i] == right[i] by {
        assert(hex(left)[2 * i] == hex_digit((left[i] / 16) as nat));
        assert(hex(right)[2 * i] == hex_digit((right[i] / 16) as nat));
        assert(hex(left)[2 * i + 1] == hex_digit((left[i] % 16) as nat));
        assert(hex(right)[2 * i + 1] == hex_digit((right[i] % 16) as nat));
    }
    assert(left =~= right);
}

fn hex_char(value: u8) -> (c: char)
    requires
        value < 16,
    ensures
        c == hex_digit(value as nat),
{
    if value < 10 {
        digit(value as u64)
    } else if value == 10 {
        'a'
    } else if value == 11 {
        'b'
    } else if value == 12 {
        'c'
    } else if value == 13 {
        'd'
    } else if value == 14 {
        'e'
    } else {
        'f'
    }
}

/// Two lower-case hexadecimal digits for each byte.
pub fn hex_text(bytes: &[u8]) -> (text: String)
    ensures
        text@ == hex(bytes@),
{
    let mut text = String::new();
    let mut index: usize = 0;
    assert(hex(bytes@.take(0)) =~= Seq::<char>::empty());
    while index < bytes.len()
        invariant
            index <= bytes@.len(),
            text@ == hex(bytes@.take(index as int)),
        decreases bytes@.len() - index,
    {
        let byte = bytes[index];
        text.push(hex_char(byte / 16));
        text.push(hex_char(byte % 16));
        proof {
            let done = bytes@.take(index as int);
            let next = bytes@.take(index + 1);
            assert(hex(next) =~= hex(done).push(hex_digit((byte / 16) as nat)).push(
                hex_digit((byte % 16) as nat),
            )) by {
                assert forall|i: int| 0 <= i < 2 * index implies hex(next)[i] == hex(done)[i] by {
                    assert(next[i / 2] == done[i / 2]);
                }
            }
        }
        index = index + 1;
    }
    assert(bytes@.take(bytes@.len() as int) =~= bytes@);
    text
}

/// Trimming takes white space from both ends and nothing else.
pub proof fn law_trimming_takes_white_space_alone(text: Seq<char>)
    ensures
        trimmed(text).len() > 0 ==> !spec_is_whitespace(trimmed(text)[0]) && !spec_is_whitespace(
            trimmed(text).last(),
        ),
        exists|from: int, to: int|
            #![trigger text.subrange(from, to)]
            0 <= from <= to <= text.len() && trimmed(text) == text.subrange(from, to) && (forall|
                i: int,
            |
                0 <= i < from || to <= i < text.len() ==> spec_is_whitespace(#[trigger] text[i])),
{
    let start = trimmed_start(text);
    lemma_start_is_a_tail(text);
    lemma_end_is_a_head(start);
    let from: int = text.len() - start.len();
    let to: int = (from + trimmed(text).len()) as int;
    assert(trimmed(text) =~= text.subrange(from, to));
    assert forall|i: int| 0 <= i < from || to <= i < text.len() implies spec_is_whitespace(
        #[trigger] text[i],
    ) by {
        if i >= to {
            assert(start[i - from] == text[i]);
        }
    }
    if trimmed(text).len() > 0 {
        assert(trimmed(text)[0] == start[0]);
    }
}

proof fn lemma_start_is_a_tail(text: Seq<char>)
    ensures
        trimmed_start(text).len() <= text.len(),
        trimmed_start(text) == text.skip(text.len() - trimmed_start(text).len()),
        trimmed_start(text).len() > 0 ==> !spec_is_whitespace(trimmed_start(text)[0]),
        forall|i: int|
            0 <= i < text.len() - trimmed_start(text).len() ==> spec_is_whitespace(
                #[trigger] text[i],
            ),
    decreases text.len(),
{
    if text.len() > 0 && spec_is_whitespace(text[0]) {
        let rest = text.drop_first();
        lemma_start_is_a_tail(rest);
        assert(trimmed_start(text) =~= text.skip(text.len() - trimmed_start(text).len()));
        assert forall|i: int|
            0 <= i < text.len() - trimmed_start(text).len() implies spec_is_whitespace(
            #[trigger] text[i],
        ) by {
            if i > 0 {
                assert(rest[i - 1] == text[i]);
            }
        }
    } else {
        assert(text.skip(0) =~= text);
    }
}

proof fn lemma_end_is_a_head(text: Seq<char>)
    ensures
        trimmed_end(text).len() <= text.len(),
        trimmed_end(text) == text.take(trimmed_end(text).len() as int),
        trimmed_end(text).len() > 0 ==> !spec_is_whitespace(trimmed_end(text).last()),
        forall|i: int|
            trimmed_end(text).len() <= i < text.len() ==> spec_is_whitespace(#[trigger] text[i]),
    decreases text.len(),
{
    if text.len() > 0 && spec_is_whitespace(text.last()) {
        let rest = text.drop_last();
        lemma_end_is_a_head(rest);
        assert(trimmed_end(text) =~= text.take(trimmed_end(text).len() as int));
        assert forall|i: int| trimmed_end(text).len() <= i < text.len() implies spec_is_whitespace(
            #[trigger] text[i],
        ) by {
            if i < rest.len() {
                assert(rest[i] == text[i]);
            }
        }
    } else {
        assert(text.take(text.len() as int) =~= text);
    }
}

/// Control characters are those below the space, the delete and those up to 0x9f;
/// no letter, digit or space is one.
pub proof fn law_printable_characters_are_no_controls(c: char)
    ensures
        ' ' <= c <= '~' ==> !spec_is_control(c),
        c == '\0' || c == '\n' || c == '\r' || c == '\t' || c == '\x1b' || c == '\x7f'
            ==> spec_is_control(c),
        is_ascii_alphanumeric_char(c) ==> !spec_is_control(c) && !spec_is_whitespace(c),
        c == ' ' || c == '\t' || c == '\n' || c == '\r' ==> spec_is_whitespace(c),
{
}

/// A flag is written as itself.
pub proof fn law_flags_have_their_own_words(flag: bool)
    ensures
        flag_name(flag) == "true"@ <==> flag,
        flag_name(flag) == "false"@ <==> !flag,
{
    reveal_strlit("true");
    reveal_strlit("false");
    assert("true"@.len() == 4);
    assert("false"@.len() == 5);
}

} // verus!
