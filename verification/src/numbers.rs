//! Reading unsigned decimal numbers.

use vstd::prelude::*;

use crate::text::{chars_of, decimal, digit_char, is_ascii_digit_char, lemma_decimal_digits};

verus! {

/// `digits` is one or more ASCII digits.
pub open spec fn is_numeral(digits: Seq<char>) -> bool {
    digits.len() > 0 && forall|i: int|
        0 <= i < digits.len() ==> is_ascii_digit_char(#[trigger] digits[i])
}

/// The number that `digits` spells.
pub open spec fn numeral_value(digits: Seq<char>) -> nat
    decreases digits.len(),
{
    if digits.len() == 0 {
        0
    } else {
        numeral_value(digits.drop_last()) * 10 + (digits.last() as nat - '0' as nat) as nat
    }
}

/// The number written in `text` without a sign, if it is one and fits in 64
/// bits.
pub open spec fn plain_number(text: Seq<char>) -> Option<u64> {
    if is_numeral(text) && numeral_value(text) <= u64::MAX {
        Some(numeral_value(text) as u64)
    } else {
        None
    }
}

/// The number written in `text`, which may begin with a plus sign.
pub open spec fn signed_number(text: Seq<char>) -> Option<u64> {
    if text.len() > 0 && text[0] == '+' {
        plain_number(text.skip(1))
    } else {
        plain_number(text)
    }
}

proof fn lemma_numeral_value_grows(digits: Seq<char>, count: int)
    requires
        0 <= count <= digits.len(),
    ensures
        numeral_value(digits.take(count)) <= numeral_value(digits),
    decreases digits.len(),
{
    if count < digits.len() {
        lemma_numeral_value_grows(digits.drop_last(), count);
        assert(digits.drop_last().take(count) =~= digits.take(count));
    } else {
        assert(digits.take(count) =~= digits);
    }
}

fn read_digits(characters: &Vec<char>, from: usize) -> (number: Option<u64>)
    requires
        from <= characters@.len(),
    ensures
        number == plain_number(characters@.skip(from as int)),
{
    let ghost digits = characters@.skip(from as int);
    if from == characters.len() {
        return None;
    }
    let mut value: u64 = 0;
    let mut index: usize = from;
    assert(digits.take(0) =~= Seq::<char>::empty());
    let mut fits = true;
    while index < characters.len()
        invariant
            from <= index <= characters@.len(),
            digits == characters@.skip(from as int),
            forall|i: int| 0 <= i < index - from ==> is_ascii_digit_char(#[trigger] digits[i]),
            fits ==> value == numeral_value(digits.take(index - from)),
            !fits ==> numeral_value(digits.take(index - from)) > u64::MAX,
        decreases characters@.len() - index,
    {
        let c = characters[index];
        assert(digits[index - from] == c);
        if !('0' <= c && c <= '9') {
            return None;
        }
        let digit: u64 = (c as u32 - '0' as u32) as u64;
        proof {
            let next = digits.take(index - from + 1);
            assert(next.drop_last() =~= digits.take(index - from));
            assert(next.last() == c);
            assert(numeral_value(next) == numeral_value(digits.take(index - from)) * 10 + digit);
        }
        if fits {
            if value > (u64::MAX - digit) / 10 {
                fits = false;
            } else {
                value = value * 10 + digit;
            }
        }
        index = index + 1;
    }
    assert(digits.take(digits.len() as int) =~= digits);
    if fits {
        Some(value)
    } else {
        None
    }
}

/// Reads an unsigned number without a sign.
pub fn read_plain_number(text: &str) -> (number: Option<u64>)
    ensures
        number == plain_number(text@),
{
    let characters = chars_of(text);
    assert(characters@.skip(0) =~= characters@);
    read_digits(&characters, 0)
}

/// Reads an unsigned number that may begin with a plus sign.
pub fn read_number(text: &str) -> (number: Option<u64>)
    ensures
        number == signed_number(text@),
{
    let characters = chars_of(text);
    assert(characters@.skip(0) =~= characters@);
    if characters.len() > 0 && characters[0] == '+' {
        read_digits(&characters, 1)
    } else {
        read_digits(&characters, 0)
    }
}

/// A number is read back as it is written.
pub proof fn law_numbers_are_read_back(value: u64)
    ensures
        plain_number(decimal(value as nat)) == Some(value),
        signed_number(decimal(value as nat)) == Some(value),
        signed_number(seq!['+'] + decimal(value as nat)) == Some(value),
{
    let digits = decimal(value as nat);
    lemma_decimal_digits(value as nat);
    lemma_decimal_value(value as nat);
    assert(is_ascii_digit_char(digits[0]));
    assert((seq!['+'] + digits).skip(1) =~= digits);
}

proof fn lemma_decimal_value(value: nat)
    ensures
        numeral_value(decimal(value)) == value,
    decreases value,
{
    let digits = decimal(value);
    if value >= 10 {
        lemma_decimal_value(value / 10);
        assert(digits.drop_last() =~= decimal(value / 10));
        assert(digits.last() == digit_char(value % 10));
    } else {
        assert(digits.drop_last() =~= Seq::<char>::empty());
        assert(digits.last() == digit_char(value));
        assert(numeral_value(digits.drop_last()) == 0);
    }
}

/// Only digits make a number, behind one plus sign at most.
pub proof fn law_numbers_are_digits(text: Seq<char>)
    requires
        signed_number(text) is Some,
    ensures
        text.len() > 0,
        text[0] == '+' ==> text.len() > 1,
        forall|i: int| 1 <= i < text.len() ==> '0' <= #[trigger] text[i] <= '9',
        text[0] == '+' || '0' <= text[0] <= '9',
{
    if text[0] == '+' {
        let rest = text.skip(1);
        assert forall|i: int| 1 <= i < text.len() implies '0' <= #[trigger] text[i] <= '9' by {
            assert(is_ascii_digit_char(rest[i - 1]));
        }
    } else {
        assert(is_ascii_digit_char(text[0]));
        assert forall|i: int| 1 <= i < text.len() implies '0' <= #[trigger] text[i] <= '9' by {
            assert(is_ascii_digit_char(text[i]));
        }
    }
}

} // verus!
