//! Reading how much memory a macOS host has, and how hard it is pressed for
//! it. Whatever cannot be read for certain is refused.

use vstd::prelude::*;
use vstd::utf8::{decode_utf8, encode_utf8};

use crate::numbers::{law_numbers_are_read_back, plain_number, read_plain_number};
use crate::split::{lemma_span_before, lemma_span_is, span_before, split_by, split_text, texts};
use crate::text::{
    chars_of, decimal, decode_text, has_prefix, is_ascii_digit_char, lemma_decimal_digits,
    spec_is_whitespace, starts_with, strip_prefix, text_of, trim, trimmed,
};

verus! {

/// The longest answer that `sysctl` may give.
pub const MAX_SYSCTL_OUTPUT_BYTES: usize = 256;

/// The longest answer that `vm_stat` may give.
pub const MAX_VM_STAT_OUTPUT_BYTES: usize = 16_384;

/// How long a query may take, in milliseconds.
pub const QUERY_TIMEOUT_MS: u64 = 2_000;

/// How far apart the two samples of the swap counter are, in milliseconds.
pub const SWAP_TREND_INTERVAL_MS: u64 = 250;

/// Why nothing is known of the host's memory.
#[derive(Clone, Copy, Debug, PartialEq, Eq, Structural)]
pub enum AdmissionError {
    QueryFailed,
    QueryTimedOut,
    InvalidData,
}

pub open spec fn admission_error_text(error: AdmissionError) -> Seq<char> {
    match error {
        AdmissionError::QueryFailed => "host admission query failed"@,
        AdmissionError::QueryTimedOut => "host admission query timed out"@,
        AdmissionError::InvalidData => "host memory query returned invalid data"@,
    }
}

impl AdmissionError {
    pub fn text(self) -> (text: &'static str)
        ensures
            text@ == admission_error_text(self),
    {
        match self {
            AdmissionError::QueryFailed => "host admission query failed",
            AdmissionError::QueryTimedOut => "host admission query timed out",
            AdmissionError::InvalidData => "host memory query returned invalid data",
        }
    }
}

// Queries

/// What is seen of a query that was started.
#[derive(Clone, Copy, Debug, PartialEq, Eq, Structural)]
pub enum QueryState {
    Exited { success: bool },
    Running { in_time: bool },
    Unknown,
}

/// What to do about a query.
#[derive(Clone, Copy, Debug, PartialEq, Eq, Structural)]
pub enum QueryAction {
    ReadOutput,
    LookAgain,
    /// End the query, and then report it.
    Kill(AdmissionError),
    Report(AdmissionError),
}

/// What is done about a query.
pub open spec fn query_action_of(state: QueryState) -> QueryAction {
    match state {
        QueryState::Exited { success: true } => QueryAction::ReadOutput,
        QueryState::Exited { success: false } | QueryState::Unknown => QueryAction::Report(
            AdmissionError::QueryFailed,
        ),
        QueryState::Running { in_time: true } => QueryAction::LookAgain,
        QueryState::Running { in_time: false } => QueryAction::Kill(AdmissionError::QueryTimedOut),
    }
}

/// Decides what to do about a query.
pub fn query_action(state: QueryState) -> (action: QueryAction)
    ensures
        action == query_action_of(state),
{
    match state {
        QueryState::Exited { success } => {
            if success {
                QueryAction::ReadOutput
            } else {
                QueryAction::Report(AdmissionError::QueryFailed)
            }
        },
        QueryState::Unknown => QueryAction::Report(AdmissionError::QueryFailed),
        QueryState::Running { in_time } => {
            if in_time {
                QueryAction::LookAgain
            } else {
                QueryAction::Kill(AdmissionError::QueryTimedOut)
            }
        },
    }
}

/// Every byte is an ASCII character.
pub open spec fn is_ascii_bytes(bytes: Seq<u8>) -> bool {
    forall|i: int| 0 <= i < bytes.len() ==> #[trigger] bytes[i] < 0x80
}

/// There is an answer, it is not too long, and it is ASCII.
pub open spec fn is_readable(bytes: Seq<u8>, limit: nat) -> bool {
    0 < bytes.len() <= limit && is_ascii_bytes(bytes)
}

/// ASCII bytes are the encoding of the characters of the same numbers.
proof fn lemma_ascii_is_text(bytes: Seq<u8>)
    requires
        is_ascii_bytes(bytes),
    ensures
        vstd::utf8::valid_utf8(bytes),
    decreases bytes.len(),
{
    let characters = Seq::new(bytes.len(), |i: int| bytes[i] as char);
    vstd::utf8::is_ascii_chars_encode_utf8(characters);
    assert(encode_utf8(characters) =~= bytes);
    vstd::utf8::encode_utf8_valid_utf8(characters);
}

/// Borrows an answer as text.
fn readable_text(bytes: &[u8], limit: usize) -> (text: Option<&str>)
    ensures
        text is Some <==> is_readable(bytes@, limit as nat),
        text matches Some(t) ==> t@ == decode_utf8(bytes@),
{
    if bytes.len() == 0 || bytes.len() > limit {
        return None;
    }
    let mut index: usize = 0;
    while index < bytes.len()
        invariant
            index <= bytes@.len(),
            forall|i: int| 0 <= i < index ==> #[trigger] bytes@[i] < 0x80,
        decreases bytes@.len() - index,
    {
        if bytes[index] >= 0x80 {
            assert(bytes@[index as int] >= 0x80);
            return None;
        }
        index = index + 1;
    }
    proof {
        lemma_ascii_is_text(bytes@);
    }
    decode_text(bytes)
}

// The swap counter

/// What the line of the swap counter begins with.
pub const SWAPOUTS_LABEL: &'static str = "Swapouts:";

/// The line at `index` is the only one for the swap counter.
pub open spec fn is_only_counter(lines: Seq<Seq<char>>, index: int) -> bool {
    &&& 0 <= index < lines.len()
    &&& has_prefix(lines[index], SWAPOUTS_LABEL@)
    &&& forall|i: int|
        0 <= i < lines.len() && i != index ==> !has_prefix(#[trigger] lines[i], SWAPOUTS_LABEL@)
}

/// The number on the line of the swap counter: digits, and a full stop.
pub open spec fn counter_value(line: Seq<char>) -> Option<u64> {
    let value = trimmed(line.skip(SWAPOUTS_LABEL@.len() as int));
    if value.len() > 0 && value.last() == '.' {
        plain_number(value.drop_last())
    } else {
        None
    }
}

/// The swap counter in `text`, if it is there once and is a number.
pub open spec fn swapouts_in(text: Seq<char>) -> Option<u64> {
    let lines = split_by(text, '\n');
    if exists|index: int| is_only_counter(lines, index) {
        counter_value(lines[choose|index: int| is_only_counter(lines, index)])
    } else {
        None
    }
}

fn read_counter(line: &str) -> (value: Option<u64>)
    requires
        has_prefix(line@, SWAPOUTS_LABEL@),
    ensures
        value == counter_value(line@),
{
    let rest = match strip_prefix(line, SWAPOUTS_LABEL) {
        Some(rest) => rest,
        None => return None,
    };
    let value = trim(rest.as_str());
    let characters = chars_of(value.as_str());
    let count = characters.len();
    if count == 0 || characters[count - 1] != '.' {
        return None;
    }
    let digits = text_of(&characters, 0, count - 1);
    assert(digits@ =~= value@.drop_last());
    read_plain_number(digits.as_str())
}

/// Reads the swap counter in an answer of `vm_stat`.
pub fn parse_swapouts(bytes: &[u8]) -> (swapouts: Result<u64, AdmissionError>)
    ensures
        swapouts == (match (
            is_readable(bytes@, MAX_VM_STAT_OUTPUT_BYTES as nat),
            swapouts_in(decode_utf8(bytes@)),
        ) {
            (true, Some(count)) => Ok::<u64, AdmissionError>(count),
            _ => Err::<u64, AdmissionError>(AdmissionError::InvalidData),
        }),
{
    let text = match readable_text(bytes, MAX_VM_STAT_OUTPUT_BYTES) {
        Some(text) => text,
        None => return Err(AdmissionError::InvalidData),
    };
    let lines = split_text(text, '\n');
    let mut found: Option<usize> = None;
    let mut index: usize = 0;
    while index < lines.len()
        invariant
            index <= lines@.len(),
            match found {
                Some(at) => at < index && has_prefix(lines@[at as int]@, SWAPOUTS_LABEL@)
                    && forall|i: int|
                    0 <= i < index && i != at ==> !has_prefix(
                        #[trigger] texts(lines@)[i],
                        SWAPOUTS_LABEL@,
                    ),
                None => forall|i: int|
                    0 <= i < index ==> !has_prefix(#[trigger] texts(lines@)[i], SWAPOUTS_LABEL@),
            },
            texts(lines@) == split_by(text@, '\n'),
            text@ == decode_utf8(bytes@),
            is_readable(bytes@, MAX_VM_STAT_OUTPUT_BYTES as nat),
        decreases lines@.len() - index,
    {
        assert(texts(lines@)[index as int] == lines@[index as int]@);
        if starts_with(lines[index].as_str(), SWAPOUTS_LABEL) {
            if let Some(at) = found {
                proof {
                    let all = texts(lines@);
                    assert(all[at as int] == lines@[at as int]@);
                    assert forall|other: int| !is_only_counter(all, other) by {
                        if is_only_counter(all, other) {
                            assert(has_prefix(all[at as int], SWAPOUTS_LABEL@));
                            assert(has_prefix(all[index as int], SWAPOUTS_LABEL@));
                        }
                    }
                }
                return Err(AdmissionError::InvalidData);
            }
            found = Some(index);
        }
        index = index + 1;
    }
    match found {
        Some(at) => {
            proof {
                let all = texts(lines@);
                assert(all[at as int] == lines@[at as int]@);
                assert(is_only_counter(all, at as int));
                let chosen = choose|other: int| is_only_counter(all, other);
                assert(is_only_counter(all, chosen));
                assert(chosen == at) by {
                    if chosen != at {
                        assert(!has_prefix(all[chosen], SWAPOUTS_LABEL@));
                    }
                }
            }
            match read_counter(lines[at].as_str()) {
                Some(count) => Ok(count),
                None => Err(AdmissionError::InvalidData),
            }
        },
        None => {
            assert forall|other: int| !is_only_counter(texts(lines@), other) by {
                if is_only_counter(texts(lines@), other) {
                    assert(!has_prefix(texts(lines@)[other], SWAPOUTS_LABEL@));
                }
            }
            Err(AdmissionError::InvalidData)
        },
    }
}

/// How the host's use of swap develops.
#[derive(Clone, Copy, Debug, PartialEq, Eq, Structural)]
pub enum RuntimeSwapTrend {
    Stable,
    Rising,
    Unknown,
}

/// What two samples of the swap counter say.
pub open spec fn trend_of(first: u64, second: u64) -> RuntimeSwapTrend {
    if second == first {
        RuntimeSwapTrend::Stable
    } else if second > first {
        RuntimeSwapTrend::Rising
    } else {
        RuntimeSwapTrend::Unknown
    }
}

/// Compares two samples of the swap counter. A counter that went back says
/// nothing.
pub fn swap_trend_from_samples(first: u64, second: u64) -> (trend: RuntimeSwapTrend)
    ensures
        trend == trend_of(first, second),
{
    if second == first {
        RuntimeSwapTrend::Stable
    } else if second > first {
        RuntimeSwapTrend::Rising
    } else {
        RuntimeSwapTrend::Unknown
    }
}

// The memory

/// How hard the host is pressed for memory.
#[derive(Clone, Copy, Debug, PartialEq, Eq, Structural)]
pub enum RuntimeMemoryPressure {
    Normal,
    Warning,
    Critical,
    Unknown,
}

/// The pressure that a level of the system stands for.
pub open spec fn pressure_of(level: u64) -> RuntimeMemoryPressure {
    if level == 1 {
        RuntimeMemoryPressure::Normal
    } else if level == 2 {
        RuntimeMemoryPressure::Warning
    } else if level == 4 {
        RuntimeMemoryPressure::Critical
    } else {
        RuntimeMemoryPressure::Unknown
    }
}

/// What was read of a host's memory.
#[derive(Clone, Copy, Debug, PartialEq, Eq, Structural)]
pub struct HostReading {
    pub total_bytes: u64,
    pub available_bytes: u64,
    pub pressure: RuntimeMemoryPressure,
    pub swap_trend: RuntimeSwapTrend,
}

/// ASCII whitespace: space, tab, line feed, form feed and carriage return.
pub open spec fn is_ascii_space(c: char) -> bool {
    c == ' ' || c == '\t' || c == '\n' || c == '\x0c' || c == '\r'
}

pub open spec fn spaces() -> spec_fn(char) -> bool {
    |c: char| is_ascii_space(c)
}

/// The words of `text` between ASCII whitespace.
pub open spec fn words(text: Seq<char>) -> Seq<Seq<char>>
    decreases text.len(),
{
    if text.len() == 0 {
        seq![]
    } else if is_ascii_space(text[0]) {
        words(text.skip(1))
    } else {
        let span = span_before(text, spaces());
        proof {
            lemma_span_before(text, spaces());
        }
        seq![text.take(span as int)] + words(text.skip(span as int))
    }
}

/// Splits a text into its words.
pub fn split_words(text: &str) -> (pieces: Vec<String>)
    ensures
        texts(pieces@) == words(text@),
{
    let characters = chars_of(text);
    let count = characters.len();
    let mut pieces: Vec<String> = Vec::new();
    let mut index: usize = 0;
    proof {
        assert(text@.skip(0) =~= text@);
        assert(texts(pieces@) + words(text@) =~= words(text@));
    }
    while index < count
        invariant
            characters@ == text@,
            count == text@.len(),
            index <= count,
            texts(pieces@) + words(text@.skip(index as int)) == words(text@),
        decreases count - index,
    {
        let ghost rest = text@.skip(index as int);
        let c = characters[index];
        assert(rest[0] == c);
        if c == ' ' || c == '\t' || c == '\n' || c == '\x0c' || c == '\r' {
            assert(rest.skip(1) =~= text@.skip(index + 1));
            index = index + 1;
        } else {
            let start: usize = index;
            let mut end: usize = index + 1;
            while end < count && !(characters[end] == ' ' || characters[end] == '\t'
                || characters[end] == '\n' || characters[end] == '\x0c' || characters[end]
                == '\r')
                invariant
                    characters@ == text@,
                    count == text@.len(),
                    start < end <= count,
                    rest == text@.skip(start as int),
                    !is_ascii_space(text@[start as int]),
                    forall|i: int| start <= i < end ==> !is_ascii_space(#[trigger] text@[i]),
                decreases count - end,
            {
                end = end + 1;
            }
            let piece = text_of(&characters, start, end);
            proof {
                let span = (end - start) as int;
                assert forall|i: int| 0 <= i < span implies !spaces()(#[trigger] rest[i]) by {
                    assert(rest[i] == text@[start + i]);
                }
                if span < rest.len() {
                    assert(rest[span] == text@[end as int]);
                }
                lemma_span_is(rest, spaces(), span);
                assert(rest.take(span) =~= piece@);
                assert(rest.skip(span) =~= text@.skip(end as int));
                assert(texts(pieces@.push(piece)) =~= texts(pieces@).push(piece@));
                assert(texts(pieces@.push(piece)) + words(text@.skip(end as int)) =~= texts(pieces@)
                    + words(rest));
            }
            pieces.push(piece);
            index = end;
        }
    }
    assert(text@.skip(count as int) =~= Seq::<char>::empty());
    assert(texts(pieces@) + words(text@.skip(count as int)) =~= texts(pieces@));
    pieces
}

/// The memory that three words report: all of it, the percentage of it that is
/// available, and the pressure.
pub open spec fn reading_of(fields: Seq<Seq<char>>, trend: RuntimeSwapTrend) -> Option<
    HostReading,
> {
    if fields.len() != 3 {
        None
    } else {
        match (plain_number(fields[0]), plain_number(fields[1]), plain_number(fields[2])) {
            (Some(total), Some(percent), Some(level)) => if total > 0 && percent <= 100 {
                Some(
                    HostReading {
                        total_bytes: total,
                        available_bytes: (total * percent / 100) as u64,
                        pressure: pressure_of(level),
                        swap_trend: trend,
                    },
                )
            } else {
                None
            },
            _ => None,
        }
    }
}

/// Reads the memory of the host in an answer of `sysctl`.
pub fn parse_snapshot(bytes: &[u8], swap_trend: RuntimeSwapTrend) -> (reading: Result<
    HostReading,
    AdmissionError,
>)
    ensures
        reading == (match (
            is_readable(bytes@, MAX_SYSCTL_OUTPUT_BYTES as nat),
            reading_of(words(decode_utf8(bytes@)), swap_trend),
        ) {
            (true, Some(found)) => Ok::<HostReading, AdmissionError>(found),
            _ => Err::<HostReading, AdmissionError>(AdmissionError::InvalidData),
        }),
        reading matches Ok(found) ==> found.available_bytes <= found.total_bytes,
{
    let text = match readable_text(bytes, MAX_SYSCTL_OUTPUT_BYTES) {
        Some(text) => text,
        None => return Err(AdmissionError::InvalidData),
    };
    let fields = split_words(text);
    if fields.len() != 3 {
        return Err(AdmissionError::InvalidData);
    }
    proof {
        let all = texts(fields@);
        assert(all[0] == fields@[0]@ && all[1] == fields@[1]@ && all[2] == fields@[2]@);
    }
    match (
        read_plain_number(fields[0].as_str()),
        read_plain_number(fields[1].as_str()),
        read_plain_number(fields[2].as_str()),
    ) {
        (Some(total_bytes), Some(percent), Some(level)) => {
            if total_bytes == 0 || percent > 100 {
                return Err(AdmissionError::InvalidData);
            }
            proof {
                assert(total_bytes * percent <= total_bytes * 100) by (nonlinear_arith)
                    requires
                        percent <= 100,
                ;
                assert(0 <= total_bytes * percent) by (nonlinear_arith);
            }
            let available_bytes: u64 = ((total_bytes as u128) * (percent as u128) / 100) as u64;
            let pressure = if level == 1 {
                RuntimeMemoryPressure::Normal
            } else if level == 2 {
                RuntimeMemoryPressure::Warning
            } else if level == 4 {
                RuntimeMemoryPressure::Critical
            } else {
                RuntimeMemoryPressure::Unknown
            };
            Ok(HostReading { total_bytes, available_bytes, pressure, swap_trend })
        },
        _ => Err(AdmissionError::InvalidData),
    }
}

// What is made of a host's answers

/// An answer is read only of a query that ended well. One that still runs is
/// looked at again as long as there is time, and only then ended; all else has
/// failed.
pub proof fn law_queries_are_read_when_they_end_well(state: QueryState)
    ensures
        query_action_of(state) == QueryAction::ReadOutput <==> state == (QueryState::Exited {
            success: true,
        }),
        query_action_of(state) == QueryAction::LookAgain <==> state == (QueryState::Running {
            in_time: true,
        }),
        query_action_of(state) == QueryAction::Kill(AdmissionError::QueryTimedOut) <==> state == (
        QueryState::Running { in_time: false }),
        query_action_of(state) == QueryAction::Report(AdmissionError::QueryFailed) <==> state
            == QueryState::Unknown || state == (QueryState::Exited { success: false }),
{
}

/// Swap rises where the counter does, and is stable only where it does not move;
/// the other way round, neither is known.
pub proof fn law_trends_follow_the_counter(first: u64, second: u64)
    ensures
        trend_of(first, second) == RuntimeSwapTrend::Stable <==> first == second,
        trend_of(first, second) == RuntimeSwapTrend::Rising <==> first < second,
        trend_of(first, second) == RuntimeSwapTrend::Unknown <==> first > second,
        trend_of(first, second) == RuntimeSwapTrend::Rising <==> trend_of(second, first)
            == RuntimeSwapTrend::Unknown,
{
}

/// The system's levels one, two and four are known, and no other.
pub proof fn law_pressure_levels_are_known(level: u64)
    ensures
        pressure_of(level) == RuntimeMemoryPressure::Normal <==> level == 1,
        pressure_of(level) == RuntimeMemoryPressure::Warning <==> level == 2,
        pressure_of(level) == RuntimeMemoryPressure::Critical <==> level == 4,
        pressure_of(level) == RuntimeMemoryPressure::Unknown <==> level != 1 && level != 2 && level
            != 4,
{
}

/// What is available is the reported percentage of the whole, rounded down, and
/// never more than the whole.
pub proof fn law_readings_report_the_percentage(
    total: u64,
    percent: u64,
    level: u64,
    trend: RuntimeSwapTrend,
)
    ensures
        ({
            let fields = seq![
                decimal(total as nat),
                decimal(percent as nat),
                decimal(level as nat),
            ];
            let reading = reading_of(fields, trend);
            &&& reading is Some <==> 0 < total && percent <= 100
            &&& reading is Some ==> {
                &&& reading->0.total_bytes == total
                &&& 100 * reading->0.available_bytes <= total * percent < 100
                    * reading->0.available_bytes + 100
                &&& reading->0.available_bytes <= total
                &&& reading->0.pressure == pressure_of(level)
                &&& reading->0.swap_trend == trend
            }
        }),
{
    law_numbers_are_read_back(total);
    law_numbers_are_read_back(percent);
    law_numbers_are_read_back(level);
    if percent <= 100 {
        assert(0 <= total * percent <= total * 100) by (nonlinear_arith)
            requires
                0 <= percent <= 100,
                0 <= total,
        ;
    }
}

/// A host reports three words, each a number; fewer or more say nothing.
pub proof fn law_readings_are_three_numbers(fields: Seq<Seq<char>>, trend: RuntimeSwapTrend)
    requires
        reading_of(fields, trend) is Some,
    ensures
        fields.len() == 3,
        plain_number(fields[0]) == Some(reading_of(fields, trend)->0.total_bytes),
        plain_number(fields[1]) is Some,
        plain_number(fields[2]) is Some,
{
}

/// A word is not empty and holds no white space.
pub proof fn law_words_hold_no_space(text: Seq<char>, index: int, at: int)
    requires
        0 <= index < words(text).len(),
    ensures
        words(text)[index].len() > 0,
        0 <= at < words(text)[index].len() ==> {
            let c = words(text)[index][at];
            c != ' ' && c != '\t' && c != '\n' && c != '\r'
        },
    decreases text.len(),
{
    if text.len() > 0 {
        if is_ascii_space(text[0]) {
            law_words_hold_no_space(text.skip(1), index, at);
        } else {
            let span = span_before(text, spaces()) as int;
            lemma_span_before(text, spaces());
            let rest = text.skip(span);
            assert(spaces()(' ') && spaces()('\t') && spaces()('\n') && spaces()('\r'));
            if index == 0 {
                assert(words(text)[0] == text.take(span));
                if span == 0 {
                    assert(!spaces()(text[0]));
                }
                if 0 <= at < span {
                    assert(!spaces()(text[at]));
                }
            } else {
                assert(words(text)[index] == words(rest)[index - 1]);
                law_words_hold_no_space(rest, index - 1, at);
            }
        }
    }
}

/// The swap counter is read as it is written, behind its label and before a full
/// stop.
pub proof fn law_counters_are_read_back(count: u64)
    ensures
        counter_value("Swapouts:"@ + decimal(count as nat) + "."@) == Some(count),
{
    let digits = decimal(count as nat);
    let line = "Swapouts:"@ + digits + "."@;
    let value = digits.push('.');
    reveal_strlit(".");
    lemma_decimal_digits(count as nat);
    law_numbers_are_read_back(count);
    assert(line.skip("Swapouts:"@.len() as int) =~= value);
    assert(is_ascii_digit_char(digits[0]));
    assert(value[0] == digits[0]);
    assert(!spec_is_whitespace(value[0]));
    assert(!spec_is_whitespace(value.last()));
    assert(value.drop_last() =~= digits);
}

/// Each reason why nothing is known has its own words.
pub proof fn law_admission_errors_have_their_own_words(error: AdmissionError)
    ensures
        admission_error_text(error) == "host admission query failed"@ <==> error
            == AdmissionError::QueryFailed,
        admission_error_text(error) == "host admission query timed out"@ <==> error
            == AdmissionError::QueryTimedOut,
        admission_error_text(error) == "host memory query returned invalid data"@ <==> error
            == AdmissionError::InvalidData,
{
    reveal_strlit("host admission query failed");
    reveal_strlit("host admission query timed out");
    reveal_strlit("host memory query returned invalid data");
    assert("host admission query failed"@.len() == 27);
    assert("host admission query timed out"@.len() == 30);
    assert("host memory query returned invalid data"@.len() == 39);
}

/// An answer is read only where there is one, it is within its limit and every
/// byte of it is ASCII.
pub proof fn law_only_short_ascii_answers_are_read(bytes: Seq<u8>, limit: nat, i: int)
    ensures
        is_readable(bytes, limit) ==> 0 < bytes.len() <= limit,
        is_readable(bytes, limit) && 0 <= i < bytes.len() ==> bytes[i] < 128,
        0 < bytes.len() <= limit && (forall|k: int| 0 <= k < bytes.len() ==> #[trigger] bytes[k]
            < 128) ==> is_readable(bytes, limit),
        MAX_SYSCTL_OUTPUT_BYTES == 256,
        MAX_VM_STAT_OUTPUT_BYTES == 16 * 1024,
        QUERY_TIMEOUT_MS == 2_000,
        SWAP_TREND_INTERVAL_MS == 250,
{
}

/// A counter counts only where exactly one line has it.
pub proof fn law_counters_are_there_once(text: Seq<char>, i: int, j: int)
    requires
        swapouts_in(text) is Some,
        0 <= i < j < split_by(text, '\n').len(),
    ensures
        !(has_prefix(split_by(text, '\n')[i], "Swapouts:"@) && has_prefix(
            split_by(text, '\n')[j],
            "Swapouts:"@,
        )),
{
    let lines = split_by(text, '\n');
    let only = choose|index: int| is_only_counter(lines, index);
    assert(is_only_counter(lines, only));
    if i != only {
        assert(!has_prefix(lines[i], SWAPOUTS_LABEL@));
    } else {
        assert(!has_prefix(lines[j], SWAPOUTS_LABEL@));
    }
}

} // verus!
