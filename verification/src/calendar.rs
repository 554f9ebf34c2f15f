//! The Gregorian calendar, counted from the first day of 1970.

use vstd::prelude::*;

use crate::ordered::precedes;
use crate::text::{decimal, digit_char, padded_decimal, padded_decimal_text};

verus! {

pub open spec fn is_leap(year: int) -> bool {
    year % 4 == 0 && (year % 100 != 0 || year % 400 == 0)
}

pub open spec fn year_length(year: int) -> int {
    if is_leap(year) {
        366
    } else {
        365
    }
}

pub open spec fn month_length(year: int, month: int) -> int {
    if month == 2 {
        if is_leap(year) {
            29
        } else {
            28
        }
    } else if month == 4 || month == 6 || month == 9 || month == 11 {
        30
    } else {
        31
    }
}

/// The days from the start of 1970 to the start of `year`.
pub open spec fn days_before_year(year: int) -> int
    decreases year,
{
    if year <= 1970 {
        0
    } else {
        days_before_year(year - 1) + year_length(year - 1)
    }
}

/// The days from the start of `year` to the start of `month`.
pub open spec fn days_before_month(year: int, month: int) -> int
    decreases month,
{
    if month <= 1 {
        0
    } else {
        days_before_month(year, month - 1) + month_length(year, month - 1)
    }
}

/// The calendar has such a day, in 1970 or later.
pub open spec fn is_date(year: int, month: int, day: int) -> bool {
    &&& year >= 1970
    &&& 1 <= month <= 12
    &&& 1 <= day <= month_length(year, month)
}

/// The days from the first day of 1970 to the given one.
pub open spec fn day_number(year: int, month: int, day: int) -> int {
    days_before_year(year) + days_before_month(year, month) + day - 1
}

// One day, one date

proof fn lemma_years_add_up(earlier: int, later: int)
    requires
        1970 <= earlier < later,
    ensures
        days_before_year(earlier) + year_length(earlier) <= days_before_year(later),
    decreases later,
{
    if later > earlier + 1 {
        lemma_years_add_up(earlier, later - 1);
    }
}

proof fn lemma_months_add_up(year: int, earlier: int, later: int)
    requires
        1 <= earlier < later,
    ensures
        days_before_month(year, earlier) + month_length(year, earlier) <= days_before_month(
            year,
            later,
        ),
    decreases later,
{
    if later > earlier + 1 {
        lemma_months_add_up(year, earlier, later - 1);
    }
}

proof fn lemma_months_of_year(year: int)
    ensures
        days_before_month(year, 1) == 0,
        days_before_month(year, 2) == 31,
        days_before_month(year, 3) == month_length(year, 2) + 31,
        days_before_month(year, 4) == month_length(year, 2) + 62,
        days_before_month(year, 5) == month_length(year, 2) + 92,
        days_before_month(year, 6) == month_length(year, 2) + 123,
        days_before_month(year, 7) == month_length(year, 2) + 153,
        days_before_month(year, 8) == month_length(year, 2) + 184,
        days_before_month(year, 9) == month_length(year, 2) + 215,
        days_before_month(year, 10) == month_length(year, 2) + 245,
        days_before_month(year, 11) == month_length(year, 2) + 276,
        days_before_month(year, 12) == month_length(year, 2) + 306,
{
    reveal_with_fuel(days_before_month, 13);
}

proof fn lemma_date_is_in_its_year(year: int, month: int, day: int)
    requires
        is_date(year, month, day),
    ensures
        days_before_year(year) <= day_number(year, month, day) < days_before_year(year)
            + year_length(year),
{
    lemma_months_of_year(year);
}

/// No two dates fall on one day.
pub proof fn law_days_have_one_date(
    year: int,
    month: int,
    day: int,
    other_year: int,
    other_month: int,
    other_day: int,
)
    requires
        is_date(year, month, day),
        is_date(other_year, other_month, other_day),
        day_number(year, month, day) == day_number(other_year, other_month, other_day),
    ensures
        year == other_year,
        month == other_month,
        day == other_day,
{
    lemma_date_is_in_its_year(year, month, day);
    lemma_date_is_in_its_year(other_year, other_month, other_day);
    if year < other_year {
        lemma_years_add_up(year, other_year);
    } else if other_year < year {
        lemma_years_add_up(other_year, year);
    } else if month < other_month {
        lemma_months_add_up(year, month, other_month);
    } else if other_month < month {
        lemma_months_add_up(year, other_month, month);
    }
}

// From days to dates
//
// Years are counted from the first of March, so that a leap day ends its year,
// and in eras of 400 years, which all have the same length.

/// The days before `year` from a fixed day, by the number of leap years.
proof fn lemma_days_before_year(year: int)
    requires
        year >= 1970,
    ensures
        days_before_year(year) == 365 * year + (year - 1) / 4 - (year - 1) / 100 + (year - 1) / 400
            - 719527,
    decreases year,
{
    if year > 1970 {
        lemma_days_before_year(year - 1);
    }
}

/// The days before the first of March of `year`, from that of the year 0.
proof fn lemma_days_before_march(year: int)
    requires
        year >= 1970,
    ensures
        days_before_year(year) + 31 + month_length(year, 2) + 719468 == 365 * year + year / 4
            - year / 100 + year / 400,
{
    lemma_days_before_year(year);
}

/// The days of an era before its year `year`.
spec fn days_in_era(year: int) -> int {
    365 * year + year / 4 - year / 100
}

/// The year of an era that a day of the era falls in.
spec fn year_of_era(day: int) -> int {
    (day - day / 1460 + day / 36524 - day / 146096) / 365
}

/// The day of the era is in the year of the era that the formula gives.
proof fn lemma_year_of_era(day: int)
    requires
        0 <= day < 146097,
    ensures
        0 <= year_of_era(day) < 400,
        days_in_era(year_of_era(day)) <= day,
        day - days_in_era(year_of_era(day)) <= 365,
        day - days_in_era(year_of_era(day)) == 365 ==> (year_of_era(day) + 1) % 4 == 0 && ((
        year_of_era(day) + 1) % 100 != 0 || year_of_era(day) == 399),
{
    // The century, the four years and the year that the day is in.
    let c = if day / 36524 > 3 {
        3
    } else {
        day / 36524
    };
    let in_century = day - 36524 * c;
    let k = if in_century / 1461 > 24 {
        24
    } else {
        in_century / 1461
    };
    let in_four = in_century - 1461 * k;
    let r = if in_four / 365 > 3 {
        3
    } else {
        in_four / 365
    };
    let j = in_four - 365 * r;
    assert(0 <= c <= 3 && 0 <= in_century <= 36524);
    assert(in_century == 36524 ==> c == 3);
    assert(0 <= k <= 24 && 0 <= in_four <= 1460);
    assert(in_four == 1460 && k == 24 ==> c == 3);
    assert(0 <= r <= 3 && 0 <= j <= 365);
    assert(j == 365 ==> r == 3);
    assert(day == 36524 * c + 1461 * k + 365 * r + j);
    let year = 100 * c + 4 * k + r;
    assert(year / 4 == 25 * c + k);
    assert(year / 100 == c);
    assert(days_in_era(year) == 36524 * c + 1461 * k + 365 * r);
    assert(day / 36524 - day / 146096 == c) by {
        if day == 146096 {
        } else {
            assert(day / 36524 == c);
            assert(day / 146096 == 0);
        }
    }
    let s = 24 * c + k + 365 * r + j;
    assert(day == 1460 * (25 * c + k) + s);
    let over: int = if s >= 1460 {
        1
    } else {
        0
    };
    assert(day / 1460 == 25 * c + k + over);
    assert(j == 365 ==> over == 1);
    assert(j == 0 ==> over == 0);
    assert(day - day / 1460 + day / 36524 - day / 146096 == 365 * year + j - over);
    assert(year_of_era(day) == year);
    if j == 365 {
        assert((year + 1) % 4 == 0);
        if k == 24 {
            assert(c == 3);
        } else {
            assert((year + 1) % 100 == 4 * k + 4);
        }
    }
}

/// The month of a year from March, and the day of the month, less one, that a
/// day of that year falls in.
proof fn lemma_month_of_day(day: int)
    requires
        0 <= day <= 365,
    ensures
        ({
            let m = (5 * day + 2) / 153;
            let d = day - (153 * m + 2) / 5;
            &&& 0 <= m <= 11
            &&& 0 <= d < (if m == 1 || m == 3 || m == 6 || m == 8 {
                30int
            } else if m == 11 {
                29
            } else {
                31
            })
            &&& m == 11 && d == 28 ==> day == 365
        }),
{
    let m = (5 * day + 2) / 153;
    assert(0 <= m <= 11);
    if m == 0 {
    } else if m == 1 {
    } else if m == 2 {
    } else if m == 3 {
    } else if m == 4 {
    } else if m == 5 {
    } else if m == 6 {
    } else if m == 7 {
    } else if m == 8 {
    } else if m == 9 {
    } else if m == 10 {
    } else {
        assert(m == 11);
    }
}

/// A day of the calendar.
pub struct Date {
    pub year: u64,
    pub month: u64,
    pub day: u64,
}

/// The most days that milliseconds in 64 bits can count.
pub const MAX_DAYS: u64 = 213_503_982_334;

/// The date of the day that is `days` after the first day of 1970.
pub fn civil_date(days: u64) -> (date: Date)
    requires
        days <= MAX_DAYS,
    ensures
        is_date(date.year as int, date.month as int, date.day as int),
        day_number(date.year as int, date.month as int, date.day as int) == days,
{
    let era_day: u64 = days + 719_468;
    let era: u64 = era_day / 146_097;
    let day_of_era: u64 = era_day % 146_097;
    proof {
        lemma_year_of_era(day_of_era as int);
    }
    let year_of_era: u64 = (day_of_era - day_of_era / 1460 + day_of_era / 36_524 - day_of_era
        / 146_096) / 365;
    let day_of_year: u64 = day_of_era - (365 * year_of_era + year_of_era / 4 - year_of_era / 100);
    proof {
        lemma_month_of_day(day_of_year as int);
    }
    let month_prime: u64 = (5 * day_of_year + 2) / 153;
    let day: u64 = day_of_year - (153 * month_prime + 2) / 5 + 1;
    let month: u64 = if month_prime < 10 {
        month_prime + 3
    } else {
        month_prime - 9
    };
    let march_year: u64 = year_of_era + era * 400;
    let year: u64 = if month <= 2 {
        march_year + 1
    } else {
        march_year
    };
    proof {
        lemma_date_found(
            days as int,
            era as int,
            day_of_era as int,
            year_of_era as int,
            day_of_year as int,
            month_prime as int,
        );
    }
    Date { year, month, day }
}

/// What the steps from days to a date amount to.
#[verifier::spinoff_prover]
proof fn lemma_date_found(
    days: int,
    era: int,
    day_of_era: int,
    yoe: int,
    day_of_year: int,
    month_prime: int,
)
    requires
        days >= 0,
        day_of_era == (days + 719468) % 146097,
        era == (days + 719468) / 146097,
        yoe == year_of_era(day_of_era),
        day_of_year == day_of_era - days_in_era(yoe),
        month_prime == (5 * day_of_year + 2) / 153,
    ensures
        ({
            let day = day_of_year - (153 * month_prime + 2) / 5 + 1;
            let month = if month_prime < 10 {
                month_prime + 3
            } else {
                month_prime - 9
            };
            let year = if month <= 2 {
                yoe + era * 400 + 1
            } else {
                yoe + era * 400
            };
            is_date(year, month, day) && day_number(year, month, day) == days
        }),
{
    lemma_year_of_era(day_of_era);
    lemma_month_of_day(day_of_year);
    let day = day_of_year - (153 * month_prime + 2) / 5 + 1;
    let march_year = yoe + era * 400;
    assert(era >= 4);
    assert(days + 719468 == 146097 * era + day_of_era);
    assert(march_year / 4 == 100 * era + yoe / 4);
    assert(march_year / 100 == 4 * era + yoe / 100);
    assert(march_year / 400 == era);
    assert(days + 719468 == 365 * march_year + march_year / 4 - march_year / 100 + march_year / 400
        + day_of_year);
    if month_prime < 10 {
        assert(march_year >= 1970) by {
            if era == 4 {
                assert(yoe >= 370) by {
                    if yoe <= 369 {
                        assert(days_in_era(yoe) <= days_in_era(369));
                        assert(days_in_era(369) == 134774);
                    }
                }
            }
        }
        lemma_days_before_march(march_year);
        lemma_months_of_year(march_year);
    } else {
        let year = march_year + 1;
        assert(year >= 1970) by {
            if era == 4 {
                assert(yoe >= 369) by {
                    if yoe <= 368 {
                        assert(days_in_era(yoe) <= days_in_era(368));
                    }
                }
            }
        }
        lemma_days_before_year(year);
        lemma_months_of_year(year);
        assert(is_leap(year) <==> (yoe + 1) % 4 == 0 && ((yoe + 1) % 100 != 0 || yoe == 399)) by {
            assert(year == 400 * era + yoe + 1);
        }
    }
}

// Timestamps

/// The time of day after `millis` milliseconds.
pub open spec fn clock_text(millis: nat) -> Seq<char> {
    padded_decimal(millis / 3_600_000, 2) + ":"@ + padded_decimal(millis / 60_000 % 60, 2) + ":"@
        + padded_decimal(millis / 1000 % 60, 2) + "."@ + padded_decimal(millis % 1000, 3)
}

/// `text` is the moment `timestamp_ms` after the start of 1970, written as
/// `YYYY-MM-DDTHH:MM:SS.mmmZ`.
pub open spec fn is_utc_text(text: Seq<char>, timestamp_ms: u64) -> bool {
    exists|year: int, month: int, day: int| #[trigger]
        is_date(year, month, day) && day_number(year, month, day) == timestamp_ms / 86_400_000
            && text == padded_decimal(year as nat, 4) + "-"@ + padded_decimal(month as nat, 2)
            + "-"@ + padded_decimal(day as nat, 2) + "T"@ + clock_text(
            (timestamp_ms % 86_400_000) as nat,
        ) + "Z"@
}

/// There is one way to write a moment.
pub proof fn law_moments_have_one_text(text: Seq<char>, other: Seq<char>, timestamp_ms: u64)
    requires
        is_utc_text(text, timestamp_ms),
        is_utc_text(other, timestamp_ms),
    ensures
        text == other,
{
    let days = (timestamp_ms / 86_400_000) as int;
    let clock = clock_text((timestamp_ms % 86_400_000) as nat);
    let (y1, m1, d1) = choose|year: int, month: int, day: int| #[trigger]
        is_date(year, month, day) && day_number(year, month, day) == days && text
            == padded_decimal(year as nat, 4) + "-"@ + padded_decimal(month as nat, 2) + "-"@
            + padded_decimal(day as nat, 2) + "T"@ + clock + "Z"@;
    let (y2, m2, d2) = choose|year: int, month: int, day: int| #[trigger]
        is_date(year, month, day) && day_number(year, month, day) == days && other
            == padded_decimal(year as nat, 4) + "-"@ + padded_decimal(month as nat, 2) + "-"@
            + padded_decimal(day as nat, 2) + "T"@ + clock + "Z"@;
    law_days_have_one_date(y1, m1, d1, y2, m2, d2);
}

/// The days, hours, minutes, seconds and milliseconds of a moment can be taken
/// by seconds first.
#[verifier::spinoff_prover]
proof fn lemma_parts_of_moment(timestamp_ms: u64)
    ensures
        ({
            let seconds = timestamp_ms / 1000;
            let rest = timestamp_ms % 86_400_000;
            &&& seconds / 86_400 == timestamp_ms / 86_400_000
            &&& seconds / 86_400 <= MAX_DAYS
            &&& rest / 3_600_000 == (seconds % 86_400) / 3600
            &&& rest / 60_000 % 60 == (seconds % 86_400 % 3600) / 60
            &&& rest / 1000 % 60 == seconds % 86_400 % 60
            &&& rest % 1000 == timestamp_ms % 1000
        }),
{
}

/// Writes milliseconds since the start of 1970 as `YYYY-MM-DDTHH:MM:SS.mmmZ`.
#[verifier::spinoff_prover]
pub fn format_utc(timestamp_ms: u64) -> (text: String)
    ensures
        is_utc_text(text@, timestamp_ms),
{
    let seconds: u64 = timestamp_ms / 1000;
    let millis: u64 = timestamp_ms % 1000;
    let second_of_day: u64 = seconds % 86_400;
    proof {
        lemma_parts_of_moment(timestamp_ms);
    }
    let date = civil_date(seconds / 86_400);
    let hour = padded_decimal_text(second_of_day / 3600, 2);
    let minute = padded_decimal_text((second_of_day % 3600) / 60, 2);
    let second = padded_decimal_text(second_of_day % 60, 2);
    let fraction = padded_decimal_text(millis, 3);
    let mut clock = hour;
    clock.append(":");
    clock.append(minute.as_str());
    clock.append(":");
    clock.append(second.as_str());
    clock.append(".");
    clock.append(fraction.as_str());
    let mut text = padded_decimal_text(date.year, 4);
    let month = padded_decimal_text(date.month, 2);
    let day = padded_decimal_text(date.day, 2);
    text.append("-");
    text.append(month.as_str());
    text.append("-");
    text.append(day.as_str());
    text.append("T");
    text.append(clock.as_str());
    text.append("Z");
    assert(is_date(date.year as int, date.month as int, date.day as int));
    text
}

// Texts in the order of time

/// The start of the year 10000, in milliseconds since that of 1970.
pub const LAST_FOUR_DIGIT_YEAR_END_MS: u64 = 253_402_300_800_000;

/// How many digits each part of a moment has: the year, the month, the day, the
/// hour, the minute, the second and the millisecond.
pub open spec fn part_width(part: int) -> nat {
    if part == 0 {
        4
    } else if part == 6 {
        3
    } else {
        2
    }
}

/// What follows each part of a moment.
pub open spec fn part_end(part: int) -> Seq<char> {
    if part <= 1 {
        "-"@
    } else if part == 2 {
        "T"@
    } else if part <= 4 {
        ":"@
    } else if part == 5 {
        "."@
    } else {
        "Z"@
    }
}

/// The parts of a moment from `from` on, written down.
pub open spec fn laid_out(parts: Seq<nat>, from: int) -> Seq<char>
    decreases 7 - from,
{
    if from >= 7 {
        seq![]
    } else {
        padded_decimal(parts[from], part_width(from)) + (part_end(from) + laid_out(parts, from + 1))
    }
}

/// The parts of a moment before the year 10000.
pub open spec fn is_moment(parts: Seq<nat>) -> bool {
    &&& parts.len() == 7
    &&& 1970 <= parts[0] < 10_000
    &&& 1 <= parts[1] <= 12
    &&& 1 <= parts[2] <= 31
    &&& parts[3] < 24
    &&& parts[4] < 60
    &&& parts[5] < 60
    &&& parts[6] < 1000
}

/// The first of the parts from `from` on that differ is smaller.
pub open spec fn is_earlier(parts: Seq<nat>, other: Seq<nat>, from: int) -> bool
    decreases 7 - from,
{
    from < 7 && (parts[from] < other[from] || (parts[from] == other[from] && is_earlier(
        parts,
        other,
        from + 1,
    )))
}

spec fn fits(value: nat, width: nat) -> bool {
    ||| width == 2 && value < 100
    ||| width == 3 && value < 1000
    ||| width == 4 && value < 10_000
}

/// The digits of a number, with the zeros before them.
proof fn lemma_padded_digits(value: nat, width: nat)
    requires
        fits(value, width),
    ensures
        padded_decimal(value, width) == (if width == 2 {
            seq![digit_char(value / 10), digit_char(value % 10)]
        } else if width == 3 {
            seq![
                digit_char(value / 100),
                digit_char(value / 10 % 10),
                digit_char(value % 10),
            ]
        } else {
            seq![
                digit_char(value / 1000),
                digit_char(value / 100 % 10),
                digit_char(value / 10 % 10),
                digit_char(value % 10),
            ]
        }),
{
    reveal_with_fuel(decimal, 4);
    assert(digit_char(0) == '0');
    assert(value / 10 / 10 == value / 100);
    assert(value / 100 / 10 == value / 1000);
    let digits = decimal(value);
    if value < 10 {
        assert(digits =~= seq![digit_char(value)]);
    } else if value < 100 {
        assert(digits =~= seq![digit_char(value / 10), digit_char(value % 10)]);
    } else if value < 1000 {
        assert(digits =~= seq![
            digit_char(value / 100),
            digit_char(value / 10 % 10),
            digit_char(value % 10),
        ]);
    } else {
        assert(digits =~= seq![
            digit_char(value / 1000),
            digit_char(value / 100 % 10),
            digit_char(value / 10 % 10),
            digit_char(value % 10),
        ]);
    }
}

proof fn lemma_digit_order(left: nat, right: nat)
    requires
        left < right < 10,
    ensures
        digit_char(left) < digit_char(right),
{
}

/// Texts that agree up to a position are in the order of what is there.
proof fn lemma_precedes_at(left: Seq<char>, right: Seq<char>, at: int)
    requires
        0 <= at < left.len(),
        at < right.len(),
        forall|i: int| 0 <= i < at ==> left[i] == #[trigger] right[i],
        left[at] < right[at],
    ensures
        precedes(left, right),
    decreases at,
{
    if at > 0 {
        assert(left[0] == right[0]);
        let l = left.drop_first();
        let r = right.drop_first();
        assert forall|i: int| 0 <= i < at - 1 implies l[i] == #[trigger] r[i] by {
            assert(left[i + 1] == right[i + 1]);
        }
        lemma_precedes_at(l, r, at - 1);
    }
}

/// Padded numbers are in the order of the numbers, whatever follows them.
proof fn lemma_padded_order(
    left: nat,
    right: nat,
    width: nat,
    after_left: Seq<char>,
    after_right: Seq<char>,
)
    requires
        fits(left, width),
        fits(right, width),
        left < right,
    ensures
        precedes(
            padded_decimal(left, width) + after_left,
            padded_decimal(right, width) + after_right,
        ),
{
    lemma_padded_digits(left, width);
    lemma_padded_digits(right, width);
    let l = padded_decimal(left, width) + after_left;
    let r = padded_decimal(right, width) + after_right;
    let l1 = left / 10;
    let r1 = right / 10;
    let l2 = left / 100;
    let r2 = right / 100;
    if l1 == r1 {
        lemma_digit_order(left % 10, right % 10);
        lemma_precedes_at(l, r, width - 1);
    } else if l2 == r2 {
        assert(l1 / 10 == l2 && r1 / 10 == r2);
        lemma_digit_order(l1 % 10, r1 % 10);
        lemma_precedes_at(l, r, width - 2);
    } else if left / 1000 == right / 1000 {
        assert(l2 / 10 == left / 1000 && r2 / 10 == right / 1000);
        lemma_digit_order(l2 % 10, r2 % 10);
        lemma_precedes_at(l, r, width - 3);
    } else {
        lemma_digit_order(left / 1000, right / 1000);
        lemma_precedes_at(l, r, 0);
    }
}

proof fn lemma_precedes_after(before: Seq<char>, left: Seq<char>, right: Seq<char>)
    requires
        precedes(left, right),
    ensures
        precedes(before + left, before + right),
    decreases before.len(),
{
    if before.len() == 0 {
        assert(before + left =~= left);
        assert(before + right =~= right);
    } else {
        lemma_precedes_after(before.drop_first(), left, right);
        assert((before + left).drop_first() =~= before.drop_first() + left);
        assert((before + right).drop_first() =~= before.drop_first() + right);
    }
}

proof fn lemma_laid_out_order(parts: Seq<nat>, other: Seq<nat>, from: int)
    requires
        is_moment(parts),
        is_moment(other),
        0 <= from <= 7,
        is_earlier(parts, other, from),
    ensures
        precedes(laid_out(parts, from), laid_out(other, from)),
    decreases 7 - from,
{
    let width = part_width(from);
    let left = part_end(from) + laid_out(parts, from + 1);
    let right = part_end(from) + laid_out(other, from + 1);
    assert(fits(parts[from], width) && fits(other[from], width));
    if parts[from] < other[from] {
        lemma_padded_order(parts[from], other[from], width, left, right);
    } else {
        lemma_laid_out_order(parts, other, from + 1);
        lemma_precedes_after(
            part_end(from),
            laid_out(parts, from + 1),
            laid_out(other, from + 1),
        );
        lemma_precedes_after(padded_decimal(parts[from], width), left, right);
    }
}

/// The parts of a moment, from its date.
spec fn parts_at(year: int, month: int, day: int, rest: int) -> Seq<nat> {
    seq![
        year as nat,
        month as nat,
        day as nat,
        (rest / 3_600_000) as nat,
        (rest / 60_000 % 60) as nat,
        (rest / 1000 % 60) as nat,
        (rest % 1000) as nat,
    ]
}

/// The date of a moment, by which it is written.
spec fn is_date_of(year: int, month: int, day: int, timestamp_ms: u64) -> bool {
    is_date(year, month, day) && day_number(year, month, day) == timestamp_ms / 86_400_000
}

proof fn lemma_regroups(before: Seq<char>, part: Seq<char>, end: Seq<char>, after: Seq<char>)
    ensures
        before + part + end + after == before + (part + (end + after)),
{
    assert(before + part + end + after =~= before + (part + (end + after)));
}

proof fn lemma_clock_is_laid_out(parts: Seq<nat>, rest: nat)
    requires
        parts.len() == 7,
        parts[3] == rest / 3_600_000,
        parts[4] == rest / 60_000 % 60,
        parts[5] == rest / 1000 % 60,
        parts[6] == rest % 1000,
    ensures
        clock_text(rest) + "Z"@ == laid_out(parts, 3),
{
    let h = padded_decimal(parts[3], 2);
    let m = padded_decimal(parts[4], 2);
    let s = padded_decimal(parts[5], 2);
    let f = padded_decimal(parts[6], 3);
    let time = h + ":"@ + m + ":"@ + s + "."@;
    assert(laid_out(parts, 7) =~= seq![]);
    assert("Z"@ + laid_out(parts, 7) =~= "Z"@);
    assert(time + f + "Z"@ =~= time + laid_out(parts, 6));
    lemma_regroups(h + ":"@ + m + ":"@, s, "."@, laid_out(parts, 6));
    lemma_regroups(h + ":"@, m, ":"@, laid_out(parts, 5));
    assert(h + ":"@ + laid_out(parts, 4) =~= h + (":"@ + laid_out(parts, 4)));
}

proof fn lemma_text_is_laid_out(text: Seq<char>, timestamp_ms: u64) -> (date: (int, int, int))
    requires
        is_utc_text(text, timestamp_ms),
        timestamp_ms < LAST_FOUR_DIGIT_YEAR_END_MS,
    ensures
        is_date_of(date.0, date.1, date.2, timestamp_ms),
        is_moment(parts_at(date.0, date.1, date.2, (timestamp_ms % 86_400_000) as int)),
        text == laid_out(parts_at(date.0, date.1, date.2, (timestamp_ms % 86_400_000) as int), 0),
{
    let rest = (timestamp_ms % 86_400_000) as int;
    let (year, month, day) = choose|year: int, month: int, day: int| #[trigger]
        is_date(year, month, day) && day_number(year, month, day) == timestamp_ms / 86_400_000
            && text == padded_decimal(year as nat, 4) + "-"@ + padded_decimal(month as nat, 2)
            + "-"@ + padded_decimal(day as nat, 2) + "T"@ + clock_text(rest as nat) + "Z"@;
    lemma_days_before_year(10_000);
    lemma_date_is_in_its_year(year, month, day);
    if year > 10_000 {
        lemma_years_add_up(10_000, year);
    }
    let parts = parts_at(year, month, day, rest);
    lemma_clock_is_laid_out(parts, rest as nat);
    let y = padded_decimal(parts[0], 4);
    let m = padded_decimal(parts[1], 2);
    let d = padded_decimal(parts[2], 2);
    let clock = clock_text(rest as nat);
    let date = y + "-"@ + m + "-"@ + d + "T"@;
    assert(date + clock + "Z"@ =~= date + laid_out(parts, 3));
    lemma_regroups(y + "-"@ + m + "-"@, d, "T"@, laid_out(parts, 3));
    lemma_regroups(y + "-"@, m, "-"@, laid_out(parts, 2));
    assert(y + "-"@ + laid_out(parts, 1) =~= y + ("-"@ + laid_out(parts, 1)));
    (year, month, day)
}

/// Before the year 10000 every moment is written with 24 characters, all of
/// them ASCII: `YYYY-MM-DDTHH:MM:SS.mmmZ`, with a month from 01 to 12, a day
/// from 01 to 31, an hour up to 23, and a minute and a second up to 59.
pub proof fn law_moments_have_one_form(text: Seq<char>, timestamp_ms: u64)
    requires
        is_utc_text(text, timestamp_ms),
        timestamp_ms < LAST_FOUR_DIGIT_YEAR_END_MS,
    ensures
        exists|parts: Seq<nat>| is_moment(parts) && text == #[trigger] laid_out(parts, 0),
        text.len() == 24,
        forall|i: int|
            0 <= i < 24 ==> (if i == 4 || i == 7 {
                #[trigger] text[i] == '-'
            } else if i == 10 {
                text[i] == 'T'
            } else if i == 13 || i == 16 {
                text[i] == ':'
            } else if i == 19 {
                text[i] == '.'
            } else if i == 23 {
                text[i] == 'Z'
            } else {
                '0' <= text[i] <= '9'
            }),
{
    let (year, month, day) = lemma_text_is_laid_out(text, timestamp_ms);
    let parts = parts_at(year, month, day, (timestamp_ms % 86_400_000) as int);
    assert(is_moment(parts) && text == laid_out(parts, 0));
    lemma_padded_digits(parts[0], 4);
    lemma_padded_digits(parts[1], 2);
    lemma_padded_digits(parts[2], 2);
    lemma_padded_digits(parts[3], 2);
    lemma_padded_digits(parts[4], 2);
    lemma_padded_digits(parts[5], 2);
    lemma_padded_digits(parts[6], 3);
    reveal_strlit("-");
    reveal_strlit("T");
    reveal_strlit(":");
    reveal_strlit(".");
    reveal_strlit("Z");
    reveal_with_fuel(laid_out, 8);
}

proof fn lemma_dates_in_order(
    year: int,
    month: int,
    day: int,
    other_year: int,
    other_month: int,
    other_day: int,
)
    requires
        is_date(year, month, day),
        is_date(other_year, other_month, other_day),
        day_number(year, month, day) < day_number(other_year, other_month, other_day),
    ensures
        year < other_year || (year == other_year && (month < other_month || (month == other_month
            && day < other_day))),
{
    lemma_date_is_in_its_year(year, month, day);
    lemma_date_is_in_its_year(other_year, other_month, other_day);
    if other_year < year {
        lemma_years_add_up(other_year, year);
    } else if other_year == year && other_month < month {
        lemma_months_add_up(year, other_month, month);
    }
}

#[verifier::spinoff_prover]
proof fn lemma_clocks_in_order(rest: int, other: int)
    requires
        0 <= rest < other < 86_400_000,
    ensures
        ({
            let h = rest / 3_600_000;
            let m = rest / 60_000 % 60;
            let s = rest / 1000 % 60;
            let f = rest % 1000;
            let oh = other / 3_600_000;
            let om = other / 60_000 % 60;
            let os = other / 1000 % 60;
            let of = other % 1000;
            h < oh || (h == oh && (m < om || (m == om && (s < os || (s == os && f < of)))))
        }),
{
    assert(rest / 60_000 == 60 * (rest / 3_600_000) + rest / 60_000 % 60);
    assert(rest / 1000 == 60 * (rest / 60_000) + rest / 1000 % 60);
    assert(rest == 1000 * (rest / 1000) + rest % 1000);
    assert(other / 60_000 == 60 * (other / 3_600_000) + other / 60_000 % 60);
    assert(other / 1000 == 60 * (other / 60_000) + other / 1000 % 60);
    assert(other == 1000 * (other / 1000) + other % 1000);
}

/// Before the year 10000 the texts of moments are in the order of time.
pub proof fn law_moments_are_in_order(
    text: Seq<char>,
    timestamp_ms: u64,
    later_text: Seq<char>,
    later_ms: u64,
)
    requires
        is_utc_text(text, timestamp_ms),
        is_utc_text(later_text, later_ms),
        timestamp_ms < later_ms < LAST_FOUR_DIGIT_YEAR_END_MS,
    ensures
        precedes(text, later_text),
{
    let (y1, m1, d1) = lemma_text_is_laid_out(text, timestamp_ms);
    let (y2, m2, d2) = lemma_text_is_laid_out(later_text, later_ms);
    let rest = (timestamp_ms % 86_400_000) as int;
    let later_rest = (later_ms % 86_400_000) as int;
    let parts = parts_at(y1, m1, d1, rest);
    let later = parts_at(y2, m2, d2, later_rest);
    if timestamp_ms / 86_400_000 < later_ms / 86_400_000 {
        lemma_dates_in_order(y1, m1, d1, y2, m2, d2);
    } else {
        law_days_have_one_date(y1, m1, d1, y2, m2, d2);
        lemma_clocks_in_order(rest, later_rest);
    }
    reveal_with_fuel(is_earlier, 8);
    assert(is_earlier(parts, later, 0));
    lemma_laid_out_order(parts, later, 0);
}

/// Every fourth year is a leap year, except that of those that end a century only
/// every fourth is.
pub proof fn law_leap_years_come_in_turn(year: int)
    ensures
        is_leap(year) ==> year % 4 == 0,
        year % 4 == 0 && year % 100 != 0 ==> is_leap(year),
        year % 100 == 0 ==> (is_leap(year) <==> year % 400 == 0),
        is_leap(year + 400) <==> is_leap(year),
{
}

/// The months of a year make up the year.
pub proof fn law_months_make_up_the_year(year: int)
    ensures
        days_before_month(year, 13) == year_length(year),
        days_before_month(year, 2) == 31,
        days_before_month(year, 3) == 31 + month_length(year, 2),
        days_before_month(year, 13) - days_before_month(year, 8) == 31 + 30 + 31 + 30 + 31,
        month_length(year, 2) == 29 <==> year_length(year) == 366,
        month_length(year, 2) == 28 <==> year_length(year) == 365,
{
    reveal_with_fuel(days_before_month, 14);
}

/// Every day that a number of milliseconds can reach has a date.
pub proof fn law_every_moment_has_a_day(timestamp_ms: u64)
    ensures
        timestamp_ms / 86_400_000 <= MAX_DAYS,
        u64::MAX / 86_400_000 == MAX_DAYS,
{
}

} // verus!
