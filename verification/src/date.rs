//! The date of an mbox separator line.
use vstd::prelude::*;

verus! {

use crate::text::{decimal, digit_char, lemma_decimal_digits};

/// The layout of the date, in the terms of `strftime`.
pub const MBOX_DATE_FORMAT: &'static str = "%a %b %e %H:%M:%S %Y";

/// A date and a time of day as the clock on the wall shows them.
#[derive(Clone, Copy, Debug, PartialEq, Eq, Structural)]
pub struct LocalTime {
    pub year: i32,
    pub month: u32,
    pub day: u32,
    pub hour: u32,
    pub minute: u32,
    pub second: u32,
}

/// Whether a year has a 29th of February.
pub open spec fn is_leap_year(year: int) -> bool {
    year % 4 == 0 && (year % 100 != 0 || year % 400 == 0)
}

/// How many days a month has.
pub open spec fn days_in_month(year: int, month: int) -> int {
    if month == 2 {
        if is_leap_year(year) {
            29
        } else {
            28
        }
    } else if month == 4 || month == 6 || month == 9 || month == 11 {
        30
    } else {
        31
    }
}

/// How many days of a year lie before a month.
pub open spec fn days_before_month(year: int, month: int) -> int
    decreases month,
{
    if month <= 1 {
        0
    } else {
        days_before_month(year, month - 1) + days_in_month(year, month - 1)
    }
}

/// The number of a day, the first day of the year 1 being day 1. That day was a Monday.
pub open spec fn day_number(year: int, month: int, day: int) -> int {
    let past = year - 1;
    365 * past + past / 4 - past / 100 + past / 400 + days_before_month(year, month) + day
}

/// The three letters of a day of the week, Sunday being 0.
pub open spec fn weekday_name(weekday: int) -> Seq<char> {
    if weekday == 0 {
        seq!['S', 'u', 'n']
    } else if weekday == 1 {
        seq!['M', 'o', 'n']
    } else if weekday == 2 {
        seq!['T', 'u', 'e']
    } else if weekday == 3 {
        seq!['W', 'e', 'd']
    } else if weekday == 4 {
        seq!['T', 'h', 'u']
    } else if weekday == 5 {
        seq!['F', 'r', 'i']
    } else {
        seq!['S', 'a', 't']
    }
}

/// The three letters of a month, January being 1.
pub open spec fn month_name(month: int) -> Seq<char> {
    if month == 1 {
        seq!['J', 'a', 'n']
    } else if month == 2 {
        seq!['F', 'e', 'b']
    } else if month == 3 {
        seq!['M', 'a', 'r']
    } else if month == 4 {
        seq!['A', 'p', 'r']
    } else if month == 5 {
        seq!['M', 'a', 'y']
    } else if month == 6 {
        seq!['J', 'u', 'n']
    } else if month == 7 {
        seq!['J', 'u', 'l']
    } else if month == 8 {
        seq!['A', 'u', 'g']
    } else if month == 9 {
        seq!['S', 'e', 'p']
    } else if month == 10 {
        seq!['O', 'c', 't']
    } else if month == 11 {
        seq!['N', 'o', 'v']
    } else {
        seq!['D', 'e', 'c']
    }
}

/// A number below 100 in two characters, `pad` standing for a first digit 0.
pub open spec fn two_chars(n: int, pad: char) -> Seq<char> {
    seq![
        if n < 10 {
            pad
        } else {
            digit_char(n / 10)
        },
        digit_char(n % 10),
    ]
}

/// A natural number in at least four digits.
pub open spec fn four_digits(n: nat) -> Seq<char> {
    if n < 10000 {
        seq![
            digit_char(n as int / 1000),
            digit_char(n as int / 100 % 10),
            digit_char(n as int / 10 % 10),
            digit_char(n as int % 10),
        ]
    } else {
        decimal(n)
    }
}

/// A year in at least four digits, with its sign where it has not exactly four.
pub open spec fn year_text(year: int) -> Seq<char> {
    if year < 0 {
        seq!['-'] + four_digits((-year) as nat)
    } else if year < 10000 {
        four_digits(year as nat)
    } else {
        seq!['+'] + four_digits(year as nat)
    }
}

impl LocalTime {
    /// Whether there is such a day and such a time of day.
    pub open spec fn valid(&self) -> bool {
        &&& -262143 <= self.year <= 262142
        &&& 1 <= self.month <= 12
        &&& 1 <= self.day <= days_in_month(self.year as int, self.month as int)
        &&& self.hour < 24
        &&& self.minute < 60
        &&& self.second < 60
    }

    /// The time of day.
    pub open spec fn clock_text(&self) -> Seq<char> {
        two_chars(self.hour as int, '0') + seq![':'] + two_chars(self.minute as int, '0') + seq![
            ':',
        ] + two_chars(self.second as int, '0')
    }

    /// The text of a separator line's date: weekday, month, day, time of day, year.
    pub open spec fn date_text(&self) -> Seq<char> {
        weekday_name(
            day_number(self.year as int, self.month as int, self.day as int) % 7,
        ) + seq![' '] + month_name(self.month as int) + seq![' '] + two_chars(
            self.day as int,
            ' ',
        ) + seq![' '] + self.clock_text() + seq![' '] + year_text(self.year as int)
    }

    /// Formats the date for a separator line. `None` if there is no such day or time.
    pub fn format(&self) -> (text: Option<String>)
        ensures
            text is Some <==> self.valid(),
            text matches Some(t) ==> t@ == self.date_text(),
    {
        format_local_time(*self, MBOX_DATE_FORMAT)
    }
}

/// `chrono::NaiveDate::from_ymd_opt` and `and_hms_opt` accept the days of the proleptic
/// Gregorian calendar in the years that `chrono` supports, and the times of day without leap
/// seconds. `format` with the layout `%a %b %e %H:%M:%S %Y`, the only one admitted here,
/// writes the abbreviated English names of weekday and month, the day padded with a space,
/// the time of day padded with zeros, and the year in at least four digits, signed outside
/// of 0 to 9999.
#[verifier::external_body]
fn format_local_time(time: LocalTime, layout: &str) -> (text: Option<String>)
    requires
        layout@ == "%a %b %e %H:%M:%S %Y"@,
    ensures
        text is Some <==> time.valid(),
        text matches Some(t) ==> t@ == time.date_text(),
{
    let date = chrono::NaiveDate::from_ymd_opt(time.year, time.month, time.day)?;
    let moment = date.and_hms_opt(time.hour, time.minute, time.second)?;
    Some(moment.format(layout).to_string())
}

/// The date of a separator line is printable ASCII: no line end hides in it.
pub proof fn lemma_date_printable(time: LocalTime)
    requires
        time.valid(),
    ensures
        forall|i: int|
            0 <= i < time.date_text().len() ==> 32 <= (#[trigger] time.date_text()[i] as int)
                < 127,
{
    let year = time.year as int;
    let abs: nat = if year < 0 { (-year) as nat } else { year as nat };
    lemma_decimal_digits(abs);
    let tail = year_text(year);
    assert(forall|i: int| 0 <= i < four_digits(abs).len() ==> 32 <= (#[trigger] four_digits(
        abs,
    )[i] as int) < 127);
    assert(forall|i: int| 0 <= i < tail.len() ==> 32 <= (#[trigger] tail[i] as int) < 127);
    let clock = time.clock_text();
    assert(clock.len() == 8);
    assert(forall|i: int| 0 <= i < clock.len() ==> 32 <= (#[trigger] clock[i] as int) < 127);
    let text = time.date_text();
    assert(text.len() == 20 + tail.len());
    assert forall|i: int| 0 <= i < text.len() implies 32 <= (#[trigger] text[i] as int) < 127 by {
        if 11 <= i < 19 {
            assert(text[i] == clock[i - 11]);
        } else if i >= 20 {
            assert(text[i] == tail[i - 20]);
        }
    }
}

/// Which days and times of day there are, in the years that are supported: a year has twelve
/// months of 30 or 31 days, but for February with 28, or with 29 in a year that is divisible by
/// four, unless it is divisible by 100 and not by 400.
pub proof fn law_calendar(time: LocalTime)
    ensures
        time.valid() ==> 1 <= time.month <= 12 && 1 <= time.day <= 31 && time.hour <= 23
            && time.minute <= 59 && time.second <= 59,
        time.valid() && (time.month == 4 || time.month == 6 || time.month == 9 || time.month == 11)
            ==> time.day <= 30,
        time.valid() && time.month == 2 ==> time.day <= 29,
        time.valid() && time.month == 2 && time.day == 29 ==> time.year as int % 4 == 0 && (
        time.year as int % 100 == 0 ==> time.year as int % 400 == 0),
        time.valid() ==> -262143 <= time.year <= 262142,
        -262143 <= time.year <= 262142 && 1 <= time.month <= 12 && 1 <= time.day && time.hour
            <= 23 && time.minute <= 59 && time.second <= 59 && (time.day <= 28 || time.month != 2
            && time.day <= 30 || time.day == 31 && (time.month == 1 || time.month == 3 || time.month
            == 5 || time.month == 7 || time.month == 8 || time.month == 10 || time.month == 12)
            || time.day == 29 && time.year as int % 4 == 0 && (time.year as int % 100 == 0
            ==> time.year as int % 400 == 0)) ==> time.valid(),
{
}

/// The days are numbered without a gap: from day to day, from the last day of a month to the
/// first of the next, and from the last day of a year to the first of the next. So the weekdays
/// follow each other. The 1st of January 1970 was a Thursday.
pub proof fn law_days_follow_each_other(year: int, month: int, day: int)
    ensures
        day_number(year, month, day + 1) == day_number(year, month, day) + 1,
        1 <= month ==> day_number(year, month + 1, 1) == day_number(
            year,
            month,
            days_in_month(year, month),
        ) + 1,
        day_number(year + 1, 1, 1) == day_number(year, 12, 31) + 1,
        weekday_name(day_number(1970, 1, 1) % 7) == seq!['T', 'h', 'u'],
{
    reveal_with_fuel(days_before_month, 13);
    let past = year - 1;
    assert(days_before_month(year, 12) == if is_leap_year(year) {
        335int
    } else {
        334int
    });
    assert(year / 4 - past / 4 == if year % 4 == 0 {
        1int
    } else {
        0int
    });
    assert(year / 100 - past / 100 == if year % 100 == 0 {
        1int
    } else {
        0int
    });
    assert(year / 400 - past / 400 == if year % 400 == 0 {
        1int
    } else {
        0int
    });
    assert(days_before_month(year + 1, 1) == 0);
    assert(days_before_month(1970, 1) == 0);
}

/// The date of a separator line: three letters for the weekday and three for the month, the day
/// in two places with a space for a leading zero, hours, minutes and seconds in two digits each,
/// and the year, which has four digits from 0 to 9999.
pub proof fn law_date_layout(time: LocalTime)
    requires
        time.valid(),
    ensures
        ({
            let text = time.date_text();
            let digit = |n: int| (48 + n) as char;
            &&& text.len() >= 24
            &&& text.take(3) == weekday_name(
                day_number(time.year as int, time.month as int, time.day as int) % 7,
            )
            &&& text[3] == ' '
            &&& text.subrange(4, 7) == month_name(time.month as int)
            &&& text[7] == ' '
            &&& text[8] == if time.day < 10 {
                ' '
            } else {
                digit(time.day as int / 10)
            }
            &&& text[9] == digit(time.day as int % 10)
            &&& text[10] == ' '
            &&& text[11] == digit(time.hour as int / 10)
            &&& text[12] == digit(time.hour as int % 10)
            &&& text[13] == ':'
            &&& text[14] == digit(time.minute as int / 10)
            &&& text[15] == digit(time.minute as int % 10)
            &&& text[16] == ':'
            &&& text[17] == digit(time.second as int / 10)
            &&& text[18] == digit(time.second as int % 10)
            &&& text[19] == ' '
            &&& 0 <= time.year <= 9999 ==> text.skip(20) == seq![
                digit(time.year as int / 1000),
                digit(time.year as int / 100 % 10),
                digit(time.year as int / 10 % 10),
                digit(time.year as int % 10),
            ]
        }),
{
    let text = time.date_text();
    let clock = time.clock_text();
    let tail = year_text(time.year as int);
    let abs: nat = if time.year < 0 { (-time.year) as nat } else { time.year as nat };
    lemma_large_number_is_long(abs);
    assert(tail.len() >= 4);
    assert(clock.len() == 8);
    assert(text.len() == 20 + tail.len());
    assert(text.take(3) =~= weekday_name(
        day_number(time.year as int, time.month as int, time.day as int) % 7,
    ));
    assert(text.subrange(4, 7) =~= month_name(time.month as int));
    assert(forall|i: int| 11 <= i < 19 ==> #[trigger] text[i] == clock[i - 11]);
    assert(text.skip(20) =~= tail);
}

/// A number from 10000 on has at least four digits.
proof fn lemma_large_number_is_long(n: nat)
    ensures
        n >= 10000 ==> decimal(n).len() >= 4,
{
    reveal_with_fuel(decimal, 5);
}

/// Different months have different names, and so have different weekdays.
pub proof fn law_names_are_told_apart(a: int, b: int)
    ensures
        1 <= a <= 12 && 1 <= b <= 12 && month_name(a) == month_name(b) ==> a == b,
        0 <= a < 7 && 0 <= b < 7 && weekday_name(a) == weekday_name(b) ==> a == b,
{
    let m = month_name(a);
    let n = month_name(b);
    assert(m == n ==> m[0] == n[0] && m[1] == n[1] && m[2] == n[2]);
    let v = weekday_name(a);
    let w = weekday_name(b);
    assert(v == w ==> v[0] == w[0] && v[1] == w[1] && v[2] == w[2]);
}

} // verus!
