//! Dates of the Gregorian calendar, which is taken to hold for all times, and the form that RFC 3339
//! gives to a date and time in UTC.

use vstd::prelude::*;

use crate::number;

verus! {

/// A date.
pub struct Date {
    pub year: int,
    /// From 1 to 12.
    pub month: int,
    /// From 1 on.
    pub day: int,
}

/// The seconds in a day.
pub const DAY: i64 = 86400;

/// The first second for which there is a date, the start of the year -262143.
pub const FIRST_SECOND: i64 = -8334601228800;

/// The last second for which there is a date, the end of the year 262142.
pub const LAST_SECOND: i64 = 8210266876799;

/// The start of 1970 in UTC by RFC 3339.
pub const EPOCH: &'static str = "1970-01-01T00:00:00+00:00";

/// The offset of UTC, as RFC 3339 has it.
pub const UTC_OFFSET: &'static str = "+00:00";

/// Whether a year has a 29th of February.
pub open spec fn is_leap(year: int) -> bool {
    year % 4 == 0 && (year % 100 != 0 || year % 400 == 0)
}

/// The days in a month.
pub open spec fn days_in_month(year: int, month: int) -> int {
    if month == 2 {
        if is_leap(year) {
            29
        } else {
            28
        }
    } else if month == 4 || month == 6 || month == 9 || month == 11 {
        30
    } else {
        31
    }
}

/// Whether there is such a date.
pub open spec fn is_date(date: Date) -> bool {
    1 <= date.month <= 12 && 1 <= date.day <= days_in_month(date.year, date.month)
}

/// The days from the start of the year 0 to the start of a year, which is 365 for each year and
/// one more for each leap year.
pub open spec fn days_before_year(year: int) -> int {
    365 * year + (year + 3) / 4 - (year + 99) / 100 + (year + 399) / 400
}

/// The days from the start of a year to the start of a month.
pub open spec fn days_before_month(year: int, month: int) -> int
    decreases month,
{
    if month <= 1 {
        0
    } else {
        days_before_month(year, month - 1) + days_in_month(year, month - 1)
    }
}

/// The days from the start of 1970 to a date.
pub open spec fn day_number(date: Date) -> int {
    days_before_year(date.year) - days_before_year(1970) + days_before_month(date.year, date.month)
        + date.day - 1
}

/// The date that is so many days after the start of 1970.
pub open spec fn date_of(days: int) -> Date {
    choose|date: Date| is_date(date) && #[trigger] day_number(date) == days
}

/// A number in four decimal digits, or in more where it needs them.
pub open spec fn at_least_four_digits(n: nat) -> Seq<char> {
    if n < 10000 {
        number::two_digits(n / 100) + number::two_digits(n % 100)
    } else {
        number::decimal(n)
    }
}

/// A year: in four digits, and with a sign in front where it is negative or needs more of them.
pub open spec fn year_text(year: int) -> Seq<char> {
    if year < 0 {
        seq!['-'] + at_least_four_digits((-year) as nat)
    } else if year > 9999 {
        seq!['+'] + at_least_four_digits(year as nat)
    } else {
        at_least_four_digits(year as nat)
    }
}

/// A date as RFC 3339 has it.
pub open spec fn date_text(date: Date) -> Seq<char> {
    year_text(date.year) + seq!['-'] + number::two_digits(date.month as nat) + seq!['-']
        + number::two_digits(date.day as nat)
}

/// The time of day in UTC at which `seconds` after the start of 1970 fall, as RFC 3339 has it.
pub open spec fn time_of_day(seconds: int) -> Seq<char> {
    let t = (seconds % DAY as int) as nat;
    seq!['T'] + number::two_digits(t / 3600) + seq![':'] + number::two_digits(t / 60 % 60) + seq![
        ':',
    ] + number::two_digits(t % 60) + UTC_OFFSET@
}

/// The date and time in UTC at which `seconds` after the start of 1970 fall, as RFC 3339 has them.
pub open spec fn date_and_time(seconds: int) -> Seq<char> {
    date_text(date_of(seconds / DAY as int)) + time_of_day(seconds)
}

/// The date and time in UTC at which `seconds` after the start of 1970 fall, as RFC 3339 has them,
/// or `None` where there is no date.
pub open spec fn rfc3339(seconds: int) -> Option<Seq<char>> {
    if FIRST_SECOND <= seconds <= LAST_SECOND {
        Some(date_and_time(seconds))
    } else {
        None
    }
}

/// The number that the digits from index `from` to index `to` denote.
pub open spec fn number_at(text: Seq<char>, from: int, to: int) -> int {
    number::digits_value(text.subrange(from, to)) as int
}

/// The seconds after the start of 1970 that a date and time in the form of RFC 3339 denotes, with a
/// year of four digits, whole seconds and the offset of UTC.
pub open spec fn parsed_rfc3339(text: Seq<char>) -> Option<int> {
    let date = Date {
        year: number_at(text, 0, 4),
        month: number_at(text, 5, 7),
        day: number_at(text, 8, 10),
    };
    let (hour, minute, second) = (
        number_at(text, 11, 13),
        number_at(text, 14, 16),
        number_at(text, 17, 19),
    );
    if {
        &&& text.len() == 25
        &&& text[4] == '-' && text[7] == '-' && text[10] == 'T' && text[13] == ':' && text[16]
            == ':'
        &&& text.skip(19) == UTC_OFFSET@
        &&& forall|i: int|
            0 <= i < 19 && i != 4 && i != 7 && i != 10 && i != 13 && i != 16 ==> number::is_digit(
                #[trigger] text[i],
            )
        &&& is_date(date) && hour < 24 && minute < 60 && second < 60
    } {
        Some(day_number(date) * DAY + hour * 3600 + minute * 60 + second)
    } else {
        None
    }
}

proof fn days_before_months(year: int)
    ensures
        days_before_month(year, 1) == 0,
        days_before_month(year, 13) == 365 + if is_leap(year) {
            1int
        } else {
            0
        },
        forall|a: int, b: int|
            1 <= a < b <= 13 ==> #[trigger] days_before_month(year, a) + days_in_month(year, a)
                <= #[trigger] days_before_month(year, b),
{
    reveal_with_fuel(days_before_month, 14);
}

/// A division rounds up to one more exactly where the number before is a multiple.
proof fn multiples_below(n: int, step: int)
    requires
        step == 4 || step == 100 || step == 400,
    ensures
        (n + 1 + step - 1) / step == (n + step - 1) / step + if n % step == 0 {
            1int
        } else {
            0
        },
{
}

proof fn year_has_its_days(year: int)
    ensures
        days_before_year(year + 1) == days_before_year(year) + 365 + if is_leap(year) {
            1int
        } else {
            0
        },
{
    multiples_below(year, 4);
    multiples_below(year, 100);
    multiples_below(year, 400);
    assert(year % 100 == 0 ==> year % 4 == 0);
    assert(year % 400 == 0 ==> year % 100 == 0);
}

proof fn years_follow(year: int, later: int)
    requires
        year <= later,
    ensures
        days_before_year(year) <= days_before_year(later),
    decreases later - year,
{
    if year < later {
        years_follow(year, later - 1);
        year_has_its_days(later - 1);
    }
}

proof fn later_year_later_day(a: Date, b: Date)
    requires
        is_date(a),
        is_date(b),
        a.year < b.year,
    ensures
        day_number(a) < day_number(b),
{
    year_has_its_days(a.year);
    years_follow(a.year + 1, b.year);
    days_before_months(a.year);
    days_before_months(b.year);
    assert(days_before_month(a.year, a.month) + days_in_month(a.year, a.month)
        <= days_before_month(a.year, 13));
    if b.month > 1 {
        assert(days_before_month(b.year, 1) + days_in_month(b.year, 1) <= days_before_month(
            b.year,
            b.month,
        ));
    }
}

/// No two dates are the same day.
pub proof fn dates_differ(a: Date, b: Date)
    requires
        is_date(a),
        is_date(b),
        day_number(a) == day_number(b),
    ensures
        a == b,
{
    if a.year < b.year {
        later_year_later_day(a, b);
    } else if b.year < a.year {
        later_year_later_day(b, a);
    } else {
        days_before_months(a.year);
    }
}

/// The date of the day after.
spec fn next_date(date: Date) -> Date {
    if date.day < days_in_month(date.year, date.month) {
        Date { day: date.day + 1, ..date }
    } else if date.month < 12 {
        Date { month: date.month + 1, day: 1, ..date }
    } else {
        Date { year: date.year + 1, month: 1, day: 1 }
    }
}

/// The date of the day before.
spec fn previous_date(date: Date) -> Date {
    if date.day > 1 {
        Date { day: date.day - 1, ..date }
    } else if date.month > 1 {
        Date {
            month: date.month - 1,
            day: days_in_month(date.year, date.month - 1),
            ..date
        }
    } else {
        Date { year: date.year - 1, month: 12, day: 31 }
    }
}

proof fn day_after(date: Date)
    requires
        is_date(date),
    ensures
        is_date(next_date(date)),
        day_number(next_date(date)) == day_number(date) + 1,
{
    days_before_months(date.year);
    days_before_months(date.year + 1);
    year_has_its_days(date.year);
    assert(days_before_month(date.year, date.month + 1) == days_before_month(date.year, date.month)
        + days_in_month(date.year, date.month));
}

proof fn day_before(date: Date)
    requires
        is_date(date),
    ensures
        is_date(previous_date(date)),
        day_number(previous_date(date)) == day_number(date) - 1,
{
    let previous = previous_date(date);
    day_after(previous);
    assert(next_date(previous) == date);
}

/// Every day has a date, and `date_of` gives it.
pub proof fn every_day_has_a_date(days: int)
    ensures
        is_date(date_of(days)),
        day_number(date_of(days)) == days,
    decreases
            if days < 0 {
                -days
            } else {
                days
            },
{
    if days == 0 {
        let first = Date { year: 1970, month: 1, day: 1 };
        assert(is_date(first) && day_number(first) == 0);
    } else if days > 0 {
        every_day_has_a_date(days - 1);
        let date = next_date(date_of(days - 1));
        day_after(date_of(days - 1));
        assert(is_date(date) && day_number(date) == days);
    } else {
        every_day_has_a_date(days + 1);
        let date = previous_date(date_of(days + 1));
        day_before(date_of(days + 1));
        assert(is_date(date) && day_number(date) == days);
    }
}

/// The date of a day is the one that has its number.
pub proof fn date_of_its_day(date: Date)
    requires
        is_date(date),
    ensures
        date_of(day_number(date)) == date,
{
    every_day_has_a_date(day_number(date));
    dates_differ(date_of(day_number(date)), date);
}

/// Days in the years from 0 to 9999 have dates in these years.
proof fn year_of_four_digits(days: int)
    requires
        -719528 <= days < 2932897,
    ensures
        0 <= date_of(days).year <= 9999,
{
    every_day_has_a_date(days);
    let date = date_of(days);
    let first = Date { year: 0, month: 1, day: 1 };
    let end = Date { year: 10000, month: 1, day: 1 };
    assert(day_number(first) == -719528);
    assert(day_number(end) == 2932897);
    if date.year < 0 {
        later_year_later_day(date, first);
    } else if date.year > 10000 {
        later_year_later_day(end, date);
    } else if date.year == 10000 {
        days_before_months(10000);
        assert(date.month > 1 ==> days_before_month(10000, 1) + days_in_month(10000, 1)
            <= days_before_month(10000, date.month));
    }
}

/// A date and time from the year 0 to the year 9999 reads back as the second that it was written
/// for.
pub proof fn date_and_time_reads_back(seconds: int)
    requires
        -62167219200 <= seconds < 253402300800,
    ensures
        parsed_rfc3339(date_and_time(seconds)) == Some(seconds),
{
    reveal_strlit("+00:00");
    let days = seconds / DAY as int;
    let t = (seconds % DAY as int) as nat;
    let date = date_of(days);
    every_day_has_a_date(days);
    year_of_four_digits(days);
    let text = date_and_time(seconds);
    let (century, year) = ((date.year / 100) as nat, (date.year % 100) as nat);
    let (month, day) = (date.month as nat, date.day as nat);
    let (hour, minute, second) = (t / 3600, t / 60 % 60, t % 60);
    number::two_digits_read_back(century);
    number::two_digits_read_back(year);
    number::two_digits_read_back(month);
    number::two_digits_read_back(day);
    number::two_digits_read_back(hour);
    number::two_digits_read_back(minute);
    number::two_digits_read_back(second);
    let four = number::two_digits(century) + number::two_digits(year);
    number::pairs_read_back(century, year);
    assert(date_text(date) =~= four + seq!['-'] + number::two_digits(month) + seq!['-']
        + number::two_digits(day));
    assert(text.len() == 25);
    assert(text.subrange(0, 4) =~= four);
    assert(text.subrange(5, 7) =~= number::two_digits(month));
    assert(text.subrange(8, 10) =~= number::two_digits(day));
    assert(text.subrange(11, 13) =~= number::two_digits(hour));
    assert(text.subrange(14, 16) =~= number::two_digits(minute));
    assert(text.subrange(17, 19) =~= number::two_digits(second));
    assert(text.skip(19) =~= UTC_OFFSET@);
    assert(t == hour * 3600 + minute * 60 + second);
}

/// The start of 1970 has the text `EPOCH`.
pub proof fn start_of_1970()
    ensures
        rfc3339(0) == Some(EPOCH@),
{
    reveal_strlit("1970-01-01T00:00:00+00:00");
    reveal_strlit("+00:00");
    date_of_its_day(Date { year: 1970, month: 1, day: 1 });
    assert(date_and_time(0) =~= EPOCH@);
}

} // verus!
