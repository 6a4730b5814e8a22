//! Wall clock times, the names that log files have from them, and the calendar
//! that relates the two.

use time::format_description;
use vstd::prelude::*;

use crate::error::AppError;
use crate::text;

verus! {

/// For how many days a log file is kept.
pub const LOG_RETENTION_DAYS: i64 = 7;

/// How a time is written in the name of a log file.
pub const STAMP_DESCRIPTION: &'static str = "[year]-[month]-[day]_[hour]-[minute]-[second]";

/// What the clock on the wall shows, to the second.
#[derive(Debug, Clone, Copy, PartialEq, Eq, Structural)]
pub struct LocalTime {
    pub year: i32,
    pub month: u8,
    pub day: u8,
    pub hour: u8,
    pub minute: u8,
    pub second: u8,
}

/// Whether `year` has a 29th of February.
pub open spec fn is_leap(year: int) -> bool {
    year % 4 == 0 && (year % 100 != 0 || year % 400 == 0)
}

/// How many days `month` has in `year`.
pub open spec fn days_in_month(year: int, month: int) -> int {
    if month == 2 {
        if is_leap(year) {
            29
        } else {
            28
        }
    } else if month == 4 || month == 6 || month == 9 || month == 11 {
        30
    } else {
        31
    }
}

/// How many days of `year` are over when `month` begins.
pub open spec fn days_before_month(year: int, month: int) -> int
    decreases month,
{
    if month <= 1 {
        0
    } else {
        days_before_month(year, month - 1) + days_in_month(year, month - 1)
    }
}

/// How many days lie between the first day of year 1 and the first of `year`.
pub open spec fn days_before_year(year: int) -> int {
    365 * (year - 1) + (year - 1) / 4 - (year - 1) / 100 + (year - 1) / 400
}

/// `n` in two decimal digits.
pub open spec fn two_digits(n: int) -> Seq<char> {
    seq![text::digit_char((n / 10) as nat), text::digit_char((n % 10) as nat)]
}

/// `n` in four decimal digits.
pub open spec fn four_digits(n: int) -> Seq<char> {
    two_digits(n / 100) + two_digits(n % 100)
}

impl LocalTime {
    /// Whether the calendar and the clock know this time. Years have at most
    /// four digits.
    pub open spec fn valid(self) -> bool {
        &&& -9999 <= self.year <= 9999
        &&& 1 <= self.month <= 12
        &&& 1 <= self.day <= days_in_month(self.year as int, self.month as int)
        &&& self.hour < 24
        &&& self.minute < 60
        &&& self.second < 60
    }

    /// The number of this day, counted from the first day of year 1.
    pub open spec fn day_number(self) -> int {
        days_before_year(self.year as int) + days_before_month(self.year as int, self.month as int)
            + self.day
    }

    /// The number of this second, counted from the day before year 1.
    pub open spec fn wall_seconds(self) -> int {
        86400 * self.day_number() + 3600 * self.hour + 60 * self.minute + self.second
    }

    /// The year, the month, the day, the hour, the minute and the second, in digits.
    pub open spec fn stamp(self) -> Seq<char> {
        let year = self.year as int;
        (if year < 0 {
            "-"@ + four_digits(-year)
        } else {
            four_digits(year)
        }) + "-"@ + two_digits(self.month as int) + "-"@ + two_digits(self.day as int) + "_"@
            + two_digits(self.hour as int) + "-"@ + two_digits(self.minute as int) + "-"@
            + two_digits(self.second as int)
    }

    /// The name of the log file of a run that starts at this time.
    pub open spec fn log_name(self) -> Seq<char> {
        self.stamp() + ".log"@
    }

    /// Whether `other` shows the same time on the day that lies `days` earlier.
    pub open spec fn is_days_after(self, other: LocalTime, days: int) -> bool {
        &&& other.valid()
        &&& other.day_number() == self.day_number() - days
        &&& other.hour == self.hour
        &&& other.minute == self.minute
        &&& other.second == self.second
    }

    /// The time with these parts, if there is one.
    pub fn new(year: i32, month: u8, day: u8, hour: u8, minute: u8, second: u8) -> (made: Option<
        LocalTime,
    >)
        ensures
            ({
                let time = LocalTime { year, month, day, hour, minute, second };
                made == if time.valid() {
                    Some(time)
                } else {
                    None
                }
            }),
    {
        if year < -9999 || year > 9999 || month < 1 || month > 12 || day < 1 {
            return None;
        }
        // Ten thousand years are a whole number of rounds of the calendar.
        let shifted: u32 = (year + 10000) as u32;
        let leap = shifted % 4 == 0 && (shifted % 100 != 0 || shifted % 400 == 0);
        let last: u8 = match month {
            2 => if leap {
                29
            } else {
                28
            },
            4 | 6 | 9 | 11 => 30,
            _ => 31,
        };
        if day > last || hour >= 24 || minute >= 60 || second >= 60 {
            return None;
        }
        Some(LocalTime { year, month, day, hour, minute, second })
    }
}

/// Whether `name` is the name of the log file of a run that started as long before
/// `now` as log files are kept.
pub open spec fn is_cutoff_name(name: Seq<char>, now: LocalTime) -> bool {
    exists|cutoff: LocalTime|
        #[trigger] now.is_days_after(cutoff, LOG_RETENTION_DAYS as int) && name
            == cutoff.log_name()
}

/// `format_description::parse_borrowed`, and `OffsetDateTime::format` with what it
/// returns. Claimed of them: the description is well formed, and a time that
/// carries all its components is written with each in its place, a negative year
/// behind a minus sign, every component padded with zeros.
#[verifier::external_body]
fn format_time(time: LocalTime, description: &str) -> (written: Result<
    Result<String, time::error::Format>,
    time::error::InvalidFormatDescription,
>)
    requires
        time.valid(),
        description@ == STAMP_DESCRIPTION@,
    ensures
        written is Ok,
        written->Ok_0 is Ok,
        written->Ok_0->Ok_0@ == time.stamp(),
{
    let month = time::Month::try_from(time.month).unwrap();
    let date = time::Date::from_calendar_date(time.year, month, time.day).unwrap();
    let moment = date.with_hms(time.hour, time.minute, time.second).unwrap().assume_utc();
    format_description::parse_borrowed::<2>(description).map(|items| moment.format(&items))
}

/// The subtraction of `Duration::days(days)` from an `OffsetDateTime`. Claimed of
/// it: the clock shows the same time on the day that lies `days` earlier.
/// Subtraction panics where that day lies before year -9999.
#[verifier::external_body]
fn minus_days(time: LocalTime, days: i64) -> (moved: LocalTime)
    requires
        time.valid(),
        days >= 0,
        time.day_number() - days > days_before_year(-9999),
    ensures
        time.is_days_after(moved, days as int),
{
    let month = time::Month::try_from(time.month).unwrap();
    let date = time::Date::from_calendar_date(time.year, month, time.day).unwrap();
    let moment = date.with_hms(time.hour, time.minute, time.second).unwrap().assume_utc();
    let moved = moment - time::Duration::days(days);
    LocalTime {
        year: moved.year(),
        month: u8::from(moved.month()),
        day: moved.day(),
        hour: moved.hour(),
        minute: moved.minute(),
        second: moved.second(),
    }
}

/// Writes `time` for a log line or a file name.
pub fn timestamp_at(time: LocalTime) -> (stamp: Result<String, AppError>)
    requires
        time.valid(),
    ensures
        stamp matches Ok(written) && written@ == time.stamp(),
{
    match format_time(time, STAMP_DESCRIPTION) {
        Ok(Ok(written)) => Ok(written),
        Ok(Err(error)) => Err(AppError::TimeFormat(error)),
        Err(error) => Err(AppError::TimeFormatDescription(error)),
    }
}

/// The name of the log file of a run that starts at `time`.
pub fn log_name_at(time: LocalTime) -> (name: Result<String, AppError>)
    requires
        time.valid(),
    ensures
        name matches Ok(written) && written@ == time.log_name(),
{
    match timestamp_at(time) {
        Ok(stamp) => Ok(stamp.concat(".log")),
        Err(error) => Err(error),
    }
}

/// The name that a log file of the oldest run that is still kept would have, at
/// the time `now`.
pub fn retention_cutoff_log_name(now: LocalTime) -> (name: Result<String, AppError>)
    requires
        now.valid(),
        now.day_number() - LOG_RETENTION_DAYS > days_before_year(-9999),
    ensures
        name matches Ok(written) && is_cutoff_name(written@, now),
{
    let cutoff = minus_days(now, LOG_RETENTION_DAYS);
    log_name_at(cutoff)
}

/// A month begins when the months before it are over.
proof fn lemma_months_follow(year: int, earlier: int, later: int)
    requires
        1 <= earlier < later,
    ensures
        days_before_month(year, earlier) + days_in_month(year, earlier) <= days_before_month(
            year,
            later,
        ),
    decreases later,
{
    if earlier < later - 1 {
        lemma_months_follow(year, earlier, later - 1);
    }
}

/// The days of a year lie before the first day of the next one.
proof fn lemma_day_in_year(time: LocalTime)
    requires
        time.valid(),
    ensures
        days_before_year(time.year as int) < time.day_number() <= days_before_year(time.year + 1),
{
    let year = time.year as int;
    reveal_with_fuel(days_before_month, 13);
    lemma_months_follow(year, time.month as int, 13);
    assert(days_before_month(year, time.month as int) >= 0) by {
        if time.month > 1 {
            lemma_months_follow(year, 1, time.month as int);
        }
    }
}

/// Of two different dates the one that the calendar lists first has the smaller
/// day number.
proof fn lemma_earlier_date(a: LocalTime, b: LocalTime)
    requires
        a.valid(),
        b.valid(),
        a.year < b.year || (a.year == b.year && (a.month < b.month || (a.month == b.month && a.day
            < b.day))),
    ensures
        a.day_number() < b.day_number(),
{
    if a.year < b.year {
        lemma_day_in_year(a);
        lemma_day_in_year(b);
        assert(days_before_year(a.year + 1) <= days_before_year(b.year as int));
    } else if a.month < b.month {
        lemma_months_follow(a.year as int, a.month as int, b.month as int);
    }
}

/// Of two different times the one that comes first, part by part, is the earlier.
pub(crate) proof fn lemma_earlier_parts(a: LocalTime, b: LocalTime)
    requires
        a.valid(),
        b.valid(),
        ({
            let date_equal = a.year == b.year && a.month == b.month && a.day == b.day;
            let hour_equal = date_equal && a.hour == b.hour;
            let minute_equal = hour_equal && a.minute == b.minute;
            ||| a.year < b.year
            ||| a.year == b.year && a.month < b.month
            ||| a.year == b.year && a.month == b.month && a.day < b.day
            ||| date_equal && a.hour < b.hour
            ||| hour_equal && a.minute < b.minute
            ||| minute_equal && a.second < b.second
        }),
    ensures
        a.wall_seconds() < b.wall_seconds(),
{
    if a.year != b.year || a.month != b.month || a.day != b.day {
        lemma_earlier_date(a, b);
    }
}

/// The number of a second says which time it is: no two times share one.
pub proof fn one_time_per_second(a: LocalTime, b: LocalTime)
    requires
        a.valid(),
        b.valid(),
        a.wall_seconds() == b.wall_seconds(),
    ensures
        a == b,
{
    if a.year != b.year || a.month != b.month || a.day != b.day {
        let a_first = a.year < b.year || (a.year == b.year && (a.month < b.month || (a.month
            == b.month && a.day < b.day)));
        if a_first {
            lemma_earlier_date(a, b);
        } else {
            lemma_earlier_date(b, a);
        }
    }
}

/// The cutoff is one name: there is no second name that lies as far back.
pub proof fn one_cutoff_name(now: LocalTime, first: Seq<char>, second: Seq<char>)
    requires
        is_cutoff_name(first, now),
        is_cutoff_name(second, now),
    ensures
        first == second,
{
    let a = choose|cutoff: LocalTime|
        #[trigger] now.is_days_after(cutoff, LOG_RETENTION_DAYS as int) && first
            == cutoff.log_name();
    let b = choose|cutoff: LocalTime|
        #[trigger] now.is_days_after(cutoff, LOG_RETENTION_DAYS as int) && second
            == cutoff.log_name();
    one_time_per_second(a, b);
}

/// The calendar and the clock know a time if and only if its parts lie in their bounds:
/// the months have their days, and February has 29 in a leap year.
pub proof fn times_lie_in_their_bounds(time: LocalTime)
    ensures
        time.valid() <==> {
            let year = time.year as int;
            let leap = (year % 4 == 0 && year % 100 != 0) || year % 400 == 0;
            let long = time.month == 1 || time.month == 3 || time.month == 5 || time.month == 7
                || time.month == 8 || time.month == 10 || time.month == 12;
            &&& -10000 < year < 10000
            &&& 1 <= time.month <= 12
            &&& 1 <= time.day <= 31
            &&& time.day == 31 ==> long
            &&& time.day == 30 ==> time.month != 2
            &&& time.day == 29 && time.month == 2 ==> leap
            &&& time.hour <= 23
            &&& time.minute <= 59
            &&& time.second <= 59
        },
{
}

/// The day behind another has the next number: in one month, from one month to the next,
/// and from one year to the next.
pub proof fn each_day_has_the_next_number(day: LocalTime, next: LocalTime)
    requires
        day.valid(),
        next.valid(),
        ({
            let year = day.year as int;
            let last = day.day == days_in_month(year, day.month as int);
            ||| next.year == year && next.month == day.month && next.day == day.day + 1
            ||| last && next.year == year && next.month == day.month + 1 && next.day == 1
            ||| last && day.month == 12 && next.year == year + 1 && next.month == 1 && next.day == 1
        }),
    ensures
        next.day_number() == day.day_number() + 1,
{
    reveal_with_fuel(days_before_month, 13);
    if next.year == day.year + 1 {
        let year = day.year as int;
        assert(days_before_month(year, 12) + 31 == if is_leap(year) {
            366int
        } else {
            365int
        });
    }
}

/// A time that shows the same on the day so many days earlier lies so many whole days
/// back, and no other does.
pub proof fn days_earlier_are_whole_days(now: LocalTime, other: LocalTime, days: int)
    requires
        now.valid(),
        other.valid(),
    ensures
        now.is_days_after(other, days) <==> now.wall_seconds() - other.wall_seconds() == 86400
            * days,
{
}

proof fn lemma_two_digits_value(n: int)
    requires
        0 <= n < 100,
    ensures
        text::digits_value(two_digits(n)) == n,
{
    let both = two_digits(n);
    let first = both.drop_last();
    assert(first =~= seq![text::digit_char((n / 10) as nat)]);
    assert(first.drop_last() =~= Seq::<char>::empty());
    assert(text::digits_value(first.drop_last()) == 0);
    assert(text::digits_value(first) == n / 10);
}

proof fn lemma_four_digits_value(n: int)
    requires
        0 <= n < 10000,
    ensures
        text::digits_value(four_digits(n)) == n,
{
    let all = four_digits(n);
    let three = all.drop_last();
    let two = three.drop_last();
    assert(two =~= two_digits(n / 100));
    lemma_two_digits_value(n / 100);
    assert(text::digits_value(three) == 10 * (n / 100) + (n % 100) / 10);
}

/// A written time reads back: behind a sign, if the year is negative, it has four digits
/// for the year and two for every other part, and the digits stand for the parts.
pub proof fn a_written_time_reads_back(time: LocalTime)
    requires
        time.valid(),
    ensures
        ({
            let digits = if time.year < 0 {
                time.stamp().skip(1)
            } else {
                time.stamp()
            };
            &&& time.year < 0 ==> time.stamp().len() == 20 && time.stamp()[0] == '-'
            &&& digits.len() == 19
            &&& text::digits_value(digits.subrange(0, 4)) == if time.year < 0 {
                -time.year
            } else {
                time.year as int
            }
            &&& digits[4] == '-'
            &&& text::digits_value(digits.subrange(5, 7)) == time.month
            &&& digits[7] == '-'
            &&& text::digits_value(digits.subrange(8, 10)) == time.day
            &&& digits[10] == '_'
            &&& text::digits_value(digits.subrange(11, 13)) == time.hour
            &&& digits[13] == '-'
            &&& text::digits_value(digits.subrange(14, 16)) == time.minute
            &&& digits[16] == '-'
            &&& text::digits_value(digits.subrange(17, 19)) == time.second
            &&& time.log_name() == time.stamp() + seq!['.', 'l', 'o', 'g']
        }),
{
    reveal_strlit("-");
    reveal_strlit("_");
    reveal_strlit(".log");
    let year = if time.year < 0 {
        -time.year
    } else {
        time.year as int
    };
    let digits = if time.year < 0 {
        time.stamp().skip(1)
    } else {
        time.stamp()
    };
    lemma_four_digits_value(year);
    lemma_two_digits_value(time.month as int);
    lemma_two_digits_value(time.day as int);
    lemma_two_digits_value(time.hour as int);
    lemma_two_digits_value(time.minute as int);
    lemma_two_digits_value(time.second as int);
    assert(digits.subrange(0, 4) =~= four_digits(year));
    assert(digits.subrange(5, 7) =~= two_digits(time.month as int));
    assert(digits.subrange(8, 10) =~= two_digits(time.day as int));
    assert(digits.subrange(11, 13) =~= two_digits(time.hour as int));
    assert(digits.subrange(14, 16) =~= two_digits(time.minute as int));
    assert(digits.subrange(17, 19) =~= two_digits(time.second as int));
    assert(".log"@ =~= seq!['.', 'l', 'o', 'g']);
}

} // verus!
