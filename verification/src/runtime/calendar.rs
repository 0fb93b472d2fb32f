//! Civil dates and RFC 3339 timestamps.

use vstd::prelude::*;
use vstd::string::*;

use crate::text::{decimal, number_of, padding_keeps_the_number, zero_padded, zero_padded_text};

verus! {

/// Gregorian leap years.
pub open spec fn leap_year(year: int) -> bool {
    year % 4 == 0 && (year % 100 != 0 || year % 400 == 0)
}

/// The number of days in a year.
pub open spec fn days_in_year(year: int) -> int {
    if leap_year(year) {
        366
    } else {
        365
    }
}

/// The number of days in a month of a year.
pub open spec fn days_in_month(year: int, month: int) -> int {
    if month == 2 {
        if leap_year(year) {
            29
        } else {
            28
        }
    } else if month == 4 || month == 6 || month == 9 || month == 11 {
        30
    } else {
        31
    }
}

/// The number of days from 1 January 1970 to 1 January of `year`.
pub open spec fn days_before_year(year: int) -> int
    decreases year,
{
    if year <= 1970 {
        0
    } else {
        days_before_year(year - 1) + days_in_year(year - 1)
    }
}

/// The number of days from 1 January to the first of `month`.
pub open spec fn days_before_month(year: int, month: int) -> int
    decreases month,
{
    if month <= 1 {
        0
    } else {
        days_before_month(year, month - 1) + days_in_month(year, month - 1)
    }
}

/// The number of days from 1 January 1970 to the given date.
pub open spec fn day_number(year: int, month: int, day: int) -> int {
    days_before_year(year) + days_before_month(year, month) + day - 1
}

/// The dates from 1 January 1970 on.
pub open spec fn is_date(year: int, month: int, day: int) -> bool {
    year >= 1970 && 1 <= month <= 12 && 1 <= day <= days_in_month(year, month)
}

/// Leap days in the years before `year`, counted from year 1.
spec fn leap_days(year: int) -> int {
    (year - 1) / 4 - (year - 1) / 100 + (year - 1) / 400
}

proof fn leap_days_step(year: int)
    requires
        year >= 1,
    ensures
        leap_days(year + 1) - leap_days(year) == if leap_year(year) {
            1int
        } else {
            0int
        },
{
}

proof fn days_before_year_closed(year: int)
    requires
        year >= 1970,
    ensures
        days_before_year(year) == 365 * (year - 1970) + leap_days(year) - leap_days(1970),
    decreases year,
{
    if year > 1970 {
        days_before_year_closed(year - 1);
        leap_days_step(year - 1);
    }
}

/// Days from 1 March to the first of the `index`-th month after March.
spec fn days_from_march(index: int) -> int {
    (153 * index + 2) / 5
}

proof fn months_from_march(year: int, index: int)
    requires
        0 <= index <= 11,
    ensures
        index < 10 ==> days_before_month(year, index + 3) == days_from_march(index) + (if leap_year(
            year,
        ) {
            60int
        } else {
            59int
        }),
        index >= 10 ==> days_before_month(year, index - 9) == days_from_march(index) - 306,
        index < 9 ==> days_from_march(index + 1) - days_from_march(index) == days_in_month(
            year,
            index + 3,
        ),
        index == 9 ==> days_from_march(10) - days_from_march(9) == days_in_month(year, 12),
        index == 10 ==> days_from_march(11) - days_from_march(10) == days_in_month(year, 1),
{
    reveal_with_fuel(days_before_month, 13);
}

/// The year of a 400-year era that holds a day of that era, and the day of that
/// year, with years starting in March.
proof fn year_of_era(doe: int, yoe: int, doy: int)
    requires
        0 <= doe <= 146096,
        yoe == (doe - doe / 1460 + doe / 36524 - doe / 146096) / 365,
        doy == doe - (365 * yoe + yoe / 4 - yoe / 100),
    ensures
        0 <= yoe <= 399,
        0 <= doy <= 365,
        doy == 365 ==> leap_year(yoe + 1),
{
}

/// The date that the civil-calendar arithmetic below gives for a day number.
proof fn civil_arithmetic(
    days: int,
    era: int,
    yoe: int,
    doy: int,
    mp: int,
) -> (date: (int, int, int))
    requires
        days >= 0,
        era == (days + 719468) / 146097,
        yoe == ({
            let doe = (days + 719468) % 146097;
            (doe - doe / 1460 + doe / 36524 - doe / 146096) / 365
        }),
        doy == (days + 719468) % 146097 - (365 * yoe + yoe / 4 - yoe / 100),
        mp == (5 * doy + 2) / 153,
    ensures
        0 <= yoe <= 399,
        0 <= doy <= 365,
        0 <= mp <= 11,
        date.2 == doy - days_from_march(mp) + 1,
        date.1 == if mp < 10 {
            mp + 3
        } else {
            mp - 9
        },
        date.0 == yoe + era * 400 + if date.1 <= 2 {
            1int
        } else {
            0int
        },
        is_date(date.0, date.1, date.2),
        day_number(date.0, date.1, date.2) == days,
{
    let doe = (days + 719468) % 146097;
    year_of_era(doe, yoe, doy);
    let y = yoe + era * 400;
    let m = if mp < 10 {
        mp + 3
    } else {
        mp - 9
    };
    let year = if m <= 2 {
        y + 1
    } else {
        y
    };
    days_before_year_closed(year);
    leap_days_step(y);
    months_from_march(year, mp);
    assert(y / 4 == 100 * era + yoe / 4);
    assert(y / 100 == 4 * era + yoe / 100);
    assert(y / 400 == era);
    (year, m, doy - days_from_march(mp) + 1)
}

/// Every day from 1 January 1970 on has a date.
pub proof fn every_day_has_a_date(days: nat)
    ensures
        is_date(date_of(days as int).0, date_of(days as int).1, date_of(days as int).2),
        day_number(date_of(days as int).0, date_of(days as int).1, date_of(days as int).2) == days,
{
    let z = days as int + 719468;
    let era = z / 146097;
    let doe = z % 146097;
    let yoe = (doe - doe / 1460 + doe / 36524 - doe / 146096) / 365;
    let doy = doe - (365 * yoe + yoe / 4 - yoe / 100);
    let date = civil_arithmetic(days as int, era, yoe, doy, (5 * doy + 2) / 153);
    assert(is_date(date.0, date.1, date.2) && day_number(date.0, date.1, date.2) == days);
}

/// Convert days since the Unix epoch to a year, a month and a day.
pub fn days_to_ymd(days: u64) -> (r: (u64, u64, u64))
    requires
        days <= u64::MAX - 719468,
    ensures
        is_date(r.0 as int, r.1 as int, r.2 as int),
        day_number(r.0 as int, r.1 as int, r.2 as int) == days,
{
    let z: u64 = days + 719468;
    let era: u64 = z / 146097;
    let doe: u64 = z - era * 146097;
    let yoe: u64 = (doe - doe / 1460 + doe / 36524 - doe / 146096) / 365;
    proof {
        let ghost_doy = doe - (365 * yoe + yoe / 4 - yoe / 100);
        civil_arithmetic(
            days as int,
            era as int,
            yoe as int,
            ghost_doy,
            (5 * ghost_doy + 2) / 153,
        );
    }
    let y: u64 = yoe + era * 400;
    let doy: u64 = doe - (365 * yoe + yoe / 4 - yoe / 100);
    let mp: u64 = (5 * doy + 2) / 153;
    let d: u64 = doy - (153 * mp + 2) / 5 + 1;
    let m: u64 = if mp < 10 {
        mp + 3
    } else {
        mp - 9
    };
    let year: u64 = if m <= 2 {
        y + 1
    } else {
        y
    };
    (year, m, d)
}

proof fn month_in_year(year: int, month: int, day: int)
    requires
        is_date(year, month, day),
    ensures
        0 <= days_before_month(year, month) + day - 1 < days_in_year(year),
{
    reveal_with_fuel(days_before_month, 13);
}

proof fn months_increase(year: int, earlier: int, later: int)
    requires
        1 <= earlier < later <= 12,
    ensures
        days_before_month(year, earlier) + days_in_month(year, earlier) <= days_before_month(
            year,
            later,
        ),
    decreases later,
{
    if earlier + 1 < later {
        months_increase(year, earlier, later - 1);
    }
}

proof fn years_increase(earlier: int, later: int)
    requires
        1970 <= earlier < later,
    ensures
        days_before_year(earlier) + days_in_year(earlier) <= days_before_year(later),
    decreases later,
{
    if earlier + 1 < later {
        years_increase(earlier, later - 1);
    }
}

/// Two dates with the same day number are the same date, so a day number
/// stands for exactly one date.
pub proof fn day_number_is_injective(
    year: int,
    month: int,
    day: int,
    other_year: int,
    other_month: int,
    other_day: int,
)
    requires
        is_date(year, month, day),
        is_date(other_year, other_month, other_day),
        day_number(year, month, day) == day_number(other_year, other_month, other_day),
    ensures
        year == other_year,
        month == other_month,
        day == other_day,
{
    month_in_year(year, month, day);
    month_in_year(other_year, other_month, other_day);
    if year < other_year {
        years_increase(year, other_year);
    } else if other_year < year {
        years_increase(other_year, year);
    } else if month < other_month {
        months_increase(year, month, other_month);
    } else if other_month < month {
        months_increase(year, other_month, month);
    }
}

/// The date with a given day number.
pub open spec fn date_of(days: int) -> (int, int, int) {
    choose|date: (int, int, int)|
        is_date(date.0, date.1, date.2) && #[trigger] day_number(date.0, date.1, date.2) == days
}

/// The UTC time `secs` seconds after the Unix epoch, in RFC 3339 form.
pub open spec fn timestamp(secs: nat) -> Seq<char> {
    let (year, month, day) = date_of((secs / 86400) as int);
    let time = secs % 86400;
    zero_padded(year as nat, 4) + "-"@ + zero_padded(month as nat, 2) + "-"@ + zero_padded(
        day as nat,
        2,
    ) + "T"@ + zero_padded(time / 3600, 2) + ":"@ + zero_padded((time % 3600) / 60, 2) + ":"@
        + zero_padded(time % 60, 2) + "Z"@
}

/// The UTC time `secs` seconds after the Unix epoch, in RFC 3339 form.
pub fn rfc3339(secs: u64) -> (r: String)
    ensures
        r@ == timestamp(secs as nat),
{
    let day_secs: u64 = secs % 86400;
    let (year, month, day) = days_to_ymd(secs / 86400);
    proof {
        let (y, m, d) = date_of((secs / 86400) as int);
        assert(is_date(year as int, month as int, day as int) && day_number(
            year as int,
            month as int,
            day as int,
        ) == secs / 86400);
        day_number_is_injective(y, m, d, year as int, month as int, day as int);
    }
    let mut r = zero_padded_text(year, 4);
    r.append("-");
    r.append(zero_padded_text(month, 2).as_str());
    r.append("-");
    r.append(zero_padded_text(day, 2).as_str());
    r.append("T");
    r.append(zero_padded_text(day_secs / 3600, 2).as_str());
    r.append(":");
    r.append(zero_padded_text((day_secs % 3600) / 60, 2).as_str());
    r.append(":");
    r.append(zero_padded_text(day_secs % 60, 2).as_str());
    r.append("Z");
    r
}

/// `std::time::SystemTime`, carried through as an opaque value.
#[verifier::external_type_specification]
#[verifier::external_body]
pub struct ExSystemTime(std::time::SystemTime);

/// `std::time::SystemTime::now` reads the clock, so nothing is claimed of its
/// result.
pub assume_specification[ std::time::SystemTime::now ]() -> (now: std::time::SystemTime)
;

/// Calls `std::time::SystemTime::duration_since` with the Unix epoch: the time since
/// then, or `None` for a time before it. The time is opaque here, so nothing is claimed
/// of the result.
#[verifier::external_body]
fn since_epoch(time: std::time::SystemTime) -> (span: Option<std::time::Duration>) {
    time.duration_since(std::time::UNIX_EPOCH).ok()
}

/// `std::time::Duration::as_secs` gives the whole seconds of a span of time. The span is
/// opaque here, so nothing is claimed of the result.
pub assume_specification[ std::time::Duration::as_secs ](span: &std::time::Duration) -> (secs: u64)
;

/// The whole seconds of a time since the Unix epoch; a time before the epoch counts as the
/// epoch.
fn seconds_since_epoch(time: std::time::SystemTime) -> (secs: u64) {
    match since_epoch(time) {
        Some(span) => span.as_secs(),
        None => 0,
    }
}

/// The current UTC time in RFC 3339 form.
pub fn now_rfc3339() -> (r: String)
    ensures
        exists|secs: u64| r@ == #[trigger] timestamp(secs as nat),
{
    rfc3339(seconds_since_epoch(std::time::SystemTime::now()))
}

proof fn short_decimal(n: nat)
    ensures
        n < 10 ==> decimal(n).len() == 1,
        10 <= n < 100 ==> decimal(n).len() == 2,
        100 <= n < 1000 ==> decimal(n).len() == 3,
        1000 <= n < 10000 ==> decimal(n).len() == 4,
{
    reveal_with_fuel(decimal, 4);
}

/// Up to the end of the year 9999, a timestamp has the 20 characters
/// `YYYY-MM-DDTHH:MM:SSZ`.
pub proof fn timestamp_has_fixed_form(secs: nat)
    requires
        date_of((secs / 86400) as int).0 <= 9999,
    ensures
        timestamp(secs).len() == 20,
        timestamp(secs)[4] == '-',
        timestamp(secs)[7] == '-',
        timestamp(secs)[10] == 'T',
        timestamp(secs)[13] == ':',
        timestamp(secs)[16] == ':',
        timestamp(secs)[19] == 'Z',
{
    let (year, month, day) = date_of((secs / 86400) as int);
    every_day_has_a_date(secs / 86400);
    reveal_strlit("-");
    reveal_strlit("T");
    reveal_strlit(":");
    reveal_strlit("Z");
    let time = secs % 86400;
    short_decimal(year as nat);
    short_decimal(month as nat);
    short_decimal(day as nat);
    short_decimal(time / 3600);
    short_decimal((time % 3600) / 60);
    short_decimal(time % 60);
}

/// Up to the end of the year 9999, the numbers in a timestamp are a date and a time of day,
/// and together they are the second that the timestamp stands for.
pub proof fn timestamp_names_the_second(secs: nat)
    requires
        date_of((secs / 86400) as int).0 <= 9999,
    ensures
        ({
            let text = timestamp(secs);
            let year = number_of(text.subrange(0, 4)) as int;
            let month = number_of(text.subrange(5, 7)) as int;
            let day = number_of(text.subrange(8, 10)) as int;
            let hour = number_of(text.subrange(11, 13)) as int;
            let minute = number_of(text.subrange(14, 16)) as int;
            let second = number_of(text.subrange(17, 19)) as int;
            &&& is_date(year, month, day)
            &&& hour < 24 && minute < 60 && second < 60
            &&& secs == day_number(year, month, day) * 86400 + hour * 3600 + minute * 60 + second
        }),
{
    let (year, month, day) = date_of((secs / 86400) as int);
    every_day_has_a_date(secs / 86400);
    timestamp_has_fixed_form(secs);
    let time = secs % 86400;
    let text = timestamp(secs);
    let hour = time / 3600;
    let minute = (time % 3600) / 60;
    let second = time % 60;
    reveal_strlit("-");
    reveal_strlit("T");
    reveal_strlit(":");
    reveal_strlit("Z");
    short_decimal(year as nat);
    short_decimal(month as nat);
    short_decimal(day as nat);
    short_decimal(hour);
    short_decimal(minute);
    short_decimal(second);
    padding_keeps_the_number(year as nat, 4);
    padding_keeps_the_number(month as nat, 2);
    padding_keeps_the_number(day as nat, 2);
    padding_keeps_the_number(hour, 2);
    padding_keeps_the_number(minute, 2);
    padding_keeps_the_number(second, 2);
    assert(text.subrange(0, 4) =~= zero_padded(year as nat, 4));
    assert(text.subrange(5, 7) =~= zero_padded(month as nat, 2));
    assert(text.subrange(8, 10) =~= zero_padded(day as nat, 2));
    assert(text.subrange(11, 13) =~= zero_padded(hour, 2));
    assert(text.subrange(14, 16) =~= zero_padded(minute, 2));
    assert(text.subrange(17, 19) =~= zero_padded(second, 2));
}

/// The months of a year have 31 days, but for four with 30 and February, which has 28, or
/// 29 in a leap year. Every fourth year is one, but of the full centuries only every
/// fourth.
pub proof fn years_have_their_months(year: int)
    requires
        year >= 1970,
    ensures
        days_before_month(year, 1) == 0,
        days_before_month(year, 2) == 31,
        days_before_month(year, 3) == 31 + days_in_month(year, 2),
        days_before_month(year, 12) + 31 == 337 + days_in_month(year, 2),
        day_number(year + 1, 1, 1) == day_number(year, 12, 31) + 1,
        days_in_month(year, 2) == if year % 400 == 0 || (year % 4 == 0 && year % 100 != 0) {
            29int
        } else {
            28int
        },
        days_in_month(year, 4) == 30,
        days_in_month(year, 6) == 30,
        days_in_month(year, 9) == 30,
        days_in_month(year, 11) == 30,
        forall|month: int|
            month == 1 || month == 3 || month == 5 || month == 7 || month == 8 || month == 10
                || month == 12 ==> #[trigger] days_in_month(year, month) == 31,
{
    reveal_with_fuel(days_before_month, 13);
    reveal_with_fuel(days_before_year, 2);
}

} // verus!
