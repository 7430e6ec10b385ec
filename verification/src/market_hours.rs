//! Whether the US equity market's regular session is open at a given
//! instant: Monday to Friday, 09:30 to 16:00 US Eastern time, with the
//! post-2007 daylight-saving rule (second Sunday of March to first Sunday
//! of November). Holidays are not modelled.

use vstd::prelude::*;

verus! {

/// Seconds in a day.
pub open spec fn day_secs() -> int {
    86_400
}

/// The number of days from 1970-01-01 to the civil date `year-month-day`
/// (proleptic Gregorian calendar), by the era/day-of-era decomposition.
pub open spec fn civil_days(year: int, month: int, day: int) -> int {
    let y = if month <= 2 { year - 1 } else { year };
    let era = y / 400;
    let yoe = y - era * 400;
    let mp = if month > 2 { month - 3 } else { month + 9 };
    let doy = (153 * mp + 2) / 5 + day - 1;
    let doe = yoe * 365 + yoe / 4 - yoe / 100 + doy;
    era * 146097 + doe - 719468
}

/// The civil year that contains day `days` (counted from 1970-01-01), by
/// the inverse decomposition.
pub open spec fn civil_year(days: int) -> int {
    let z = days + 719468;
    let era = z / 146097;
    let doe = z % 146097;
    let yoe = (doe - doe / 1460 + doe / 36524 - doe / 146096) / 365;
    let doy = doe - (365 * yoe + yoe / 4 - yoe / 100);
    let mp = (5 * doy + 2) / 153;
    let month = if mp < 10 { mp + 3 } else { mp - 9 };
    yoe + era * 400 + if month <= 2 { 1int } else { 0int }
}

/// The weekday of day `days`, Sunday = 0 to Saturday = 6 (1970-01-01 was
/// a Thursday).
pub open spec fn weekday_from_sunday(days: int) -> int {
    (days + 4) % 7
}

/// The day number of the `n`th Sunday of `year-month`.
pub open spec fn nth_sunday(year: int, month: int, n: int) -> int {
    let first = civil_days(year, month, 1);
    first + (7 - weekday_from_sunday(first)) % 7 + (n - 1) * 7
}

/// The instant daylight-saving time starts in `year`: 2am EST on the
/// second Sunday of March, 07:00 UTC.
pub open spec fn dst_start(year: int) -> int {
    nth_sunday(year, 3, 2) * day_secs() + 7 * 3600
}

/// The instant daylight-saving time ends in `year`: 2am EDT on the first
/// Sunday of November, 06:00 UTC.
pub open spec fn dst_end(year: int) -> int {
    nth_sunday(year, 11, 1) * day_secs() + 6 * 3600
}

/// The Eastern-time offset from UTC at `now` (Unix seconds): EDT (-4h)
/// from the start of daylight-saving time up to its end in the UTC year of
/// `now`, EST (-5h) otherwise.
pub open spec fn eastern_offset(now: int) -> int {
    let year = civil_year(now / day_secs());
    if dst_start(year) <= now < dst_end(year) {
        -4 * 3600
    } else {
        -5 * 3600
    }
}

/// Whether the regular session is open at `now`: in Eastern local time,
/// Monday to Friday and 09:30 (inclusive) to 16:00 (exclusive).
pub open spec fn market_open(now: int) -> bool {
    let local = now + eastern_offset(now);
    let local_day = local / day_secs();
    let minute = (local % day_secs()) / 60;
    let weekday_from_monday = (local_day + 3) % 7;
    weekday_from_monday < 5 && 570 <= minute < 960
}

/// Whether the daylight-saving boundaries of the year of `now`, and the
/// local time at `now`, fit in an `i64` number of seconds.
pub open spec fn market_state_fits(now: int) -> bool {
    let year = civil_year(now / day_secs());
    &&& i64::MIN <= dst_start(year) <= i64::MAX
    &&& i64::MIN <= dst_end(year) <= i64::MAX
    &&& i64::MIN <= now + eastern_offset(now)
}

fn floor_div(a: i64, b: i64) -> (r: i64)
    requires
        b > 0,
    ensures
        r == a / b,
{
    assert(i64::MIN <= a / b <= i64::MAX) by (nonlinear_arith)
        requires
            b > 0,
            i64::MIN <= a <= i64::MAX,
    {
        if a >= 0 {
            assert(0 <= a / b <= a);
        } else {
            assert(a <= a / b < 0);
        }
    }
    match a.checked_div_euclid(b) {
        Some(q) => q,
        None => 0,
    }
}

fn floor_mod(a: i64, b: i64) -> (r: i64)
    requires
        b > 0,
    ensures
        r == a % b,
        0 <= r < b,
{
    match a.checked_rem_euclid(b) {
        Some(q) => q,
        None => 0,
    }
}

proof fn lemma_div_bound(a: int, b: int)
    requires
        b > 0,
    ensures
        a >= 0 ==> 0 <= a / b <= a,
        a < 0 ==> a <= a / b < 0,
        a / b * b <= a < a / b * b + b,
{
    assert(a >= 0 ==> 0 <= a / b <= a) by (nonlinear_arith)
        requires
            b > 0,
    ;
    assert(a < 0 ==> a <= a / b < 0) by (nonlinear_arith)
        requires
            b > 0,
    ;
    assert(a / b * b <= a < a / b * b + b) by (nonlinear_arith)
        requires
            b > 0,
    ;
}

/// Day number of the civil date `year-month-day`.
pub fn days_from_civil(year: i64, month: i64, day: i64) -> (r: i64)
    requires
        -1_000_000_000_000 <= year <= 1_000_000_000_000,
        1 <= month <= 12,
        1 <= day <= 31,
    ensures
        r == civil_days(year as int, month as int, day as int),
{
    let y = if month <= 2 { year - 1 } else { year };
    let era = floor_div(y, 400);
    proof {
        lemma_div_bound(y as int, 400);
    }
    let yoe = y - era * 400;
    let mp = if month > 2 { month - 3 } else { month + 9 };
    let doy = (153 * mp + 2) / 5 + day - 1;
    let doe = yoe * 365 + yoe / 4 - yoe / 100 + doy;
    era * 146097 + doe - 719468
}

/// The civil year containing day `days`.
pub fn year_of_day(days: i64) -> (r: i64)
    requires
        -200_000_000_000_000 <= days <= 200_000_000_000_000,
    ensures
        r == civil_year(days as int),
        -1_000_000_000_000 <= r <= 1_000_000_000_000,
{
    let z = days + 719468;
    let era = floor_div(z, 146097);
    let doe = floor_mod(z, 146097);
    proof {
        lemma_div_bound(z as int, 146097);
    }
    let yoe = (doe - doe / 1460 + doe / 36524 - doe / 146096) / 365;
    let doy = doe - (365 * yoe + yoe / 4 - yoe / 100);
    let mp = (5 * doy + 2) / 153;
    let month = if mp < 10 { mp + 3 } else { mp - 9 };
    yoe + era * 400 + if month <= 2 { 1 } else { 0 }
}

/// Sunday = 0 to Saturday = 6 weekday of day `days`.
pub fn weekday_sunday0(days: i64) -> (r: i64)
    requires
        days <= i64::MAX - 4,
    ensures
        r == weekday_from_sunday(days as int),
        0 <= r < 7,
{
    floor_mod(days + 4, 7)
}

/// Day number of the `n`th Sunday of `year-month`.
pub fn nth_sunday_of_month(year: i64, month: i64, n: i64) -> (r: i64)
    requires
        -1_000_000_000_000 <= year <= 1_000_000_000_000,
        1 <= month <= 12,
        1 <= n <= 5,
    ensures
        r == nth_sunday(year as int, month as int, n as int),
{
    let first_day = days_from_civil(year, month, 1);
    let offset_to_sunday = (7 - weekday_sunday0(first_day)) % 7;
    first_day + offset_to_sunday + (n - 1) * 7
}

/// `"open"` when the regular session is open at `now` (Unix seconds),
/// `"closed"` otherwise.
pub fn regular_market_state(now: i64) -> (r: &'static str)
    requires
        market_state_fits(now as int),
    ensures
        r@ == (if market_open(now as int) { "open"@ } else { "closed"@ }),
{
    let utc_days = floor_div(now, 86_400);
    proof {
        lemma_div_bound(now as int, 86_400);
    }
    let year = year_of_day(utc_days);
    let march = nth_sunday_of_month(year, 3, 2);
    let november = nth_sunday_of_month(year, 11, 1);
    let dst_start = march * 86_400 + 7 * 3_600;
    let dst_end = november * 86_400 + 6 * 3_600;
    let in_dst = now >= dst_start && now < dst_end;
    let offset_secs: i64 = if in_dst { -4 * 3_600 } else { -5 * 3_600 };
    let local_secs = now + offset_secs;
    let local_days = floor_div(local_secs, 86_400);
    let local_day_secs = floor_mod(local_secs, 86_400);
    proof {
        lemma_div_bound(local_secs as int, 86_400);
    }
    let weekday = floor_mod(local_days + 3, 7);
    if weekday >= 5 {
        return "closed";
    }
    let minutes = local_day_secs / 60;
    if 570 <= minutes && minutes < 960 {
        "open"
    } else {
        "closed"
    }
}

/// The regular session's state at `now` (see [`regular_market_state`]), or
/// `None` when the daylight-saving boundaries of the year of `now`, or the
/// local time at `now`, do not fit in an `i64` number of seconds.
pub fn regular_market_state_checked(now: i64) -> (r: Option<&'static str>)
    ensures
        r is Some <==> market_state_fits(now as int),
        r matches Some(s) ==> s@ == (if market_open(now as int) { "open"@ } else { "closed"@ }),
{
    let utc_days = floor_div(now, 86_400);
    proof {
        lemma_div_bound(now as int, 86_400);
    }
    let year = year_of_day(utc_days);
    let march = nth_sunday_of_month(year, 3, 2);
    let november = nth_sunday_of_month(year, 11, 1);
    let start: i128 = (march as i128) * 86_400 + 7 * 3_600;
    let end: i128 = (november as i128) * 86_400 + 6 * 3_600;
    let lo: i128 = i64::MIN as i128;
    let hi: i128 = i64::MAX as i128;
    if start < lo || start > hi || end < lo || end > hi {
        return None;
    }
    let t: i128 = now as i128;
    let offset: i128 = if start <= t && t < end { -14_400 } else { -18_000 };
    if t + offset < lo {
        return None;
    }
    Some(regular_market_state(now))
}

/// The `n`th Sunday of a month is a Sunday.
pub proof fn law_nth_sunday_is_a_sunday(year: int, month: int, n: int)
    ensures
        weekday_from_sunday(nth_sunday(year, month, n)) == 0,
{
    let first = civil_days(year, month, 1);
    let w = weekday_from_sunday(first);
    assert(0 <= w < 7);
    let off = (7 - w) % 7;
    assert((first + off + (n - 1) * 7 + 4) % 7 == 0) by (nonlinear_arith)
        requires
            w == (first + 4) % 7,
            off == (7 - w) % 7,
            0 <= w < 7,
    {
        if w == 0 {
            assert(off == 0);
        } else {
            assert(off == 7 - w);
        }
    }
}

/// Saturdays and Sundays (Eastern time) are always closed.
pub proof fn law_weekends_are_closed(now: int)
    ensures
        ((now + eastern_offset(now)) / day_secs() + 3) % 7 >= 5 ==> !market_open(now),
{
}

/// Whether `year` is a leap year of the Gregorian calendar.
pub open spec fn is_leap_year(year: int) -> bool {
    (year % 4 == 0 && year % 100 != 0) || year % 400 == 0
}

/// The number of days of `month` in `year`.
pub open spec fn days_in_month(year: int, month: int) -> int {
    if month == 2 {
        if is_leap_year(year) { 29 } else { 28 }
    } else if month == 4 || month == 6 || month == 9 || month == 11 {
        30
    } else {
        31
    }
}

/// Within a 400-year era, counting the days of year-of-era `yoe` (years
/// starting in March) and dividing back recovers `yoe`, for every day the
/// year has.
proof fn lemma_year_of_era(yoe: u32, doy: u32, doe: u32, yb: u32)
    by (bit_vector)
    requires
        yoe < 400,
        doy < 366,
        doy <= 364 || ((yoe + 1) as u32 % 4 == 0 && (yoe + 1) as u32 % 100 != 0) || (yoe + 1) as u32 % 400 == 0,
        doe == (yoe * 365 + yoe / 4 - yoe / 100 + doy) as u32,
        yb == ((doe - doe / 1460 + doe / 36524 - doe / 146096) as u32) / 365,
    ensures
        yb == yoe,
{
}

/// The month index (March = 0) of a day of the year is read back from
/// the day's offset, for every day the month has.
proof fn lemma_month_of_day(mp: u32, day: u32, doy: u32)
    by (bit_vector)
    requires
        mp < 12,
        1 <= day <= 31,
        (mp == 1 || mp == 3 || mp == 6 || mp == 8) ==> day <= 30,
        mp == 11 ==> day <= 29,
        doy == ((153 * mp + 2) as u32 / 5 + day - 1) as u32,
    ensures
        (5 * doy + 2) as u32 / 153 == mp,
        doy < 366,
        mp < 11 ==> doy <= 336,
{
}

/// Counting the days of a date and reading the year back agree: the year
/// of the day number of any valid date is that date's year.
pub proof fn law_year_of_civil_days(year: int, month: int, day: int)
    requires
        1 <= month <= 12,
        1 <= day <= days_in_month(year, month),
    ensures
        civil_year(civil_days(year, month, day)) == year,
{
    let y = if month <= 2 { year - 1 } else { year };
    let era = y / 400;
    let yoe = y - era * 400;
    vstd::arithmetic::div_mod::lemma_fundamental_div_mod(y, 400);
    assert(0 <= yoe < 400);
    let mp = if month > 2 { month - 3 } else { month + 9 };
    let doy = (153 * mp + 2) / 5 + day - 1;
    lemma_month_of_day(mp as u32, day as u32, doy as u32);
    assert(0 <= doy < 366);
    // The leap day of the year `y + 1` is the last day of the March-based
    // year of era `yoe`, and `y + 1` and `yoe + 1` differ by whole eras.
    assert((y + 1) % 4 == (yoe + 1) % 4 && (y + 1) % 100 == (yoe + 1) % 100 && (y + 1) % 400 == (yoe + 1) % 400)
        by (nonlinear_arith)
        requires
            y == era * 400 + yoe,
    {
        vstd::arithmetic::div_mod::lemma_mod_multiples_vanish(era * 100, yoe + 1, 4);
        vstd::arithmetic::div_mod::lemma_mod_multiples_vanish(era * 4, yoe + 1, 100);
        vstd::arithmetic::div_mod::lemma_mod_multiples_vanish(era, yoe + 1, 400);
    }
    assert(doy <= 364 || is_leap_year(y + 1));
    let doe = yoe * 365 + yoe / 4 - yoe / 100 + doy;
    assert(0 <= doe < 146097);
    let yb = (doe - doe / 1460 + doe / 36524 - doe / 146096) / 365;
    lemma_year_of_era(yoe as u32, doy as u32, doe as u32, yb as u32);
    let z = civil_days(year, month, day) + 719468;
    assert(z == era * 146097 + doe);
    vstd::arithmetic::div_mod::lemma_fundamental_div_mod_converse(z, 146097, era, doe);
}

/// The daylight-saving boundaries of a year fall on dates of that year:
/// the second Sunday of March is March 8 to 14, and the first Sunday of
/// November is November 1 to 7.
pub proof fn law_dst_sundays_fall_in_their_year(year: int)
    ensures
        civil_year(nth_sunday(year, 3, 2)) == year,
        civil_year(nth_sunday(year, 11, 1)) == year,
{
    let m1 = civil_days(year, 3, 1);
    let om = (7 - weekday_from_sunday(m1)) % 7;
    assert(0 <= om < 7);
    assert(nth_sunday(year, 3, 2) == civil_days(year, 3, 8 + om));
    law_year_of_civil_days(year, 3, 8 + om);
    let n1 = civil_days(year, 11, 1);
    let on = (7 - weekday_from_sunday(n1)) % 7;
    assert(0 <= on < 7);
    assert(nth_sunday(year, 11, 1) == civil_days(year, 11, 1 + on));
    law_year_of_civil_days(year, 11, 1 + on);
}

} // verus!
