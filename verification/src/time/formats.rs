//! Conversion of clock readings to POSIX time.
use vstd::prelude::*;
use crate::time::{
    days_before_month, days_before_year, spec_datetime_of, spec_is_leap_year, spec_unix_timestamp,
    spec_weekday, split_months, split_years, tdiv, trem, year_days, RtcDateTime,
};
use vstd::arithmetic::div_mod::{
    lemma_basic_div, lemma_fundamental_div_mod, lemma_hoist_over_denominator, lemma_mod_multiples_vanish,
};

verus! {

/// The days from 1970-01-01 to the date of `rtc` (negative before it): the day number of
/// the date in a March-based year count, less that of 1970-01-01.
pub open spec fn posix_days(rtc: RtcDateTime) -> int {
    let year = if rtc.month <= 2 {
        rtc.year - 1
    } else {
        rtc.year as int
    };
    let month = if rtc.month <= 2 {
        rtc.month + 12
    } else {
        rtc.month as int
    };
    365 * year + tdiv(year, 4) - tdiv(year, 100) + tdiv(year, 400) + tdiv(153 * month - 457, 5)
        + rtc.day - 719469
}

/// The seconds value that the conversion computes from `rtc`, the day count taken
/// modulo 2^32.
pub open spec fn spec_rtc_to_posix(rtc: RtcDateTime) -> int {
    (posix_days(rtc) as u32) * 86400 + rtc.hour * 3600 + rtc.minute * 60 + rtc.second
}

/// The day number of 1 March of year `y` (for `y >= 0`), counting 365 days a year and the
/// Gregorian leap days.
spec fn march_days(y: int) -> int {
    365 * y + y / 4 - y / 100 + y / 400
}

/// From one March to the next there are as many days as the later calendar year has.
proof fn lemma_march_days_step(y: int)
    requires
        y >= 1,
    ensures
        march_days(y) - march_days(y - 1) == year_days(y),
{
}

/// The days of the years from 1970 up to `y`, expressed through `march_days`.
proof fn lemma_days_before_year_march(y: int)
    requires
        y >= 1970,
    ensures
        days_before_year(y) == march_days(y - 1) + 306 - 719468,
    decreases y - 1970,
{
    if y > 1970 {
        lemma_days_before_year_march(y - 1);
        lemma_march_days_step(y - 1);
    }
}

/// The days before month `m` of a year, expressed through the March-based month term.
proof fn lemma_days_before_month_march(m: int, leap: bool)
    requires
        1 <= m <= 12,
    ensures
        m >= 3 ==> (153 * m - 457) / 5 == days_before_month(m, leap) - 59 - (if leap { 1int } else { 0 }),
        m <= 2 ==> (153 * (m + 12) - 457) / 5 - 306 == days_before_month(m, leap),
{
    reveal_with_fuel(days_before_month, 13);
}

/// For a date from 1970 on, the day count of the conversion is the number of days since
/// 1970-01-01.
pub proof fn lemma_posix_days_since_epoch(rtc: RtcDateTime)
    requires
        rtc.year >= 1970,
        1 <= rtc.month <= 12,
    ensures
        posix_days(rtc) == days_before_year(rtc.year as int) + days_before_month(
            rtc.month as int,
            spec_is_leap_year(rtc.year as int),
        ) + rtc.day - 1,
{
    let y = rtc.year as int;
    let m = rtc.month as int;
    let leap = spec_is_leap_year(y);
    lemma_days_before_year_march(y);
    lemma_days_before_month_march(m, leap);
    lemma_march_days_step(y);
    if m <= 2 {
        assert(posix_days(rtc) == march_days(y - 1) + (153 * (m + 12) - 457) / 5 + rtc.day - 719469);
    } else {
        assert(posix_days(rtc) == march_days(y) + (153 * m - 457) / 5 + rtc.day - 719469);
    }
}

/// The weekday that Zeller's congruence gives a date (0 = Sunday) is the weekday of its
/// day count from 1970-01-01, a Thursday: four days on from a Sunday, one more each day.
#[verifier::spinoff_prover]
pub proof fn lemma_zeller_weekday(rtc: RtcDateTime)
    requires
        rtc.year >= 1,
        1 <= rtc.month <= 12,
    ensures
        spec_weekday(rtc.year as int, rtc.month as int, rtc.day as int) as int == (posix_days(rtc) + 4) % 7,
{
    let y2: int = if rtc.month <= 2 { rtc.year - 1 } else { rtc.year as int };
    let m2: int = if rtc.month <= 2 { rtc.month + 12 } else { rtc.month as int };
    let d = rtc.day as int;
    assert(y2 >= 0);
    let j = y2 / 100;
    let k = y2 % 100;
    lemma_fundamental_div_mod(y2, 100);
    assert(y2 == 100 * j + k && 0 <= k < 100 && j >= 0);
    // The leap-day terms of the year count, in the century and the year in it.
    lemma_hoist_over_denominator(k, 25 * j, 4);
    assert(25 * j * 4 == 100 * j);
    assert(y2 / 4 == k / 4 + 25 * j);
    let jq = j / 4;
    let jr = j % 4;
    lemma_fundamental_div_mod(j, 4);
    assert(0 <= jr < 4 && j == 4 * jq + jr);
    lemma_hoist_over_denominator(100 * jr + k, jq, 400);
    lemma_basic_div(100 * jr + k, 400);
    assert(y2 == 100 * jr + k + jq * 400);
    assert(y2 / 400 == jq);
    assert(tdiv(y2, 4) == y2 / 4 && tdiv(y2, 100) == j && tdiv(y2, 400) == jq);
    assert(trem(y2, 100) == k && tdiv(k, 4) == k / 4 && tdiv(j, 4) == jq);
    // The month terms of the two formulas differ by 4 modulo 7.
    let pm = (153 * m2 - 457) / 5;
    let zm = (13 * (m2 + 1)) / 5;
    assert(tdiv(153 * m2 - 457, 5) == pm);
    assert(tdiv(13 * (m2 + 1), 5) == zm);
    let tm: int = if m2 == 3 { -2 } else if m2 == 4 { 2 } else if m2 == 5 { 6 } else if m2 == 6 { 10 } else if m2 == 7 {
        14
    } else if m2 == 8 { 18 } else if m2 == 9 { 22 } else if m2 == 10 { 26 } else if m2 == 11 { 30 } else if m2 == 12 {
        34
    } else if m2 == 13 { 38 } else { 42 };
    assert(pm - zm == 4 + 7 * tm);
    let sum = d + zm + k + k / 4 + jq - 2 * j;
    assert(posix_days(rtc) == 365 * y2 + y2 / 4 - j + jq + pm + d - 719469);
    let c = 5218 * j + 52 * k + tm - 102781;
    assert(posix_days(rtc) + 4 == 7 * c + (sum + 6));
    lemma_mod_multiples_vanish(c, sum + 6, 7);
    // Zeller's truncating remainders give the same as the Euclidean one.
    let h = trem(sum, 7);
    if sum >= 0 {
        lemma_fundamental_div_mod(sum, 7);
        assert(h == sum % 7);
        lemma_fundamental_div_mod(h + 6, 7);
        lemma_fundamental_div_mod(sum + 6, 7);
        assert(trem(h + 6, 7) == (sum + 6) % 7);
    } else {
        let q = (-sum) / 7;
        let r = (-sum) % 7;
        lemma_fundamental_div_mod(-sum, 7);
        assert(h == -r);
        assert(0 <= h + 6 < 7);
        assert(trem(h + 6, 7) == h + 6);
        assert(sum + 6 == 7 * (-q) + (6 - r));
        lemma_mod_multiples_vanish(-q, 6 - r, 7);
        assert((6 - r) % 7 == 6 - r);
    }
    assert(spec_weekday(rtc.year as int, rtc.month as int, rtc.day as int) as int == trem(h + 6, 7));
}

/// The weekday of the date at a timestamp is the day count since 1970-01-01 (a Thursday)
/// plus four, modulo seven: so it moves on by one each day.
#[verifier::spinoff_prover]
pub proof fn lemma_weekday_of_timestamp(ts: int)
    requires
        0 <= ts,
        split_years(tdiv(ts, 86400), 1970).0 <= 65535,
    ensures
        spec_datetime_of(ts).weekday as int == (tdiv(ts, 86400) + 4) % 7,
{
    let days = tdiv(ts, 86400);
    assert(days >= 0);
    crate::time::lemma_split_years(days, 1970);
    let (year, rest) = split_years(days, 1970);
    let leap = spec_is_leap_year(year);
    crate::time::lemma_days_before_month(leap);
    crate::time::lemma_split_months(rest, 1, leap);
    let (month, rest2) = split_months(rest, 1, leap);
    let dt = spec_datetime_of(ts);
    assert(dt.year == year && dt.month == month && dt.day == rest2 + 1);
    assert(days_before_year(1970) == 0);
    assert(days_before_month(1, leap) == 0);
    lemma_posix_days_since_epoch(dt);
    assert(posix_days(dt) == days);
    lemma_zeller_weekday(dt);
}

/// From one day to the next the weekday moves on by one, modulo seven.
#[verifier::spinoff_prover]
#[verifier::rlimit(40)]
pub proof fn lemma_weekday_next_day(ts: int)
    requires
        0 <= ts,
        split_years(tdiv(ts, 86400), 1970).0 <= 65535,
        split_years(tdiv(ts + 86400, 86400), 1970).0 <= 65535,
    ensures
        spec_datetime_of(ts + 86400).weekday as int == (spec_datetime_of(ts).weekday + 1) % 7,
{
    lemma_hoist_over_denominator(ts, 1, 86400);
    assert(tdiv(ts + 86400, 86400) == tdiv(ts, 86400) + 1);
    lemma_weekday_of_timestamp(ts);
    lemma_weekday_of_timestamp(ts + 86400);
    let a = tdiv(ts, 86400) + 4;
    assert((a + 1) % 7 == (a % 7 + 1) % 7) by {
        vstd::arithmetic::div_mod::lemma_add_mod_noop(a, 1, 7);
    }
}

/// Helper function to convert RtcDateTime to POSIX timestamp
pub fn rtc_to_posix(rtc: &RtcDateTime) -> (t: u32)
    requires
        spec_rtc_to_posix(*rtc) <= u32::MAX,
    ensures
        t == spec_rtc_to_posix(*rtc),
        rtc.year >= 1970 && 1 <= rtc.month <= 12 && rtc.day >= 1 ==> t == spec_unix_timestamp(*rtc),
{
    proof {
        if rtc.year >= 1970 && 1 <= rtc.month <= 12 && rtc.day >= 1 {
            lemma_posix_days_since_epoch(*rtc);
            crate::time::lemma_days_before_year_bound(rtc.year as int);
            crate::time::lemma_days_before_month(spec_is_leap_year(rtc.year as int));
            assert(0 <= days_before_month(rtc.month as int, spec_is_leap_year(rtc.year as int)));
        }
    }
    let mut year = rtc.year as i32;
    let mut month = rtc.month as i32;

    if month <= 2 {
        year -= 1;
        month += 12;
    }

    let days = 365 * year + year / 4 - year / 100 + year / 400 + (153 * month - 457) / 5
        + rtc.day as i32 - 719469;

    let d = days as u32;
    assert(d * 86400 <= u32::MAX);
    d * 86400 + rtc.hour as u32 * 3600 + rtc.minute as u32 * 60 + rtc.second as u32
}

} // verus!
