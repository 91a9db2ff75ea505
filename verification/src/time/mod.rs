//! Real-time-clock values and their conversion to and from Unix time.
pub mod formats;

use vstd::prelude::*;

verus! {

/// CMOS/RTC register addresses
pub const RTC_SECONDS: u8 = 0x00;
pub const RTC_MINUTES: u8 = 0x02;
pub const RTC_HOURS: u8 = 0x04;
pub const RTC_WEEKDAY: u8 = 0x06;
pub const RTC_DAY: u8 = 0x07;
pub const RTC_MONTH: u8 = 0x08;
pub const RTC_YEAR: u8 = 0x09;
pub const RTC_CENTURY: u8 = 0x32;
pub const RTC_STATUS_A: u8 = 0x0A;
pub const RTC_STATUS_B: u8 = 0x0B;

/// RTC Status Register B flags
pub const RTC_24_HOUR: u8 = 0x02;
pub const RTC_BINARY: u8 = 0x04;

/// RTC Status Register A flags
pub const RTC_UIP: u8 = 0x80;

/// NMI disable bit
pub const NMI_DISABLE: u8 = 0x80;

/// Date and time structure
#[derive(Debug, Clone, Copy, PartialEq, Eq, Structural)]
pub struct RtcDateTime {
    pub second: u8,
    pub minute: u8,
    pub hour: u8,
    pub day: u8,
    pub month: u8,
    pub year: u16,
    pub weekday: u8,
}

/// The raw values of the clock registers, as read one after another.
#[derive(Debug, Clone, Copy, PartialEq, Eq, Structural)]
pub struct RtcRegisters {
    pub second: u8,
    pub minute: u8,
    pub hour: u8,
    pub day: u8,
    pub month: u8,
    pub year: u8,
    pub weekday: u8,
    pub century: u8,
    pub status_b: u8,
}

/// The clock chip, reached through an address port and a data port.
#[derive(Debug)]
pub struct Rtc {
    /// The port through which a register is selected.
    pub address_port: u16,
    /// The port through which the selected register is read or written.
    pub data_port: u16,
}

// ---------------------------------------------------------------------------
// Calendar arithmetic
// ---------------------------------------------------------------------------

/// Gregorian leap years.
pub open spec fn spec_is_leap_year(year: int) -> bool {
    (year % 4 == 0 && year % 100 != 0) || (year % 400 == 0)
}

/// The number of days of `year`.
pub open spec fn year_days(year: int) -> int {
    if spec_is_leap_year(year) {
        366
    } else {
        365
    }
}

/// The days of the years `1970..year`; none before 1970.
pub open spec fn days_before_year(year: int) -> int
    decreases year - 1970,
{
    if year <= 1970 {
        0
    } else {
        days_before_year(year - 1) + year_days(year - 1)
    }
}

/// The length of month `m` (1 = January).
pub open spec fn month_len(m: int, leap: bool) -> int {
    if m == 2 {
        if leap {
            29
        } else {
            28
        }
    } else if m == 4 || m == 6 || m == 9 || m == 11 {
        30
    } else {
        31
    }
}

/// The days of the months `1..m` of a year.
pub open spec fn days_before_month(m: int, leap: bool) -> int
    decreases m,
{
    if m <= 1 {
        0
    } else {
        days_before_month(m - 1, leap) + month_len(m - 1, leap)
    }
}

/// The seconds from 1970-01-01 00:00:00 to `dt`, counting whole years from 1970,
/// whole months of `dt.year` and `dt.day - 1` days.
pub open spec fn spec_unix_timestamp(dt: RtcDateTime) -> int {
    (days_before_year(dt.year as int) + days_before_month(dt.month as int, spec_is_leap_year(dt.year as int))
        + dt.day - 1) * 86400 + dt.hour * 3600 + dt.minute * 60 + dt.second
}

/// Division truncating toward zero, for a positive divisor.
pub open spec fn tdiv(a: int, b: int) -> int {
    if a >= 0 {
        a / b
    } else {
        -((-a) / b)
    }
}

/// The remainder that goes with `tdiv`; it has the sign of `a`.
pub open spec fn trem(a: int, b: int) -> int {
    a - b * tdiv(a, b)
}

/// The year that `days` (counted from the start of `year`) falls in, and the days left in it.
pub open spec fn split_years(days: int, year: int) -> (int, int)
    decreases days,
{
    if days < year_days(year) {
        (year, days)
    } else {
        split_years(days - year_days(year), year + 1)
    }
}

/// The month that `days` (counted from the start of month `m`) falls in, and the days left
/// in it; months past December count as 13.
pub open spec fn split_months(days: int, m: int, leap: bool) -> (int, int)
    decreases 13 - m,
{
    if m >= 13 || days < month_len(m, leap) {
        (m, days)
    } else {
        split_months(days - month_len(m, leap), m + 1, leap)
    }
}

/// Zeller's congruence as computed on 32-bit signed values (0 = Sunday).
pub open spec fn spec_weekday(year: int, month: int, day: int) -> u8 {
    let y = if month < 3 {
        year - 1
    } else {
        year
    };
    let m = if month < 3 {
        month + 12
    } else {
        month
    };
    let k = trem(y, 100);
    let j = tdiv(y, 100);
    let h = trem(day + tdiv(13 * (m + 1), 5) + k + tdiv(k, 4) + tdiv(j, 4) - 2 * j, 7);
    trem(h + 6, 7) as u8
}

/// The date and time at `ts` seconds after 1970-01-01 00:00:00.
pub open spec fn spec_datetime_of(ts: int) -> RtcDateTime {
    let days = tdiv(ts, 86400);
    let rem = trem(ts, 86400);
    let (year, rest) = split_years(days, 1970);
    let (month, rest2) = split_months(rest, 1, spec_is_leap_year(year));
    let day = (rest2 + 1) as u8;
    RtcDateTime {
        second: trem(trem(rem, 3600), 60) as u8,
        minute: tdiv(trem(rem, 3600), 60) as u8,
        hour: tdiv(rem, 3600) as u8,
        day,
        month: month as u8,
        year: year as u16,
        weekday: spec_weekday(year as u16 as int, month as u8 as int, day as int),
    }
}

/// The binary value of a two-digit BCD byte.
pub open spec fn spec_bcd_to_binary(bcd: u8) -> u8 {
    ((bcd / 16) * 10 + bcd % 16) as u8
}

/// A register's value: as it is in binary mode, else read as two BCD digits.
pub open spec fn reg_value(v: u8, binary: bool) -> u8 {
    if binary {
        v
    } else {
        spec_bcd_to_binary(v)
    }
}

/// The hour on a 24-hour clock of hour `h` of a 12-hour clock: 12 counts as 0, and the
/// afternoon adds 12.
pub open spec fn hour_of_12(h: u8, pm: bool) -> u8 {
    ((if h == 12 { 0 } else { h as int }) + (if pm { 12int } else { 0 })) as u8
}

/// The full year of a two-digit `year` and the century register: the century when it is
/// between 1 and 98, else 20xx below 80 and 19xx from 80.
pub open spec fn full_year(century: u8, year: u8) -> u16 {
    if 0 < century < 99 {
        (century * 100 + year) as u16
    } else if year < 80 {
        (2000 + year) as u16
    } else {
        (1900 + year) as u16
    }
}

/// The date and time that the register values encode.  Status register B says whether
/// the values are binary or BCD and whether the clock runs on 24 hours; on a 12-hour
/// clock bit 7 of the hour register flags the afternoon and the hour is in its low seven
/// bits (a BCD 24-hour hour is read from those bits too).
pub open spec fn spec_decode_registers(regs: RtcRegisters) -> RtcDateTime {
    let binary = regs.status_b & RTC_BINARY != 0;
    let low_hour = if binary { regs.hour } else { spec_bcd_to_binary(regs.hour & 0x7F) };
    RtcDateTime {
        second: reg_value(regs.second, binary),
        minute: reg_value(regs.minute, binary),
        hour: if regs.status_b & RTC_24_HOUR != 0 {
            low_hour
        } else {
            hour_of_12(reg_value(regs.hour & 0x7F, binary), regs.hour & 0x80 != 0)
        },
        day: reg_value(regs.day, binary),
        month: reg_value(regs.month, binary),
        year: full_year(reg_value(regs.century, binary), reg_value(regs.year, binary)),
        weekday: regs.weekday,
    }
}

// ---------------------------------------------------------------------------
// Lemmas
// ---------------------------------------------------------------------------

pub(crate) proof fn lemma_days_before_year_bound(year: int)
    ensures
        0 <= days_before_year(year),
        year >= 1970 ==> days_before_year(year) <= 366 * (year - 1970),
        year >= 1970 ==> days_before_year(year) >= 365 * (year - 1970),
    decreases year - 1970,
{
    if year > 1970 {
        lemma_days_before_year_bound(year - 1);
    }
}

pub(crate) proof fn lemma_days_before_month(leap: bool)
    ensures
        days_before_month(13, leap) == (if leap {
            366int
        } else {
            365int
        }),
        forall|m: int| 1 <= m <= 13 ==> 0 <= #[trigger] days_before_month(m, leap) <= 366,
{
    reveal_with_fuel(days_before_month, 14);
    assert forall|m: int| 1 <= m <= 13 implies 0 <= #[trigger] days_before_month(m, leap) <= 366 by {
        reveal_with_fuel(days_before_month, 14);
    }
}

pub(crate) proof fn lemma_split_years(days: int, year: int)
    ensures
        ({
            let (y, r) = split_years(days, year);
            &&& y >= year
            &&& r < year_days(y)
            &&& days >= 0 ==> 0 <= r
            &&& days < 0 ==> y == year && r == days
            &&& year >= 1970 && days >= 0 ==> days_before_year(y) + r == days_before_year(year)
                + days
        }),
    decreases days,
{
    if days >= year_days(year) {
        lemma_split_years(days - year_days(year), year + 1);
    }
}

pub(crate) proof fn lemma_split_months(days: int, m: int, leap: bool)
    requires
        0 <= days,
        1 <= m <= 13,
        days_before_month(m, leap) + days < days_before_month(13, leap),
    ensures
        ({
            let (mm, r) = split_months(days, m, leap);
            &&& m <= mm <= 12
            &&& 0 <= r < month_len(mm, leap)
            &&& days_before_month(mm, leap) + r == days_before_month(m, leap) + days
        }),
    decreases 13 - m,
{
    if m >= 13 {
        assert(false);
    } else if days >= month_len(m, leap) {
        assert(days_before_month(m + 1, leap) == days_before_month(m, leap) + month_len(m, leap));
        lemma_split_months(days - month_len(m, leap), m + 1, leap);
    }
}

/// Converting a non-negative timestamp to a date and back gives the same timestamp.
pub proof fn lemma_timestamp_roundtrip(ts: int)
    requires
        0 <= ts,
        split_years(tdiv(ts, 86400), 1970).0 <= 65535,
    ensures
        spec_unix_timestamp(spec_datetime_of(ts)) == ts,
{
    let days = tdiv(ts, 86400);
    let rem = trem(ts, 86400);
    assert(0 <= rem < 86400);
    lemma_split_years(days, 1970);
    let (year, rest) = split_years(days, 1970);
    let leap = spec_is_leap_year(year);
    lemma_days_before_month(leap);
    lemma_split_months(rest, 1, leap);
    let (month, rest2) = split_months(rest, 1, leap);
    let dt = spec_datetime_of(ts);
    assert(dt.year == year);
    assert(dt.month == month);
    assert(dt.day == rest2 + 1);
    assert(dt.hour * 3600 + dt.minute * 60 + dt.second == rem);
}

// ---------------------------------------------------------------------------
// Executable code
// ---------------------------------------------------------------------------

/// The days of month `m` (0 = January) in a common year.
fn days_in_month(m: u8) -> (d: u8)
    requires
        m < 12,
    ensures
        d == month_len(m + 1, false),
{
    match m {
        1 => 28,
        3 | 5 | 8 | 10 => 30,
        _ => 31,
    }
}

impl Rtc {
    /// Create a new RTC driver instance
    pub fn new() -> (rtc: Self)
        ensures
            rtc.address_port == 0x70,
            rtc.data_port == 0x71,
    {
        Self { address_port: 0x70, data_port: 0x71 }
    }

    /// The value written to the address port to select `reg` with NMIs disabled.
    pub fn register_select(reg: u8) -> (v: u8)
        ensures
            v == NMI_DISABLE | reg,
    {
        NMI_DISABLE | reg
    }

    /// Whether status register A reports an update in progress.
    pub fn is_update_in_progress(status_a: u8) -> (b: bool)
        ensures
            b == (status_a & RTC_UIP != 0),
    {
        status_a & RTC_UIP != 0
    }

    /// Convert BCD to binary
    pub fn bcd_to_binary(bcd: u8) -> (b: u8)
        ensures
            b == spec_bcd_to_binary(bcd),
    {
        assert((bcd >> 4u8) == bcd / 16 && (bcd & 0x0F) == bcd % 16) by (bit_vector);
        ((bcd >> 4) * 10) + (bcd & 0x0F)
    }

    /// The date and time that a set of register values encodes.
    pub fn decode_registers(regs: &RtcRegisters) -> (dt: RtcDateTime)
        ensures
            dt == spec_decode_registers(*regs),
    {
        let is_binary = regs.status_b & RTC_BINARY != 0;
        let is_24hour = regs.status_b & RTC_24_HOUR != 0;

        let second = if is_binary { regs.second } else { Self::bcd_to_binary(regs.second) };
        let minute = if is_binary { regs.minute } else { Self::bcd_to_binary(regs.minute) };
        let mut hour = if is_binary {
            regs.hour
        } else {
            Self::bcd_to_binary(regs.hour & 0x7F)
        };
        let day = if is_binary { regs.day } else { Self::bcd_to_binary(regs.day) };
        let month = if is_binary { regs.month } else { Self::bcd_to_binary(regs.month) };
        let year = if is_binary { regs.year } else { Self::bcd_to_binary(regs.year) };
        let century = if is_binary { regs.century } else { Self::bcd_to_binary(regs.century) };

        // Handle 12-hour format (convert to 24-hour): the PM flag is bit 7 of the raw
        // register, the hour the low seven bits.
        if !is_24hour {
            let rh: u8 = regs.hour;
            let pm = rh & 0x80 != 0;
            let low = rh & 0x7F;
            assert(low <= 0x7F) by (bit_vector)
                requires
                    low == rh & 0x7F,
            ;
            let h12 = if is_binary { low } else { Self::bcd_to_binary(low) };
            hour = h12;
            if pm && hour != 12 {
                hour += 12;
            } else if !pm && hour == 12 {
                hour = 0;
            }
        }

        let full_year: u16 = if century > 0 && century < 99 {
            (century as u16) * 100 + (year as u16)
        } else {
            if year < 80 {
                2000 + year as u16
            } else {
                1900 + year as u16
            }
        };

        RtcDateTime { second, minute, hour, day, month, year: full_year, weekday: regs.weekday }
    }

    /// The reading of one pass over the registers: nothing when an update began while
    /// they were being read, else the date and time they encode.
    pub fn read_datetime(regs: &RtcRegisters, updated_during_read: bool) -> (r: Option<RtcDateTime>)
        ensures
            updated_during_read ==> r.is_none(),
            !updated_during_read ==> r == Some(spec_decode_registers(*regs)),
    {
        if updated_during_read {
            return None;
        }
        Some(Self::decode_registers(regs))
    }

    /// Check if a year is a leap year
    pub fn is_leap_year(year: u16) -> (b: bool)
        ensures
            b == spec_is_leap_year(year as int),
    {
        (year % 4 == 0 && year % 100 != 0) || (year % 400 == 0)
    }

    /// Convert RTC datetime to Unix timestamp (seconds since 1970-01-01 00:00:00 UTC)
    pub fn datetime_to_unix_timestamp(dt: &RtcDateTime) -> (seconds: i64)
        requires
            dt.month <= 13,
        ensures
            seconds == spec_unix_timestamp(*dt),
    {
        let year = dt.year as i64;
        let month = dt.month as i64;
        let day = dt.day as i64;

        let mut days: i64 = 0;
        let mut y: i64 = 1970;
        proof {
            lemma_days_before_year_bound(year as int);
        }
        while y < year
            invariant
                1970 <= y,
                year <= 65535,
                year == dt.year,
                days == days_before_year(y as int),
                year >= 1970 ==> y <= year,
                year < 1970 ==> y == 1970,
            decreases year - y,
        {
            proof {
                lemma_days_before_year_bound(y as int);
            }
            days += if Self::is_leap_year(y as u16) { 366 } else { 365 };
            y = y + 1;
        }
        proof {
            if year > 1970 {
                assert(y == year);
            } else {
                assert(days_before_year(year as int) == 0);
            }
        }
        assert(days == days_before_year(year as int));

        let leap = Self::is_leap_year(year as u16);
        let ghost dby = days;
        let mut m: i64 = 1;
        proof {
            lemma_days_before_month(leap);
        }
        while m < month
            invariant
                1 <= m,
                month == dt.month,
                month <= 13,
                m <= 13,
                month >= 1 ==> m <= month,
                month < 1 ==> m == 1,
                0 <= dby <= 366 * 65535,
                leap == spec_is_leap_year(year as int),
                days == dby + days_before_month(m as int, leap),
                forall|k: int| 1 <= k <= 13 ==> 0 <= #[trigger] days_before_month(k, leap) <= 366,
            decreases month - m,
        {
            days += days_in_month((m - 1) as u8) as i64;
            if m == 2 && leap {
                days += 1;
            }
            m = m + 1;
        }
        proof {
            if month <= 1 {
                assert(days_before_month(month as int, leap) == 0);
            }
        }
        assert(days == dby + days_before_month(month as int, leap));

        days += day - 1;

        days * 86400 + (dt.hour as i64) * 3600 + (dt.minute as i64) * 60 + (dt.second as i64)
    }

    /// Convert Unix timestamp to RTC datetime
    pub fn unix_timestamp_to_datetime(timestamp: i64) -> (dt: RtcDateTime)
        requires
            timestamp < 0 || split_years(tdiv(timestamp as int, 86400), 1970).0 <= 65535,
        ensures
            dt == spec_datetime_of(timestamp as int),
    {
        let mut days = timestamp / 86400;
        let mut remaining = timestamp % 86400;

        let hour = (remaining / 3600) as u8;
        remaining = remaining % 3600;
        let minute = (remaining / 60) as u8;
        let second = (remaining % 60) as u8;

        let ghost days0 = days as int;
        // Calculate year
        let mut year: u16 = 1970;
        proof {
            lemma_split_years(days0, 1970);
        }
        loop
            invariant
                1970 <= year,
                split_years(days as int, year as int) == split_years(days0, 1970),
                split_years(days0, 1970).0 <= 65535,
                timestamp < 0 ==> days <= 0,
                timestamp >= 0 ==> days >= 0,
            ensures
                1970 <= year,
                split_years(days as int, year as int) == split_years(days0, 1970),
                split_years(days0, 1970).0 <= 65535,
                timestamp < 0 ==> days <= 0,
                timestamp >= 0 ==> days >= 0,
                days < year_days(year as int),
            decreases days,
        {
            proof {
                lemma_split_years(days as int, year as int);
            }
            let days_in_year: i64 = if Self::is_leap_year(year) { 366 } else { 365 };
            if days < days_in_year {
                break;
            }
            days -= days_in_year;
            year += 1;
        }
        proof {
            lemma_split_years(days as int, year as int);
        }
        assert(split_years(days as int, year as int) == (year as int, days as int));

        let leap = Self::is_leap_year(year);
        let ghost rest = days as int;
        // Calculate month and day
        let mut month: u8 = 1;
        let mut m: u8 = 0;
        loop
            invariant
                m <= 12,
                month == m + 1,
                split_months(days as int, month as int, leap) == split_months(rest, 1, leap),
                days <= rest,
                timestamp < 0 ==> days <= 0,
                timestamp >= 0 ==> days >= 0,
                leap == spec_is_leap_year(year as int),
            ensures
                m <= 12,
                month == m + 1,
                split_months(days as int, month as int, leap) == split_months(rest, 1, leap),
                timestamp < 0 ==> days <= 0,
                timestamp >= 0 ==> days >= 0,
                m >= 12 || days < month_len(month as int, leap),
            decreases 12 - m,
        {
            if m >= 12 {
                break;
            }
            let mut days_in_month_count = days_in_month(m) as i64;
            if m == 1 && leap {
                days_in_month_count += 1;
            }
            assert(days_in_month_count == month_len(month as int, leap));
            if days < days_in_month_count {
                break;
            }
            days -= days_in_month_count;
            month += 1;
            m += 1;
        }
        assert(split_months(days as int, month as int, leap) == (month as int, days as int));
        assert(split_years(days0, 1970) == (year as int, rest));
        let day = (days + 1) as u8;

        // Calculate weekday (using Zeller's congruence)
        let weekday = Self::calculate_weekday(year, month, day);

        RtcDateTime { second, minute, hour, day, month, year, weekday }
    }

    /// Calculate day of week (0 = Sunday, 1 = Monday, etc.)
    fn calculate_weekday(year: u16, month: u8, day: u8) -> (w: u8)
        ensures
            w == spec_weekday(year as int, month as int, day as int),
    {
        let mut y = year as i32;
        let mut m = month as i32;

        if m < 3 {
            m += 12;
            y -= 1;
        }

        let k = y % 100;
        let j = y / 100;

        let h = (day as i32 + (13 * (m + 1)) / 5 + k + k / 4 + j / 4 - 2 * j) % 7;
        ((h + 6) % 7) as u8
    }
}

} // verus!
