//! Real-time clock: CMOS register decoding, calendar arithmetic and the
//! central-European summer-time rule.
use vstd::prelude::*;
use crate::text::{dec_pad, push_char, push_dec_pad, push_str};

verus! {

/// A calendar date and time of day.
#[derive(Debug, Clone, Copy, PartialEq, Eq, Structural)]
pub struct DateTime {
    pub year: u16,
    pub month: u8,
    pub day: u8,
    pub hour: u8,
    pub minute: u8,
    pub second: u8,
}

/// The raw CMOS registers that the clock is read from.
#[derive(Debug, Clone, Copy, PartialEq, Eq, Structural)]
pub struct CmosRegisters {
    pub second: u8,
    pub minute: u8,
    pub hour: u8,
    pub day: u8,
    pub month: u8,
    pub year: u8,
    pub status_b: u8,
}

pub open spec fn spec_format_date(dt: DateTime) -> Seq<char> {
    dec_pad(dt.year as nat, 4) + seq!['-'] + dec_pad(dt.month as nat, 2) + seq!['-']
        + dec_pad(dt.day as nat, 2)
}

pub open spec fn spec_format_time(dt: DateTime) -> Seq<char> {
    dec_pad(dt.hour as nat, 2) + seq![':'] + dec_pad(dt.minute as nat, 2) + seq![':']
        + dec_pad(dt.second as nat, 2)
}

pub open spec fn spec_format_time_short(dt: DateTime) -> Seq<char> {
    dec_pad(dt.hour as nat, 2) + seq![':'] + dec_pad(dt.minute as nat, 2)
}

pub open spec fn spec_format(dt: DateTime) -> Seq<char> {
    spec_format_date(dt) + seq![' '] + spec_format_time(dt)
}

impl DateTime {
    /// `YYYY-MM-DD HH:MM:SS`.
    pub fn format(&self) -> (res: String)
        ensures
            res@ == spec_format(*self),
    {
        let mut s = self.format_date();
        push_char(&mut s, ' ');
        let t = self.format_time();
        push_str(&mut s, t.as_str());
        assert(s@ =~= spec_format(*self));
        s
    }

    /// `YYYY-MM-DD`.
    pub fn format_date(&self) -> (res: String)
        ensures
            res@ == spec_format_date(*self),
    {
        let mut s = String::new();
        push_dec_pad(&mut s, self.year as u64, 4);
        push_char(&mut s, '-');
        push_dec_pad(&mut s, self.month as u64, 2);
        push_char(&mut s, '-');
        push_dec_pad(&mut s, self.day as u64, 2);
        assert(s@ =~= spec_format_date(*self));
        s
    }

    /// `HH:MM:SS`.
    pub fn format_time(&self) -> (res: String)
        ensures
            res@ == spec_format_time(*self),
    {
        let mut s = String::new();
        push_dec_pad(&mut s, self.hour as u64, 2);
        push_char(&mut s, ':');
        push_dec_pad(&mut s, self.minute as u64, 2);
        push_char(&mut s, ':');
        push_dec_pad(&mut s, self.second as u64, 2);
        assert(s@ =~= spec_format_time(*self));
        s
    }

    /// `HH:MM`.
    pub fn format_time_short(&self) -> (res: String)
        ensures
            res@ == spec_format_time_short(*self),
    {
        let mut s = String::new();
        push_dec_pad(&mut s, self.hour as u64, 2);
        push_char(&mut s, ':');
        push_dec_pad(&mut s, self.minute as u64, 2);
        assert(s@ =~= spec_format_time_short(*self));
        s
    }
}

/// The value of a two-digit binary-coded-decimal byte.
pub open spec fn spec_bcd(b: u8) -> u8 {
    ((b % 16) + (b / 16) * 10) as u8
}

proof fn lemma_nibbles(b: u8)
    ensures
        b & 0x0F == b % 16,
        b >> 4u8 == b / 16,
        b & 0x7F == b % 128,
        b & 0x80 == (if b >= 128 { 128u8 } else { 0u8 }),
{
    assert(b & 0x0F == b % 16 && b >> 4u8 == b / 16 && b & 0x7F == b % 128
        && b & 0x80 == (if b >= 128 { 128u8 } else { 0u8 })) by (bit_vector);
}

/// Decodes a binary-coded-decimal byte.
pub fn bcd_to_binary(bcd: u8) -> (res: u8)
    ensures
        res == spec_bcd(bcd),
        res as int == (bcd % 16) + (bcd / 16) * 10,
{
    proof { lemma_nibbles(bcd); }
    (bcd & 0x0F) + ((bcd >> 4u8) * 10)
}

/// The hour register after BCD decoding: the low seven bits are BCD, bit 7 (PM) is kept.
pub open spec fn spec_decode_hour_bcd(h: u8) -> u8 {
    (spec_bcd((h % 128) as u8) + (if h >= 128 { 128int } else { 0int })) as u8
}

/// The date and time held by the CMOS registers, in UTC. In 12-hour mode, 12 AM is
/// hour 0 and 12 PM is hour 12; the other PM hours gain 12.
pub open spec fn spec_read_utc(r: CmosRegisters) -> DateTime {
    let binary = r.status_b % 8 >= 4;
    let h1 = if binary { r.hour } else { spec_decode_hour_bcd(r.hour) };
    let twelve_hour = r.status_b % 4 < 2;
    let v = h1 % 128;
    let h2 = if !twelve_hour {
        h1
    } else if h1 >= 128 {
        if v == 12 { 12u8 } else { ((v + 12) % 24) as u8 }
    } else if h1 == 12 {
        0u8
    } else {
        h1
    };
    DateTime {
        year: (2000 + (if binary { r.year } else { spec_bcd(r.year) })) as u16,
        month: if binary { r.month } else { spec_bcd(r.month) },
        day: if binary { r.day } else { spec_bcd(r.day) },
        hour: h2,
        minute: if binary { r.minute } else { spec_bcd(r.minute) },
        second: if binary { r.second } else { spec_bcd(r.second) },
    }
}

/// Decodes the clock registers (BCD or binary, 12- or 24-hour) into a UTC date and time.
pub fn read_utc(regs: CmosRegisters) -> (res: DateTime)
    ensures
        res == spec_read_utc(regs),
        regs.status_b % 4 < 2 && regs.status_b % 8 < 4 && regs.hour == 0x12 ==> res.hour == 0,
        regs.status_b % 4 < 2 && regs.status_b % 8 < 4 && regs.hour == 0x92 ==> res.hour == 12,
{
    let mut second = regs.second;
    let mut minute = regs.minute;
    let mut hour = regs.hour;
    let mut day = regs.day;
    let mut month = regs.month;
    let mut year = regs.year as u16;
    let status_b = regs.status_b;
    proof {
        lemma_nibbles(status_b);
        assert(status_b & 0x04 == 0 <==> status_b % 8 < 4) by (bit_vector);
        assert(status_b & 0x02 == 0 <==> status_b % 4 < 2) by (bit_vector);
        lemma_nibbles(hour);
    }
    if status_b & 0x04 == 0 {
        second = bcd_to_binary(second);
        minute = bcd_to_binary(minute);
        let low = bcd_to_binary(hour & 0x7F);
        proof {
            assert(low < 128) by {
                lemma_nibbles((hour % 128) as u8);
            }
            let hi = hour & 0x80;
            assert(low | hi == (low as int + (if hour >= 128 { 128int } else { 0int })) as u8) by {
                assert(low < 128 ==> (low | 0x80u8) == low + 128 && (low | 0u8) == low) by (bit_vector);
            }
        }
        hour = low | (hour & 0x80);
        day = bcd_to_binary(day);
        month = bcd_to_binary(month);
        year = bcd_to_binary(year as u8) as u16;
    }
    proof { lemma_nibbles(hour); }
    if status_b & 0x02 == 0 {
        if hour & 0x80 != 0 {
            let v = hour & 0x7F;
            hour = if v == 12 { 12 } else { (v + 12) % 24 };
        } else if hour == 12 {
            hour = 0;
        }
    }
    year = year + 2000;
    DateTime { year, month, day, hour, minute, second }
}

/// Whether a year is a leap year in the Gregorian calendar.
pub open spec fn is_leap(year: int) -> bool {
    (year % 4 == 0 && year % 100 != 0) || year % 400 == 0
}

/// The number of days of a month (months outside 1..=12 count 30 days).
pub open spec fn spec_days_in_month(year: u16, month: u8) -> u8 {
    if month == 1 || month == 3 || month == 5 || month == 7 || month == 8 || month == 10
        || month == 12 {
        31
    } else if month == 4 || month == 6 || month == 9 || month == 11 {
        30
    } else if month == 2 {
        if is_leap(year as int) { 29 } else { 28 }
    } else {
        30
    }
}

pub fn days_in_month(year: u16, month: u8) -> (res: u8)
    ensures
        res == spec_days_in_month(year, month),
        28 <= res <= 31,
{
    match month {
        1 | 3 | 5 | 7 | 8 | 10 | 12 => 31,
        4 | 6 | 9 | 11 => 30,
        2 => {
            if (year % 4 == 0 && year % 100 != 0) || (year % 400 == 0) {
                29
            } else {
                28
            }
        },
        _ => 30,
    }
}

/// Integer division rounding toward zero, as machine division does.
pub open spec fn tdiv(a: int, b: int) -> int {
    if a >= 0 { a / b } else { -((-a) / b) }
}

/// The remainder of `tdiv`; it has the sign of the dividend.
pub open spec fn trem(a: int, b: int) -> int {
    if a >= 0 { a % b } else { -((-a) % b) }
}

/// Zeller's congruence for the Gregorian calendar, counted 0 = Sunday.
pub open spec fn spec_day_of_week(year: u16, month: u8, day: u8) -> u8 {
    let y0 = year as int;
    let m0 = month as int;
    let y = if m0 < 3 { y0 - 1 } else { y0 };
    let m = if m0 < 3 { m0 + 12 } else { m0 };
    let k = trem(y, 100);
    let j = tdiv(y, 100);
    let h = trem(day as int + (13 * (m + 1)) / 5 + k + tdiv(k, 4) + tdiv(j, 4) - 2 * j, 7);
    ((h + 6) % 7) as u8
}

/// The day of the week of a date, 0 = Sunday to 6 = Saturday.
pub fn day_of_week(year: u16, month: u8, day: u8) -> (res: u8)
    ensures
        res == spec_day_of_week(year, month, day),
        res < 7,
{
    let mut y: i32 = year as i32;
    let mut m: i32 = month as i32;
    if m < 3 {
        y = y - 1;
        m = m + 12;
    }
    // y >= -1 here; only y == -1 is negative.
    let (k, j): (i32, i32) = if y >= 0 { (y % 100, y / 100) } else { (-1, 0) };
    let k4: i32 = if k >= 0 { k / 4 } else { 0 };
    let sum: i32 = day as i32 + (13 * (m + 1)) / 5 + k + k4 + j / 4 - 2 * j;
    let h: i32 = if sum >= 0 { sum % 7 } else { -((-sum) % 7) };
    let dow = ((h + 6) % 7) as u8;
    dow
}

pub open spec fn spec_last_sunday_of_month(year: u16, month: u8) -> u8 {
    let last = spec_days_in_month(year, month);
    (last - spec_day_of_week(year, month, last)) as u8
}

/// The day of the month of its last Sunday.
pub fn last_sunday_of_month(year: u16, month: u8) -> (res: u8)
    ensures
        res == spec_last_sunday_of_month(year, month),
        22 <= res <= 31,
{
    let last_day = days_in_month(year, month);
    let dow = day_of_week(year, month, last_day);
    last_day - dow
}

/// The European summer-time rule, applied to a UTC date and hour: summer time runs from the
/// last Sunday of March at 02:00 to the last Sunday of October before 03:00.
pub open spec fn spec_is_dst(year: u16, month: u8, day: u8, hour: u8) -> bool {
    let march = spec_last_sunday_of_month(year, 3);
    let october = spec_last_sunday_of_month(year, 10);
    if month == 3 {
        if day < march { false } else if day > march { true } else { hour >= 2 }
    } else if 4 <= month <= 9 {
        true
    } else if month == 10 {
        if day < october { true } else if day > october { false } else { hour < 3 }
    } else {
        false
    }
}

pub fn is_dst(year: u16, month: u8, day: u8, hour: u8) -> (res: bool)
    ensures
        res == spec_is_dst(year, month, day, hour),
{
    let march_switch = last_sunday_of_month(year, 3);
    let october_switch = last_sunday_of_month(year, 10);
    match month {
        1 | 2 => false,
        3 => {
            if day < march_switch {
                false
            } else if day > march_switch {
                true
            } else {
                hour >= 2
            }
        },
        4 | 5 | 6 | 7 | 8 | 9 => true,
        10 => {
            if day < october_switch {
                true
            } else if day > october_switch {
                false
            } else {
                hour < 3
            }
        },
        _ => false,
    }
}

/// The offset from UTC: the configured base offset, plus one hour in summer time.
pub open spec fn spec_timezone_offset(base: i8, year: u16, month: u8, day: u8, hour: u8) -> int {
    if spec_is_dst(year, month, day, hour) { base + 1 } else { base as int }
}

pub fn get_timezone_offset(base: i8, year: u16, month: u8, day: u8, hour: u8) -> (res: i8)
    requires
        base < 127,
    ensures
        res == spec_timezone_offset(base, year, month, day, hour),
{
    if is_dst(year, month, day, hour) {
        base + 1
    } else {
        base
    }
}

/// The local date and time `offset` hours away from `dt`, carrying into the next or
/// previous day, month and year when the hour leaves 0..24.
pub open spec fn spec_apply_offset(dt: DateTime, offset: i8) -> DateTime {
    let h = (dt.hour as i8) + offset;
    if h >= 24 {
        let day = dt.day + 1;
        if day > spec_days_in_month(dt.year, dt.month) {
            let month = dt.month + 1;
            if month > 12 {
                DateTime { year: (dt.year + 1) as u16, month: 1, day: 1, hour: (h - 24) as u8, ..dt }
            } else {
                DateTime { month: month as u8, day: 1, hour: (h - 24) as u8, ..dt }
            }
        } else {
            DateTime { day: day as u8, hour: (h - 24) as u8, ..dt }
        }
    } else if h < 0 {
        if dt.day > 1 {
            DateTime { day: (dt.day - 1) as u8, hour: (h + 24) as u8, ..dt }
        } else {
            let month: u8 = if dt.month > 1 { (dt.month - 1) as u8 } else { 12 };
            let year: u16 = if month == 12 { (dt.year - 1) as u16 } else { dt.year };
            DateTime { year, month, day: spec_days_in_month(year, month), hour: (h + 24) as u8, ..dt }
        }
    } else {
        DateTime { hour: h as u8, ..dt }
    }
}

/// The inputs on which shifting by `offset` stays within the machine integers.
pub open spec fn apply_offset_ok(dt: DateTime, offset: i8) -> bool {
    let h = (dt.hour as i8) + offset;
    &&& -128 <= h <= 127
    &&& h >= 24 ==> dt.day < 255
    &&& (h >= 24 && dt.day + 1 > spec_days_in_month(dt.year, dt.month)) ==> dt.month < 255
    &&& (h >= 24 && dt.day + 1 > spec_days_in_month(dt.year, dt.month) && dt.month + 1 > 12)
        ==> dt.year < 0xFFFF
    &&& (h < 0 && dt.day <= 1 && (dt.month <= 1 || dt.month == 13)) ==> dt.year > 0
}

/// Shifts a date and time by a whole number of hours.
pub fn apply_offset(dt: DateTime, offset: i8) -> (res: DateTime)
    requires
        apply_offset_ok(dt, offset),
    ensures
        res == spec_apply_offset(dt, offset),
{
    let mut hour: i8 = dt.hour as i8 + offset;
    let mut day = dt.day;
    let mut month = dt.month;
    let mut year = dt.year;
    if hour >= 24 {
        hour = hour - 24;
        day = day + 1;
        let days = days_in_month(year, month);
        if day > days {
            day = 1;
            month = month + 1;
            if month > 12 {
                month = 1;
                year = year + 1;
            }
        }
    } else if hour < 0 {
        hour = hour + 24;
        if day > 1 {
            day = day - 1;
        } else {
            month = if month > 1 { month - 1 } else { 12 };
            if month == 12 {
                year = year - 1;
            }
            day = days_in_month(year, month);
        }
    }
    DateTime { year, month, day, hour: hour as u8, minute: dt.minute, second: dt.second }
}

/// The conditions under which the local time of `utc` can be computed for a base offset.
pub open spec fn local_time_ok(utc: DateTime, base: i8) -> bool {
    base < 127 && apply_offset_ok(utc, spec_timezone_offset(base, utc.year, utc.month, utc.day, utc.hour) as i8)
}

/// The local time of a UTC date and time.
pub open spec fn spec_local_time(utc: DateTime, base: i8) -> DateTime {
    spec_apply_offset(utc, spec_timezone_offset(base, utc.year, utc.month, utc.day, utc.hour) as i8)
}

/// Applies the configured offset and summer time to a UTC date and time.
pub fn apply_timezone(dt: DateTime, base: i8) -> (res: DateTime)
    requires
        local_time_ok(dt, base),
    ensures
        res == spec_local_time(dt, base),
{
    let offset = get_timezone_offset(base, dt.year, dt.month, dt.day, dt.hour);
    apply_offset(dt, offset)
}

/// The local date and time of the clock registers, for the configured base offset.
pub fn read(regs: CmosRegisters, base: i8) -> (res: Option<DateTime>)
    ensures
        local_time_ok(spec_read_utc(regs), base) ==> res == Some(spec_local_time(spec_read_utc(regs), base)),
        !local_time_ok(spec_read_utc(regs), base) ==> res is None,
{
    let utc = read_utc(regs);
    if base == 127 {
        return None;
    }
    let offset = get_timezone_offset(base, utc.year, utc.month, utc.day, utc.hour);
    if !offset_fits(utc, offset) {
        return None;
    }
    Some(apply_offset(utc, offset))
}

/// Decides `apply_offset_ok`.
pub fn offset_fits(dt: DateTime, offset: i8) -> (res: bool)
    ensures
        res == apply_offset_ok(dt, offset),
{
    let h: i16 = (dt.hour as i8) as i16 + offset as i16;
    if h < -128 || h > 127 {
        return false;
    }
    if h >= 24 {
        if dt.day == 255 {
            return false;
        }
        let dim = days_in_month(dt.year, dt.month);
        if dt.day + 1 > dim {
            if dt.month == 255 {
                return false;
            }
            if dt.month + 1 > 12 && dt.year == 0xFFFF {
                return false;
            }
        }
    }
    if h < 0 && dt.day <= 1 && (dt.month <= 1 || dt.month == 13) && dt.year == 0 {
        return false;
    }
    true
}

/// The local date and time as `YYYY-MM-DD HH:MM:SS`.
pub fn get_datetime(regs: CmosRegisters, base: i8) -> (res: Option<String>)
    ensures
        local_time_ok(spec_read_utc(regs), base) ==> (res matches Some(s) && s@ == spec_format(spec_local_time(spec_read_utc(regs), base))),
        !local_time_ok(spec_read_utc(regs), base) ==> res is None,
{
    match read(regs, base) {
        Some(dt) => Some(dt.format()),
        None => None,
    }
}

/// The local time of day as `HH:MM:SS`.
pub fn get_time(regs: CmosRegisters, base: i8) -> (res: Option<String>)
    ensures
        local_time_ok(spec_read_utc(regs), base) ==> (res matches Some(s) && s@ == spec_format_time(spec_local_time(spec_read_utc(regs), base))),
        !local_time_ok(spec_read_utc(regs), base) ==> res is None,
{
    match read(regs, base) {
        Some(dt) => Some(dt.format_time()),
        None => None,
    }
}

/// Whether the clock registers show a moment in summer time.
pub fn is_summer_time(regs: CmosRegisters) -> (res: bool)
    ensures
        res == ({ let u = spec_read_utc(regs); spec_is_dst(u.year, u.month, u.day, u.hour) }),
{
    let utc = read_utc(regs);
    is_dst(utc.year, utc.month, utc.day, utc.hour)
}

/// The current offset from UTC for the configured base offset.
pub fn current_timezone_offset(regs: CmosRegisters, base: i8) -> (res: i8)
    requires
        base < 127,
    ensures
        res == ({ let u = spec_read_utc(regs); spec_timezone_offset(base, u.year, u.month, u.day, u.hour) }),
{
    let utc = read_utc(regs);
    get_timezone_offset(base, utc.year, utc.month, utc.day, utc.hour)
}

/// `CEST` in summer time, `CET` otherwise.
pub fn timezone_name(regs: CmosRegisters) -> (res: &'static str)
    ensures
        ({ let u = spec_read_utc(regs); spec_is_dst(u.year, u.month, u.day, u.hour) }) ==> res@ == "CEST"@,
        !({ let u = spec_read_utc(regs); spec_is_dst(u.year, u.month, u.day, u.hour) }) ==> res@ == "CET"@,
{
    if is_summer_time(regs) {
        "CEST"
    } else {
        "CET"
    }
}

/// A valid date and time of day.
pub open spec fn valid_datetime(dt: DateTime) -> bool {
    &&& 1 <= dt.month <= 12
    &&& 1 <= dt.day <= spec_days_in_month(dt.year, dt.month)
    &&& dt.hour < 24
}

/// Shifting a valid date and time by less than a day gives a valid date and time, with
/// the same minutes and seconds.
pub proof fn law_offset_keeps_valid(dt: DateTime, offset: i8)
    requires
        valid_datetime(dt),
        1 <= dt.year < 0xFFFF,
        -24 < offset < 24,
    ensures
        apply_offset_ok(dt, offset),
        valid_datetime(spec_apply_offset(dt, offset)),
        spec_apply_offset(dt, offset).minute == dt.minute,
        spec_apply_offset(dt, offset).second == dt.second,
{
}

/// Every month has between 28 and 31 days, and February has 29 exactly in leap years.
pub proof fn law_days_in_month(year: u16, month: u8)
    ensures
        28 <= spec_days_in_month(year, month) <= 31,
        month == 2 ==> (spec_days_in_month(year, month) == 29 <==> is_leap(year as int)),
{
}

} // verus!
