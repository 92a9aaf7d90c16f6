use vstd::prelude::*;

verus! {

/// A calendar date and wall-clock time.
#[derive(PartialEq, Eq, Structural, Clone, Copy, Debug)]
pub struct DateTime {
    pub year: u16,
    pub month: u8,
    pub day: u8,
    pub hour: u8,
    pub minute: u8,
    pub second: u8,
}

/// The raw CMOS clock registers, as read from the chip.
#[derive(PartialEq, Eq, Structural, Clone, Copy, Debug)]
pub struct RtcRegisters {
    pub second: u8,
    pub minute: u8,
    pub hour: u8,
    pub day: u8,
    pub month: u8,
    pub year: u8,
    pub register_b: u8,
}

/// Status register A register number, and the seconds .. year and status B
/// register numbers of the CMOS clock.
pub const RTC_STATUS_A: u8 = 0x0A;
pub const RTC_SECOND: u8 = 0x00;
pub const RTC_MINUTE: u8 = 0x02;
pub const RTC_HOUR: u8 = 0x04;
pub const RTC_DAY: u8 = 0x07;
pub const RTC_MONTH: u8 = 0x08;
pub const RTC_YEAR: u8 = 0x09;
pub const RTC_STATUS_B: u8 = 0x0B;

/// The byte written to the CMOS address port to select `reg` with
/// non-maskable interrupts kept off (bit 7 set).
pub fn cmos_select(reg: u8) -> (r: u8)
    ensures
        r == reg | 0x80,
        r >= 0x80,
        r % 128 == reg % 128,
{
    assert((reg | 0x80u8) >= 0x80u8 && (reg | 0x80u8) % 128 == reg % 128) by (bit_vector);
    reg | 0x80
}

/// Whether status register A says an update is in progress (bit 7).
pub fn is_update_in_progress(status_a: u8) -> (r: bool)
    ensures
        r == (status_a >= 0x80),
{
    assert((status_a & 0x80u8) != 0 <==> status_a >= 0x80u8) by (bit_vector);
    (status_a & 0x80) != 0
}

/// The value of a two-digit binary-coded-decimal byte: low nibble plus ten
/// times the high nibble.
pub open spec fn bcd_value(bcd: u8) -> u8 {
    ((bcd % 16) + (bcd / 16) * 10) as u8
}

pub fn bcd_to_binary(bcd: u8) -> (r: u8)
    ensures
        r == bcd_value(bcd),
        r as int == (bcd % 16) + (bcd / 16) * 10,
{
    assert((bcd & 0x0Fu8) == bcd % 16) by (bit_vector);
    (bcd & 0x0F) + ((bcd / 16) * 10)
}

/// The hour with the PM flag (bit 7) folded into a 24-hour value.
pub open spec fn pm_hour(hour: u8) -> u8 {
    (((hour % 128) + 12) % 24) as u8
}

/// The date and time that the clock registers hold: the fields are binary
/// coded decimal unless status B bit 2 is set, the hour is on a 12-hour dial
/// with a PM flag in bit 7 unless status B bit 1 is set, and the year counts
/// from 2000.
pub open spec fn rtc_datetime(raw: RtcRegisters) -> DateTime {
    let bcd = raw.register_b & 4 == 0;
    let conv = |v: u8| if bcd { bcd_value(v) } else { v };
    let hour = conv(raw.hour);
    DateTime {
        year: (conv(raw.year) + 2000) as u16,
        month: conv(raw.month),
        day: conv(raw.day),
        hour: if raw.register_b & 2 == 0 && hour >= 128 { pm_hour(hour) } else { hour },
        minute: conv(raw.minute),
        second: conv(raw.second),
    }
}

/// Decodes the clock registers into a date and time.
pub fn read_rtc(raw: &RtcRegisters) -> (dt: DateTime)
    ensures
        dt == rtc_datetime(*raw),
{
    let mut second = raw.second;
    let mut minute = raw.minute;
    let mut hour = raw.hour;
    let mut day = raw.day;
    let mut month = raw.month;
    let mut year = raw.year;
    let register_b = raw.register_b;
    if (register_b & 0x04) == 0 {
        second = bcd_to_binary(second);
        minute = bcd_to_binary(minute);
        hour = bcd_to_binary(hour);
        day = bcd_to_binary(day);
        month = bcd_to_binary(month);
        year = bcd_to_binary(year);
    }
    assert((hour & 0x80u8) != 0 <==> hour >= 128u8) by (bit_vector);
    if (register_b & 0x02) == 0 && (hour & 0x80) != 0 {
        assert((hour & 0x7Fu8) == hour % 128) by (bit_vector);
        hour = ((hour & 0x7F) + 12) % 24;
    }
    DateTime { year: year as u16 + 2000, month, day, hour, minute, second }
}


/// Whether `y` is a leap year of the Gregorian calendar.
pub open spec fn is_leap_year(y: int) -> bool {
    (y % 4 == 0 && y % 100 != 0) || y % 400 == 0
}

/// The days of month `m` of year `y` (31 for a month number out of range).
pub open spec fn days_in_month(y: int, m: int) -> int {
    if m == 2 {
        if is_leap_year(y) { 29 } else { 28 }
    } else if m == 4 || m == 6 || m == 9 || m == 11 {
        30
    } else {
        31
    }
}

/// The same time one day later: the next day of the month, else the first
/// of the next month, else the first of January of the next year (the year
/// held at its largest value).
pub open spec fn next_day(dt: DateTime) -> DateTime {
    if (dt.day as int) < days_in_month(dt.year as int, dt.month as int) {
        DateTime { day: (dt.day + 1) as u8, ..dt }
    } else if dt.month < 12 {
        DateTime { month: (dt.month + 1) as u8, day: 1, ..dt }
    } else {
        DateTime { year: if dt.year < u16::MAX { (dt.year + 1) as u16 } else { dt.year }, month: 1, day: 1, ..dt }
    }
}

/// The same time one day earlier: the previous day of the month, else the
/// last day of the previous month, else the 31st of December of the
/// previous year (the year held at 0).
pub open spec fn prev_day(dt: DateTime) -> DateTime {
    if dt.day > 1 {
        DateTime { day: (dt.day - 1) as u8, ..dt }
    } else if dt.month > 1 {
        DateTime { month: (dt.month - 1) as u8, day: days_in_month(dt.year as int, dt.month - 1) as u8, ..dt }
    } else {
        DateTime { year: if dt.year > 0 { (dt.year - 1) as u16 } else { 0 }, month: 12, day: 31, ..dt }
    }
}

/// The same time `k` days later (earlier for a negative `k`).
pub open spec fn shift_days(dt: DateTime, k: int) -> DateTime
    decreases (if k < 0 { -k } else { k }),
{
    if k > 0 {
        shift_days(next_day(dt), k - 1)
    } else if k < 0 {
        shift_days(prev_day(dt), k + 1)
    } else {
        dt
    }
}

/// The clock reading `dt` (in UTC) in the time zone `offset` hours ahead:
/// the hour moves by the offset, and the date by the whole days that
/// crosses. A reading whose hour is not a time of day (24 or more) is left
/// as it is.
pub open spec fn in_timezone(dt: DateTime, offset: i8) -> DateTime {
    if dt.hour >= 24 {
        dt
    } else {
        let h = dt.hour + offset;
        shift_days(DateTime { hour: (h % 24) as u8, ..dt }, h / 24)
    }
}

fn days_in_month_exec(y: u16, m: u8) -> (r: u8)
    ensures
        r == days_in_month(y as int, m as int),
{
    if m == 2 {
        if (y % 4 == 0 && y % 100 != 0) || y % 400 == 0 { 29 } else { 28 }
    } else if m == 4 || m == 6 || m == 9 || m == 11 {
        30
    } else {
        31
    }
}

impl DateTime {
    /// Moves the date one day on (see `next_day`).
    fn step_forward(&mut self)
        ensures
            *final(self) == next_day(*old(self)),
    {
        if self.day < days_in_month_exec(self.year, self.month) {
            self.day = self.day + 1;
        } else if self.month < 12 {
            self.month = self.month + 1;
            self.day = 1;
        } else {
            if self.year < u16::MAX {
                self.year = self.year + 1;
            }
            self.month = 1;
            self.day = 1;
        }
    }

    /// Moves the date one day back (see `prev_day`).
    fn step_back(&mut self)
        ensures
            *final(self) == prev_day(*old(self)),
    {
        if self.day > 1 {
            self.day = self.day - 1;
        } else if self.month > 1 {
            self.month = self.month - 1;
            self.day = days_in_month_exec(self.year, self.month);
        } else {
            if self.year > 0 {
                self.year = self.year - 1;
            }
            self.month = 12;
            self.day = 31;
        }
    }

    /// Turns a UTC clock reading into the time zone `offset` hours ahead
    /// (see `in_timezone`).
    pub fn apply_timezone(&mut self, offset: i8)
        ensures
            *final(self) == in_timezone(*old(self), offset),
    {
        if self.hour >= 24 {
            return;
        }
        let h: i16 = self.hour as i16 + offset as i16;
        let (days, hour): (i16, i16) = if h >= 0 {
            (h / 24, h % 24)
        } else {
            let d: i16 = -((23 - h) / 24);
            (d, h - 24 * d)
        };
        assert(days == h as int / 24 && hour == h as int % 24) by (nonlinear_arith)
            requires
                -128 <= h < 24 + 128,
                h >= 0 ==> days == h / 24 && hour == h % 24,
                h < 0 ==> days == -((23 - h) / 24) && hour == h - 24 * days;
        self.hour = hour as u8;
        let ghost start = *self;
        let mut k: i16 = days;
        while k != 0
            invariant
                -7 <= k <= 7,
                shift_days(*self, k as int) == shift_days(start, days as int),
            decreases (if k < 0 { -(k as int) } else { k as int }),
        {
            if k > 0 {
                self.step_forward();
                k = k - 1;
            } else {
                self.step_back();
                k = k + 1;
            }
        }
    }
}

} // verus!
