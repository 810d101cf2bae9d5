//! # Real-time clock
//!
//! Decoding the date and time registers of the CMOS real-time clock.
use vstd::prelude::*;

verus! {

/// Bit of status register B set when the clock counts hours 0-23.
pub const FORMAT_24_HOUR_FLAG: u8 = 0x02;
/// Bit of status register B set when the registers hold binary numbers
/// rather than binary-coded decimals.
pub const FORMAT_BINARY_FLAG: u8 = 0x04;
/// Bit of the hour register set for an hour after noon (12-hour format).
pub const HOUR_PM_FLAG: u8 = 0x80;

#[derive(Clone, Copy, Debug, Eq, Ord, PartialEq, PartialOrd, Structural)]
pub struct Time {
    pub year: u8,
    pub month: u8,
    pub day: u8,
    pub hour: u8,
    pub minute: u8,
    pub second: u8,
}

/// The number that the binary-coded decimal `value` holds: the low nibble
/// plus ten times the high nibble.
pub open spec fn bcd_value(value: u8) -> int {
    value % 16 + (value / 16) * 10
}

/// The binary-coded decimal `value` as a binary number.
pub fn convert_bcd(value: u8) -> (r: u8)
    ensures
        r == bcd_value(value),
{
    assert(value & 0x0Fu8 == value % 16) by (bit_vector);
    (value & 0x0F) + ((value / 16) * 10)
}

/// A register as a binary number.
pub open spec fn decoded(v: u8, binary: bool) -> u8 {
    if binary {
        v
    } else {
        bcd_value(v) as u8
    }
}

/// The hour register as a binary number, the after-noon bit kept in place.
pub open spec fn hour_value(hour: u8, binary: bool) -> int {
    if binary {
        hour as int
    } else {
        bcd_value((hour % 0x80) as u8) + (hour / 0x80) * 0x80
    }
}

/// The time that the clock's registers hold, given status register B
/// (`format`): decoded from binary-coded decimals unless the binary-format
/// bit is set; the hour becomes `((hour & 0x7F) + 12) % 24` when the
/// 24-hour bit or the after-noon bit is set.
pub open spec fn time_of(second: u8, minute: u8, hour: u8, day: u8, month: u8, year: u8, format: u8) -> Time {
    let binary = (format / 4) % 2 == 1;
    let h = hour_value(hour, binary);
    let after_noon = h >= 0x80;
    let twenty_four = (format / 2) % 2 == 1;
    Time {
        year: decoded(year, binary),
        month: decoded(month, binary),
        day: decoded(day, binary),
        hour: if twenty_four || after_noon {
            ((h % 0x80 + 12) % 24) as u8
        } else {
            h as u8
        },
        minute: decoded(minute, binary),
        second: decoded(second, binary),
    }
}

impl Time {
    /// The time that the clock's registers hold, read as they are (see
    /// [`time_of`]).
    pub fn from_registers(second: u8, minute: u8, hour: u8, day: u8, month: u8, year: u8, format: u8) -> (t: Self)
        ensures
            t == time_of(second, minute, hour, day, month, year, format),
    {
        assert((format & FORMAT_BINARY_FLAG == 0x04u8 <==> (format / 4) % 2 == 1) && (format
            & FORMAT_24_HOUR_FLAG > 0u8 <==> (format / 2) % 2 == 1)) by (bit_vector);
        let binary = format & FORMAT_BINARY_FLAG == FORMAT_BINARY_FLAG;
        let mut second = second;
        let mut minute = minute;
        let mut hour = hour;
        let mut day = day;
        let mut month = month;
        let mut year = year;
        if !binary {
            second = convert_bcd(second);
            minute = convert_bcd(minute);
            let h = hour;
            assert(h & 0x7Fu8 == h % 0x80 && h & 0x80u8 == (h / 0x80) * 0x80) by (bit_vector);
            let low = convert_bcd(hour & 0x7F);
            assert(low < 0x80);
            assert((h & 0x80u8) + low == (low | (h & 0x80u8))) by (bit_vector)
                requires
                    low < 0x80u8,
            ;
            hour = low | (hour & 0x80);
            day = convert_bcd(day);
            month = convert_bcd(month);
            year = convert_bcd(year);
        }
        let h = hour;
        assert((h & HOUR_PM_FLAG == HOUR_PM_FLAG <==> h >= 0x80) && h & 0x7Fu8 == h % 0x80)
            by (bit_vector);
        let after_noon = hour & HOUR_PM_FLAG == HOUR_PM_FLAG;
        if format & FORMAT_24_HOUR_FLAG > 0 || after_noon {
            hour = ((hour & 0x7F) + 12) % 24;
        }
        Self { year, month, day, hour, minute, second }
    }
}

} // verus!
