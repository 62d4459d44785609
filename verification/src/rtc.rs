//! The real-time clock: a plain calendar date-time type with its validity
//! rules, the register codec of the HYM8563 chip, and the driver that reads
//! and writes the chip over its two-wire bus. Weekday and epoch arithmetic
//! are delegated to the `chrono` crate behind trusted wrappers.

use vstd::prelude::*;

use crate::convert::{bcd_to_dec, bcd_value, dec_to_bcd, is_valid_bcd};
use crate::driver::{Driver, DriverError, I2cDriver};

verus! {

/// Why a clock value was refused.
#[derive(Clone, Copy, Debug, PartialEq, Eq, Structural)]
pub enum RtcError {
    /// The chip reports its stored time as invalid (voltage-low flag).
    DataInvalid,
    /// A register does not decode as two BCD digits.
    BadBcd,
    /// The decoded fields do not name a calendar date and time of day.
    OutOfRange,
    /// A burst write of more than seven data bytes was requested.
    BurstTooLong,
    /// The bus refused a transfer.
    Bus,
}

/// Days in a month of the proleptic Gregorian calendar.
pub open spec fn days_in_month(year: int, month: int) -> int {
    if month == 1 || month == 3 || month == 5 || month == 7 || month == 8 || month == 10 || month
        == 12 {
        31
    } else if month == 4 || month == 6 || month == 9 || month == 11 {
        30
    } else if year % 4 == 0 && (year % 100 != 0 || year % 400 == 0) {
        29
    } else {
        28
    }
}

/// Whether year, month and day name a calendar date.
pub open spec fn valid_date(year: int, month: int, day: int) -> bool {
    1 <= month <= 12 && 1 <= day <= days_in_month(year, month)
}

/// A calendar date and time of day, as plain fields.
#[derive(Clone, Copy, Debug, PartialEq, Eq, Structural)]
pub struct DateTime {
    /// Full year, e.g. 2024.
    pub year: i32,
    /// Month, 1 to 12.
    pub month: u8,
    /// Day of month, 1 up to the month's length.
    pub day: u8,
    /// Hour, 0 to 23.
    pub hour: u8,
    /// Minute, 0 to 59.
    pub minute: u8,
    /// Second, 0 to 59.
    pub second: u8,
}

impl DateTime {
    /// Whether the fields name a real calendar date and time of day.
    pub open spec fn wf(&self) -> bool {
        &&& valid_date(self.year as int, self.month as int, self.day as int)
        &&& self.hour <= 23
        &&& self.minute <= 59
        &&& self.second <= 59
    }
}

/// Day of the week of a calendar date, counted in days from Sunday (0 to 6).
/// Named after `chrono`'s reckoning; what it is on given values is not
/// axiomatized here.
pub uninterp spec fn weekday_of(year: int, month: int, day: int) -> int;

/// Seconds between the epoch 1970-01-01 00:00:00 UTC and a calendar
/// date-time, as `chrono` counts them.
pub uninterp spec fn timestamp_of(
    year: int,
    month: int,
    day: int,
    hour: int,
    minute: int,
    second: int,
) -> int;

/// Relies on chrono's `NaiveDate::from_ymd_opt` (which yields a date for
/// every valid calendar date in range) and `Weekday::num_days_from_sunday`
/// (0 for Sunday through 6 for Saturday, a function of the date alone).
#[verifier::external_body]
pub fn weekday_from_sunday(year: i32, month: u8, day: u8) -> (r: u8)
    requires
        valid_date(year as int, month as int, day as int),
        0 <= year <= 9999,
    ensures
        r as int == weekday_of(year as int, month as int, day as int),
        r <= 6,
{
    match chrono::NaiveDate::from_ymd_opt(year, month as u32, day as u32) {
        Some(d) => chrono::Datelike::weekday(&d).num_days_from_sunday() as u8,
        None => 0,  // unreachable: the date is valid and the year in range
    }
}

/// Relies on chrono's `NaiveDate::from_ymd_opt`, `NaiveDate::and_hms_opt` and
/// `DateTime::timestamp`: the seconds since 1970-01-01 00:00:00 UTC, a
/// function of the calendar fields alone.
#[verifier::external_body]
pub fn datetime_timestamp(dt: &DateTime) -> (r: i64)
    requires
        dt.wf(),
        0 <= dt.year <= 9999,
    ensures
        r as int == timestamp_of(
            dt.year as int,
            dt.month as int,
            dt.day as int,
            dt.hour as int,
            dt.minute as int,
            dt.second as int,
        ),
{
    let date = chrono::NaiveDate::from_ymd_opt(dt.year, dt.month as u32, dt.day as u32);
    let ndt = match date {
        Some(d) => d.and_hms_opt(dt.hour as u32, dt.minute as u32, dt.second as u32),
        None => None,
    };
    match ndt {
        Some(t) => t.and_utc().timestamp(),
        None => 0,  // unreachable: the fields are valid and the year in range
    }
}

/// A clock source, as the board supplies it.
pub trait RtcDriver: Driver {
    /// Read the current date and time.
    fn rtc_read_datetime(&mut self) -> Result<DateTime, RtcError>;

    /// Set the current date and time.
    fn rtc_write_datetime(&mut self, dt: &DateTime) -> Result<(), RtcError>;

    /// Read the current time as seconds since the epoch.
    fn rtc_get_timestamp_sec(&mut self) -> Result<i64, RtcError>;
}

/// Decode the seven HYM8563 time registers (seconds first) into a date-time.
/// The voltage-low flag, malformed BCD and out-of-range fields are each
/// refused; years are counted from 2000.
pub fn decode_rtc_registers(regs: &[u8; 7]) -> (r: Result<DateTime, RtcError>)
    ensures
        regs[0] as int >= 128 ==> (r matches Err(e) && e == RtcError::DataInvalid),
        r matches Ok(dt) ==> {
            &&& dt.wf()
            &&& regs[0] < 128
            &&& dt.second == bcd_value((regs[0] & 0x7f) as u8)
            &&& dt.minute == bcd_value((regs[1] & 0x7f) as u8)
            &&& dt.hour == bcd_value((regs[2] & 0x3f) as u8)
            &&& dt.day == bcd_value((regs[3] & 0x3f) as u8)
            &&& dt.month == bcd_value((regs[5] & 0x1f) as u8)
            &&& dt.year == 2000 + bcd_value(regs[6])
        },
{
    let r0 = regs[0];
    if r0 >= 128 {
        return Err(RtcError::DataInvalid);
    }
    let second = match bcd_to_dec(r0 & 0x7f) {
        Ok(v) => v,
        Err(_) => {
            return Err(RtcError::BadBcd);
        },
    };
    let minute = match bcd_to_dec(regs[1] & 0x7f) {
        Ok(v) => v,
        Err(_) => {
            return Err(RtcError::BadBcd);
        },
    };
    let hour = match bcd_to_dec(regs[2] & 0x3f) {
        Ok(v) => v,
        Err(_) => {
            return Err(RtcError::BadBcd);
        },
    };
    let day = match bcd_to_dec(regs[3] & 0x3f) {
        Ok(v) => v,
        Err(_) => {
            return Err(RtcError::BadBcd);
        },
    };
    let month = match bcd_to_dec(regs[5] & 0x1f) {
        Ok(v) => v,
        Err(_) => {
            return Err(RtcError::BadBcd);
        },
    };
    let year_bcd = match bcd_to_dec(regs[6]) {
        Ok(v) => v,
        Err(_) => {
            return Err(RtcError::BadBcd);
        },
    };
    let year: i32 = 2000 + (year_bcd as i32);
    if second > 59 || minute > 59 || hour > 23 || day == 0 || month == 0 || month > 12 {
        return Err(RtcError::OutOfRange);
    }
    let dim = days_in_month_exec(year, month);
    if day > dim {
        return Err(RtcError::OutOfRange);
    }
    Ok(DateTime { year, month, day, hour, minute, second })
}

/// Days in a month of the proleptic Gregorian calendar.
pub fn days_in_month_exec(year: i32, month: u8) -> (r: u8)
    ensures
        r as int == days_in_month(year as int, month as int),
{
    if month == 1 || month == 3 || month == 5 || month == 7 || month == 8 || month == 10 || month
        == 12 {
        31
    } else if month == 4 || month == 6 || month == 9 || month == 11 {
        30
    } else if year % 4 == 0 && (year % 100 != 0 || year % 400 == 0) {
        29
    } else {
        28
    }
}

/// Encode a date-time into the seven HYM8563 time registers (seconds first):
/// each field as two BCD digits, the weekday computed from the date.
pub fn encode_rtc_registers(dt: &DateTime) -> (r: [u8; 7])
    requires
        dt.wf(),
        2000 <= dt.year <= 2099,
    ensures
        is_valid_bcd(r[0]) && bcd_value(r[0]) == dt.second,
        is_valid_bcd(r[1]) && bcd_value(r[1]) == dt.minute,
        is_valid_bcd(r[2]) && bcd_value(r[2]) == dt.hour,
        is_valid_bcd(r[3]) && bcd_value(r[3]) == dt.day,
        r[4] as int == weekday_of(dt.year as int, dt.month as int, dt.day as int),
        is_valid_bcd(r[5]) && bcd_value(r[5]) == dt.month,
        is_valid_bcd(r[6]) && bcd_value(r[6]) == dt.year - 2000,
{
    let second = match dec_to_bcd(dt.second) {
        Ok(v) => v,
        Err(_) => 0,  // unreachable: a well-formed second is below 100
    };
    let minute = match dec_to_bcd(dt.minute) {
        Ok(v) => v,
        Err(_) => 0,  // unreachable
    };
    let hour = match dec_to_bcd(dt.hour) {
        Ok(v) => v,
        Err(_) => 0,  // unreachable
    };
    let day = match dec_to_bcd(dt.day) {
        Ok(v) => v,
        Err(_) => 0,  // unreachable
    };
    let weekday = weekday_from_sunday(dt.year, dt.month, dt.day);
    let month = match dec_to_bcd(dt.month) {
        Ok(v) => v,
        Err(_) => 0,  // unreachable
    };
    let year = match dec_to_bcd((dt.year - 2000) as u8) {
        Ok(v) => v,
        Err(_) => 0,  // unreachable: the year lies in 2000..=2099
    };
    proof {
        assert(second & 0x7f == second && minute & 0x7f == minute && hour & 0x3f == hour && day
            & 0x3f == day && month & 0x1f == month) by (bit_vector)
            requires
                is_valid_bcd(second) && bcd_value(second) <= 59,
                is_valid_bcd(minute) && bcd_value(minute) <= 59,
                is_valid_bcd(hour) && bcd_value(hour) <= 23,
                is_valid_bcd(day) && bcd_value(day) <= 31,
                is_valid_bcd(month) && bcd_value(month) <= 12,
        ;
    }
    proof {
        assert(weekday & 0x07 == weekday) by (bit_vector)
            requires
                weekday <= 6,
        ;
    }
    [second, minute, hour, day, weekday & 0x07, month, year]
}

/// The HYM8563 real-time-clock chip on a two-wire bus.
pub struct Hym8563<I: I2cDriver> {
    /// The bus the chip answers on.
    pub i2c: I,
}

impl<I: I2cDriver> Hym8563<I> {
    /// Write one register.
    pub fn write_register(&mut self, reg: u8, data: u8) -> Result<(), RtcError> {
        let buffer: Vec<u8> = vec![reg, data];
        match self.i2c.i2c_write(0xa2, &buffer) {
            Ok(()) => Ok(()),
            Err(_) => Err(RtcError::Bus),
        }
    }

    /// Write consecutive registers starting at `start_reg`; at most seven
    /// data bytes fit one burst.
    pub fn burst_write(&mut self, start_reg: u8, data: &Vec<u8>) -> (r: Result<(), RtcError>)
        ensures
            data@.len() > 7 ==> (r matches Err(e) && e == RtcError::BurstTooLong),
    {
        if data.len() > 7 {
            return Err(RtcError::BurstTooLong);
        }
        let mut buffer: Vec<u8> = Vec::new();
        buffer.push(start_reg);
        append_all(&mut buffer, data);
        match self.i2c.i2c_write(0xa2, &buffer) {
            Ok(()) => Ok(()),
            Err(_) => Err(RtcError::Bus),
        }
    }

    /// Read one register: write its address, then read one byte back.
    pub fn read_register(&mut self, reg: u8) -> Result<u8, RtcError> {
        let reg_buf: Vec<u8> = vec![reg];
        if self.i2c.i2c_write(0xa2, &reg_buf).is_err() {
            return Err(RtcError::Bus);
        }
        let mut buffer: Vec<u8> = vec![0u8];
        if self.i2c.i2c_read(0xa2, &mut buffer).is_err() {
            return Err(RtcError::Bus);
        }
        if buffer.len() == 1 {
            Ok(buffer[0])
        } else {
            Err(RtcError::Bus)
        }
    }

    /// Read consecutive registers starting at `start_reg` into `buffer`.
    pub fn burst_read(&mut self, start_reg: u8, buffer: &mut Vec<u8>) -> Result<(), RtcError> {
        let reg_buf: Vec<u8> = vec![start_reg];
        if self.i2c.i2c_write(0xa2, &reg_buf).is_err() {
            return Err(RtcError::Bus);
        }
        match self.i2c.i2c_read(0xa2, buffer) {
            Ok(()) => Ok(()),
            Err(_) => Err(RtcError::Bus),
        }
    }

    /// Whether the oscillator runs: the STOP bit of the first control
    /// register is clear.
    pub fn is_running(&mut self) -> Result<bool, RtcError> {
        let status = self.read_register(0x00)?;
        Ok((status & 0x20) == 0)
    }

    /// Reset the chip through its second control register.
    pub fn reset(&mut self) -> Result<(), RtcError> {
        self.write_register(0x01, 0x80)
    }

    /// Bring the chip up: reset it, then clear both control registers so the
    /// clock runs with interrupts disabled.
    pub fn init(&mut self) -> Result<(), RtcError> {
        self.reset()?;
        self.write_register(0x00, 0x00)?;
        self.write_register(0x01, 0x00)?;
        Ok(())
    }

    /// Stop the oscillator.
    pub fn deinit(&mut self) -> Result<(), RtcError> {
        let status = self.read_register(0x00)?;
        self.write_register(0x00, status | 0x20)
    }

    /// Read the seven time registers and decode them; whatever the bus
    /// returned, a successful result is a well-formed date-time.
    pub fn get_datetime(&mut self) -> (r: Result<DateTime, RtcError>)
        ensures
            r matches Ok(dt) ==> dt.wf(),
    {
        let mut buffer: Vec<u8> = vec![0u8, 0u8, 0u8, 0u8, 0u8, 0u8, 0u8];
        self.burst_read(0x02, &mut buffer)?;
        if buffer.len() != 7 {
            return Err(RtcError::Bus);
        }
        let regs: [u8; 7] = [
            buffer[0],
            buffer[1],
            buffer[2],
            buffer[3],
            buffer[4],
            buffer[5],
            buffer[6],
        ];
        decode_rtc_registers(&regs)
    }

    /// Encode a date-time and write it to the seven time registers.
    pub fn set_datetime(&mut self, dt: &DateTime) -> Result<(), RtcError>
        requires
            dt.wf(),
            2000 <= dt.year <= 2099,
    {
        let regs = encode_rtc_registers(dt);
        let mut data: Vec<u8> = Vec::new();
        data.push(regs[0]);
        data.push(regs[1]);
        data.push(regs[2]);
        data.push(regs[3]);
        data.push(regs[4]);
        data.push(regs[5]);
        data.push(regs[6]);
        self.burst_write(0x02, &data)
    }
}

impl<I: I2cDriver> Driver for Hym8563<I> {
    fn driver_init(&mut self) -> Result<(), DriverError> {
        match self.init() {
            Ok(()) => Ok(()),
            Err(_) => Err(DriverError::new(Vec::new())),
        }
    }

    fn driver_deinit(&mut self) -> Result<(), DriverError> {
        match self.deinit() {
            Ok(()) => Ok(()),
            Err(_) => Err(DriverError::new(Vec::new())),
        }
    }
}

/// Append all bytes of `src` to `out`.
fn append_all(out: &mut Vec<u8>, src: &Vec<u8>)
    ensures
        final(out)@ == old(out)@ + src@,
{
    crate::bytes::append_bytes(out, src)
}

} // verus!
