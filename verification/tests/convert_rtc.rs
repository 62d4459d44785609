//! BCD conversion and real-time-clock codec behavior.

use simple_os::convert::{bcd_to_dec, dec_to_bcd, ConvertError};
use simple_os::rtc::{
    datetime_timestamp, days_in_month_exec, decode_rtc_registers, encode_rtc_registers,
    weekday_from_sunday, DateTime, RtcError,
};

#[test]
fn bcd_decodes_packed_digits() {
    assert_eq!(bcd_to_dec(0x00).unwrap(), 0);
    assert_eq!(bcd_to_dec(0x59).unwrap(), 59);
    assert_eq!(bcd_to_dec(0x99).unwrap(), 99);
}

#[test]
fn bcd_rejects_bad_nibbles() {
    assert_eq!(bcd_to_dec(0x5a), Err(ConvertError::BadBcd));
    assert_eq!(bcd_to_dec(0xa5), Err(ConvertError::BadBcd));
}

#[test]
fn dec_encodes_to_bcd() {
    assert_eq!(dec_to_bcd(0).unwrap(), 0x00);
    assert_eq!(dec_to_bcd(59).unwrap(), 0x59);
    assert_eq!(dec_to_bcd(99).unwrap(), 0x99);
}

#[test]
fn dec_above_ninety_nine_is_refused() {
    assert_eq!(dec_to_bcd(100), Err(ConvertError::BadDec));
    assert_eq!(dec_to_bcd(255), Err(ConvertError::BadDec));
}

#[test]
fn bcd_round_trip() {
    for v in 0u8..=99 {
        assert_eq!(bcd_to_dec(dec_to_bcd(v).unwrap()).unwrap(), v);
    }
}

#[test]
fn decode_reads_the_time_registers() {
    // 2024-02-29 13:37:45, a leap day.
    let regs = [0x45u8, 0x37, 0x13, 0x29, 0x04, 0x02, 0x24];
    let dt = decode_rtc_registers(&regs).unwrap();
    assert_eq!(dt.year, 2024);
    assert_eq!(dt.month, 2);
    assert_eq!(dt.day, 29);
    assert_eq!(dt.hour, 13);
    assert_eq!(dt.minute, 37);
    assert_eq!(dt.second, 45);
}

#[test]
fn decode_rejects_voltage_low() {
    let regs = [0x80u8, 0x00, 0x00, 0x01, 0x00, 0x01, 0x24];
    assert_eq!(decode_rtc_registers(&regs), Err(RtcError::DataInvalid));
}

#[test]
fn decode_rejects_bad_bcd() {
    let regs = [0x4au8, 0x00, 0x00, 0x01, 0x00, 0x01, 0x24];
    assert_eq!(decode_rtc_registers(&regs), Err(RtcError::BadBcd));
}

#[test]
fn decode_rejects_impossible_dates() {
    // February 30th of a non-leap year.
    let regs = [0x00u8, 0x00, 0x00, 0x30, 0x00, 0x02, 0x23];
    assert_eq!(decode_rtc_registers(&regs), Err(RtcError::OutOfRange));
    // Month zero.
    let regs = [0x00u8, 0x00, 0x00, 0x01, 0x00, 0x00, 0x23];
    assert_eq!(decode_rtc_registers(&regs), Err(RtcError::OutOfRange));
}

#[test]
fn encode_then_decode_round_trips() {
    let dt = DateTime { year: 2024, month: 12, day: 31, hour: 23, minute: 59, second: 58 };
    let regs = encode_rtc_registers(&dt);
    let back = decode_rtc_registers(&regs).unwrap();
    assert_eq!(back, dt);
}

#[test]
fn weekday_matches_known_dates() {
    // 2000-01-01 was a Saturday, 1970-01-01 a Thursday.
    assert_eq!(weekday_from_sunday(2000, 1, 1), 6);
    assert_eq!(weekday_from_sunday(1970, 1, 1), 4);
    assert_eq!(weekday_from_sunday(2024, 2, 29), 4);
}

#[test]
fn timestamp_matches_the_epoch() {
    let epoch = DateTime { year: 1970, month: 1, day: 1, hour: 0, minute: 0, second: 0 };
    assert_eq!(datetime_timestamp(&epoch), 0);
    let later = DateTime { year: 1970, month: 1, day: 2, hour: 0, minute: 0, second: 1 };
    assert_eq!(datetime_timestamp(&later), 86401);
}

#[test]
fn month_lengths_follow_the_calendar() {
    assert_eq!(days_in_month_exec(2023, 2), 28);
    assert_eq!(days_in_month_exec(2024, 2), 29);
    assert_eq!(days_in_month_exec(1900, 2), 28);
    assert_eq!(days_in_month_exec(2000, 2), 29);
    assert_eq!(days_in_month_exec(2024, 4), 30);
    assert_eq!(days_in_month_exec(2024, 12), 31);
}
