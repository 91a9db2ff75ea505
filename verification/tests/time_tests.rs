use dvida_kernel::time::formats::rtc_to_posix;
use dvida_kernel::time::{Rtc, RtcDateTime, RtcRegisters};

fn dt(year: u16, month: u8, day: u8, hour: u8, minute: u8, second: u8, weekday: u8) -> RtcDateTime {
    RtcDateTime { second, minute, hour, day, month, year, weekday }
}

#[test]
fn posix_of_new_year_2024() {
    assert_eq!(rtc_to_posix(&dt(2024, 1, 1, 0, 0, 0, 1)), 1704067200);
}

#[test]
fn posix_of_march_2000() {
    assert_eq!(rtc_to_posix(&dt(2000, 3, 1, 12, 30, 15, 3)), 951913815);
    assert_eq!(rtc_to_posix(&dt(2000, 3, 1, 0, 0, 0, 3)), 951868800);
    assert_eq!(rtc_to_posix(&dt(1970, 1, 1, 0, 0, 0, 4)), 0);
}

#[test]
fn unix_timestamp_of_dates() {
    assert_eq!(Rtc::datetime_to_unix_timestamp(&dt(1970, 1, 1, 0, 0, 0, 4)), 0);
    assert_eq!(Rtc::datetime_to_unix_timestamp(&dt(2024, 1, 1, 0, 0, 0, 1)), 1704067200);
    assert_eq!(Rtc::datetime_to_unix_timestamp(&dt(2000, 2, 29, 1, 1, 1, 2)), 951786061);
}

#[test]
fn datetime_of_timestamps() {
    assert_eq!(Rtc::unix_timestamp_to_datetime(1704067200), dt(2024, 1, 1, 0, 0, 0, 1));
    assert_eq!(Rtc::unix_timestamp_to_datetime(0), dt(1970, 1, 1, 0, 0, 0, 4));
    assert_eq!(Rtc::unix_timestamp_to_datetime(951786061), dt(2000, 2, 29, 1, 1, 1, 2));
    assert_eq!(Rtc::unix_timestamp_to_datetime(86399), dt(1970, 1, 1, 23, 59, 59, 4));
}

#[test]
fn timestamp_round_trip() {
    for ts in [0i64, 1, 59, 86400, 951786061, 1704067200, 4102444799] {
        let d = Rtc::unix_timestamp_to_datetime(ts);
        assert_eq!(Rtc::datetime_to_unix_timestamp(&d), ts);
    }
}

#[test]
fn leap_years() {
    assert!(Rtc::is_leap_year(2000));
    assert!(Rtc::is_leap_year(2024));
    assert!(!Rtc::is_leap_year(1900));
    assert!(!Rtc::is_leap_year(2023));
}

#[test]
fn bcd_conversion() {
    assert_eq!(Rtc::bcd_to_binary(0x59), 59);
    assert_eq!(Rtc::bcd_to_binary(0x00), 0);
    assert_eq!(Rtc::bcd_to_binary(0x12), 12);
}

#[test]
fn register_select_disables_nmi() {
    assert_eq!(Rtc::register_select(0x0A), 0x8A);
    assert!(Rtc::is_update_in_progress(0x80));
    assert!(!Rtc::is_update_in_progress(0x26));
}

#[test]
fn decode_bcd_12_hour_registers() {
    // BCD, 12-hour clock: bit 7 of the hour register flags PM, so 11 PM is 23.
    let regs = RtcRegisters {
        second: 0x30,
        minute: 0x45,
        hour: 0x80 | 0x11,
        day: 0x15,
        month: 0x06,
        year: 0x24,
        weekday: 6,
        century: 0x20,
        status_b: 0,
    };
    let d = Rtc::decode_registers(&regs);
    assert_eq!(d, dt(2024, 6, 15, 23, 45, 30, 6));
    let mut regs2 = regs;
    regs2.hour = 0x81;
    assert_eq!(Rtc::decode_registers(&regs2).hour, 13);
    regs2.hour = 0x92;
    assert_eq!(Rtc::decode_registers(&regs2).hour, 12);
    regs2.hour = 0x12;
    assert_eq!(Rtc::decode_registers(&regs2).hour, 0);
    regs2.hour = 0x09;
    assert_eq!(Rtc::decode_registers(&regs2).hour, 9);
}

#[test]
fn decode_binary_12_hour_registers() {
    // binary, 12-hour clock: 11 PM becomes 23 and 12 AM becomes 0.
    let mut regs = RtcRegisters {
        second: 1,
        minute: 2,
        hour: 0x80 | 11,
        day: 3,
        month: 4,
        year: 5,
        weekday: 1,
        century: 0,
        status_b: 0x04,
    };
    assert_eq!(Rtc::decode_registers(&regs), dt(2005, 4, 3, 23, 2, 1, 1));
    regs.hour = 12;
    assert_eq!(Rtc::decode_registers(&regs).hour, 0);
}

#[test]
fn decode_binary_24_hour_registers() {
    let regs = RtcRegisters {
        second: 5,
        minute: 6,
        hour: 7,
        day: 8,
        month: 9,
        year: 99,
        weekday: 2,
        century: 0,
        status_b: 0x06,
    };
    assert_eq!(Rtc::decode_registers(&regs), dt(1999, 9, 8, 7, 6, 5, 2));
}

#[test]
fn read_datetime_refuses_torn_reads() {
    let regs = RtcRegisters {
        second: 5,
        minute: 6,
        hour: 7,
        day: 8,
        month: 9,
        year: 99,
        weekday: 2,
        century: 0,
        status_b: 0x06,
    };
    assert!(Rtc::read_datetime(&regs, true).is_none());
    assert_eq!(Rtc::read_datetime(&regs, false), Some(dt(1999, 9, 8, 7, 6, 5, 2)));
}

#[test]
fn rtc_ports() {
    let r = Rtc::new();
    assert_eq!(r.address_port, 0x70);
    assert_eq!(r.data_port, 0x71);
}
