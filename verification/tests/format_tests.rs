use device_monitor::text::dec_u64;
use device_monitor::text::pad2;
use device_monitor::text::pad4;
use device_monitor::timestamp::Timestamp;

fn ts(year: u32, month: u32, day: u32, hour: u32, minute: u32, second: u32) -> Timestamp {
    Timestamp { year, month, day, hour, minute, second }
}

#[test]
fn decimal_rendering() {
    assert_eq!(dec_u64(0), "0");
    assert_eq!(dec_u64(7), "7");
    assert_eq!(dec_u64(42), "42");
    assert_eq!(dec_u64(907), "907");
    assert_eq!(dec_u64(1048576), "1048576");
    assert_eq!(dec_u64(u64::MAX), "18446744073709551615");
}

#[test]
fn padded_rendering() {
    assert_eq!(pad2(0), "00");
    assert_eq!(pad2(7), "07");
    assert_eq!(pad2(59), "59");
    assert_eq!(pad4(0), "0000");
    assert_eq!(pad4(42), "0042");
    assert_eq!(pad4(2024), "2024");
    assert_eq!(pad4(9999), "9999");
}

#[test]
fn row_timestamp_text() {
    assert_eq!(ts(2024, 1, 2, 3, 4, 5).row_text(), "2024-01-02T03:04:05");
    assert_eq!(ts(1999, 12, 31, 23, 59, 59).row_text(), "1999-12-31T23:59:59");
}

#[test]
fn file_name_text() {
    assert_eq!(
        ts(2024, 1, 2, 3, 4, 5).file_name(),
        "device_metrics_2024-01-02_03-04-05.csv"
    );
}

#[test]
fn file_names_unique_per_second() {
    let a = ts(2024, 1, 2, 3, 4, 5);
    let b = ts(2024, 1, 2, 3, 4, 6);
    let c = ts(2025, 1, 2, 3, 4, 5);
    assert_ne!(a.file_name(), b.file_name());
    assert_ne!(a.file_name(), c.file_name());
    assert_ne!(b.file_name(), c.file_name());
}

#[test]
fn clock_readings_are_accepted_exactly_when_the_year_fits() {
    assert_eq!(
        Timestamp::from_clock(2024, 1, 2, 3, 4, 5),
        Some(ts(2024, 1, 2, 3, 4, 5))
    );
    assert_eq!(Timestamp::from_clock(0, 6, 7, 8, 9, 10), Some(ts(0, 6, 7, 8, 9, 10)));
    assert_eq!(Timestamp::from_clock(9999, 12, 31, 23, 59, 59), Some(ts(9999, 12, 31, 23, 59, 59)));
    assert_eq!(Timestamp::from_clock(-1, 1, 1, 0, 0, 0), None);
    assert_eq!(Timestamp::from_clock(10000, 1, 1, 0, 0, 0), None);
}

#[test]
fn clock_reading_is_well_formed() {
    let now = Timestamp::now().expect("the clock year fits four digits");
    assert!(now.year < 10000);
    assert!((1..=12).contains(&now.month));
    assert!((1..=31).contains(&now.day));
    assert!(now.hour < 24);
    assert!(now.minute < 60);
    assert!(now.second < 60);
}
