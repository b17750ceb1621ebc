use device_monitor::schema::header_fields;
use device_monitor::schema::Sample;
use device_monitor::timestamp::Timestamp;

fn ts() -> Timestamp {
    Timestamp { year: 2024, month: 1, day: 2, hour: 3, minute: 4, second: 5 }
}

fn texts(items: &[&str]) -> Vec<String> {
    items.iter().map(|t| t.to_string()).collect()
}

#[test]
fn header_for_four_cores() {
    let header = header_fields(4);
    assert_eq!(
        header,
        texts(&[
            "timestamp",
            "memory_used_mb",
            "memory_total_mb",
            "cpu_global_usage",
            "cpu_core_0",
            "cpu_core_1",
            "cpu_core_2",
            "cpu_core_3",
        ])
    );
    assert_eq!(header.len(), 8);
}

#[test]
fn header_for_zero_cores_is_valid() {
    assert_eq!(
        header_fields(0),
        texts(&["timestamp", "memory_used_mb", "memory_total_mb", "cpu_global_usage"])
    );
}

#[test]
fn header_core_indexes_use_plain_decimals() {
    let header = header_fields(12);
    assert_eq!(header[4], "cpu_core_0");
    assert_eq!(header[14], "cpu_core_10");
    assert_eq!(header[15], "cpu_core_11");
}

#[test]
fn megabytes_come_from_integer_division() {
    let s = Sample::from_readings(
        ts(),
        3 * 1024 * 1024 * 1024,
        8 * 1024 * 1024 * 1024,
        "1.5".to_string(),
        texts(&["2.0", "1.0"]),
    );
    assert_eq!(s.memory_used_mb, 3072);
    assert_eq!(s.memory_total_mb, 8192);
    // A non-degenerate reading keeps its order after the division.
    assert!(s.memory_used_mb <= s.memory_total_mb);
}

#[test]
fn truncating_division_drops_partial_megabytes() {
    let s = Sample::from_readings(ts(), 1048575, 1048577, "0".to_string(), texts(&[]));
    assert_eq!(s.memory_used_mb, 0);
    assert_eq!(s.memory_total_mb, 1);
}

#[test]
fn row_has_four_plus_core_fields() {
    let s = Sample::from_readings(ts(), 0, 0, "0".to_string(), texts(&["1", "2", "3", "4"]));
    let row = s.row_fields();
    assert_eq!(row.len(), 8);
    let header = header_fields(s.cpu_core_usage.len());
    assert_eq!(row.len(), header.len());
}

#[test]
fn row_line_matches_header_positions() {
    let s = Sample::from_readings(
        ts(),
        3 * 1024 * 1024 * 1024,
        8 * 1024 * 1024 * 1024,
        "12.5".to_string(),
        texts(&["3.25", "99"]),
    );
    assert_eq!(s.row_line(), "2024-01-02T03:04:05,3072,8192,12.5,3.25,99\n");
}
