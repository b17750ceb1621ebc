use device_monitor::logfile::LogFile;
use device_monitor::schema::Sample;
use device_monitor::timestamp::Timestamp;

fn ts(second: u32) -> Timestamp {
    Timestamp { year: 2024, month: 1, day: 2, hour: 3, minute: 4, second }
}

fn sample(second: u32, cores: &[&str]) -> Sample {
    Sample::from_readings(
        ts(second),
        2 * 1024 * 1024 * 1024,
        4 * 1024 * 1024 * 1024,
        "7.5".to_string(),
        cores.iter().map(|t| t.to_string()).collect(),
    )
}

#[test]
fn open_writes_the_header_line_first() {
    let (file, header_line) = LogFile::open(2);
    assert_eq!(
        header_line,
        "timestamp,memory_used_mb,memory_total_mb,cpu_global_usage,cpu_core_0,cpu_core_1\n"
    );
    assert_eq!(file.records.len(), 1);
    assert_eq!(file.render(), header_line);
}

#[test]
fn appended_rows_follow_the_header_in_order() {
    let (mut file, header_line) = LogFile::open(2);
    let first = file.append(&sample(5, &["1.5", "2"]));
    let second = file.append(&sample(6, &["3", "4.25"]));
    assert_eq!(first, "2024-01-02T03:04:05,2048,4096,7.5,1.5,2\n");
    assert_eq!(second, "2024-01-02T03:04:06,2048,4096,7.5,3,4.25\n");
    assert_eq!(file.records.len(), 3);
    // The header stays the first record, written exactly once.
    assert_eq!(file.records[0].first().map(String::as_str), Some("timestamp"));
    let text = file.render();
    assert_eq!(text, format!("{}{}{}", header_line, first, second));
    assert_eq!(text.lines().next(), Some(header_line.trim_end()));
    assert_eq!(text.lines().count(), 3);
}

#[test]
fn every_record_keeps_the_header_arity() {
    let (mut file, _) = LogFile::open(3);
    file.append(&sample(1, &["0", "0", "0"]));
    file.append(&sample(2, &["50", "25", "75.5"]));
    for record in &file.records {
        assert_eq!(record.len(), 4 + 3);
    }
}
