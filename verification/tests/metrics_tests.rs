use device_monitor::metrics::MetricsReader;
use device_monitor::timestamp::Timestamp;

fn ts() -> Timestamp {
    Timestamp { year: 2024, month: 1, day: 2, hour: 3, minute: 4, second: 5 }
}

#[test]
fn reader_observes_at_least_one_core() {
    let mut reader = MetricsReader::new();
    assert!(reader.observed_core_count() >= 1);
}

#[test]
fn sample_carries_the_given_timestamp_and_one_text_per_core() {
    let mut reader = MetricsReader::new();
    let cores = reader.observed_core_count();
    let s = reader.sample(ts());
    assert_eq!(s.timestamp, ts());
    assert_eq!(s.cpu_core_usage.len(), cores);
    assert_eq!(s.row_fields().len(), 4 + cores);
}

#[test]
fn host_reading_is_non_degenerate() {
    let mut reader = MetricsReader::new();
    let s = reader.sample(ts());
    assert!(s.memory_total_mb > 0);
    assert!(s.memory_used_mb <= s.memory_total_mb);
}

#[test]
fn cpu_texts_are_clean_decimal_renderings() {
    let mut reader = MetricsReader::new();
    let s = reader.sample(ts());
    let mut texts = s.cpu_core_usage.clone();
    texts.push(s.cpu_global_usage.clone());
    for text in &texts {
        assert!(!text.is_empty());
        let value: f32 = text.parse().expect("a CPU percentage renders as a number");
        assert!(value >= 0.0);
        for reserved in [',', '"', '\n', '\r'] {
            assert!(!text.contains(reserved));
        }
    }
}
