use device_monitor::rotation::open_times;
use device_monitor::rotation::rotation_due;
use device_monitor::rotation::rows_per_file;

#[test]
fn rotation_due_at_the_boundary() {
    assert!(!rotation_due(0, 5));
    assert!(!rotation_due(4, 5));
    assert!(rotation_due(5, 5));
    assert!(rotation_due(6, 5));
}

#[test]
fn twelve_second_run_with_five_second_rotation() {
    // interval 1 s, rotation 5 s, run 12 s: three files at 0 s, 5 s, 10 s,
    // with 5, 5 and 2 rows.
    assert_eq!(open_times(5, 12), vec![0, 5, 10]);
    assert_eq!(rows_per_file(5, 12), vec![5, 5, 2]);
}

#[test]
fn file_count_is_ceiling_of_duration_over_rotation() {
    assert_eq!(open_times(3600, 3600), vec![0]);
    assert_eq!(open_times(10, 95).len(), 10);
    assert_eq!(open_times(10, 100).len(), 10);
    assert_eq!(open_times(10, 101).len(), 11);
    assert_eq!(open_times(7, 1), vec![0]);
}

#[test]
fn an_empty_run_opens_no_file_in_the_schedule() {
    assert_eq!(open_times(5, 0), Vec::<u64>::new());
    assert_eq!(rows_per_file(5, 0), Vec::<u64>::new());
}

#[test]
fn windows_partition_the_run() {
    let rotation: u64 = 10;
    let duration: u64 = 95;
    let opens = open_times(rotation, duration);
    let rows = rows_per_file(rotation, duration);
    assert_eq!(opens.len(), rows.len());
    // Windows are ordered, contiguous, and cover the run exactly.
    let mut covered: u64 = 0;
    for (i, open) in opens.iter().enumerate() {
        assert_eq!(*open, covered);
        covered += rows[i];
    }
    assert_eq!(covered, duration);
    // Successive files open a full rotation interval apart.
    for pair in opens.windows(2) {
        assert_eq!(pair[1] - pair[0], rotation);
    }
}
