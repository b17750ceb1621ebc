use device_monitor::csvenc::encode_record;

fn fields(texts: &[&str]) -> Vec<String> {
    texts.iter().map(|t| t.to_string()).collect()
}

#[test]
fn joins_fields_with_commas_and_newline() {
    assert_eq!(encode_record(&fields(&["a", "b"])), "a,b\n");
    assert_eq!(encode_record(&fields(&["a", "b", "c"])), "a,b,c\n");
    assert_eq!(encode_record(&fields(&["x"])), "x\n");
    assert_eq!(encode_record(&fields(&[])), "\n");
}

#[test]
fn empty_fields_keep_their_place() {
    assert_eq!(encode_record(&fields(&["", ""])), ",\n");
    assert_eq!(encode_record(&fields(&["a", "", "c"])), "a,,c\n");
}

#[test]
fn clean_line_comma_and_newline_counts() {
    let line = encode_record(&fields(&["t", "1", "2", "3.5", "0", "100"]));
    assert_eq!(line.matches(',').count(), 5);
    assert_eq!(line.matches('\n').count(), 1);
    assert!(line.ends_with('\n'));
}
