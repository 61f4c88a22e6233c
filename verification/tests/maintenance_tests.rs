use tuipe::maintenance::{alter_column_statement, get_log_file_name, log_file_name, missing_columns};

#[test]
fn all_columns_missing_from_empty_table() {
    let m = missing_columns(&Vec::new());
    assert_eq!(m.len(), 8);
    assert_eq!(m[0], ("wpm", "REAl"));
    assert_eq!(m[5], ("capital_letters", "BOOLEAN"));
    assert_eq!(m[7], ("time", "INTEGER"));
}

#[test]
fn only_missing_columns_are_listed() {
    let existing: Vec<String> = ["wpm", "raw_wpm", "accuracy", "test_type", "language", "characters_typed", "time"]
        .iter()
        .map(|s| s.to_string())
        .collect();
    assert_eq!(missing_columns(&existing), vec![("capital_letters", "BOOLEAN")]);
    let mut all = existing.clone();
    all.push("capital_letters".to_string());
    assert!(missing_columns(&all).is_empty());
}

#[test]
fn alter_statement() {
    assert_eq!(alter_column_statement("time", "INTEGER"), "ALTER TABLE results ADD COLUMN time INTEGER");
}

#[test]
fn log_names() {
    assert_eq!(log_file_name("2024-05-01T12:30:45+02:00"), "2024-05-01_12-30-45.log");
    assert_eq!(log_file_name("2024-05-01T12:30:45-05:00"), "2024-05-01_12-30-45-05-00.log");
    assert_eq!(log_file_name(""), ".log");
    assert_eq!(log_file_name("+"), ".log");
}

#[test]
fn current_log_name_has_no_offset() {
    let name = get_log_file_name();
    assert!(name.ends_with(".log"));
    assert!(!name.contains(':'));
    assert!(!name.contains('T'));
    assert!(!name.contains('+'));
}

#[test]
fn second_repair_adds_nothing() {
    let existing: Vec<String> = ["wpm", "time", "language"].iter().map(|s| s.to_string()).collect();
    let missing = missing_columns(&existing);
    assert_eq!(missing.len(), 5);
    let mut repaired = existing.clone();
    for (name, _) in &missing {
        repaired.push(name.to_string());
    }
    assert!(missing_columns(&repaired).is_empty());
}

#[test]
fn current_log_name_has_timestamp_shape() {
    let name = get_log_file_name();
    let chars: Vec<char> = name.chars().collect();
    // Four-digit year, then -MM-DD_HH-MM-SS, then an offset only when it
    // is negative, then .log.
    assert!(chars.len() == 23 || chars.len() == 29, "{}", name);
    assert!(chars[..4].iter().all(|c| c.is_ascii_digit()));
    assert_eq!(chars[4], '-');
    assert_eq!(chars[7], '-');
    assert_eq!(chars[10], '_');
    assert_eq!(chars[13], '-');
    assert_eq!(chars[16], '-');
}
