use moodle_course_builder::record::Record;

#[test]
fn record_get_missing_column_is_none() {
    let r = Record::new();
    assert!(r.get("Program").is_none());
    assert_eq!(r.get_or_empty("Program"), "");
}

#[test]
fn record_set_then_get() {
    let mut r = Record::new();
    r.set("Program".to_string(), "BSCS".to_string());
    r.set_str("Semester", "1");
    assert_eq!(r.get("Program").map(|s| s.as_str()), Some("BSCS"));
    assert_eq!(r.get_or_empty("Semester"), "1");
}

#[test]
fn record_set_overwrites() {
    let mut r = Record::new();
    r.set_str("Year", "2024");
    r.set_str("Other", "x");
    r.set_str("Year", "2025");
    assert_eq!(r.get_or_empty("Year"), "2025");
    assert_eq!(r.get_or_empty("Other"), "x");
}

#[test]
fn record_keys_are_case_sensitive() {
    let mut r = Record::new();
    r.set_str("Year", "2025");
    r.set_str("year", "1999");
    assert_eq!(r.get_or_empty("Year"), "2025");
    assert_eq!(r.get_or_empty("year"), "1999");
}
