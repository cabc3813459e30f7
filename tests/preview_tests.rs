use moodle_course_builder::preview::{missing_counts, missing_report, preview_table};
use moodle_course_builder::record::Record;

fn row(pairs: &[(&str, &str)]) -> Record {
    let mut r = Record::new();
    for (k, v) in pairs {
        r.set_str(k, v);
    }
    r
}

#[test]
fn preview_limit_one_shows_one_row() {
    let recs = vec![row(&[("a", "xyz"), ("bb", "1")]), row(&[("a", "q"), ("bb", "22")])];
    let lines = preview_table(&recs, &["a", "bb"], 1);
    assert_eq!(lines, vec!["| a   | bb |", "+-----+----+", "| xyz | 1  |"]);
}

#[test]
fn preview_limit_above_len_shows_all() {
    let recs = vec![row(&[("a", "1")]), row(&[])];
    let lines = preview_table(&recs, &["a"], 10);
    assert_eq!(lines, vec!["| a |", "+---+", "| 1 |", "|   |"]);
}

#[test]
fn preview_nothing_to_show() {
    assert_eq!(preview_table(&[], &["a"], 3), vec!["No records to preview."]);
    let recs = vec![row(&[("a", "1")])];
    assert_eq!(preview_table(&recs, &["a"], 0), vec!["No records to preview."]);
}

#[test]
fn missing_counts_per_column() {
    let recs = vec![
        row(&[("shortname", "A"), ("year", " ")]),
        row(&[("shortname", ""), ("year", "2025")]),
        row(&[("year", "2025")]),
    ];
    assert_eq!(missing_counts(&recs, &["shortname", "year", "x"]), vec![2, 1, 3]);
}

#[test]
fn missing_report_lines() {
    let recs = vec![
        row(&[("shortname", "A-1"), ("fullname", "Alpha"), ("year", "")]),
        row(&[("shortname", "B"), ("fullname", "Beta"), ("year", "2025")]),
        row(&[("shortname", " "), ("fullname", "Gamma")]),
    ];
    let lines = missing_report(&recs, &["shortname", "fullname", "year"]);
    assert_eq!(
        lines,
        vec![
            "Missing values summary (output headers):",
            "- shortname: 1",
            "- fullname: 0",
            "- year: 2",
            "Records with missing values:",
            "Row 1: missing [year] shortname=A-1 fullname=Alpha",
            "Row 3: missing [shortname, year] fullname=Gamma",
        ]
    );
}

#[test]
fn missing_report_none_missing() {
    let recs = vec![row(&[("a", "1")])];
    assert_eq!(
        missing_report(&recs, &["a"]),
        vec!["Missing values summary (output headers):", "- a: 0", "No records with missing output values."]
    );
    assert_eq!(missing_report(&[], &["a"]), vec!["No records to check for missing values."]);
}
