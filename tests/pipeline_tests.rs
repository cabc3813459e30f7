use moodle_course_builder::pipeline::{Pipeline, PipelineError};
use moodle_course_builder::record::Record;

fn rec(pairs: &[(&str, &str)]) -> Record {
    let mut r = Record::new();
    for (k, v) in pairs {
        r.set_str(k, v);
    }
    r
}

#[test]
fn pipeline_new_is_empty() {
    let p = Pipeline::new();
    assert_eq!(p.len(), 0);
    assert!(p.records().is_empty());
}

#[test]
fn pipeline_from_records_keeps_order() {
    let p = Pipeline::from_records(vec![rec(&[("a", "1")]), rec(&[("a", "2")])]);
    assert_eq!(p.len(), 2);
    assert_eq!(p.records()[0].get_or_empty("a"), "1");
    assert_eq!(p.records()[1].get_or_empty("a"), "2");
}

#[test]
fn pipeline_filter_keeps_matching_in_order() {
    let p = Pipeline::from_records(vec![
        rec(&[("n", "1")]),
        rec(&[("n", "2")]),
        rec(&[("n", "3")]),
        rec(&[("n", "4")]),
    ]);
    let p = p.filter(|r| r.get_or_empty("n") != "2" && r.get_or_empty("n") != "4");
    assert_eq!(p.len(), 2);
    assert_eq!(p.records()[0].get_or_empty("n"), "1");
    assert_eq!(p.records()[1].get_or_empty("n"), "3");
}

#[test]
fn pipeline_filter_to_empty_is_fine() {
    let p = Pipeline::from_records(vec![rec(&[("n", "1")])]).filter(|_| false);
    assert_eq!(p.len(), 0);
}

#[test]
fn pipeline_derive_sets_and_overwrites() {
    let p = Pipeline::from_records(vec![rec(&[("a", "x"), ("b", "old")]), rec(&[("a", "y")])]);
    let p = p.derive("b", |r| format!("{}!", r.get_or_empty("a")));
    assert_eq!(p.records()[0].get_or_empty("b"), "x!");
    assert_eq!(p.records()[1].get_or_empty("b"), "y!");
    assert_eq!(p.records()[0].get_or_empty("a"), "x");
}

#[test]
fn pipeline_select_projects_and_defaults() {
    let p = Pipeline::from_records(vec![rec(&[("a", "1"), ("b", "2"), ("c", "3")])]);
    let p = p.select(vec!["c", "z", "a"]);
    let r = &p.records()[0];
    assert_eq!(r.get_or_empty("c"), "3");
    assert_eq!(r.get_or_empty("a"), "1");
    assert_eq!(r.get("z").map(|s| s.as_str()), Some(""));
    assert!(r.get("b").is_none());
}

#[test]
fn pipeline_select_twice_same_as_once() {
    let make = || {
        Pipeline::from_records(vec![
            rec(&[("a", "1"), ("b", "2")]),
            rec(&[("b", "3"), ("q", "4")]),
        ])
    };
    let once = make().select(vec!["a", "b", "c"]);
    let twice = make().select(vec!["a", "b", "c"]).select(vec!["a", "b", "c"]);
    assert_eq!(once.len(), twice.len());
    for i in 0..once.len() {
        for col in ["a", "b", "c", "q"] {
            assert_eq!(
                once.records()[i].get(col).cloned(),
                twice.records()[i].get(col).cloned()
            );
        }
    }
}

#[test]
fn pipeline_from_file_reads_header_and_rows() {
    let data = b"Program,Semester\nBSCS,1\n,2\n";
    let p = Pipeline::new().from_file(data).unwrap();
    assert_eq!(p.len(), 2);
    assert_eq!(p.records()[0].get_or_empty("Program"), "BSCS");
    assert_eq!(p.records()[0].get_or_empty("Semester"), "1");
    assert_eq!(p.records()[1].get("Program").map(|s| s.as_str()), Some(""));
    assert_eq!(p.records()[1].get_or_empty("Semester"), "2");
}

#[test]
fn pipeline_from_file_empty_input() {
    let p = Pipeline::new().from_file(b"").unwrap();
    assert_eq!(p.len(), 0);
    let p = Pipeline::new().from_file(b"a,b\n").unwrap();
    assert_eq!(p.len(), 0);
}

#[test]
fn pipeline_from_file_ragged_rows_is_format_error() {
    let r = Pipeline::new().from_file(b"a,b\n1,2,3\n");
    assert!(matches!(r, Err(PipelineError::Format)));
}

#[test]
fn pipeline_from_file_bad_encoding_is_format_error() {
    let r = Pipeline::new().from_file(b"a,b\n\xff\xfe,x\n");
    assert!(matches!(r, Err(PipelineError::Format)));
}

#[test]
fn pipeline_to_file_skips_incomplete() {
    let p = Pipeline::from_records(vec![
        rec(&[("a", "1"), ("b", "2")]),
        rec(&[("a", "3"), ("b", "   ")]),
        rec(&[("a", "5")]),
        rec(&[("a", "7"), ("b", "8"), ("c", "9")]),
    ]);
    let out = p.to_file(vec!["b", "a"]).unwrap();
    assert_eq!(out.written, 2);
    assert_eq!(out.skipped, 2);
    assert_eq!(String::from_utf8(out.bytes).unwrap(), "b,a\n2,1\n8,7\n");
}

#[test]
fn pipeline_write_then_load_round_trips() {
    let p = Pipeline::from_records(vec![
        rec(&[("name", "Intro, to \"CS\""), ("code", "CS 101")]),
        rec(&[("name", ""), ("code", "X")]),
        rec(&[("name", "  line\nbreak "), ("code", "ü-42")]),
    ]);
    let out = p.to_file(vec!["name", "code"]).unwrap();
    assert_eq!(out.written, 2);
    assert_eq!(out.skipped, 1);
    let back = Pipeline::new().from_file(&out.bytes).unwrap();
    assert_eq!(back.len(), 2);
    assert_eq!(back.records()[0].get_or_empty("name"), "Intro, to \"CS\"");
    assert_eq!(back.records()[0].get_or_empty("code"), "CS 101");
    assert_eq!(back.records()[1].get_or_empty("name"), "  line\nbreak ");
    assert_eq!(back.records()[1].get_or_empty("code"), "ü-42");
}

#[test]
fn pipeline_to_file_empty_writes_header_only() {
    let out = Pipeline::new().to_file(vec!["x", "y"]).unwrap();
    assert_eq!(out.written, 0);
    assert_eq!(out.skipped, 0);
    assert_eq!(String::from_utf8(out.bytes).unwrap(), "x,y\n");
}

#[test]
fn pipeline_from_file_unclosed_quote_is_format_error() {
    let r = Pipeline::new().from_file(b"a,b\n\"open,x\n");
    assert!(matches!(r, Err(PipelineError::Format)));
    let r = Pipeline::new().from_file(b"a,b\n1,\"x\"\"");
    assert!(matches!(r, Err(PipelineError::Format)));
}

#[test]
fn pipeline_from_file_closed_quotes_are_fine() {
    let p = Pipeline::new().from_file(b"a,b\n\"x,\ny\",a\"b\n\"q\"\"\",z\n").unwrap();
    assert_eq!(p.len(), 2);
    assert_eq!(p.records()[0].get_or_empty("a"), "x,\ny");
    assert_eq!(p.records()[0].get_or_empty("b"), "a\"b");
    assert_eq!(p.records()[1].get_or_empty("a"), "q\"");
}

#[test]
fn pipeline_to_file_whitespace_and_absent_skipped() {
    let p = Pipeline::from_records(vec![rec(&[("a", "  ")]), rec(&[("b", "y")]), rec(&[("a", "x")])]);
    let out = p.to_file(vec!["a"]).unwrap();
    assert_eq!(out.written, 1);
    assert_eq!(out.skipped, 2);
    assert_eq!(String::from_utf8(out.bytes).unwrap(), "a\nx\n");
}
