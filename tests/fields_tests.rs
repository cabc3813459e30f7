use moodle_course_builder::fields::{
    edp_code, email_address, faculty_username_from_parts, generate_fake_user,
    generate_faculty_username, generate_random_edp_code, generate_username, get_category_path,
    get_course_end_date, get_course_start_date, get_short_name, short_name_with_code,
    username_from_parts,
};
use moodle_course_builder::record::Record;
use moodle_course_builder::text::{decimal, remove_spaces, str_is_blank, zero_padded_decimal};

fn row(pairs: &[(&str, &str)]) -> Record {
    let mut r = Record::new();
    for (k, v) in pairs {
        r.set_str(k, v);
    }
    r
}

fn all_digits(s: &str) -> bool {
    s.chars().all(|c| c.is_ascii_digit())
}

#[test]
fn dates_semester_one() {
    let r = row(&[("Semester", "1")]);
    assert_eq!(get_course_start_date(&r, "2025", "2026"), "2025-08-01");
    assert_eq!(get_course_end_date(&r, "2025", "2026"), "2025-12-18");
}

#[test]
fn dates_semester_two() {
    let r = row(&[("Semester", "2")]);
    assert_eq!(get_course_start_date(&r, "2025", "2026"), "2026-01-20");
    assert_eq!(get_course_end_date(&r, "2025", "2026"), "2026-06-01");
}

#[test]
fn dates_other_or_missing_semester_are_empty() {
    for r in [row(&[("Semester", "3")]), row(&[("Semester", "")]), row(&[("Semester", " 1")]), row(&[])] {
        assert_eq!(get_course_start_date(&r, "2025", "2026"), "");
        assert_eq!(get_course_end_date(&r, "2025", "2026"), "");
    }
}

#[test]
fn category_path_known_tag_with_default_program() {
    let r = row(&[("Semester", "1")]);
    assert_eq!(get_category_path(&r, "UCMN", "CS", "25", "26"), "UCMN / S12526 / CS / GEN");
    let r = row(&[("Semester", "1"), ("Program", "")]);
    assert_eq!(get_category_path(&r, "UCMN", "CS", "25", "26"), "UCMN / S12526 / CS / GEN");
}

#[test]
fn category_path_keeps_program() {
    let r = row(&[("Semester", "2"), ("Program", "BSIT")]);
    assert_eq!(get_category_path(&r, "UCB", "IT", "25", "26"), "UCB / S22526 / IT / BSIT");
}

#[test]
fn category_path_unknown_tag_is_empty() {
    let r = row(&[("Semester", "1"), ("Program", "BSCS")]);
    assert_eq!(get_category_path(&r, "UCMN", "CS", "24", "25"), "");
    let r = row(&[("Semester", "3")]);
    assert_eq!(get_category_path(&r, "UCMN", "CS", "25", "26"), "");
    let r = row(&[]);
    assert_eq!(get_category_path(&r, "UCMN", "CS", "25", "26"), "");
}

#[test]
fn short_name_with_given_code() {
    let r = row(&[("Semester", "1"), ("Course Code", "CS 101")]);
    assert_eq!(short_name_with_code(&r, "UCMN", "25", "26", "00042"), "UCMN-S12526-CS101-00042");
    let r = row(&[]);
    assert_eq!(short_name_with_code(&r, "UCB", "25", "26", "12345"), "UCB-S2526--12345");
}

#[test]
fn short_name_has_no_spaces_and_five_digits() {
    let r = row(&[("Semester", "2"), ("Course Code", "CS 101")]);
    for _ in 0..20 {
        let s = get_short_name(&r, "UCMN", "25", "26");
        assert!(!s.contains(' '));
        assert!(s.starts_with("UCMN-S22526-CS101-"));
        let code = &s["UCMN-S22526-CS101-".len()..];
        assert_eq!(code.len(), 5);
        assert!(all_digits(code));
    }
}

#[test]
fn edp_code_is_zero_padded() {
    assert_eq!(edp_code(0), "00000");
    assert_eq!(edp_code(42), "00042");
    assert_eq!(edp_code(99999), "99999");
    assert_eq!(edp_code(123456), "123456");
    for _ in 0..20 {
        let c = generate_random_edp_code();
        assert_eq!(c.len(), 5);
        assert!(all_digits(&c));
    }
}

#[test]
fn text_helpers() {
    assert_eq!(decimal(0), "0");
    assert_eq!(decimal(1234567890), "1234567890");
    assert_eq!(zero_padded_decimal(7, 4), "0007");
    assert_eq!(zero_padded_decimal(12345, 2), "12345");
    assert_eq!(remove_spaces(" C S  101 "), "CS101");
    assert!(str_is_blank(""));
    assert!(str_is_blank(" \t\n\u{a0}"));
    assert!(!str_is_blank(" x "));
}

#[test]
fn username_from_parts_formats() {
    assert_eq!(username_from_parts("ucmn", 2025, 3, 7, 42), "ucmn-25370042");
    assert_eq!(username_from_parts("ucb", 2009, 12, 31, 9999), "ucb-0912319999");
    assert_eq!(username_from_parts("x", -1, 1, 1, 0), "x-99110000");
}

#[test]
fn generate_username_lowers_campus() {
    let u = generate_username("UcMn");
    assert!(u.starts_with("ucmn-"));
    let u = generate_faculty_username("UCPT");
    assert!(u.starts_with("ucpt-t-"));
}

#[test]
fn generate_username_shape() {
    let u = generate_username("UCMN");
    assert!(u.starts_with("ucmn-"));
    let rest = &u["ucmn-".len()..];
    assert!(all_digits(rest));
    assert!(rest.len() >= 8 && rest.len() <= 10);
}

#[test]
fn faculty_username_formats() {
    assert_eq!(faculty_username_from_parts("ucpt", 7), "ucpt-t-00007");
    let u = generate_faculty_username("Ucb");
    assert!(u.starts_with("ucb-t-"));
    assert_eq!(u.len(), "ucb-t-".len() + 5);
}

#[test]
fn email_address_joins_names() {
    assert_eq!(email_address("ana", "cruz"), "ana.cruz@email.com");
}

#[test]
fn fake_user_email_from_names() {
    let (first, last, email) = generate_fake_user();
    assert!(!first.is_empty());
    assert!(!last.is_empty());
    assert_eq!(email, format!("{}.{}@email.com", first.to_lowercase(), last.to_lowercase()));
}
