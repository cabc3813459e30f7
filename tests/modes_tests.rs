use moodle_course_builder::campus::Campus;
use moodle_course_builder::cli::{Cli, CommandMode};
use moodle_course_builder::modes::{
    course_headers, course_mapping, enrol_headers, user_enrolling, user_headers, user_seeding,
    ConfigError, CourseContext,
};
use moodle_course_builder::pipeline::Pipeline;

fn settings(mode: CommandMode) -> Cli {
    Cli {
        mode,
        courses: vec![],
        in_path: Some("in.csv".to_string()),
        out_path: "out.csv".to_string(),
        campus: Campus::Ucmn,
        start_date: "2025-08-01".to_string(),
        end_date: "2026-06-01".to_string(),
        dept: Some("cs".to_string()),
        count: 1,
        dry_run: false,
        dry_run_show: None,
    }
}

#[test]
fn campus_codes() {
    assert_eq!(Campus::Ucmn.as_str(), "ucmn");
    assert_eq!(Campus::Uclm.as_str(), "uclm");
    assert_eq!(Campus::Ucb.as_str(), "ucb");
    assert_eq!(Campus::Ucmetc.as_str(), "ucmetc");
    assert_eq!(Campus::Ucpt.as_str(), "ucpt");
}

#[test]
fn context_from_settings() {
    let c = CourseContext::new(Campus::Ucmn, "cs", "2025-08-01", "2026-06-01").unwrap();
    assert_eq!(c.campus_upper, "UCMN");
    assert_eq!(c.dept_upper, "CS");
    assert_eq!(c.start_year_full, "2025");
    assert_eq!(c.end_year_full, "2026");
    assert_eq!(c.start_year_short, "25");
    assert_eq!(c.end_year_short, "26");
}

#[test]
fn context_upper_cases_department() {
    let c = CourseContext::new(Campus::Ucmetc, "Eng-ii", "1999-01-01", "2000-01-01").unwrap();
    assert_eq!(c.campus_upper, "UCMETC");
    assert_eq!(c.dept_upper, "ENG-II");
    assert_eq!(c.start_year_short, "99");
    assert_eq!(c.end_year_short, "00");
}

#[test]
fn context_short_date_is_config_error() {
    let r = CourseContext::new(Campus::Ucb, "it", "202", "2026-06-01");
    assert!(matches!(r, Err(ConfigError::BadDate)));
    let r = CourseContext::new(Campus::Ucb, "it", "2025-08-01", "");
    assert!(matches!(r, Err(ConfigError::BadDate)));
}

#[test]
fn course_end_to_end() {
    let input = b"Program,Semester,Course Code,Descriptive Title,Year\n,1,CS 101,Intro to CS,2025\n";
    let ctx = CourseContext::new(Campus::Ucmn, "cs", "2025-08-01", "2026-06-01").unwrap();
    let p = course_mapping(Pipeline::new().from_file(input).unwrap(), &ctx);
    assert_eq!(p.len(), 1);
    let r = &p.records()[0];
    let short = r.get_or_empty("shortname");
    assert!(short.starts_with("UCMN-S12526-CS101-"));
    let code = &short["UCMN-S12526-CS101-".len()..];
    assert_eq!(code.len(), 5);
    assert!(code.chars().all(|c| c.is_ascii_digit()));
    assert_eq!(r.get_or_empty("fullname"), "Intro to CS");
    assert_eq!(r.get_or_empty("category_path"), "UCMN / S12526 / CS / GEN");
    assert_eq!(r.get_or_empty("startdate"), "2025-08-01");
    assert_eq!(r.get_or_empty("enddate"), "2025-12-18");
    assert_eq!(r.get_or_empty("visible"), "1");
    assert_eq!(r.get_or_empty("year"), "2025");
    assert!(r.get("Program").is_none());
    let out = p.to_file(course_headers()).unwrap();
    assert_eq!(out.written, 1);
    let text = String::from_utf8(out.bytes).unwrap();
    let expected_tail = ",Intro to CS,UCMN / S12526 / CS / GEN,2025-08-01,2025-12-18,1,2025\n";
    assert!(text.starts_with("shortname,fullname,category_path,startdate,enddate,visible,year\nUCMN-S12526-CS101-"));
    assert!(text.ends_with(expected_tail));
}

#[test]
fn course_unknown_semester_row_is_skipped_on_write() {
    let input = b"Program,Semester,Course Code,Descriptive Title,Year\nBSCS,3,IT 2,Networks,2025\nBSCS,2,IT 3,Systems,2025\n";
    let ctx = CourseContext::new(Campus::Ucb, "it", "2025-08-01", "2026-06-01").unwrap();
    let p = course_mapping(Pipeline::new().from_file(input).unwrap(), &ctx);
    assert_eq!(p.records()[0].get_or_empty("category_path"), "");
    assert_eq!(p.records()[0].get_or_empty("startdate"), "");
    assert_eq!(p.records()[1].get_or_empty("category_path"), "UCB / S22526 / IT / BSCS");
    assert_eq!(p.records()[1].get_or_empty("startdate"), "2026-01-20");
    let out = p.to_file(course_headers()).unwrap();
    assert_eq!(out.written, 1);
    assert_eq!(out.skipped, 1);
}

#[test]
fn user_seeding_makes_count_users() {
    let p = user_seeding(Campus::Uclm, 3);
    assert_eq!(p.len(), 3);
    for r in p.records() {
        assert!(r.get_or_empty("username").starts_with("uclm-"));
        assert_eq!(r.get_or_empty("password"), "User123#");
        let expected = format!(
            "{}.{}@email.com",
            r.get_or_empty("firstname").to_lowercase(),
            r.get_or_empty("lastname").to_lowercase()
        );
        assert_eq!(r.get_or_empty("email"), expected);
    }
    let out = p.to_file(user_headers()).unwrap();
    assert_eq!(out.written, 3);
    assert_eq!(out.skipped, 0);
    assert!(String::from_utf8(out.bytes).unwrap().starts_with("username,firstname,lastname,email,password\n"));
}

#[test]
fn user_seeding_zero() {
    assert_eq!(user_seeding(Campus::Ucmn, 0).len(), 0);
}

#[test]
fn enrol_headers_for_two_courses() {
    assert_eq!(
        enrol_headers(2),
        vec!["username", "firstname", "lastname", "password", "course1", "role1", "course2", "role2"]
    );
    assert_eq!(enrol_headers(0), vec!["username", "firstname", "lastname", "password"]);
}

#[test]
fn user_enrolling_adds_courses_and_roles() {
    let input = b"username,firstname,lastname,email,password,extra\nu1,Ana,Cruz,a@x,pw,zzz\n";
    let p = Pipeline::new().from_file(input).unwrap();
    let courses = vec!["MATH-1".to_string(), "ENG-2".to_string()];
    let p = user_enrolling(p, &courses);
    let r = &p.records()[0];
    assert_eq!(r.get_or_empty("username"), "u1");
    assert_eq!(r.get_or_empty("course1"), "MATH-1");
    assert_eq!(r.get_or_empty("role1"), "Student");
    assert_eq!(r.get_or_empty("course2"), "ENG-2");
    assert_eq!(r.get_or_empty("role2"), "Student");
    assert!(r.get("email").is_none());
    assert!(r.get("extra").is_none());
}

#[test]
fn settings_check() {
    assert!(settings(CommandMode::Course).check().is_ok());
    let mut c = settings(CommandMode::Course);
    c.in_path = None;
    assert_eq!(c.check(), Err(ConfigError::MissingInPath));
    let mut c = settings(CommandMode::Course);
    c.dept = None;
    assert_eq!(c.check(), Err(ConfigError::MissingDept));
    let c = settings(CommandMode::UserEnrol);
    assert_eq!(c.check(), Err(ConfigError::MissingCourses));
    let mut c = settings(CommandMode::UserSeed);
    c.in_path = None;
    c.dept = None;
    assert!(c.check().is_ok());
    let mut c = settings(CommandMode::UserSeed);
    c.dry_run_show = Some(2);
    assert_eq!(c.check(), Err(ConfigError::PreviewWithoutDryRun));
    c.dry_run = true;
    assert!(c.check().is_ok());
}
