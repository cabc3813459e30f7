//! Column names and fixed values of the import formats.
use vstd::prelude::*;

verus! {

// Input columns of the course catalogue.
pub const HEADER_PROGRAM: &'static str = "Program";
pub const HEADER_SEMESTER: &'static str = "Semester";
pub const HEADER_COURSE_CODE: &'static str = "Course Code";
pub const HEADER_DESCRIPTIVE_TITLE: &'static str = "Descriptive Title";
pub const HEADER_INPUT_YEAR: &'static str = "Year";

// Output columns of the course import.
pub const HEADER_SHORTNAME: &'static str = "shortname";
pub const HEADER_FULLNAME: &'static str = "fullname";
pub const HEADER_CATEGORY_PATH: &'static str = "category_path";
pub const HEADER_STARTDATE: &'static str = "startdate";
pub const HEADER_ENDDATE: &'static str = "enddate";
pub const HEADER_VISIBLE: &'static str = "visible";
pub const HEADER_OUTPUT_YEAR: &'static str = "year";

// Columns of the user imports.
pub const HEADER_USERNAME: &'static str = "username";
pub const HEADER_FIRSTNAME: &'static str = "firstname";
pub const HEADER_LASTNAME: &'static str = "lastname";
pub const HEADER_EMAIL: &'static str = "email";
pub const HEADER_PASSWORD: &'static str = "password";

// Fixed values.
pub const DEFAULT_PROGRAM: &'static str = "GEN";
pub const VALUE_VISIBLE_TRUE: &'static str = "1";
pub const VALUE_ROLE_STUDENT: &'static str = "Student";
pub const DEFAULT_PASSWORD: &'static str = "User123#";

// Semester codes.
pub const SEMESTER_1: &'static str = "1";
pub const SEMESTER_2: &'static str = "2";

// Semester tags that have a configured category.
pub const KNOWN_TAG_FIRST: &'static str = "S12526";
pub const KNOWN_TAG_SECOND: &'static str = "S22526";

// Month and day of the term boundaries.
pub const DATE_SEM1_START: &'static str = "08-01";
pub const DATE_SEM1_END: &'static str = "12-18";
pub const DATE_SEM2_START: &'static str = "01-20";
pub const DATE_SEM2_END: &'static str = "06-01";

} // verus!
