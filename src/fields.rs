//! The values that derived columns take, and the generated user fields.
use vstd::prelude::*;
use crate::constants::{
    DATE_SEM1_END, DATE_SEM1_START, DATE_SEM2_END, DATE_SEM2_START, DEFAULT_PROGRAM,
    HEADER_COURSE_CODE, HEADER_PROGRAM, HEADER_SEMESTER, KNOWN_TAG_FIRST, KNOWN_TAG_SECOND,
    SEMESTER_1, SEMESTER_2,
};
use crate::record::{Record, value_of};
use crate::sources::{fake_first_name, fake_last_name, local_today, random_below};
use crate::text::{
    decimal, decimal_of, is_ascii_lower, is_blank, is_space, lemma_concat_lacks, lemma_not_blank_concat, lemma_zero_padded_digits, lower_of, owned, pow10,
    remove_spaces, str_eq, to_lower, without_spaces, zero_padded, zero_padded_decimal,
};

verus! {

/// The semester code of a catalogue row, or the empty string.
pub open spec fn semester_of(row: Map<Seq<char>, Seq<char>>) -> Seq<char> {
    value_of(row, HEADER_SEMESTER@)
}

/// The tag of a term: `S`, the semester code, then both two-digit years.
pub open spec fn semester_tag(semester: Seq<char>, start_short: Seq<char>, end_short: Seq<char>) -> Seq<char> {
    "S"@ + semester + start_short + end_short
}

/// Whether a term tag is one that has a configured category.
pub open spec fn is_known_tag(tag: Seq<char>) -> bool {
    tag == KNOWN_TAG_FIRST@ || tag == KNOWN_TAG_SECOND@
}

/// The program of a catalogue row; `GEN` where it is absent or empty.
pub open spec fn program_of(row: Map<Seq<char>, Seq<char>>) -> Seq<char> {
    if row.contains_key(HEADER_PROGRAM@) && row[HEADER_PROGRAM@].len() > 0 {
        row[HEADER_PROGRAM@]
    } else {
        DEFAULT_PROGRAM@
    }
}

/// The category path of a catalogue row: campus, term tag, department and
/// program joined by ` / `, or the empty string for a term tag that is not
/// known.
pub open spec fn category_path_of(
    row: Map<Seq<char>, Seq<char>>,
    campus: Seq<char>,
    dept: Seq<char>,
    start_short: Seq<char>,
    end_short: Seq<char>,
) -> Seq<char> {
    let tag = semester_tag(semester_of(row), start_short, end_short);
    if is_known_tag(tag) {
        campus + " / "@ + tag + " / "@ + dept + " / "@ + program_of(row)
    } else {
        Seq::empty()
    }
}

/// The first day of the row's term: in the start year for semester `1`, in
/// the end year for semester `2`, and the empty string otherwise.
pub open spec fn start_date_of(row: Map<Seq<char>, Seq<char>>, start_full: Seq<char>, end_full: Seq<char>) -> Seq<char> {
    let semester = semester_of(row);
    if semester == SEMESTER_1@ {
        start_full + "-"@ + DATE_SEM1_START@
    } else if semester == SEMESTER_2@ {
        end_full + "-"@ + DATE_SEM2_START@
    } else {
        Seq::empty()
    }
}

/// The last day of the row's term: in the start year for semester `1`, in
/// the end year for semester `2`, and the empty string otherwise.
pub open spec fn end_date_of(row: Map<Seq<char>, Seq<char>>, start_full: Seq<char>, end_full: Seq<char>) -> Seq<char> {
    let semester = semester_of(row);
    if semester == SEMESTER_1@ {
        start_full + "-"@ + DATE_SEM1_END@
    } else if semester == SEMESTER_2@ {
        end_full + "-"@ + DATE_SEM2_END@
    } else {
        Seq::empty()
    }
}

/// A five-digit course number: `n` zero-padded to five digits.
pub open spec fn edp_of(n: nat) -> Seq<char> {
    zero_padded(decimal_of(n), 5)
}

/// The short name of a catalogue row with course number `code`: campus,
/// term tag, course code without spaces and `code`, joined by `-`.
pub open spec fn short_name_of(
    row: Map<Seq<char>, Seq<char>>,
    campus: Seq<char>,
    start_short: Seq<char>,
    end_short: Seq<char>,
    code: Seq<char>,
) -> Seq<char> {
    campus + "-"@ + semester_tag(semester_of(row), start_short, end_short) + "-"@
        + without_spaces(value_of(row, HEADER_COURSE_CODE@)) + "-"@ + code
}

/// The two digits of a year modulo 100.
pub open spec fn two_digit_year(year: int) -> Seq<char> {
    zero_padded(decimal_of((year % 100) as nat), 2)
}

/// A student user name: campus, `-`, the two-digit year, month and day
/// without leading zeros, and a four-digit suffix.
pub open spec fn username_of(campus: Seq<char>, year: int, month: nat, day: nat, suffix: nat) -> Seq<char> {
    campus + "-"@ + two_digit_year(year) + decimal_of(month) + decimal_of(day) + zero_padded(
        decimal_of(suffix),
        4,
    )
}

/// Whether `u` is a student user name for `campus` on some date, with some
/// four-digit suffix.
pub open spec fn is_student_username(u: Seq<char>, campus: Seq<char>) -> bool {
    exists|year: int, month: nat, day: nat, suffix: nat|
        1 <= month <= 12 && 1 <= day <= 31 && suffix < 10000 && u == username_of(
            campus,
            year,
            month,
            day,
            suffix,
        )
}

/// A faculty user name: campus, `-t-` and a five-digit suffix.
pub open spec fn faculty_username_of(campus: Seq<char>, suffix: nat) -> Seq<char> {
    campus + "-t-"@ + zero_padded(decimal_of(suffix), 5)
}

/// The e-mail address made from a given and a family name.
pub open spec fn email_of(first: Seq<char>, last: Seq<char>) -> Seq<char> {
    first + "."@ + last + "@email.com"@
}

/// The term tag for `semester` and the two-digit years.
fn make_semester_tag(semester: &str, start_year_short: &str, end_year_short: &str) -> (r: String)
    ensures
        r@ == semester_tag(semester@, start_year_short@, end_year_short@),
{
    let mut tag = owned("S");
    tag.append(semester);
    tag.append(start_year_short);
    tag.append(end_year_short);
    tag
}

/// The category path of a catalogue row; see `category_path_of`.
pub fn get_category_path(
    row: &Record,
    campus_upper: &str,
    dept_upper: &str,
    start_year_short: &str,
    end_year_short: &str,
) -> (r: String)
    ensures
        r@ == category_path_of(row@, campus_upper@, dept_upper@, start_year_short@, end_year_short@),
{
    let semester = row.get_or_empty(HEADER_SEMESTER);
    let tag = make_semester_tag(semester, start_year_short, end_year_short);
    if !(str_eq(tag.as_str(), KNOWN_TAG_FIRST) || str_eq(tag.as_str(), KNOWN_TAG_SECOND)) {
        return String::new();
    }
    let program = match row.get(HEADER_PROGRAM) {
        Some(p) => if p.as_str().unicode_len() > 0 { p.as_str() } else { DEFAULT_PROGRAM },
        None => DEFAULT_PROGRAM,
    };
    let mut path = owned(campus_upper);
    path.append(" / ");
    path.append(tag.as_str());
    path.append(" / ");
    path.append(dept_upper);
    path.append(" / ");
    path.append(program);
    path
}

/// The first day of a catalogue row's term; see `start_date_of`.
pub fn get_course_start_date(row: &Record, start_year_full: &str, end_year_full: &str) -> (r: String)
    ensures
        r@ == start_date_of(row@, start_year_full@, end_year_full@),
{
    let semester = row.get_or_empty(HEADER_SEMESTER);
    if str_eq(semester, SEMESTER_1) {
        let mut d = owned(start_year_full);
        d.append("-");
        d.append(DATE_SEM1_START);
        d
    } else if str_eq(semester, SEMESTER_2) {
        let mut d = owned(end_year_full);
        d.append("-");
        d.append(DATE_SEM2_START);
        d
    } else {
        String::new()
    }
}

/// The last day of a catalogue row's term; see `end_date_of`.
pub fn get_course_end_date(row: &Record, start_year_full: &str, end_year_full: &str) -> (r: String)
    ensures
        r@ == end_date_of(row@, start_year_full@, end_year_full@),
{
    let semester = row.get_or_empty(HEADER_SEMESTER);
    if str_eq(semester, SEMESTER_1) {
        let mut d = owned(start_year_full);
        d.append("-");
        d.append(DATE_SEM1_END);
        d
    } else if str_eq(semester, SEMESTER_2) {
        let mut d = owned(end_year_full);
        d.append("-");
        d.append(DATE_SEM2_END);
        d
    } else {
        String::new()
    }
}

/// The short name of a catalogue row with the given course number.
pub fn short_name_with_code(
    row: &Record,
    campus_upper: &str,
    start_year_short: &str,
    end_year_short: &str,
    code: &str,
) -> (r: String)
    ensures
        r@ == short_name_of(row@, campus_upper@, start_year_short@, end_year_short@, code@),
{
    let semester = row.get_or_empty(HEADER_SEMESTER);
    let tag = make_semester_tag(semester, start_year_short, end_year_short);
    let course_code = remove_spaces(row.get_or_empty(HEADER_COURSE_CODE));
    let mut name = owned(campus_upper);
    name.append("-");
    name.append(tag.as_str());
    name.append("-");
    name.append(course_code.as_str());
    name.append("-");
    name.append(code);
    name
}

/// The course number `n`, zero-padded to five digits.
pub fn edp_code(n: u32) -> (r: String)
    ensures
        r@ == edp_of(n as nat),
{
    zero_padded_decimal(n as u64, 5)
}

/// A random five-digit course number.
pub fn generate_random_edp_code() -> (r: String)
    ensures
        exists|n: nat| n < 100000 && r@ == edp_of(n),
{
    let n = random_below(100000);
    edp_code(n)
}

/// The short name of a catalogue row with a random course number.
pub fn get_short_name(row: &Record, campus_upper: &str, start_year_short: &str, end_year_short: &str) -> (r: String)
    ensures
        exists|n: nat|
            n < 100000 && r@ == short_name_of(
                row@,
                campus_upper@,
                start_year_short@,
                end_year_short@,
                edp_of(n),
            ),
{
    let code = generate_random_edp_code();
    short_name_with_code(row, campus_upper, start_year_short, end_year_short, code.as_str())
}

/// The year modulo 100, as the proleptic calendar counts it.
fn year_mod_100(year: i32) -> (r: u32)
    ensures
        r as int == year as int % 100,
{
    if year >= 0 {
        (year as u32) % 100
    } else {
        let k: u32 = ((-(year as i64)) as u64 % 100) as u32;
        if k == 0 {
            0
        } else {
            100 - k
        }
    }
}

/// A student user name built from its parts; see `username_of`.
pub fn username_from_parts(campus_lower: &str, year: i32, month: u32, day: u32, suffix: u32) -> (r: String)
    ensures
        r@ == username_of(campus_lower@, year as int, month as nat, day as nat, suffix as nat),
{
    let mut name = owned(campus_lower);
    name.append("-");
    let yy = zero_padded_decimal(year_mod_100(year) as u64, 2);
    name.append(yy.as_str());
    let m = decimal(month as u64);
    name.append(m.as_str());
    let d = decimal(day as u64);
    name.append(d.as_str());
    let s = zero_padded_decimal(suffix as u64, 4);
    name.append(s.as_str());
    name
}

/// A student user name for `campus`, made from today's date and a random
/// four-digit suffix.
pub fn generate_username(campus: &str) -> (r: String)
    ensures
        is_student_username(r@, lower_of(campus@)),
        is_ascii_lower(campus@) ==> is_student_username(r@, campus@),
        !is_blank(r@),
{
    let lower = to_lower(campus);
    let (year, month, day) = local_today();
    let suffix = random_below(10000);
    let r = username_from_parts(lower.as_str(), year, month, day, suffix);
    assert(r@ == username_of(lower_of(campus@), year as int, month as nat, day as nat, suffix as nat));
    proof {
        reveal_strlit("-");
        assert(!is_space("-"@[0]));
        let l = lower@;
        let yy = two_digit_year(year as int);
        let m = decimal_of(month as nat);
        let d = decimal_of(day as nat);
        lemma_not_blank_concat(l, "-"@);
        lemma_not_blank_concat(l + "-"@, yy);
        lemma_not_blank_concat(l + "-"@ + yy, m);
        lemma_not_blank_concat(l + "-"@ + yy + m, d);
        lemma_not_blank_concat(l + "-"@ + yy + m + d, zero_padded(decimal_of(suffix as nat), 4));
    }
    r
}

/// A faculty user name built from its parts; see `faculty_username_of`.
pub fn faculty_username_from_parts(campus_lower: &str, suffix: u32) -> (r: String)
    ensures
        r@ == faculty_username_of(campus_lower@, suffix as nat),
{
    let mut name = owned(campus_lower);
    name.append("-t-");
    let s = zero_padded_decimal(suffix as u64, 5);
    name.append(s.as_str());
    name
}

/// A faculty user name for `campus` with a random five-digit suffix.
pub fn generate_faculty_username(campus: &str) -> (r: String)
    ensures
        exists|suffix: nat| suffix < 100000 && r@ == faculty_username_of(lower_of(campus@), suffix),
{
    let lower = to_lower(campus);
    let suffix = random_below(100000);
    faculty_username_from_parts(lower.as_str(), suffix)
}

/// The e-mail address for lower-cased given and family names.
pub fn email_address(first_lower: &str, last_lower: &str) -> (r: String)
    ensures
        r@ == email_of(first_lower@, last_lower@),
{
    let mut email = owned(first_lower);
    email.append(".");
    email.append(last_lower);
    email.append("@email.com");
    email
}

/// An e-mail address always holds the `.` between the names.
pub proof fn lemma_email_not_blank(first: Seq<char>, last: Seq<char>)
    ensures
        !is_blank(email_of(first, last)),
{
    reveal_strlit(".");
    assert(!is_space("."@[0]));
    lemma_not_blank_concat(first, "."@);
    lemma_not_blank_concat(first + "."@, last);
    lemma_not_blank_concat(first + "."@ + last, "@email.com"@);
}

/// A made-up person: given name, family name, and the e-mail address made
/// from both in lower case.
pub fn generate_fake_user() -> (r: (String, String, String))
    ensures
        r.2@ == email_of(lower_of(r.0@), lower_of(r.1@)),
        !is_blank(r.0@),
        !is_blank(r.1@),
        !is_blank(r.2@),
{
    let first = fake_first_name();
    let last = fake_last_name();
    let first_lower = to_lower(first.as_str());
    let last_lower = to_lower(last.as_str());
    let email = email_address(first_lower.as_str(), last_lower.as_str());
    proof {
        lemma_email_not_blank(first_lower@, last_lower@);
    }
    (first, last, email)
}

/// For course code `CS 101` and any course number below 100000, the short
/// name is campus, `-`, term tag, `-CS101-` and five digits; it holds no
/// space wherever the campus, semester and years hold none.
pub proof fn short_name_of_spaced_code(
    row: Map<Seq<char>, Seq<char>>,
    campus: Seq<char>,
    start_short: Seq<char>,
    end_short: Seq<char>,
    n: nat,
)
    requires
        row.contains_key(HEADER_COURSE_CODE@),
        row[HEADER_COURSE_CODE@] == "CS 101"@,
        n < 100000,
        !campus.contains(' '),
        !semester_of(row).contains(' '),
        !start_short.contains(' '),
        !end_short.contains(' '),
    ensures
        short_name_of(row, campus, start_short, end_short, edp_of(n)) == campus + "-"@ + semester_tag(
            semester_of(row),
            start_short,
            end_short,
        ) + "-CS101-"@ + edp_of(n),
        edp_of(n).len() == 5,
        forall|i: int| 0 <= i < 5 ==> '0' <= #[trigger] edp_of(n)[i] <= '9',
        !short_name_of(row, campus, start_short, end_short, edp_of(n)).contains(' '),
{
    reveal_strlit("CS 101");
    reveal_strlit("CS101");
    reveal_strlit("-CS101-");
    reveal_strlit("-");
    reveal_strlit("S");
    let code = "CS 101"@;
    assert(code.drop_last().drop_last().drop_last().drop_last().drop_last().drop_last().len() == 0);
    reveal_with_fuel(without_spaces, 7);
    assert(without_spaces(code) =~= "CS101"@);
    assert(pow10(5) == 100000) by {
        reveal_with_fuel(pow10, 6);
    }
    lemma_zero_padded_digits(n, 5);
    let tag = semester_tag(semester_of(row), start_short, end_short);
    assert(("-"@ + "CS101"@) + "-"@ =~= "-CS101-"@);
    let name = short_name_of(row, campus, start_short, end_short, edp_of(n));
    assert(name =~= campus + "-"@ + tag + "-CS101-"@ + edp_of(n));
    assert(!"-"@.contains(' ')) by {
        if "-"@.contains(' ') {
            assert("-"@[0] == ' ');
        }
    }
    assert(!"S"@.contains(' ')) by {
        if "S"@.contains(' ') {
            assert("S"@[0] == ' ');
        }
    }
    assert(!"-CS101-"@.contains(' ')) by {
        if "-CS101-"@.contains(' ') {
            let i = choose|i: int| 0 <= i < 7 && "-CS101-"@[i] == ' ';
        }
    }
    assert(!edp_of(n).contains(' ')) by {
        if edp_of(n).contains(' ') {
            let i = choose|i: int| 0 <= i < 5 && edp_of(n)[i] == ' ';
        }
    }
    lemma_concat_lacks("S"@, semester_of(row), ' ');
    lemma_concat_lacks("S"@ + semester_of(row), start_short, ' ');
    lemma_concat_lacks("S"@ + semester_of(row) + start_short, end_short, ' ');
    lemma_concat_lacks(campus, "-"@, ' ');
    lemma_concat_lacks(campus + "-"@, tag, ' ');
    lemma_concat_lacks(campus + "-"@ + tag, "-CS101-"@, ' ');
    lemma_concat_lacks(campus + "-"@ + tag + "-CS101-"@, edp_of(n), ' ');
}

/// Term dates: semester `1` runs from `Y-08-01` to `Y-12-18` of the start
/// year `Y`, semester `2` from `Y2-01-20` to `Y2-06-01` of the end year
/// `Y2`, and any other semester value, or none, has no dates.
pub proof fn term_dates(row: Map<Seq<char>, Seq<char>>, start_full: Seq<char>, end_full: Seq<char>)
    ensures
        semester_of(row) == "1"@ ==> start_date_of(row, start_full, end_full) == start_full + "-08-01"@
            && end_date_of(row, start_full, end_full) == start_full + "-12-18"@,
        semester_of(row) == "2"@ ==> start_date_of(row, start_full, end_full) == end_full + "-01-20"@
            && end_date_of(row, start_full, end_full) == end_full + "-06-01"@,
        semester_of(row) != "1"@ && semester_of(row) != "2"@ ==> start_date_of(row, start_full, end_full)
            == Seq::<char>::empty() && end_date_of(row, start_full, end_full) == Seq::<char>::empty(),
{
    reveal_strlit("1");
    reveal_strlit("2");
    reveal_strlit("-");
    reveal_strlit("08-01");
    reveal_strlit("12-18");
    reveal_strlit("01-20");
    reveal_strlit("06-01");
    reveal_strlit("-08-01");
    reveal_strlit("-12-18");
    reveal_strlit("-01-20");
    reveal_strlit("-06-01");
    assert("2"@ != "1"@) by {
        assert("2"@[0] != "1"@[0]);
    }
    assert(start_full + "-"@ + "08-01"@ =~= start_full + "-08-01"@);
    assert(start_full + "-"@ + "12-18"@ =~= start_full + "-12-18"@);
    assert(end_full + "-"@ + "01-20"@ =~= end_full + "-01-20"@);
    assert(end_full + "-"@ + "06-01"@ =~= end_full + "-06-01"@);
}

/// The category path is empty for every row whose term tag is not one of
/// the known tags, and otherwise is campus, tag, department and program
/// joined by ` / `.
pub proof fn category_path_gate(
    row: Map<Seq<char>, Seq<char>>,
    campus: Seq<char>,
    dept: Seq<char>,
    start_short: Seq<char>,
    end_short: Seq<char>,
)
    ensures
        !is_known_tag(semester_tag(semester_of(row), start_short, end_short)) ==> category_path_of(
            row,
            campus,
            dept,
            start_short,
            end_short,
        ) == Seq::<char>::empty(),
        is_known_tag(semester_tag(semester_of(row), start_short, end_short)) ==> category_path_of(
            row,
            campus,
            dept,
            start_short,
            end_short,
        ) == campus + " / "@ + semester_tag(semester_of(row), start_short, end_short) + " / "@ + dept
            + " / "@ + program_of(row),
{
}

} // verus!
