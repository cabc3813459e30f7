//! The three fixed recipes: course import, user seeding and user enrolment.
use vstd::prelude::*;
use crate::campus::{Campus, campus_code};
use crate::constants::{
    DEFAULT_PASSWORD, HEADER_EMAIL, HEADER_FIRSTNAME, HEADER_LASTNAME, HEADER_PASSWORD,
    HEADER_USERNAME, VALUE_ROLE_STUDENT, HEADER_CATEGORY_PATH, HEADER_COURSE_CODE, HEADER_DESCRIPTIVE_TITLE, HEADER_ENDDATE,
    HEADER_FULLNAME, HEADER_INPUT_YEAR, HEADER_OUTPUT_YEAR, HEADER_PROGRAM, HEADER_SEMESTER,
    HEADER_SHORTNAME, HEADER_STARTDATE, HEADER_VISIBLE, VALUE_VISIBLE_TRUE,
};
use crate::fields::{
    email_of, lemma_email_not_blank, two_digit_year, username_of, generate_fake_user, generate_username, is_student_username, category_path_of, edp_of, end_date_of, get_category_path, get_course_end_date,
    get_course_start_date, get_short_name, short_name_of, start_date_of,
};
use crate::pipeline::{Pipeline, derived_by, is_complete, names, projected};
use crate::record::{Record, value_of};
use crate::text::{
    decimal, decimal_of, is_ascii_lower, is_blank, is_space, lemma_not_blank_concat, lower_of, owned,
    to_upper, upper_of, zero_padded,
};

verus! {

/// A required setting is missing or unusable.
#[derive(Clone, Copy, Debug, PartialEq, Eq, Structural)]
pub enum ConfigError {
    /// The input path is required by the selected mode.
    MissingInPath,
    /// The department is required by the course mode.
    MissingDept,
    /// The user-enrolment mode needs at least one course.
    MissingCourses,
    /// A preview limit was given without a dry run.
    PreviewWithoutDryRun,
    /// A start or end date has fewer than four characters.
    BadDate,
}

/// The values that every course derivation shares, computed once from the
/// settings.
pub struct CourseContext {
    pub campus_upper: String,
    pub dept_upper: String,
    pub start_year_full: String,
    pub end_year_full: String,
    pub start_year_short: String,
    pub end_year_short: String,
}

impl CourseContext {
    /// The context for `campus` and `dept` over the academic year from
    /// `start_date` to `end_date` (`YYYY-MM-DD`): the four-digit years are
    /// the first four characters of each date, the two-digit years the
    /// third and fourth.
    pub fn new(campus: Campus, dept: &str, start_date: &str, end_date: &str) -> (r: Result<
        CourseContext,
        ConfigError,
    >)
        ensures
            match r {
                Ok(c) => {
                    &&& start_date@.len() >= 4 && end_date@.len() >= 4
                    &&& c.campus_upper@ == upper_of(campus_code(campus))
                    &&& c.dept_upper@ == upper_of(dept@)
                    &&& c.start_year_full@ == start_date@.subrange(0, 4)
                    &&& c.end_year_full@ == end_date@.subrange(0, 4)
                    &&& c.start_year_short@ == start_date@.subrange(2, 4)
                    &&& c.end_year_short@ == end_date@.subrange(2, 4)
                },
                Err(e) => e == ConfigError::BadDate && (start_date@.len() < 4 || end_date@.len() < 4),
            },
    {
        if start_date.unicode_len() < 4 || end_date.unicode_len() < 4 {
            return Err(ConfigError::BadDate);
        }
        Ok(CourseContext {
            campus_upper: to_upper(campus.as_str()),
            dept_upper: to_upper(dept),
            start_year_full: owned(start_date.substring_char(0, 4)),
            end_year_full: owned(end_date.substring_char(0, 4)),
            start_year_short: owned(start_date.substring_char(2, 4)),
            end_year_short: owned(end_date.substring_char(2, 4)),
        })
    }
}

/// The output columns of the course import, in file order.
pub open spec fn course_columns() -> Seq<Seq<char>> {
    seq![
        HEADER_SHORTNAME@,
        HEADER_FULLNAME@,
        HEADER_CATEGORY_PATH@,
        HEADER_STARTDATE@,
        HEADER_ENDDATE@,
        HEADER_VISIBLE@,
        HEADER_OUTPUT_YEAR@,
    ]
}

/// The output columns of the course import, in file order.
pub fn course_headers() -> (r: Vec<&'static str>)
    ensures
        names(r@) == course_columns(),
{
    let r = vec![
        HEADER_SHORTNAME,
        HEADER_FULLNAME,
        HEADER_CATEGORY_PATH,
        HEADER_STARTDATE,
        HEADER_ENDDATE,
        HEADER_VISIBLE,
        HEADER_OUTPUT_YEAR,
    ];
    assert(names(r@) =~= course_columns());
    r
}

/// The course import record for catalogue row `row`, with course number
/// `code` in its short name.
pub open spec fn course_record_of(row: Map<Seq<char>, Seq<char>>, c: CourseContext, code: Seq<char>) -> Map<
    Seq<char>,
    Seq<char>,
> {
    projected(
        row.insert(
            HEADER_SHORTNAME@,
            short_name_of(row, c.campus_upper@, c.start_year_short@, c.end_year_short@, code),
        ).insert(HEADER_FULLNAME@, value_of(row, HEADER_DESCRIPTIVE_TITLE@)).insert(
            HEADER_CATEGORY_PATH@,
            category_path_of(
                row,
                c.campus_upper@,
                c.dept_upper@,
                c.start_year_short@,
                c.end_year_short@,
            ),
        ).insert(
            HEADER_STARTDATE@,
            start_date_of(row, c.start_year_full@, c.end_year_full@),
        ).insert(HEADER_ENDDATE@, end_date_of(row, c.start_year_full@, c.end_year_full@)).insert(
            HEADER_VISIBLE@,
            VALUE_VISIBLE_TRUE@,
        ).insert(HEADER_OUTPUT_YEAR@, value_of(row, HEADER_INPUT_YEAR@)),
        course_columns(),
    )
}

/// Output column names start with a lower-case letter and catalogue
/// column names with an upper-case one, so no output column overwrites a
/// column that a derivation reads.
proof fn lemma_column_initials()
    ensures
        forall|i: int| 0 <= i < course_columns().len() ==>
            (#[trigger] course_columns()[i]).len() > 0 && 'a' <= course_columns()[i][0] <= 'z',
        forall|j: int| 0 <= j < source_columns().len() ==>
            (#[trigger] source_columns()[j]).len() > 0 && 'A' <= source_columns()[j][0] <= 'Z',
        forall|i: int, j: int| 0 <= i < course_columns().len() && 0 <= j < source_columns().len() ==>
            #[trigger] course_columns()[i] != #[trigger] source_columns()[j],
{
    reveal_strlit("shortname");
    reveal_strlit("fullname");
    reveal_strlit("category_path");
    reveal_strlit("startdate");
    reveal_strlit("enddate");
    reveal_strlit("visible");
    reveal_strlit("year");
    reveal_strlit("Program");
    reveal_strlit("Semester");
    reveal_strlit("Course Code");
    reveal_strlit("Descriptive Title");
    reveal_strlit("Year");
    assert forall|i: int, j: int| 0 <= i < course_columns().len() && 0 <= j < source_columns().len() implies
        #[trigger] course_columns()[i] != #[trigger] source_columns()[j] by {
        if course_columns()[i] == source_columns()[j] {
            assert(course_columns()[i][0] == source_columns()[j][0]);
        }
    }
}

/// The catalogue columns that the course derivations read.
pub open spec fn source_columns() -> Seq<Seq<char>> {
    seq![
        HEADER_PROGRAM@,
        HEADER_SEMESTER@,
        HEADER_COURSE_CODE@,
        HEADER_DESCRIPTIVE_TITLE@,
        HEADER_INPUT_YEAR@,
    ]
}

/// Whether `out` is the course import record for `row` with some
/// five-digit course number.
pub open spec fn is_course_record(out: Map<Seq<char>, Seq<char>>, row: Map<Seq<char>, Seq<char>>, c: CourseContext) -> bool {
    exists|n: nat| n < 100000 && out == course_record_of(row, c, edp_of(n))
}

/// Derives the course import columns for every catalogue row, then keeps
/// exactly those columns: each output record is `course_record_of` its row,
/// with some five-digit course number.
pub fn course_mapping(pipeline: Pipeline, ctx: &CourseContext) -> (r: Pipeline)
    ensures
        r@.len() == pipeline@.len(),
        forall|i: int| 0 <= i < pipeline@.len() ==> is_course_record(#[trigger] r@[i], pipeline@[i], *ctx),
{
    let campus = ctx.campus_upper.as_str();
    let dept = ctx.dept_upper.as_str();
    let start_full = ctx.start_year_full.as_str();
    let end_full = ctx.end_year_full.as_str();
    let start_short = ctx.start_year_short.as_str();
    let end_short = ctx.end_year_short.as_str();

    let short_name = |row: &Record| -> (s: String)
        ensures
            exists|n: nat| n < 100000 && s@ == short_name_of(row@, campus@, start_short@, end_short@, edp_of(n)),
        { get_short_name(row, campus, start_short, end_short) };
    let full_name = |row: &Record| -> (s: String)
        ensures
            s@ == value_of(row@, HEADER_DESCRIPTIVE_TITLE@),
        { owned(row.get_or_empty(HEADER_DESCRIPTIVE_TITLE)) };
    let category = |row: &Record| -> (s: String)
        ensures
            s@ == category_path_of(row@, campus@, dept@, start_short@, end_short@),
        { get_category_path(row, campus, dept, start_short, end_short) };
    let start_date = |row: &Record| -> (s: String)
        ensures
            s@ == start_date_of(row@, start_full@, end_full@),
        { get_course_start_date(row, start_full, end_full) };
    let end_date = |row: &Record| -> (s: String)
        ensures
            s@ == end_date_of(row@, start_full@, end_full@),
        { get_course_end_date(row, start_full, end_full) };
    let visible = |row: &Record| -> (s: String)
        ensures
            s@ == VALUE_VISIBLE_TRUE@,
        { owned(VALUE_VISIBLE_TRUE) };
    let year = |row: &Record| -> (s: String)
        ensures
            s@ == value_of(row@, HEADER_INPUT_YEAR@),
        { owned(row.get_or_empty(HEADER_INPUT_YEAR)) };

    let p1 = pipeline.derive(HEADER_SHORTNAME, short_name);
    let p2 = p1.derive(HEADER_FULLNAME, full_name);
    let p3 = p2.derive(HEADER_CATEGORY_PATH, category);
    let p4 = p3.derive(HEADER_STARTDATE, start_date);
    let p5 = p4.derive(HEADER_ENDDATE, end_date);
    let p6 = p5.derive(HEADER_VISIBLE, visible);
    let p7 = p6.derive(HEADER_OUTPUT_YEAR, year);
    let headers = course_headers();
    let ghost cols = names(headers@);
    let out = p7.select(headers);
    proof {
        lemma_column_initials();
        let cc = course_columns();
        let sc = source_columns();
        assert forall|i: int| 0 <= i < pipeline@.len() implies
            is_course_record(#[trigger] out@[i], pipeline@[i], *ctx) by {
            let src = pipeline@[i];
            assert(cc[0] != sc[1] && cc[0] != sc[2] && cc[0] != sc[3] && cc[0] != sc[4] && cc[0] != sc[0]);
            assert(cc[1] != sc[1] && cc[1] != sc[2] && cc[1] != sc[3] && cc[1] != sc[4] && cc[1] != sc[0]);
            assert(cc[2] != sc[1] && cc[2] != sc[2] && cc[2] != sc[3] && cc[2] != sc[4] && cc[2] != sc[0]);
            assert(cc[3] != sc[1] && cc[3] != sc[2] && cc[3] != sc[3] && cc[3] != sc[4] && cc[3] != sc[0]);
            assert(cc[4] != sc[1] && cc[4] != sc[2] && cc[4] != sc[3] && cc[4] != sc[4] && cc[4] != sc[0]);
            assert(cc[5] != sc[1] && cc[5] != sc[2] && cc[5] != sc[3] && cc[5] != sc[4] && cc[5] != sc[0]);
            let v1 = choose|v: String| short_name.ensures((&pipeline.items()[i],), v)
                && p1@[i] == pipeline.items()[i]@.insert(HEADER_SHORTNAME@, v@);
            let n = choose|n: nat| n < 100000 && v1@ == short_name_of(src, campus@, start_short@, end_short@, edp_of(n));
            let v2 = choose|v: String| full_name.ensures((&p1.items()[i],), v)
                && p2@[i] == p1.items()[i]@.insert(HEADER_FULLNAME@, v@);
            let v3 = choose|v: String| category.ensures((&p2.items()[i],), v)
                && p3@[i] == p2.items()[i]@.insert(HEADER_CATEGORY_PATH@, v@);
            let v4 = choose|v: String| start_date.ensures((&p3.items()[i],), v)
                && p4@[i] == p3.items()[i]@.insert(HEADER_STARTDATE@, v@);
            let v5 = choose|v: String| end_date.ensures((&p4.items()[i],), v)
                && p5@[i] == p4.items()[i]@.insert(HEADER_ENDDATE@, v@);
            let v6 = choose|v: String| visible.ensures((&p5.items()[i],), v)
                && p6@[i] == p5.items()[i]@.insert(HEADER_VISIBLE@, v@);
            let v7 = choose|v: String| year.ensures((&p6.items()[i],), v)
                && p7@[i] == p6.items()[i]@.insert(HEADER_OUTPUT_YEAR@, v@);
            assert(p7@[i] == src.insert(
                HEADER_SHORTNAME@,
                short_name_of(src, campus@, start_short@, end_short@, edp_of(n)),
            ).insert(HEADER_FULLNAME@, value_of(src, HEADER_DESCRIPTIVE_TITLE@)).insert(
                HEADER_CATEGORY_PATH@,
                category_path_of(src, campus@, dept@, start_short@, end_short@),
            ).insert(HEADER_STARTDATE@, start_date_of(src, start_full@, end_full@)).insert(
                HEADER_ENDDATE@,
                end_date_of(src, start_full@, end_full@),
            ).insert(HEADER_VISIBLE@, VALUE_VISIBLE_TRUE@).insert(
                HEADER_OUTPUT_YEAR@,
                value_of(src, HEADER_INPUT_YEAR@),
            ));
            assert(out@[i] == projected(p7@[i], cols));
            assert(out@[i] == course_record_of(src, *ctx, edp_of(n)));
        }
    }
    out
}

/// The columns of a seeded user.
pub open spec fn user_columns() -> Seq<Seq<char>> {
    seq![HEADER_USERNAME@, HEADER_FIRSTNAME@, HEADER_LASTNAME@, HEADER_EMAIL@, HEADER_PASSWORD@]
}

/// The columns of a seeded user, in file order.
pub fn user_headers() -> (r: Vec<&'static str>)
    ensures
        names(r@) == user_columns(),
{
    let r = vec![HEADER_USERNAME, HEADER_FIRSTNAME, HEADER_LASTNAME, HEADER_EMAIL, HEADER_PASSWORD];
    assert(names(r@) =~= user_columns());
    r
}

/// The record of a seeded user with user name `u`, given name `first` and
/// family name `last`; the password is the default one.
pub open spec fn user_record_of(u: Seq<char>, first: Seq<char>, last: Seq<char>) -> Map<Seq<char>, Seq<char>> {
    Map::empty().insert(HEADER_USERNAME@, u).insert(HEADER_FIRSTNAME@, first).insert(
        HEADER_LASTNAME@,
        last,
    ).insert(HEADER_EMAIL@, email_of(lower_of(first), lower_of(last))).insert(
        HEADER_PASSWORD@,
        DEFAULT_PASSWORD@,
    )
}

/// Whether `m` is the record of a seeded user of campus `campus`, with
/// non-blank names.
pub open spec fn is_seeded_user(m: Map<Seq<char>, Seq<char>>, campus: Campus) -> bool {
    exists|u: Seq<char>, first: Seq<char>, last: Seq<char>|
        is_student_username(u, campus_code(campus)) && !is_blank(first) && !is_blank(last) && m
            == user_record_of(u, first, last)
}

/// Campus codes are lower-case ASCII letters.
proof fn lemma_campus_code_lower(c: Campus)
    ensures
        is_ascii_lower(campus_code(c)),
{
    reveal_strlit("ucmn");
    reveal_strlit("uclm");
    reveal_strlit("ucb");
    reveal_strlit("ucmetc");
    reveal_strlit("ucpt");
}

/// The user columns are five different names.
proof fn lemma_user_columns_distinct()
    ensures
        HEADER_USERNAME@ != HEADER_FIRSTNAME@,
        HEADER_USERNAME@ != HEADER_LASTNAME@,
        HEADER_USERNAME@ != HEADER_EMAIL@,
        HEADER_USERNAME@ != HEADER_PASSWORD@,
        HEADER_FIRSTNAME@ != HEADER_LASTNAME@,
        HEADER_FIRSTNAME@ != HEADER_EMAIL@,
        HEADER_FIRSTNAME@ != HEADER_PASSWORD@,
        HEADER_LASTNAME@ != HEADER_EMAIL@,
        HEADER_LASTNAME@ != HEADER_PASSWORD@,
        HEADER_EMAIL@ != HEADER_PASSWORD@,
{
    reveal_strlit("username");
    reveal_strlit("firstname");
    reveal_strlit("lastname");
    reveal_strlit("email");
    reveal_strlit("password");
    assert("firstname"@.len() != "email"@.len());
    assert("username"@[0] != "lastname"@[0]);
    assert("username"@[0] != "password"@[0]);
    assert("lastname"@[0] != "password"@[0]);
}

/// A seeded user's record has a non-blank value in every user column.
pub proof fn seeded_user_is_complete(m: Map<Seq<char>, Seq<char>>, campus: Campus)
    requires
        is_seeded_user(m, campus),
    ensures
        is_complete(m, user_columns()),
{
    let (u, first, last) = choose|u: Seq<char>, first: Seq<char>, last: Seq<char>|
        is_student_username(u, campus_code(campus)) && !is_blank(first) && !is_blank(last) && m
            == user_record_of(u, first, last);
    lemma_user_columns_distinct();
    lemma_email_not_blank(lower_of(first), lower_of(last));
    reveal_strlit("User123#");
    assert(!is_blank(DEFAULT_PASSWORD@)) by {
        assert(!is_space(DEFAULT_PASSWORD@[0]));
    }
    let (year, month, day, suffix) = choose|year: int, month: nat, day: nat, suffix: nat|
        1 <= month <= 12 && 1 <= day <= 31 && suffix < 10000 && u == username_of(
            campus_code(campus),
            year,
            month,
            day,
            suffix,
        );
    reveal_strlit("-");
    assert(!is_space("-"@[0]));
    let c = campus_code(campus);
    lemma_not_blank_concat(c, "-"@);
    lemma_not_blank_concat(c + "-"@, two_digit_year(year));
    lemma_not_blank_concat(c + "-"@ + two_digit_year(year), decimal_of(month));
    lemma_not_blank_concat(c + "-"@ + two_digit_year(year) + decimal_of(month), decimal_of(day));
    lemma_not_blank_concat(
        c + "-"@ + two_digit_year(year) + decimal_of(month) + decimal_of(day),
        zero_padded(decimal_of(suffix), 4),
    );
    assert(m[HEADER_USERNAME@] == u);
    assert(m[HEADER_FIRSTNAME@] == first);
    assert(m[HEADER_LASTNAME@] == last);
    assert(m[HEADER_EMAIL@] == email_of(lower_of(first), lower_of(last)));
    assert(m[HEADER_PASSWORD@] == DEFAULT_PASSWORD@);
    let cols = user_columns();
    assert forall|j: int| 0 <= j < cols.len() implies m.contains_key(#[trigger] cols[j]) && !is_blank(
        m[cols[j]],
    ) by {
        if j == 0 {
        } else if j == 1 {
        } else if j == 2 {
        } else if j == 3 {
        } else {
        }
    }
}

/// `count` made-up users of `campus`, each with a fresh user name, a
/// generated name and e-mail address, and the default password.
pub fn user_seeding(campus: Campus, count: usize) -> (r: Pipeline)
    ensures
        r@.len() == count,
        forall|i: int| 0 <= i < count ==> is_seeded_user(#[trigger] r@[i], campus),
        forall|i: int| 0 <= i < count ==> is_complete(#[trigger] r@[i], user_columns()),
{
    proof {
        lemma_campus_code_lower(campus);
    }
    let mut records: Vec<Record> = Vec::new();
    let mut k: usize = 0;
    while k < count
        invariant
            k <= count,
            records@.len() == k,
            is_ascii_lower(campus_code(campus)),
            forall|i: int| 0 <= i < k ==> is_seeded_user(#[trigger] records@[i]@, campus),
        decreases count - k,
    {
        let username = generate_username(campus.as_str());
        let (first, last, email) = generate_fake_user();
        let ghost (u, f, l) = (username@, first@, last@);
        let mut rec = Record::new();
        rec.set(owned(HEADER_USERNAME), username);
        rec.set(owned(HEADER_FIRSTNAME), first);
        rec.set(owned(HEADER_LASTNAME), last);
        rec.set(owned(HEADER_EMAIL), email);
        rec.set(owned(HEADER_PASSWORD), owned(DEFAULT_PASSWORD));
        assert(rec@ == user_record_of(u, f, l));
        assert(is_student_username(u, campus_code(campus)));
        assert(is_seeded_user(rec@, campus));
        records.push(rec);
        k = k + 1;
    }
    let r = Pipeline::from_records(records);
    assert forall|i: int| 0 <= i < count implies is_seeded_user(#[trigger] r@[i], campus) by {
        assert(r@[i] == records@[i]@);
    }
    assert forall|i: int| 0 <= i < count implies is_complete(#[trigger] r@[i], user_columns()) by {
        seeded_user_is_complete(r@[i], campus);
    }
    r
}

/// The name of the column that holds the `k`-th course.
pub open spec fn course_column(k: nat) -> Seq<char> {
    "course"@ + decimal_of(k)
}

/// The name of the column that holds the role in the `k`-th course.
pub open spec fn role_column(k: nat) -> Seq<char> {
    "role"@ + decimal_of(k)
}

/// `m` with a course column and a student role column for each of
/// `courses`, numbered from one.
pub open spec fn enrolled(m: Map<Seq<char>, Seq<char>>, courses: Seq<Seq<char>>) -> Map<Seq<char>, Seq<char>>
    decreases courses.len(),
{
    if courses.len() == 0 {
        m
    } else {
        enrolled(m, courses.drop_last()).insert(course_column(courses.len()), courses.last()).insert(
            role_column(courses.len()),
            VALUE_ROLE_STUDENT@,
        )
    }
}

/// The columns of the enrolment import for `n` courses: user name, given
/// name, family name and password, then a course and a role column for
/// each course.
pub open spec fn enrol_columns(n: nat) -> Seq<Seq<char>>
    decreases n,
{
    if n == 0 {
        seq![HEADER_USERNAME@, HEADER_FIRSTNAME@, HEADER_LASTNAME@, HEADER_PASSWORD@]
    } else {
        enrol_columns((n - 1) as nat) + seq![course_column(n), role_column(n)]
    }
}

/// The column name made of `prefix` and the number `k`.
fn numbered_column(prefix: &str, k: u64) -> (r: String)
    ensures
        r@ == prefix@ + decimal_of(k as nat),
{
    let mut name = owned(prefix);
    let digits = decimal(k);
    name.append(digits.as_str());
    name
}

/// The columns of the enrolment import for `n` courses, in file order.
pub fn enrol_headers(n: usize) -> (r: Vec<String>)
    ensures
        r.deep_view() == enrol_columns(n as nat),
{
    let mut headers: Vec<String> = vec![
        owned(HEADER_USERNAME),
        owned(HEADER_FIRSTNAME),
        owned(HEADER_LASTNAME),
        owned(HEADER_PASSWORD),
    ];
    assert(headers.deep_view() =~= enrol_columns(0));
    let mut k: usize = 0;
    while k < n
        invariant
            k <= n,
            headers.deep_view() == enrol_columns(k as nat),
        decreases n - k,
    {
        let ghost prev = headers.deep_view();
        let course = numbered_column("course", k as u64 + 1);
        let role = numbered_column("role", k as u64 + 1);
        headers.push(course);
        headers.push(role);
        k = k + 1;
        assert(headers.deep_view() =~= prev + seq![course_column(k as nat), role_column(k as nat)]);
    }
    headers
}

/// Borrowed views of a list of column names.
fn borrow_all(headers: &Vec<String>) -> (r: Vec<&str>)
    ensures
        names(r@) == headers.deep_view(),
{
    let mut refs: Vec<&str> = Vec::new();
    let mut j: usize = 0;
    while j < headers.len()
        invariant
            j <= headers@.len(),
            names(refs@) =~= headers.deep_view().take(j as int),
        decreases headers@.len() - j,
    {
        let ghost prev = names(refs@);
        let h = headers[j].as_str();
        refs.push(h);
        assert(names(refs@) =~= prev.push(h@));
        j = j + 1;
        assert(names(refs@) =~= headers.deep_view().take(j as int));
    }
    assert(headers.deep_view().take(headers@.len() as int) =~= headers.deep_view());
    refs
}

/// Adds to every record a course column and a student role column for each
/// of `courses`, then keeps exactly the enrolment columns.
pub fn user_enrolling(pipeline: Pipeline, courses: &Vec<String>) -> (r: Pipeline)
    ensures
        r@ == pipeline@.map_values(
            |m: Map<Seq<char>, Seq<char>>|
                projected(enrolled(m, courses.deep_view()), enrol_columns(courses@.len())),
        ),
{
    let ghost all = pipeline@;
    let ghost cs = courses.deep_view();
    let mut p = pipeline;
    let mut k: usize = 0;
    while k < courses.len()
        invariant
            cs == courses.deep_view(),
            k <= cs.len(),
            p@.len() == all.len(),
            forall|i: int| 0 <= i < all.len() ==> #[trigger] p@[i] == enrolled(all[i], cs.take(k as int)),
        decreases cs.len() - k,
    {
        let course: &String = &courses[k];
        let course_name = numbered_column("course", k as u64 + 1);
        let role_name = numbered_column("role", k as u64 + 1);
        let set_course = |_row: &Record| -> (s: String)
            ensures
                s@ == course@,
            { course.clone() };
        let set_role = |_row: &Record| -> (s: String)
            ensures
                s@ == VALUE_ROLE_STUDENT@,
            { owned(VALUE_ROLE_STUDENT) };
        let p1 = p.derive(course_name.as_str(), set_course);
        let p2 = p1.derive(role_name.as_str(), set_role);
        proof {
            assert(cs.take(k + 1).drop_last() =~= cs.take(k as int));
            assert forall|i: int| 0 <= i < all.len() implies
                #[trigger] p2@[i] == enrolled(all[i], cs.take(k + 1)) by {
                assert(derived_by(set_course, p.items()[i], course_name@, p1@[i]));
                assert(derived_by(set_role, p1.items()[i], role_name@, p2@[i]));
                let v1 = choose|v: String| set_course.ensures((&p.items()[i],), v)
                    && p1@[i] == p.items()[i]@.insert(course_name@, v@);
                let v2 = choose|v: String| set_role.ensures((&p1.items()[i],), v)
                    && p2@[i] == p1.items()[i]@.insert(role_name@, v@);
                let t = cs.take(k + 1);
                assert(t.len() == k + 1);
                assert(t.last() == course@);
                assert(course_name@ == course_column(t.len()));
                assert(role_name@ == role_column(t.len()));
                assert(p.items()[i]@ == p@[i]);
                assert(p1.items()[i]@ == p1@[i]);
                assert(p2@[i] == p@[i].insert(course_column(t.len()), t.last()).insert(role_column(t.len()), VALUE_ROLE_STUDENT@));
            }
        }
        p = p2;
        k = k + 1;
    }
    let headers = enrol_headers(courses.len());
    let refs = borrow_all(&headers);
    let r = p.select(refs);
    assert(cs.take(cs.len() as int) =~= cs);
    assert(r@ =~= all.map_values(
        |m: Map<Seq<char>, Seq<char>>| projected(enrolled(m, cs), enrol_columns(courses@.len())),
    ));
    r
}

} // verus!
