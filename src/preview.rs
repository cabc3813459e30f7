//! Text for a dry run: a bounded preview table and a missing-value report.
use vstd::prelude::*;
use crate::constants::{HEADER_FULLNAME, HEADER_SHORTNAME};
use crate::pipeline::{names, row_of, views};
use crate::record::{Record, value_of};
use crate::text::{append_repeated, decimal, decimal_of, is_blank, owned, pad_right, repeat_char, space_padded, str_is_blank};

verus! {

/// The widest of column `col`'s name and its values in `recs`, in characters.
pub open spec fn column_width(recs: Seq<Map<Seq<char>, Seq<char>>>, col: Seq<char>) -> nat
    decreases recs.len(),
{
    if recs.len() == 0 {
        col.len()
    } else {
        let w = column_width(recs.drop_last(), col);
        let v = value_of(recs.last(), col).len();
        if v > w { v } else { w }
    }
}

/// The cells of a table line, each as `| ` and the cell padded to its width
/// and a space.
pub open spec fn cells_text(cells: Seq<Seq<char>>, widths: Seq<nat>) -> Seq<char>
    decreases cells.len(),
{
    if cells.len() == 0 {
        Seq::empty()
    } else {
        let j = cells.len() - 1;
        cells_text(cells.drop_last(), widths) + "| "@ + space_padded(cells[j], widths[j]) + " "@
    }
}

/// The rule under the header: for each column `+` and dashes across the
/// cell.
pub open spec fn rule_text(widths: Seq<nat>) -> Seq<char>
    decreases widths.len(),
{
    if widths.len() == 0 {
        Seq::empty()
    } else {
        rule_text(widths.drop_last()) + "+"@ + repeat_char('-', widths.last() + 2)
    }
}

/// The column widths of a preview of `shown`.
pub open spec fn widths_of(shown: Seq<Map<Seq<char>, Seq<char>>>, cols: Seq<Seq<char>>) -> Seq<nat> {
    cols.map_values(|c: Seq<char>| column_width(shown, c))
}

/// The lines of a preview of at most `limit` records over the columns
/// `cols`: a header line, a rule, and one line per record shown.
pub open spec fn preview_of(recs: Seq<Map<Seq<char>, Seq<char>>>, cols: Seq<Seq<char>>, limit: nat) -> Seq<Seq<char>> {
    if recs.len() == 0 || limit == 0 {
        seq!["No records to preview."@]
    } else {
        let shown = if limit < recs.len() { recs.take(limit as int) } else { recs };
        let widths = widths_of(shown, cols);
        seq![cells_text(cols, widths) + "|"@, rule_text(widths) + "+"@] + shown.map_values(
            |m: Map<Seq<char>, Seq<char>>| cells_text(row_of(m, cols), widths) + "|"@,
        )
    }
}

/// The number of records in `recs` whose column `col` is absent or blank.
pub open spec fn missing_count(recs: Seq<Map<Seq<char>, Seq<char>>>, col: Seq<char>) -> nat
    decreases recs.len(),
{
    if recs.len() == 0 {
        0
    } else if is_blank(value_of(recs.last(), col)) {
        missing_count(recs.drop_last(), col) + 1
    } else {
        missing_count(recs.drop_last(), col)
    }
}

/// The columns of `cols` that `m` lacks or holds blank.
pub open spec fn missing_columns(m: Map<Seq<char>, Seq<char>>, cols: Seq<Seq<char>>) -> Seq<Seq<char>>
    decreases cols.len(),
{
    if cols.len() == 0 {
        Seq::empty()
    } else if is_blank(value_of(m, cols.last())) {
        missing_columns(m, cols.drop_last()).push(cols.last())
    } else {
        missing_columns(m, cols.drop_last())
    }
}

/// The items of `s` separated by `, `.
pub open spec fn joined(s: Seq<Seq<char>>) -> Seq<char>
    decreases s.len(),
{
    if s.len() == 0 {
        Seq::empty()
    } else if s.len() == 1 {
        s[0]
    } else {
        joined(s.drop_last()) + ", "@ + s.last()
    }
}

/// ` name=value` for a column that `m` holds with a non-blank value, and
/// nothing otherwise.
pub open spec fn detail_of(m: Map<Seq<char>, Seq<char>>, col: Seq<char>) -> Seq<char> {
    if m.contains_key(col) && !is_blank(m[col]) {
        " "@ + col + "="@ + m[col]
    } else {
        Seq::empty()
    }
}

/// The report line for record number `n` (from one), which lacks the
/// columns `missing`.
pub open spec fn missing_line(n: nat, m: Map<Seq<char>, Seq<char>>, missing: Seq<Seq<char>>) -> Seq<char> {
    "Row "@ + decimal_of(n) + ": missing ["@ + joined(missing) + "]"@ + detail_of(m, HEADER_SHORTNAME@)
        + detail_of(m, HEADER_FULLNAME@)
}

/// The report lines of the records of `recs` that lack some column of
/// `cols`; `first` is the number of `recs[0]`.
pub open spec fn missing_lines(recs: Seq<Map<Seq<char>, Seq<char>>>, cols: Seq<Seq<char>>, first: nat) -> Seq<Seq<char>>
    decreases recs.len(),
{
    if recs.len() == 0 {
        Seq::empty()
    } else {
        let before = missing_lines(recs.drop_last(), cols, first);
        let missing = missing_columns(recs.last(), cols);
        if missing.len() > 0 {
            before.push(missing_line((first + recs.len() - 1) as nat, recs.last(), missing))
        } else {
            before
        }
    }
}

/// The missing-value report: a count per column, then a line for each
/// record that lacks some column.
pub open spec fn missing_report_of(recs: Seq<Map<Seq<char>, Seq<char>>>, cols: Seq<Seq<char>>) -> Seq<Seq<char>> {
    if recs.len() == 0 {
        seq!["No records to check for missing values."@]
    } else {
        let summary = seq!["Missing values summary (output headers):"@] + cols.map_values(
            |c: Seq<char>| "- "@ + c + ": "@ + decimal_of(missing_count(recs, c)),
        );
        let rows = missing_lines(recs, cols, 1);
        if rows.len() == 0 {
            summary.push("No records with missing output values."@)
        } else {
            summary + seq!["Records with missing values:"@] + rows
        }
    }
}

/// Widths as natural numbers.
pub open spec fn nats(ws: Seq<usize>) -> Seq<nat> {
    ws.map_values(|w: usize| w as nat)
}

/// The width of column `col` over the first `take` records.
fn width_of_column(records: &[Record], take: usize, col: &str) -> (w: usize)
    requires
        take <= records@.len(),
    ensures
        w == column_width(views(records@).take(take as int), col@),
{
    let ghost recs = views(records@);
    let mut w = col.unicode_len();
    let mut i: usize = 0;
    while i < take
        invariant
            recs == views(records@),
            take <= recs.len(),
            i <= take,
            w == column_width(recs.take(i as int), col@),
        decreases take - i,
    {
        assert(recs.take(i + 1).drop_last() =~= recs.take(i as int));
        assert(recs.take(i + 1).last() == records@[i as int]@);
        let v = records[i].get_or_empty(col).unicode_len();
        if v > w {
            w = v;
        }
        i = i + 1;
    }
    w
}

/// A table line of `cells`, each padded to its width, closed by `|`.
fn table_line(cells: &[&str], widths: &Vec<usize>) -> (r: String)
    requires
        cells@.len() == widths@.len(),
    ensures
        r@ == cells_text(names(cells@), nats(widths@)) + "|"@,
{
    let ghost ws = nats(widths@);
    let mut line = String::new();
    let mut j: usize = 0;
    while j < cells.len()
        invariant
            cells@.len() == widths@.len(),
            ws == nats(widths@),
            j <= cells@.len(),
            line@ == cells_text(names(cells@).take(j as int), ws),
        decreases cells@.len() - j,
    {
        let ghost before = names(cells@).take(j as int);
        assert(names(cells@).take(j + 1).drop_last() =~= before);
        line.append("| ");
        let cell = pad_right(cells[j], widths[j]);
        line.append(cell.as_str());
        line.append(" ");
        j = j + 1;
    }
    assert(names(cells@).take(cells@.len() as int) =~= names(cells@));
    line.append("|");
    line
}

/// The rule under the header line, closed by `+`.
fn rule_line(widths: &Vec<usize>) -> (r: String)
    ensures
        r@ == rule_text(nats(widths@)) + "+"@,
{
    let ghost ws = nats(widths@);
    let mut line = String::new();
    let mut j: usize = 0;
    while j < widths.len()
        invariant
            ws == nats(widths@),
            j <= widths@.len(),
            line@ == rule_text(ws.take(j as int)),
        decreases widths@.len() - j,
    {
        assert(ws.take(j + 1).drop_last() =~= ws.take(j as int));
        let ghost before = line@;
        line.append("+");
        proof {
            reveal_strlit("-");
            reveal_strlit("--");
        }
        append_repeated(&mut line, "-", widths[j]);
        line.append("--");
        assert(line@ =~= before + "+"@ + repeat_char('-', (widths@[j as int] + 2) as nat));
        j = j + 1;
    }
    assert(ws.take(widths@.len() as int) =~= ws);
    line.append("+");
    line
}

/// The values of the columns `headers` of `rec`, in that order.
fn row_cells<'a>(rec: &'a Record, headers: &[&str]) -> (r: Vec<&'a str>)
    ensures
        names(r@) == row_of(rec@, names(headers@)),
{
    let ghost cols = names(headers@);
    let mut cells: Vec<&str> = Vec::new();
    let mut j: usize = 0;
    while j < headers.len()
        invariant
            cols == names(headers@),
            j <= cols.len(),
            names(cells@) =~= row_of(rec@, cols).take(j as int),
        decreases cols.len() - j,
    {
        let ghost prev = names(cells@);
        let v = rec.get_or_empty(headers[j]);
        cells.push(v);
        assert(names(cells@) =~= prev.push(v@));
        j = j + 1;
    }
    cells
}

/// The lines of a preview of at most `limit` records: a header line, a rule,
/// and one aligned line per record shown.
pub fn preview_table(records: &[Record], headers: &[&str], limit: usize) -> (r: Vec<String>)
    ensures
        r.deep_view() == preview_of(views(records@), names(headers@), limit as nat),
{
    let ghost recs = views(records@);
    let ghost cols = names(headers@);
    if records.len() == 0 || limit == 0 {
        let r = vec![owned("No records to preview.")];
        assert(r.deep_view() =~= preview_of(recs, cols, limit as nat));
        return r;
    }
    let take = if limit < records.len() { limit } else { records.len() };
    let ghost shown = recs.take(take as int);
    assert(take == records@.len() ==> shown =~= recs);
    let mut widths: Vec<usize> = Vec::new();
    let mut j: usize = 0;
    while j < headers.len()
        invariant
            cols == names(headers@),
            shown == views(records@).take(take as int),
            take <= records@.len(),
            j <= cols.len(),
            widths@.len() == j,
            nats(widths@) =~= widths_of(shown, cols).take(j as int),
        decreases cols.len() - j,
    {
        let w = width_of_column(records, take, headers[j]);
        let ghost prev = nats(widths@);
        widths.push(w);
        assert(nats(widths@) =~= prev.push(w as nat));
        j = j + 1;
    }
    assert(nats(widths@) =~= widths_of(shown, cols));
    let mut lines: Vec<String> = Vec::new();
    lines.push(table_line(headers, &widths));
    lines.push(rule_line(&widths));
    let ghost ws = nats(widths@);
    let ghost expected = preview_of(recs, cols, limit as nat);
    let mut i: usize = 0;
    while i < take
        invariant
            cols == names(headers@),
            recs == views(records@),
            shown == recs.take(take as int),
            take <= records@.len(),
            ws == nats(widths@),
            ws == widths_of(shown, cols),
            widths@.len() == headers@.len(),
            i <= take,
            lines@.len() == i + 2,
            forall|k: int| 0 <= k < i + 2 ==> (#[trigger] lines@[k])@ == expected[k],
            expected == seq![cells_text(cols, ws) + "|"@, rule_text(ws) + "+"@] + shown.map_values(
                |m: Map<Seq<char>, Seq<char>>| cells_text(row_of(m, cols), ws) + "|"@,
            ),
        decreases take - i,
    {
        let cells = row_cells(&records[i], headers);
        assert(cells@.len() == names(cells@).len());
        let line = table_line(cells.as_slice(), &widths);
        assert(shown[i as int] == records@[i as int]@);
        lines.push(line);
        i = i + 1;
    }
    assert(lines.deep_view() =~= expected);
    lines
}

/// How many records lack column `col` or hold it blank.
fn count_missing(records: &[Record], col: &str) -> (n: usize)
    ensures
        n == missing_count(views(records@), col@),
{
    let ghost recs = views(records@);
    let mut n: usize = 0;
    let mut i: usize = 0;
    while i < records.len()
        invariant
            recs == views(records@),
            i <= recs.len(),
            n <= i,
            n == missing_count(recs.take(i as int), col@),
        decreases recs.len() - i,
    {
        assert(recs.take(i + 1).drop_last() =~= recs.take(i as int));
        assert(recs.take(i + 1).last() == records@[i as int]@);
        if str_is_blank(records[i].get_or_empty(col)) {
            n = n + 1;
        }
        i = i + 1;
    }
    assert(recs.take(recs.len() as int) =~= recs);
    n
}

/// For each column of `headers`, how many records lack it or hold it blank.
pub fn missing_counts(records: &[Record], headers: &[&str]) -> (r: Vec<usize>)
    ensures
        r@.len() == headers@.len(),
        forall|j: int| 0 <= j < headers@.len() ==>
            #[trigger] r@[j] == missing_count(views(records@), headers@[j]@),
{
    let mut counts: Vec<usize> = Vec::new();
    let mut j: usize = 0;
    while j < headers.len()
        invariant
            j <= headers@.len(),
            counts@.len() == j,
            forall|k: int| 0 <= k < j ==>
                #[trigger] counts@[k] == missing_count(views(records@), headers@[k]@),
        decreases headers@.len() - j,
    {
        counts.push(count_missing(records, headers[j]));
        j = j + 1;
    }
    counts
}

/// The columns of `headers` that `rec` lacks or holds blank.
fn missing_of<'a>(rec: &Record, headers: &[&'a str]) -> (r: Vec<&'a str>)
    ensures
        names(r@) == missing_columns(rec@, names(headers@)),
{
    let ghost cols = names(headers@);
    let mut missing: Vec<&str> = Vec::new();
    let mut j: usize = 0;
    while j < headers.len()
        invariant
            cols == names(headers@),
            j <= cols.len(),
            names(missing@) == missing_columns(rec@, cols.take(j as int)),
        decreases cols.len() - j,
    {
        assert(cols.take(j + 1).drop_last() =~= cols.take(j as int));
        let ghost prev = names(missing@);
        if str_is_blank(rec.get_or_empty(headers[j])) {
            missing.push(headers[j]);
            assert(names(missing@) =~= prev.push(headers@[j as int]@));
        }
        j = j + 1;
    }
    assert(cols.take(cols.len() as int) =~= cols);
    missing
}

/// The items of `items` separated by `, `.
fn join_names(items: &Vec<&str>) -> (r: String)
    ensures
        r@ == joined(names(items@)),
{
    let ghost all = names(items@);
    let mut text = String::new();
    let mut j: usize = 0;
    while j < items.len()
        invariant
            all == names(items@),
            j <= all.len(),
            text@ == joined(all.take(j as int)),
        decreases all.len() - j,
    {
        assert(all.take(j + 1).drop_last() =~= all.take(j as int));
        if j > 0 {
            text.append(", ");
        } else {
            assert(text@ + items@[0]@ =~= items@[0]@);
        }
        text.append(items[j]);
        j = j + 1;
    }
    assert(all.take(all.len() as int) =~= all);
    text
}

/// ` col=value` where `rec` holds column `col` with a non-blank value.
fn detail(rec: &Record, col: &str) -> (r: String)
    ensures
        r@ == detail_of(rec@, col@),
{
    match rec.get(col) {
        Some(v) => {
            if str_is_blank(v.as_str()) {
                String::new()
            } else {
                let mut text = owned(" ");
                text.append(col);
                text.append("=");
                text.append(v.as_str());
                text
            }
        },
        None => String::new(),
    }
}

/// The report line of record number `n`, which lacks the columns `missing`.
fn row_report(n: usize, rec: &Record, missing: &Vec<&str>) -> (r: String)
    ensures
        r@ == missing_line(n as nat, rec@, names(missing@)),
{
    let mut line = owned("Row ");
    let number = decimal(n as u64);
    line.append(number.as_str());
    line.append(": missing [");
    let list = join_names(missing);
    line.append(list.as_str());
    line.append("]");
    let short = detail(rec, HEADER_SHORTNAME);
    line.append(short.as_str());
    let full = detail(rec, HEADER_FULLNAME);
    line.append(full.as_str());
    line
}

/// The missing-value report: a count per column of `headers`, then a line
/// for each record that lacks some of them, numbered from one.
pub fn missing_report(records: &[Record], headers: &[&str]) -> (r: Vec<String>)
    ensures
        r.deep_view() == missing_report_of(views(records@), names(headers@)),
{
    let ghost recs = views(records@);
    let ghost cols = names(headers@);
    if records.len() == 0 {
        let r = vec![owned("No records to check for missing values.")];
        assert(r.deep_view() =~= missing_report_of(recs, cols));
        return r;
    }
    let counts = missing_counts(records, headers);
    let mut lines: Vec<String> = vec![owned("Missing values summary (output headers):")];
    let ghost summary = seq!["Missing values summary (output headers):"@] + cols.map_values(
        |c: Seq<char>| "- "@ + c + ": "@ + decimal_of(missing_count(recs, c)),
    );
    let mut j: usize = 0;
    while j < headers.len()
        invariant
            recs == views(records@),
            cols == names(headers@),
            counts@.len() == headers@.len(),
            forall|k: int| 0 <= k < headers@.len() ==>
                #[trigger] counts@[k] == missing_count(recs, headers@[k]@),
            j <= cols.len(),
            summary == seq!["Missing values summary (output headers):"@] + cols.map_values(
                |c: Seq<char>| "- "@ + c + ": "@ + decimal_of(missing_count(recs, c)),
            ),
            lines.deep_view() =~= summary.take(j + 1),
        decreases cols.len() - j,
    {
        let ghost prev = lines.deep_view();
        let mut line = owned("- ");
        line.append(headers[j]);
        line.append(": ");
        let number = decimal(counts[j] as u64);
        line.append(number.as_str());
        lines.push(line);
        assert(lines.deep_view() =~= prev.push(summary[j + 1]));
        j = j + 1;
    }
    assert(summary.take(cols.len() as int + 1) =~= summary);
    let ghost rows_spec = missing_lines(recs, cols, 1);
    let mut rows: Vec<String> = Vec::new();
    let mut i: usize = 0;
    while i < records.len()
        invariant
            recs == views(records@),
            cols == names(headers@),
            i <= recs.len(),
            rows.deep_view() == missing_lines(recs.take(i as int), cols, 1),
        decreases recs.len() - i,
    {
        assert(recs.take(i + 1).drop_last() =~= recs.take(i as int));
        assert(recs.take(i + 1).last() == records@[i as int]@);
        let missing = missing_of(&records[i], headers);
        if missing.len() > 0 {
            let ghost prev = rows.deep_view();
            let line = row_report(i + 1, &records[i], &missing);
            rows.push(line);
            assert(rows.deep_view() =~= prev.push(line@));
        }
        i = i + 1;
    }
    assert(recs.take(recs.len() as int) =~= recs);
    if rows.len() == 0 {
        lines.push(owned("No records with missing output values."));
        assert(lines.deep_view() =~= missing_report_of(recs, cols));
    } else {
        lines.push(owned("Records with missing values:"));
        let ghost head = lines.deep_view();
        let mut k: usize = 0;
        while k < rows.len()
            invariant
                k <= rows@.len(),
                lines.deep_view() =~= head + rows.deep_view().take(k as int),
            decreases rows@.len() - k,
        {
            let ghost prev = lines.deep_view();
            lines.push(rows[k].clone());
            assert(lines.deep_view() =~= prev.push(rows@[k as int]@));
            k = k + 1;
        }
        assert(rows.deep_view().take(rows@.len() as int) =~= rows.deep_view());
        assert(lines.deep_view() =~= missing_report_of(recs, cols));
    }
    lines
}

} // verus!
