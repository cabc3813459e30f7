//! An ordered collection of records and the stages that transform it.
use vstd::prelude::*;
use crate::record::{Record, value_of};
use crate::table::{csv_record_bytes, csv_rows, read_rows, write_row};
use crate::text::{is_blank, owned, str_is_blank};

verus! {

/// A failure of a pipeline stage.
#[derive(Clone, Copy, Debug, PartialEq, Eq, Structural)]
pub enum PipelineError {
    /// The delimited input could not be read: ragged rows, a quoted field
    /// left open at the end of the input, or invalid encoding.
    Format,
    /// The output could not be produced.
    Io,
}

/// The column maps of a sequence of records.
pub open spec fn views(s: Seq<Record>) -> Seq<Map<Seq<char>, Seq<char>>> {
    s.map_values(|r: Record| r@)
}

/// The entries of `s` whose flag in `keep` is set, in their order.
pub open spec fn kept<T>(s: Seq<T>, keep: Seq<bool>) -> Seq<T>
    decreases s.len(),
{
    if s.len() == 0 || keep.len() == 0 {
        Seq::empty()
    } else if keep.last() {
        kept(s.drop_last(), keep.drop_last()).push(s.last())
    } else {
        kept(s.drop_last(), keep.drop_last())
    }
}

/// The record holding exactly the columns `cols` of `m`, each with its value
/// in `m` or the empty string.
pub open spec fn projected(m: Map<Seq<char>, Seq<char>>, cols: Seq<Seq<char>>) -> Map<Seq<char>, Seq<char>>
    decreases cols.len(),
{
    if cols.len() == 0 {
        Map::empty()
    } else {
        projected(m, cols.drop_last()).insert(cols.last(), value_of(m, cols.last()))
    }
}

/// Whether `m` has a non-blank value for every column of `cols`.
pub open spec fn is_complete(m: Map<Seq<char>, Seq<char>>, cols: Seq<Seq<char>>) -> bool {
    forall|j: int| 0 <= j < cols.len() ==>
        m.contains_key(#[trigger] cols[j]) && !is_blank(m[cols[j]])
}

/// The values of the columns `cols` of `m`, in that order.
pub open spec fn row_of(m: Map<Seq<char>, Seq<char>>, cols: Seq<Seq<char>>) -> Seq<Seq<char>> {
    cols.map_values(|c: Seq<char>| value_of(m, c))
}

/// The rows written for the complete records among `recs`.
pub open spec fn written_rows(recs: Seq<Map<Seq<char>, Seq<char>>>, cols: Seq<Seq<char>>) -> Seq<Seq<Seq<char>>>
    decreases recs.len(),
{
    if recs.len() == 0 {
        Seq::empty()
    } else if is_complete(recs.last(), cols) {
        written_rows(recs.drop_last(), cols).push(row_of(recs.last(), cols))
    } else {
        written_rows(recs.drop_last(), cols)
    }
}

proof fn lemma_written_rows_len(recs: Seq<Map<Seq<char>, Seq<char>>>, cols: Seq<Seq<char>>)
    ensures
        written_rows(recs, cols).len() <= recs.len(),
    decreases recs.len(),
{
    if recs.len() > 0 {
        lemma_written_rows_len(recs.drop_last(), cols);
    }
}

/// The bytes of `rows` written one after another.
pub open spec fn encoded(rows: Seq<Seq<Seq<char>>>) -> Seq<u8>
    decreases rows.len(),
{
    if rows.len() == 0 {
        Seq::empty()
    } else {
        encoded(rows.drop_last()) + csv_record_bytes(rows.last())
    }
}

/// The record that binds each name of `header` to the field in the same
/// position of `row`; a later column of the same name takes precedence.
pub open spec fn zipped(header: Seq<Seq<char>>, row: Seq<Seq<char>>) -> Map<Seq<char>, Seq<char>>
    decreases header.len(),
{
    if header.len() == 0 {
        Map::empty()
    } else {
        let n = header.len() - 1;
        if n < row.len() {
            zipped(header.drop_last(), row).insert(header[n], row[n])
        } else {
            zipped(header.drop_last(), row)
        }
    }
}

/// The records of a table whose first row names the columns.
pub open spec fn table_records(t: Seq<Seq<Seq<char>>>) -> Seq<Map<Seq<char>, Seq<char>>> {
    if t.len() == 0 {
        Seq::empty()
    } else {
        t.drop_first().map_values(|row: Seq<Seq<char>>| zipped(t[0], row))
    }
}

/// The column names that a list of header strings stands for.
pub open spec fn names(headers: Seq<&str>) -> Seq<Seq<char>> {
    headers.map_values(|h: &str| h@)
}

/// Whether `out` is `src` with column `header` set to a value that `f` may
/// return for `src`.
pub open spec fn derived_by<F: Fn(&Record) -> String>(
    f: F,
    src: Record,
    header: Seq<char>,
    out: Map<Seq<char>, Seq<char>>,
) -> bool {
    exists|v: String| f.ensures((&src,), v) && out == src@.insert(header, v@)
}

/// Where a scan of delimited text stands after one more byte: at the start
/// of a field (0), inside an unquoted field (1), inside a quoted field (2),
/// or just after a quote that closed or escapes inside a quoted field (3).
pub open spec fn quote_step(state: u8, b: u8) -> u8 {
    let separator = b == 0x2c || b == 0x0a || b == 0x0d;
    if state == 2 {
        if b == 0x22 { 3 } else { 2 }
    } else if state == 0 && b == 0x22 {
        2
    } else if state == 3 && b == 0x22 {
        2
    } else if separator {
        0
    } else {
        1
    }
}

/// The scan state after all of `data`, starting at a field start.
pub open spec fn quote_state(data: Seq<u8>) -> u8
    decreases data.len(),
{
    if data.len() == 0 {
        0
    } else {
        quote_step(quote_state(data.drop_last()), data.last())
    }
}

/// Whether `data` ends inside a quoted field whose closing quote is missing.
pub open spec fn has_unclosed_quote(data: Seq<u8>) -> bool {
    quote_state(data) == 2
}

/// Whether `data` ends inside a quoted field whose closing quote is missing.
fn unclosed_quote(data: &[u8]) -> (r: bool)
    ensures
        r == has_unclosed_quote(data@),
{
    let mut state: u8 = 0;
    let mut i: usize = 0;
    while i < data.len()
        invariant
            i <= data@.len(),
            state == quote_state(data@.take(i as int)),
        decreases data@.len() - i,
    {
        assert(data@.take(i + 1).drop_last() =~= data@.take(i as int));
        let b = data[i];
        let separator = b == 0x2c || b == 0x0a || b == 0x0d;
        state = if state == 2 {
            if b == 0x22 { 3 } else { 2 }
        } else if state == 0 && b == 0x22 {
            2
        } else if state == 3 && b == 0x22 {
            2
        } else if separator {
            0
        } else {
            1
        };
        i = i + 1;
    }
    assert(data@.take(data@.len() as int) =~= data@);
    state == 2
}

/// What `to_file` hands back: the encoded file and how many records were
/// written and skipped.
pub struct WriteSummary {
    pub bytes: Vec<u8>,
    pub written: usize,
    pub skipped: usize,
}

/// An ordered collection of records, passed by value from stage to stage.
pub struct Pipeline {
    records: Vec<Record>,
}

impl Pipeline {
    /// The records, in order.
    pub closed spec fn items(&self) -> Seq<Record> {
        self.records@
    }
}

impl View for Pipeline {
    type V = Seq<Map<Seq<char>, Seq<char>>>;

    open spec fn view(&self) -> Seq<Map<Seq<char>, Seq<char>>> {
        views(self.items())
    }
}

/// Whether `rec` has a non-blank value for every column of `headers`.
fn record_complete(rec: &Record, headers: &Vec<&str>) -> (r: bool)
    ensures
        r == is_complete(rec@, names(headers@)),
{
    let ghost cols = names(headers@);
    let mut j: usize = 0;
    while j < headers.len()
        invariant
            cols == names(headers@),
            j <= headers@.len(),
            forall|t: int| 0 <= t < j ==>
                rec@.contains_key(#[trigger] cols[t]) && !is_blank(rec@[cols[t]]),
        decreases headers@.len() - j,
    {
        assert(cols[j as int] == headers@[j as int]@);
        match rec.get(headers[j]) {
            Some(v) => {
                if str_is_blank(v.as_str()) {
                    return false;
                }
            },
            None => {
                return false;
            },
        }
        j = j + 1;
    }
    true
}

/// The values of the columns `headers` of `rec`, in that order.
fn record_row(rec: &Record, headers: &Vec<&str>) -> (r: Vec<String>)
    ensures
        r.deep_view() == row_of(rec@, names(headers@)),
{
    let ghost cols = names(headers@);
    let mut row: Vec<String> = Vec::new();
    let mut j: usize = 0;
    while j < headers.len()
        invariant
            cols == names(headers@),
            j <= headers@.len(),
            row.deep_view() =~= row_of(rec@, cols).take(j as int),
        decreases headers@.len() - j,
    {
        let ghost prev = row.deep_view();
        let v = owned(rec.get_or_empty(headers[j]));
        row.push(v);
        assert(row.deep_view() =~= prev.push(v@));
        j = j + 1;
        assert(row.deep_view() =~= row_of(rec@, cols).take(j as int));
    }
    row
}

/// The header strings as owned field values.
fn header_fields(headers: &Vec<&str>) -> (r: Vec<String>)
    ensures
        r.deep_view() == names(headers@),
{
    let mut fields: Vec<String> = Vec::new();
    let mut j: usize = 0;
    while j < headers.len()
        invariant
            j <= headers@.len(),
            fields.deep_view() =~= names(headers@).take(j as int),
        decreases headers@.len() - j,
    {
        let ghost prev = fields.deep_view();
        let v = owned(headers[j]);
        fields.push(v);
        assert(fields.deep_view() =~= prev.push(v@));
        j = j + 1;
        assert(fields.deep_view() =~= names(headers@).take(j as int));
    }
    fields
}

/// The record that binds each name of `header` to the field of `row` in
/// the same position.
fn zip_record(header: &Vec<String>, row: &Vec<String>) -> (r: Record)
    ensures
        r@ == zipped(header.deep_view(), row.deep_view()),
{
    let ghost h = header.deep_view();
    let ghost w = row.deep_view();
    let mut rec = Record::new();
    let mut j: usize = 0;
    while j < header.len()
        invariant
            h == header.deep_view(),
            w == row.deep_view(),
            j <= h.len(),
            rec@ == zipped(h.take(j as int), w),
        decreases h.len() - j,
    {
        assert(h.take(j + 1).drop_last() =~= h.take(j as int));
        if j < row.len() {
            rec.set(header[j].clone(), row[j].clone());
        }
        j = j + 1;
    }
    assert(h.take(h.len() as int) =~= h);
    rec
}

/// The record holding exactly the columns `headers` of `src`.
fn project_record(src: &Record, headers: &Vec<&str>) -> (r: Record)
    ensures
        r@ == projected(src@, names(headers@)),
{
    let ghost cols = names(headers@);
    let mut rec = Record::new();
    let mut j: usize = 0;
    while j < headers.len()
        invariant
            cols == names(headers@),
            j <= cols.len(),
            rec@ == projected(src@, cols.take(j as int)),
        decreases cols.len() - j,
    {
        assert(cols.take(j + 1).drop_last() =~= cols.take(j as int));
        let v = src.get_or_empty(headers[j]);
        rec.set_str(headers[j], v);
        j = j + 1;
    }
    assert(cols.take(cols.len() as int) =~= cols);
    rec
}

impl Pipeline {
    /// A pipeline with no records.
    pub fn new() -> (p: Pipeline)
        ensures
            p.items() == Seq::<Record>::empty(),
    {
        Pipeline { records: Vec::new() }
    }

    /// A pipeline over records built elsewhere.
    pub fn from_records(records: Vec<Record>) -> (p: Pipeline)
        ensures
            p.items() == records@,
    {
        Pipeline { records }
    }

    /// The number of records.
    pub fn len(&self) -> (n: usize)
        ensures
            n == self@.len(),
    {
        self.records.len()
    }

    /// The records, in order.
    pub fn records(&self) -> (r: &[Record])
        ensures
            r@ == self.items(),
    {
        self.records.as_slice()
    }

    /// Keeps the records that `predicate` accepts, in their order.
    pub fn filter<F: Fn(&Record) -> bool>(self, predicate: F) -> (r: Pipeline)
        requires
            forall|x: &Record| predicate.requires((x,)),
        ensures
            exists|keep: Seq<bool>|
                {
                    &&& keep.len() == self@.len()
                    &&& forall|i: int| 0 <= i < keep.len() ==>
                        predicate.ensures((&self.items()[i],), #[trigger] keep[i])
                    &&& r.items() == kept(self.items(), keep)
                },
    {
        let ghost all = self.items();
        let mut out: Vec<Record> = Vec::new();
        let ghost mut keep: Seq<bool> = Seq::empty();
        for rec in it: self.records.into_iter()
            invariant
                all == it.seq(),
                keep.len() == it.index(),
                forall|x: &Record| predicate.requires((x,)),
                forall|i: int| 0 <= i < keep.len() ==>
                    predicate.ensures((&all[i],), #[trigger] keep[i]),
                out@ == kept(all.take(it.index() as int), keep),
        {
            let ghost i = it.index();
            let k = predicate(&rec);
            proof {
                assert(all.take(i + 1).drop_last() =~= all.take(i as int));
                assert(keep.push(k).drop_last() =~= keep);
                keep = keep.push(k);
            }
            if k {
                out.push(rec);
            }
        }
        assert(all.take(all.len() as int) =~= all);
        Pipeline { records: out }
    }

    /// Sets column `header` of every record to what `transform` computes
    /// from that record, replacing any value it had.
    pub fn derive<F: Fn(&Record) -> String>(self, header: &str, transform: F) -> (r: Pipeline)
        requires
            forall|x: &Record| transform.requires((x,)),
        ensures
            r@.len() == self@.len(),
            forall|i: int| 0 <= i < self@.len() ==>
                derived_by(transform, self.items()[i], header@, #[trigger] r@[i]),
    {
        let ghost all = self.items();
        let mut records = self.records;
        let mut i: usize = 0;
        while i < records.len()
            invariant
                forall|x: &Record| transform.requires((x,)),
                records@.len() == all.len(),
                i <= all.len(),
                forall|k: int| i <= k < all.len() ==> records@[k] == all[k],
                forall|k: int| 0 <= k < i ==>
                    derived_by(transform, all[k], header@, (#[trigger] records@[k])@),
            decreases all.len() - i,
        {
            let v = transform(&records[i]);
            let ghost vv = v;
            let ghost prev = records@;
            let key = owned(header);
            records[i].set(key, v);
            proof {
                assert(transform.ensures((&all[i as int],), vv));
                assert(records@[i as int]@ == all[i as int]@.insert(header@, vv@));
                assert forall|k: int| 0 <= k < i implies records@[k] == prev[k] by {}
            }
            i = i + 1;
        }
        let r = Pipeline { records };
        assert forall|k: int| 0 <= k < all.len() implies
            derived_by(transform, all[k], header@, #[trigger] r@[k]) by {
            assert(r@[k] == records@[k]@);
        }
        r
    }

    /// Replaces every record with one holding exactly the columns
    /// `headers`, each with its old value or the empty string.
    pub fn select(self, headers: Vec<&str>) -> (r: Pipeline)
        ensures
            r@ == self@.map_values(|m: Map<Seq<char>, Seq<char>>| projected(m, names(headers@))),
    {
        let ghost all = self@;
        let mut records = self.records;
        let mut i: usize = 0;
        while i < records.len()
            invariant
                all.len() == records@.len(),
                i <= all.len(),
                forall|k: int| i <= k < all.len() ==> (#[trigger] records@[k])@ == all[k],
                forall|k: int| 0 <= k < i ==>
                    (#[trigger] records@[k])@ == projected(all[k], names(headers@)),
            decreases all.len() - i,
        {
            let rec = project_record(&records[i], &headers);
            records[i] = rec;
            i = i + 1;
        }
        let r = Pipeline { records };
        assert(r@ =~= all.map_values(|m: Map<Seq<char>, Seq<char>>| projected(m, names(headers@))));
        r
    }

    /// Replaces the records with those of a delimited file's contents: its
    /// first row names the columns, and each later row becomes a record
    /// that binds those names to its fields by position. Contents that end
    /// inside an open quoted field, or that the csv reader rejects, are a
    /// format error.
    pub fn from_file(self, contents: &[u8]) -> (r: Result<Pipeline, PipelineError>)
        ensures
            match r {
                Ok(p) => {
                    &&& !has_unclosed_quote(contents@)
                    &&& csv_rows(contents@) is Some
                    &&& p@ == table_records(csv_rows(contents@)->Some_0)
                },
                Err(e) => e == PipelineError::Format && (has_unclosed_quote(contents@)
                    || csv_rows(contents@) is None),
            },
    {
        if unclosed_quote(contents) {
            return Err(PipelineError::Format);
        }
        let rows = match read_rows(contents) {
            Ok(rows) => rows,
            Err(_) => {
                return Err(PipelineError::Format);
            },
        };
        let ghost t = rows.deep_view();
        let mut records: Vec<Record> = Vec::new();
        if rows.len() == 0 {
            assert(views(records@) =~= table_records(t));
            return Ok(Pipeline { records });
        }
        let mut i: usize = 1;
        while i < rows.len()
            invariant
                t == rows.deep_view(),
                1 <= i <= t.len(),
                records@.len() == i - 1,
                forall|k: int| 0 <= k < i - 1 ==> (#[trigger] records@[k])@ == zipped(t[0], t[k + 1]),
            decreases t.len() - i,
        {
            let rec = zip_record(&rows[0], &rows[i]);
            records.push(rec);
            i = i + 1;
        }
        assert(views(records@) =~= table_records(t));
        Ok(Pipeline { records })
    }

    /// Encodes the records as a delimited file: a header row of `headers`,
    /// then one row per complete record, its fields in the order of
    /// `headers`. A record that lacks a column of `headers`, or holds only
    /// whitespace there, is skipped and counted. Encoding always succeeds.
    pub fn to_file(self, headers: Vec<&str>) -> (r: Result<WriteSummary, PipelineError>)
        ensures
            r is Ok,
            match r {
                Ok(out) => {
                    let rows = written_rows(self@, names(headers@));
                    &&& out.bytes@ == encoded(seq![names(headers@)] + rows)
                    &&& out.written == rows.len()
                    &&& out.skipped == self@.len() - rows.len()
                },
                Err(e) => e == PipelineError::Io,
            },
    {
        let ghost cols = names(headers@);
        let ghost all = self@;
        let head = header_fields(&headers);
        let mut bytes = match write_row(&head) {
            Some(b) => b,
            None => {
                return Err(PipelineError::Io);
            },
        };
        proof {
            assert(seq![cols].drop_last() =~= Seq::<Seq<Seq<char>>>::empty());
            assert(encoded(Seq::<Seq<Seq<char>>>::empty()) == Seq::<u8>::empty());
            assert(Seq::<u8>::empty() + csv_record_bytes(cols) =~= csv_record_bytes(cols));
            assert(encoded(seq![cols]) == csv_record_bytes(cols));
            assert(seq![cols] + Seq::<Seq<Seq<char>>>::empty() =~= seq![cols]);
        }
        let mut written: usize = 0;
        let mut skipped: usize = 0;
        let mut i: usize = 0;
        while i < self.records.len()
            invariant
                cols == names(headers@),
                all == self@,
                i <= all.len(),
                bytes@ == encoded(seq![cols] + written_rows(all.take(i as int), cols)),
                written == written_rows(all.take(i as int), cols).len(),
                written + skipped == i,
            decreases all.len() - i,
        {
            let ghost before = written_rows(all.take(i as int), cols);
            proof {
                assert(all.take(i + 1).drop_last() =~= all.take(i as int));
                assert(all[i as int] == self.records@[i as int]@);
                lemma_written_rows_len(all.take(i as int), cols);
            }
            let rec = &self.records[i];
            if record_complete(rec, &headers) {
                let row = record_row(rec, &headers);
                let mut encoded_row = match write_row(&row) {
                    Some(b) => b,
                    None => {
                        return Err(PipelineError::Io);
                    },
                };
                bytes.append(&mut encoded_row);
                proof {
                    let now = written_rows(all.take(i + 1), cols);
                    assert((seq![cols] + now).drop_last() =~= seq![cols] + before);
                }
                written = written + 1;
            } else {
                skipped = skipped + 1;
            }
            i = i + 1;
        }
        proof {
            assert(all.take(all.len() as int) =~= all);
        }
        Ok(WriteSummary { bytes, written, skipped })
    }
}

/// The complete records among `recs`, each cut down to the columns `cols`.
pub open spec fn complete_projections(
    recs: Seq<Map<Seq<char>, Seq<char>>>,
    cols: Seq<Seq<char>>,
) -> Seq<Map<Seq<char>, Seq<char>>>
    decreases recs.len(),
{
    if recs.len() == 0 {
        Seq::empty()
    } else if is_complete(recs.last(), cols) {
        complete_projections(recs.drop_last(), cols).push(projected(recs.last(), cols))
    } else {
        complete_projections(recs.drop_last(), cols)
    }
}

proof fn lemma_projected(m: Map<Seq<char>, Seq<char>>, cols: Seq<Seq<char>>)
    ensures
        forall|k: Seq<char>| #[trigger] projected(m, cols).contains_key(k) <==> cols.contains(k),
        forall|k: Seq<char>| cols.contains(k) ==> #[trigger] projected(m, cols)[k] == value_of(m, k),
    decreases cols.len(),
{
    if cols.len() > 0 {
        let p = cols.drop_last();
        lemma_projected(m, p);
        assert(projected(m, cols) == projected(m, p).insert(cols.last(), value_of(m, cols.last())));
        assert forall|k: Seq<char>|
            #[trigger] projected(m, cols).contains_key(k) <==> cols.contains(k) by {
            assert(projected(m, p).contains_key(k) <==> p.contains(k));
            if k == cols.last() {
                assert(cols[cols.len() - 1] == k);
            }
            if cols.contains(k) {
                let j = choose|j: int| 0 <= j < cols.len() && cols[j] == k;
                if j < cols.len() - 1 {
                    assert(p[j] == k);
                }
            }
            if p.contains(k) {
                let j = choose|j: int| 0 <= j < p.len() && p[j] == k;
                assert(cols[j] == k);
            }
        }
        assert forall|k: Seq<char>| cols.contains(k) implies
            #[trigger] projected(m, cols)[k] == value_of(m, k) by {
            if k != cols.last() {
                let j = choose|j: int| 0 <= j < cols.len() && cols[j] == k;
                assert(p[j] == k);
                assert(projected(m, p)[k] == value_of(m, k));
            }
        }
    }
}

/// Selecting the same columns a second time changes nothing: each record
/// already holds exactly those columns.
pub proof fn select_is_idempotent(recs: Seq<Map<Seq<char>, Seq<char>>>, cols: Seq<Seq<char>>)
    ensures
        recs.map_values(|m: Map<Seq<char>, Seq<char>>| projected(m, cols)).map_values(
            |m: Map<Seq<char>, Seq<char>>| projected(m, cols),
        ) == recs.map_values(|m: Map<Seq<char>, Seq<char>>| projected(m, cols)),
{
    assert forall|m: Map<Seq<char>, Seq<char>>|
        #[trigger] projected(projected(m, cols), cols) == projected(m, cols) by {
        let once = projected(m, cols);
        lemma_projected(m, cols);
        lemma_projected(once, cols);
        assert(projected(once, cols) =~= once);
    }
    let once = recs.map_values(|m: Map<Seq<char>, Seq<char>>| projected(m, cols));
    assert(once.map_values(|m: Map<Seq<char>, Seq<char>>| projected(m, cols)) =~= once);
}

proof fn lemma_zipped_row(m: Map<Seq<char>, Seq<char>>, cols: Seq<Seq<char>>, j: int)
    requires
        0 <= j <= cols.len(),
    ensures
        zipped(cols.take(j), row_of(m, cols)) == projected(m, cols.take(j)),
    decreases j,
{
    if j > 0 {
        assert(cols.take(j).drop_last() =~= cols.take(j - 1));
        lemma_zipped_row(m, cols, j - 1);
    }
}

/// The table that `to_file` encodes for columns `cols` (its header row,
/// then the rows it writes) is read back by `from_file` as the complete
/// records, in order, each holding exactly its values in `cols`; every
/// incomplete record is absent. The byte-level step between the two, the
/// csv writer's output read by the csv reader, belongs to that crate.
pub proof fn written_table_reads_back(recs: Seq<Map<Seq<char>, Seq<char>>>, cols: Seq<Seq<char>>)
    ensures
        table_records(seq![cols] + written_rows(recs, cols)) == complete_projections(recs, cols),
    decreases recs.len(),
{
    let t = seq![cols] + written_rows(recs, cols);
    assert(t.drop_first() =~= written_rows(recs, cols));
    if recs.len() > 0 {
        let p = recs.drop_last();
        written_table_reads_back(p, cols);
        let tp = seq![cols] + written_rows(p, cols);
        assert(tp.drop_first() =~= written_rows(p, cols));
        if is_complete(recs.last(), cols) {
            lemma_zipped_row(recs.last(), cols, cols.len() as int);
            assert(cols.take(cols.len() as int) =~= cols);
            assert(table_records(t) =~= table_records(tp).push(projected(recs.last(), cols)));
        }
    } else {
        assert(table_records(t) =~= Seq::<Map<Seq<char>, Seq<char>>>::empty());
    }
}

} // verus!
