//! Delimited-text encoding and decoding, done by the `csv` crate.
use vstd::prelude::*;

verus! {

#[verifier::external_type_specification]
#[verifier::external_body]
pub struct ExCsvError(csv::Error);

/// The records that the csv reader finds in `data` (default dialect, every
/// record read as data, all records of one length), or `None` where it
/// rejects the input.
pub uninterp spec fn csv_rows(data: Seq<u8>) -> Option<Seq<Seq<Seq<char>>>>;

/// The bytes that the csv writer emits for one record, terminator included.
pub uninterp spec fn csv_record_bytes(fields: Seq<Seq<char>>) -> Seq<u8>;

/// Relies on csv's `Reader::into_records`, with headers off and the default
/// (non-flexible) dialect: the records of `data`, or the reader's error.
#[verifier::external_body]
pub(crate) fn read_rows(data: &[u8]) -> (r: Result<Vec<Vec<String>>, csv::Error>)
    ensures
        match r {
            Ok(rows) => csv_rows(data@) == Some(rows.deep_view()),
            Err(_) => csv_rows(data@) is None,
        },
{
    csv::ReaderBuilder::new()
        .has_headers(false)
        .from_reader(data)
        .into_records()
        .map(|rec| rec.map(|fields| fields.iter().map(|f| f.to_string()).collect()))
        .collect()
}

/// Relies on csv's `Writer::write_record` and `Writer::into_inner` into a
/// fresh in-memory writer (default dialect): the bytes of one record. The
/// writer fails only on an I/O error of its sink, which a `Vec` never
/// raises, or on records of unequal length, which one record cannot be.
#[verifier::external_body]
pub(crate) fn write_row(fields: &Vec<String>) -> (r: Option<Vec<u8>>)
    ensures
        r is Some,
        r->Some_0@ == csv_record_bytes(fields.deep_view()),
{
    let mut writer = csv::Writer::from_writer(Vec::new());
    writer.write_record(fields).ok()?;
    writer.into_inner().ok()
}

} // verus!
