use vstd::prelude::*;

verus! {

/// The rows that the `csv` crate's reader, in its default configuration,
/// finds in a text: first the header row, then the records in the order of
/// the text. Each row is given by its cells, or is `None` where the reader
/// reports an error for it.
pub uninterp spec fn csv_records(bytes: Seq<u8>) -> Seq<Option<Seq<Seq<char>>>>;

/// Reads a text with `csv::Reader::from_reader` and hands out what
/// `headers` returns, followed by what the iterator of `records` yields: each
/// `csv::StringRecord` as its cells, each `csv::Error` as `None`.
///
/// Trusted: that the crate reads the same rows from the same bytes.
#[verifier::external_body]
pub(crate) fn read_rows(bytes: &[u8]) -> (rows: Vec<Option<Vec<String>>>)
    ensures
        rows.deep_view() == csv_records(bytes@),
{
    let mut reader = csv::Reader::from_reader(bytes);
    let cells = |row: &csv::StringRecord| row.iter().map(String::from).collect::<Vec<String>>();
    let mut rows = vec![reader.headers().ok().map(cells)];
    rows.extend(reader.records().map(|row| row.ok().as_ref().map(cells)));
    rows
}

} // verus!
