use chrono::Datelike;
use vstd::prelude::*;

verus! {

/// The integer that the `csv` crate's deserializer reads from a cell for an
/// `i32` field, `None` where it reports an error.
pub uninterp spec fn csv_i32(text: Seq<char>) -> Option<i32>;

/// The year, month and day of the date that `chrono` parses from a text,
/// `None` where it reports an error.
pub uninterp spec fn chrono_ymd(text: Seq<char>) -> Option<(i32, u32, u32)>;

/// Decodes one cell as the `csv` crate does for an `i32` field:
/// `csv::StringRecord::deserialize` on a record of that one cell.
///
/// Trusted: that the crate decodes the same text to the same result.
#[verifier::external_body]
pub(crate) fn decode_i32(text: &str) -> (number: Option<i32>)
    ensures
        number == csv_i32(text@),
{
    csv::StringRecord::from(vec![text]).deserialize::<(i32,)>(None).ok().map(|cell| cell.0)
}

/// Parses a date with `chrono::NaiveDate`'s `FromStr` and hands out its
/// year, month and day.
///
/// Trusted: that the crate parses the same text to the same result.
#[verifier::external_body]
pub(crate) fn parse_ymd(text: &str) -> (date: Option<(i32, u32, u32)>)
    ensures
        date == chrono_ymd(text@),
{
    text.parse::<chrono::NaiveDate>().ok().map(|date| (date.year(), date.month(), date.day()))
}

} // verus!
