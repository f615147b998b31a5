use vstd::prelude::*;

verus! {

/// The three sources that a store is loaded from, one for each collection.
#[derive(Clone, Copy, Debug, PartialEq, Eq, Hash)]
pub enum SourceKind {
    Clients,
    Invoices,
    InvoiceItems,
}

/// Why a data row could not become a record.
///
/// A column is given by its place among the columns that the record type
/// declares, from 0.
#[derive(Clone, Copy, Debug, PartialEq, Eq, Hash)]
pub enum RowFault {
    /// The row, or the header row, is not text, or the row has not as many
    /// cells as the header row.
    Malformed,
    /// No column of the header row bears the declared name.
    MissingColumn(usize),
    /// More than one column of the header row bears the declared name.
    DuplicateColumn(usize),
    /// The cell of a number column is no number of the column's kind.
    BadNumber(usize),
    /// The cell of a date column is no calendar date.
    BadDate(usize),
}

/// A source that could not be opened or read.
#[derive(Clone, Copy, Debug, PartialEq, Eq, Hash)]
pub struct LoadError {
    pub source: SourceKind,
}

/// A source with a data row that does not fit the record type.
#[derive(Clone, Copy, Debug, PartialEq, Eq, Hash)]
pub struct ParseError {
    pub source: SourceKind,
    /// The data row, counted from 0 after the header row.
    pub row: usize,
    pub fault: RowFault,
}

/// Why no store was built.
#[derive(Clone, Copy, Debug, PartialEq, Eq, Hash)]
pub enum InitError {
    Load(LoadError),
    Parse(ParseError),
}

impl InitError {
    /// The source that the failure lies in.
    pub fn source(&self) -> (kind: SourceKind)
        ensures
            kind == match *self {
                InitError::Load(e) => e.source,
                InitError::Parse(e) => e.source,
            },
    {
        match self {
            InitError::Load(e) => e.source,
            InitError::Parse(e) => e.source,
        }
    }
}

} // verus!
