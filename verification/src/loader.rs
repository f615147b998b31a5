use crate::error::InitError;
use crate::error::LoadError;
use crate::error::ParseError;
use crate::error::RowFault;
use crate::error::SourceKind;
use crate::rows::csv_records;
use crate::rows::read_rows;
use vstd::prelude::*;

verus! {

/// A record type that can be loaded from a table with a header row.
///
/// The type declares the names of its columns; which cell of a row belongs
/// to which column is then settled by the header row, not by position.
pub trait Record: DeepView + Sized {
    /// The names of the columns, in the order of the record's fields.
    spec fn column_names() -> Seq<Seq<char>>;

    /// The record that the cells of a row stand for, the cells taken in the
    /// order of `column_names`, or the first column whose cell does not fit.
    spec fn decode_cells(cells: Seq<Seq<char>>) -> Result<<Self as DeepView>::V, RowFault>;

    fn columns() -> (names: Vec<String>)
        ensures
            names.deep_view() == Self::column_names(),
    ;

    fn from_cells(cells: &Vec<String>) -> (record: Result<Self, RowFault>)
        requires
            cells.len() == Self::column_names().len(),
        ensures
            match record {
                Ok(r) => Self::decode_cells(cells.deep_view()) == Ok::<
                    <Self as DeepView>::V,
                    RowFault,
                >(r.deep_view()),
                Err(fault) => Self::decode_cells(cells.deep_view()) == Err::<
                    <Self as DeepView>::V,
                    RowFault,
                >(fault),
            },
    ;
}

/// No column of the header row bears the name.
pub open spec fn is_absent(header: Seq<Seq<char>>, name: Seq<char>) -> bool {
    forall|j: int| 0 <= j < header.len() ==> header[j] != name
}

/// Column `at` of the header row bears the name, and no other column does.
pub open spec fn is_sole(header: Seq<Seq<char>>, name: Seq<char>, at: int) -> bool {
    &&& 0 <= at < header.len()
    &&& header[at] == name
    &&& forall|j: int| 0 <= j < header.len() && j != at ==> header[j] != name
}

/// Where the header row has the declared column `column`, whose name is
/// `name`: the one place that bears the name, or the fault of having none or
/// several.
pub open spec fn locate(header: Seq<Seq<char>>, name: Seq<char>, column: int) -> Result<
    int,
    RowFault,
> {
    if is_absent(header, name) {
        Err(RowFault::MissingColumn(column as usize))
    } else if exists|at: int| is_sole(header, name, at) {
        Ok(choose|at: int| is_sole(header, name, at))
    } else {
        Err(RowFault::DuplicateColumn(column as usize))
    }
}

/// Looks a declared column up in the header row.
pub fn find_column(header: &Vec<String>, name: &String, column: usize) -> (place: Result<
    usize,
    RowFault,
>)
    ensures
        match place {
            Ok(at) => locate(header.deep_view(), name@, column as int) == Ok::<int, RowFault>(
                at as int,
            ),
            Err(fault) => locate(header.deep_view(), name@, column as int) == Err::<int, RowFault>(
                fault,
            ),
        },
{
    let ghost names = header.deep_view();
    let mut found: Option<usize> = None;
    let mut j: usize = 0;
    while j < header.len()
        invariant
            j <= header.len(),
            names == header.deep_view(),
            names.len() == header.len(),
            match found {
                None => forall|i: int| 0 <= i < j ==> names[i] != name@,
                Some(at) => at < j && names[at as int] == name@ && forall|i: int|
                    0 <= i < j && i != at ==> names[i] != name@,
            },
        decreases header.len() - j,
    {
        assert(names[j as int] == header[j as int]@);
        if header[j] == *name {
            match found {
                None => {
                    found = Some(j);
                },
                Some(at) => {
                    assert(!is_absent(names, name@));
                    assert forall|s: int| !is_sole(names, name@, s) by {
                        if s == at {
                            assert(names[j as int] == name@);
                        } else {
                            assert(names[at as int] == name@);
                        }
                    }
                    return Err(RowFault::DuplicateColumn(column));
                },
            }
        }
        j += 1;
    }
    match found {
        None => Err(RowFault::MissingColumn(column)),
        Some(at) => {
            assert(is_sole(names, name@, at as int));
            let ghost chosen = choose|s: int| is_sole(names, name@, s);
            assert(chosen == at);
            Ok(at)
        },
    }
}

/// Every outcome is a success.
pub open spec fn all_ok<T, E>(outcomes: Seq<Result<T, E>>) -> bool {
    forall|i: int| 0 <= i < outcomes.len() ==> outcomes[i] is Ok
}

/// Outcome `at` is a failure, and none before it is.
pub open spec fn is_first_err<T, E>(outcomes: Seq<Result<T, E>>, at: int) -> bool {
    &&& 0 <= at < outcomes.len()
    &&& outcomes[at] is Err
    &&& forall|i: int| 0 <= i < at ==> outcomes[i] is Ok
}

/// The place of the first failure, where there is one.
pub open spec fn first_err<T, E>(outcomes: Seq<Result<T, E>>) -> int {
    choose|at: int| is_first_err(outcomes, at)
}

/// What the successes hold, in their order.
pub open spec fn values<T, E>(outcomes: Seq<Result<T, E>>) -> Seq<T> {
    Seq::new(outcomes.len(), |i: int| outcomes[i]->Ok_0)
}

/// Where the header row has each of the declared columns, in the order of
/// the declaration, or the fault of the first declared column that the
/// header row has not exactly once.
pub open spec fn resolution(header: Seq<Seq<char>>, names: Seq<Seq<char>>) -> Result<
    Seq<int>,
    RowFault,
> {
    let places = Seq::new(names.len(), |c: int| locate(header, names[c], c));
    if all_ok(places) {
        Ok(values(places))
    } else {
        Err(places[first_err(places)]->Err_0)
    }
}

/// The cells of a row at the given places.
pub open spec fn pick(row: Seq<Seq<char>>, places: Seq<int>) -> Seq<Seq<char>> {
    Seq::new(places.len(), |c: int| row[places[c]])
}

/// The record that a data row stands for under a header row, or why it
/// stands for none.
pub open spec fn decode_one<T: Record>(
    header: Option<Seq<Seq<char>>>,
    row: Option<Seq<Seq<char>>>,
) -> Result<<T as DeepView>::V, RowFault> {
    match (header, row) {
        (Some(h), Some(r)) => if r.len() != h.len() {
            Err(RowFault::Malformed)
        } else {
            match resolution(h, T::column_names()) {
                Ok(places) => T::decode_cells(pick(r, places)),
                Err(fault) => Err(fault),
            }
        },
        _ => Err(RowFault::Malformed),
    }
}

/// The outcome of each data row of a table, whose first row is the header
/// row. A table without any row has no data row.
pub open spec fn row_outcomes<T: Record>(rows: Seq<Option<Seq<Seq<char>>>>) -> Seq<
    Result<<T as DeepView>::V, RowFault>,
> {
    if rows.len() == 0 {
        Seq::empty()
    } else {
        Seq::new((rows.len() - 1) as nat, |i: int| decode_one::<T>(rows[0], rows[i + 1]))
    }
}

/// The records of a table, one for each data row and in the rows' order, or
/// the first data row that stands for no record, with its fault. A table
/// without data rows holds no record, whatever its header row is.
pub open spec fn decode_table<T: Record>(
    rows: Seq<Option<Seq<Seq<char>>>>,
    kind: SourceKind,
) -> Result<Seq<<T as DeepView>::V>, ParseError> {
    let outcomes = row_outcomes::<T>(rows);
    if all_ok(outcomes) {
        Ok(values(outcomes))
    } else {
        Err(
            ParseError {
                source: kind,
                row: first_err(outcomes) as usize,
                fault: outcomes[first_err(outcomes)]->Err_0,
            },
        )
    }
}

/// What loading a source gives: the records of its text as the `csv` crate
/// reads it, or the error of a source that could not be read or whose text
/// does not fit.
pub open spec fn load_outcome<T: Record>(content: Option<Seq<u8>>, kind: SourceKind) -> Result<
    Seq<<T as DeepView>::V>,
    InitError,
> {
    match content {
        None => Err(InitError::Load(LoadError { source: kind })),
        Some(bytes) => match decode_table::<T>(csv_records(bytes), kind) {
            Ok(records) => Ok(records),
            Err(e) => Err(InitError::Parse(e)),
        },
    }
}

/// Where not every outcome is a success, there is a first failure, and
/// `first_err` is its place.
pub proof fn lemma_first_err_exists<T, E>(outcomes: Seq<Result<T, E>>)
    requires
        !all_ok(outcomes),
    ensures
        is_first_err(outcomes, first_err(outcomes)),
{
    let some = choose|i: int| 0 <= i < outcomes.len() && !(outcomes[i] is Ok);
    lemma_err_before(outcomes, some);
}

/// A failure at `at` has a first failure at or before it.
proof fn lemma_err_before<T, E>(outcomes: Seq<Result<T, E>>, at: int)
    requires
        0 <= at < outcomes.len(),
        outcomes[at] is Err,
    ensures
        exists|first: int| first <= at && is_first_err(outcomes, first),
    decreases at,
{
    if exists|i: int| 0 <= i < at && outcomes[i] is Err {
        let earlier = choose|i: int| 0 <= i < at && outcomes[i] is Err;
        lemma_err_before(outcomes, earlier);
    } else {
        assert(is_first_err(outcomes, at));
    }
}

/// The first failure is the only place that fails after successes alone.
pub proof fn lemma_first_err<T, E>(outcomes: Seq<Result<T, E>>, at: int)
    requires
        is_first_err(outcomes, at),
    ensures
        !all_ok(outcomes),
        first_err(outcomes) == at,
{
    let chosen = first_err(outcomes);
    assert(is_first_err(outcomes, chosen));
    if chosen < at {
        assert(outcomes[chosen] is Ok);
    } else if at < chosen {
        assert(outcomes[at] is Ok);
    }
}

/// Loading keeps the rows' order and drops nothing: a table that loads
/// gives one record for each data row, the record that the row stands for;
/// one that does not load names its first data row that stands for no
/// record, with that row's fault.
pub proof fn lemma_decode_table_row_by_row<T: Record>(
    rows: Seq<Option<Seq<Seq<char>>>>,
    kind: SourceKind,
)
    requires
        rows.len() <= usize::MAX,
    ensures
        match decode_table::<T>(rows, kind) {
            Ok(records) => {
                &&& rows.len() > 0 ==> records.len() == rows.len() - 1
                &&& rows.len() == 0 ==> records.len() == 0
                &&& forall|i: int|
                    0 <= i < records.len() ==> decode_one::<T>(rows[0], rows[i + 1]) == Ok::<
                        <T as DeepView>::V,
                        RowFault,
                    >(#[trigger] records[i])
            },
            Err(e) => {
                &&& e.source == kind
                &&& e.row + 1 < rows.len()
                &&& decode_one::<T>(rows[0], rows[e.row + 1]) == Err::<
                    <T as DeepView>::V,
                    RowFault,
                >(e.fault)
                &&& forall|k: int|
                    1 <= k <= e.row ==> decode_one::<T>(rows[0], #[trigger] rows[k]) is Ok
            },
        },
{
    let outcomes = row_outcomes::<T>(rows);
    if !all_ok(outcomes) {
        lemma_first_err_exists(outcomes);
        let at = first_err(outcomes);
        assert forall|k: int| 1 <= k <= at implies decode_one::<T>(
            rows[0],
            #[trigger] rows[k],
        ) is Ok by {
            assert(outcomes[k - 1] is Ok);
        }
    } else {
        assert forall|i: int| 0 <= i < outcomes.len() implies decode_one::<T>(rows[0], rows[i + 1])
            == Ok::<<T as DeepView>::V, RowFault>(#[trigger] values(outcomes)[i]) by {
            assert(outcomes[i] is Ok);
        }
    }
}

/// Looks every declared column up in the header row.
pub fn resolve(header: &Vec<String>, names: &Vec<String>) -> (places: Result<Vec<usize>, RowFault>)
    ensures
        match places {
            Ok(p) => {
                &&& resolution(header.deep_view(), names.deep_view()) == Ok::<Seq<int>, RowFault>(
                    p@.map_values(|at: usize| at as int),
                )
                &&& p.len() == names.len()
                &&& forall|c: int| 0 <= c < p.len() ==> p[c] < header.len()
            },
            Err(fault) => resolution(header.deep_view(), names.deep_view()) == Err::<
                Seq<int>,
                RowFault,
            >(fault),
        },
{
    let ghost declared = names.deep_view();
    let ghost places = Seq::new(
        declared.len(),
        |c: int| locate(header.deep_view(), declared[c], c),
    );
    let mut found: Vec<usize> = Vec::new();
    let mut c: usize = 0;
    while c < names.len()
        invariant
            c <= names.len(),
            declared == names.deep_view(),
            declared.len() == names.len(),
            places == Seq::new(declared.len(), |c: int| locate(header.deep_view(), declared[c], c)),
            found.len() == c,
            forall|d: int| 0 <= d < c ==> places[d] == Ok::<int, RowFault>(found[d] as int),
            forall|d: int| 0 <= d < c ==> found[d] < header.len(),
        decreases names.len() - c,
    {
        assert(declared[c as int] == names[c as int]@);
        match find_column(header, &names[c], c) {
            Ok(at) => {
                assert(is_sole(header.deep_view(), declared[c as int], at as int));
                found.push(at);
            },
            Err(fault) => {
                assert(is_first_err(places, c as int));
                proof {
                    lemma_first_err(places, c as int);
                }
                return Err(fault);
            },
        }
        c += 1;
    }
    assert(all_ok(places));
    assert(values(places) =~= found@.map_values(|at: usize| at as int));
    Ok(found)
}

/// Copies the cells of a row at the given places.
pub fn pick_cells(row: &Vec<String>, places: &Vec<usize>) -> (cells: Vec<String>)
    requires
        forall|c: int| 0 <= c < places.len() ==> places[c] < row.len(),
    ensures
        cells.deep_view() == pick(row.deep_view(), places@.map_values(|at: usize| at as int)),
        cells.len() == places.len(),
{
    let mut cells: Vec<String> = Vec::new();
    let mut c: usize = 0;
    while c < places.len()
        invariant
            c <= places.len(),
            cells.len() == c,
            forall|d: int| 0 <= d < places.len() ==> places[d] < row.len(),
            forall|d: int| 0 <= d < c ==> cells[d]@ == row[places[d] as int]@,
        decreases places.len() - c,
    {
        cells.push(row[places[c]].clone());
        c += 1;
    }
    assert(cells.deep_view() =~= pick(
        row.deep_view(),
        places@.map_values(|at: usize| at as int),
    ));
    cells
}

/// Decodes the rows of a table, whose first row is the header row, into
/// records: one for each data row, in the rows' order. It stops at the
/// first data row that stands for no record.
pub fn decode_rows<T: Record>(rows: &Vec<Option<Vec<String>>>, kind: SourceKind) -> (records:
    Result<Vec<T>, ParseError>)
    ensures
        match records {
            Ok(r) => decode_table::<T>(rows.deep_view(), kind) == Ok::<
                Seq<<T as DeepView>::V>,
                ParseError,
            >(r.deep_view()),
            Err(e) => decode_table::<T>(rows.deep_view(), kind) == Err::<
                Seq<<T as DeepView>::V>,
                ParseError,
            >(e),
        },
{
    let ghost table = rows.deep_view();
    let ghost outcomes = row_outcomes::<T>(table);
    let mut records: Vec<T> = Vec::new();
    if rows.len() == 0 {
        assert(values(outcomes) =~= records.deep_view());
        return Ok(records);
    }
    let names = T::columns();
    let places = match &rows[0] {
        Some(header) => resolve(header, &names),
        None => Err(RowFault::Malformed),
    };
    let width = match &rows[0] {
        Some(header) => header.len(),
        None => 0,
    };
    assert(table[0] == rows[0].deep_view());
    let mut i: usize = 1;
    while i < rows.len()
        invariant
            1 <= i <= rows.len(),
            table == rows.deep_view(),
            table.len() == rows.len(),
            outcomes == row_outcomes::<T>(table),
            outcomes.len() == rows.len() - 1,
            names.deep_view() == T::column_names(),
            names.len() == T::column_names().len(),
            rows[0] is Some ==> width == rows[0]->Some_0.len(),
            rows[0] matches Some(header) ==> match places {
                Ok(p) => {
                    &&& resolution(header.deep_view(), T::column_names()) == Ok::<
                        Seq<int>,
                        RowFault,
                    >(p@.map_values(|at: usize| at as int))
                    &&& p.len() == names.len()
                    &&& forall|c: int| 0 <= c < p.len() ==> p[c] < header.len()
                },
                Err(fault) => resolution(header.deep_view(), T::column_names()) == Err::<
                    Seq<int>,
                    RowFault,
                >(fault),
            },
            records.len() == i - 1,
            forall|k: int|
                0 <= k < i - 1 ==> outcomes[k] == Ok::<<T as DeepView>::V, RowFault>(
                    records[k].deep_view(),
                ),
        decreases rows.len() - i,
    {
        assert(table[0] == rows[0].deep_view());
        assert(table[i as int] == rows[i as int].deep_view());
        assert(outcomes[i - 1] == decode_one::<T>(table[0], table[i as int]));
        let outcome: Result<T, RowFault> = match (&rows[0], &rows[i]) {
            (Some(header), Some(row)) => {
                if row.len() != width {
                    Err(RowFault::Malformed)
                } else {
                    match &places {
                        Ok(p) => {
                            let cells = pick_cells(row, p);
                            T::from_cells(&cells)
                        },
                        Err(fault) => Err(*fault),
                    }
                }
            },
            _ => Err(RowFault::Malformed),
        };
        match outcome {
            Ok(record) => {
                records.push(record);
            },
            Err(fault) => {
                assert(is_first_err(outcomes, i - 1));
                proof {
                    lemma_first_err(outcomes, i - 1);
                }
                return Err(ParseError { source: kind, row: i - 1, fault });
            },
        }
        i += 1;
    }
    assert(all_ok(outcomes));
    assert(values(outcomes) =~= records.deep_view());
    Ok(records)
}

/// A source as it is handed to the loader: the bytes of the file, or the
/// report that the file could not be opened or read.
#[derive(Clone, Debug, PartialEq, Eq)]
pub enum Source {
    Unreadable,
    Content(Vec<u8>),
}

impl Source {
    /// The bytes of the source, where it could be read.
    pub open spec fn content(self) -> Option<Seq<u8>> {
        match self {
            Source::Unreadable => None,
            Source::Content(bytes) => Some(bytes@),
        }
    }
}

/// Reads the records of a text: the `csv` crate splits it into rows, and
/// each data row becomes a record by the names of the header row.
pub fn read_records<T: Record>(bytes: &[u8], kind: SourceKind) -> (records: Result<
    Vec<T>,
    ParseError,
>)
    ensures
        match records {
            Ok(r) => decode_table::<T>(csv_records(bytes@), kind) == Ok::<
                Seq<<T as DeepView>::V>,
                ParseError,
            >(r.deep_view()),
            Err(e) => decode_table::<T>(csv_records(bytes@), kind) == Err::<
                Seq<<T as DeepView>::V>,
                ParseError,
            >(e),
        },
{
    let rows = read_rows(bytes);
    decode_rows::<T>(&rows, kind)
}

/// Loads the records of one source, all of them or none: a source that
/// could not be read is a `LoadError`, a data row that does not fit is a
/// `ParseError` and ends the load.
pub fn read_from_file<T: Record>(file: &Source, kind: SourceKind) -> (records: Result<
    Vec<T>,
    InitError,
>)
    ensures
        match records {
            Ok(r) => load_outcome::<T>(file.content(), kind) == Ok::<
                Seq<<T as DeepView>::V>,
                InitError,
            >(r.deep_view()),
            Err(e) => load_outcome::<T>(file.content(), kind) == Err::<
                Seq<<T as DeepView>::V>,
                InitError,
            >(e),
        },
{
    match file {
        Source::Unreadable => Err(InitError::Load(LoadError { source: kind })),
        Source::Content(bytes) => match read_records::<T>(bytes.as_slice(), kind) {
            Ok(records) => Ok(records),
            Err(e) => Err(InitError::Parse(e)),
        },
    }
}

} // verus!
