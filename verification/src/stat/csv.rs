//! Decoding the statistics dump in its CSV form.
//!
//! The dump starts with `#`. What follows is CSV: the first record names the
//! columns, every other record is a row. The columns `type` and `svname` are
//! found once, in the header; each row is then dispatched on its `type` cell
//! and bound to the schema of its role by column name.

use crate::bind::{attribute_views, bound, Attribute, BindError, BindFailure};
use crate::formats::json::{Scalar, Value};
use crate::outside::{csv_records, read_csv_records, record_view, record_views, row_view};
use crate::stat::{
    role_of, statistic_views, Role, Schemas, Statistic, StatisticView, Statistics,
    SVNAME_BACKEND, SVNAME_FRONTEND,
};
use crate::text::{decimal, str_eq, trim, trimmed, unsigned_to_string};
use vstd::prelude::*;
use vstd::slice::slice_subrange;
use vstd::string::*;

verus! {

/// The field of a row that could not be bound.
#[derive(Debug, Clone, PartialEq, Eq)]
pub struct RowError {
    /// Number of the row, counted from 1 after the header.
    pub line: usize,
    pub error: BindError,
}

/// Why a dump could not be decoded.
#[derive(Debug)]
pub enum StatisticsFromCsvBytesError {
    /// A record is not well-formed CSV.
    CsvParseFailed(csv::Error),
    /// The dump holds no record at all.
    HeaderMissing,
    /// The header lacks a column that every dump must have.
    HeaderNameMismatch(&'static str),
    /// A field of a row could not be bound.
    RowDeFailed(RowError),
    /// A row is at odds with itself or with the header.
    RowValueMismatch(String),
    /// The `type` cell of a row is no known discriminant.
    UnknownType,
    /// The dump does not start as a dump does.
    Other(&'static str),
}

/// Why a dump could not be decoded, as mathematics sees it.
pub enum CsvFailure {
    Parse,
    HeaderMissing,
    HeaderName(Seq<char>),
    RowBind { line: int, failure: BindFailure },
    RowValue(Seq<char>),
    UnknownType,
    Other(Seq<char>),
}

impl View for StatisticsFromCsvBytesError {
    type V = CsvFailure;

    open spec fn view(&self) -> CsvFailure {
        match self {
            StatisticsFromCsvBytesError::CsvParseFailed(_) => CsvFailure::Parse,
            StatisticsFromCsvBytesError::HeaderMissing => CsvFailure::HeaderMissing,
            StatisticsFromCsvBytesError::HeaderNameMismatch(m) => CsvFailure::HeaderName(m@),
            StatisticsFromCsvBytesError::RowDeFailed(e) => CsvFailure::RowBind {
                line: e.line as int,
                failure: e.error@,
            },
            StatisticsFromCsvBytesError::RowValueMismatch(m) => CsvFailure::RowValue(m@),
            StatisticsFromCsvBytesError::UnknownType => CsvFailure::UnknownType,
            StatisticsFromCsvBytesError::Other(m) => CsvFailure::Other(m@),
        }
    }
}

/// The cells `cells`, each without the white space around it.
pub open spec fn trimmed_cells(cells: Seq<Seq<char>>) -> Seq<Seq<char>> {
    Seq::new(cells.len(), |i: int| trimmed(cells[i]))
}

/// The position of the first cell of `cells` that holds `name`.
pub open spec fn position(cells: Seq<Seq<char>>, name: Seq<char>) -> Option<int>
    decreases cells.len(),
{
    if cells.len() == 0 {
        None
    } else {
        match position(cells.drop_last(), name) {
            Some(i) => Some(i),
            None => if cells.last() == name {
                Some(cells.len() - 1)
            } else {
                None
            },
        }
    }
}

/// The attributes of a row: each cell under the name of its column. Cells
/// beyond the header, and columns beyond the row, give none.
pub open spec fn paired(header: Seq<Seq<char>>, row: Seq<Seq<char>>) -> Seq<(Seq<char>, Scalar)> {
    Seq::new(
        if header.len() <= row.len() {
            header.len()
        } else {
            row.len()
        },
        |i: int| (header[i], Scalar::Text(row[i])),
    )
}

/// What is reported of a row that has no cell in the column `position`;
/// `what` names the column.
pub open spec fn missing_cell_message(line: int, position: int, what: Seq<char>) -> Seq<char> {
    "line:"@ + decimal(line) + " position:"@ + decimal(position) + what
}

/// What is reported of a row whose `svname` is not the one that its role
/// fixes.
pub open spec fn svname_message(line: int, svname: Seq<char>, expected: Seq<char>) -> Seq<char> {
    "line:"@ + decimal(line) + " svname:"@ + svname + " svname should eq "@ + expected
}

/// What the first bytes of something that is no dump are answered with.
pub open spec fn marker_message() -> Seq<char> {
    "The first line begins with a sharp ('#')"@
}

/// Decodes row number `line`, whose `type` and `svname` cells stand in the
/// columns `type_at` and `svname_at` of `header`.
pub open spec fn decoded_row(
    header: Seq<Seq<char>>,
    type_at: int,
    svname_at: int,
    row: Seq<Seq<char>>,
    line: int,
) -> Result<StatisticView, CsvFailure> {
    if !(0 <= type_at < row.len()) {
        Err(CsvFailure::RowValue(missing_cell_message(line, type_at, " type missing"@)))
    } else if !(0 <= svname_at < row.len()) {
        Err(CsvFailure::RowValue(missing_cell_message(line, svname_at, " svname missing"@)))
    } else {
        match role_of(row[type_at]) {
            None => Err(CsvFailure::UnknownType),
            Some(role) => if role.fixed_svname() is Some && role.fixed_svname()->0
                != row[svname_at] {
                Err(
                    CsvFailure::RowValue(
                        svname_message(line, row[svname_at], role.fixed_svname()->0),
                    ),
                )
            } else {
                match bound(role.fields(), paired(header, row)) {
                    Ok(slots) => Ok(StatisticView { role, slots }),
                    Err(failure) => Err(CsvFailure::RowBind { line, failure }),
                }
            },
        }
    }
}

/// Decodes the rows among the first `n` records; record 0 is the header.
pub open spec fn decoded_rows(
    header: Seq<Seq<char>>,
    type_at: int,
    svname_at: int,
    records: Seq<Option<Seq<Seq<char>>>>,
    n: int,
) -> Result<Seq<StatisticView>, CsvFailure>
    decreases n,
{
    if n <= 1 {
        Ok(Seq::empty())
    } else {
        match decoded_rows(header, type_at, svname_at, records, n - 1) {
            Err(e) => Err(e),
            Ok(done) => match decoded_record(header, type_at, svname_at, records[n - 1], n - 1) {
                Ok(record) => Ok(done.push(record)),
                Err(e) => Err(e),
            },
        }
    }
}

/// Decodes the records of a dump: the header, then the rows in order. The
/// first record or row that fails decides the error.
pub open spec fn decoded_records(records: Seq<Option<Seq<Seq<char>>>>) -> Result<
    Seq<StatisticView>,
    CsvFailure,
> {
    if records.len() == 0 {
        Err(CsvFailure::HeaderMissing)
    } else {
        match decoded_header(records[0]) {
            Some(failure) => Err(failure),
            None => {
                let header = trimmed_cells(records[0]->0);
                decoded_rows(
                    header,
                    position(header, "type"@)->0,
                    position(header, "svname"@)->0,
                    records,
                    records.len() as int,
                )
            },
        }
    }
}

/// Decodes a dump: the marker `#`, then the records that the CSV reader
/// finds in the bytes after it.
pub open spec fn decoded_csv(bytes: Seq<u8>) -> Result<Seq<StatisticView>, CsvFailure> {
    if bytes.len() == 0 || bytes[0] != 35u8 {
        Err(CsvFailure::Other(marker_message()))
    } else {
        decoded_records(csv_records(bytes.skip(1)))
    }
}

/// The position found for a name is that of the first cell that holds it;
/// none is found exactly when no cell holds it.
pub proof fn lemma_position_first(cells: Seq<Seq<char>>, name: Seq<char>)
    ensures
        position(cells, name) matches Some(i) ==> {
            &&& 0 <= i < cells.len()
            &&& cells[i] == name
            &&& forall|j: int| 0 <= j < i ==> cells[j] != name
        },
        position(cells, name) is None ==> forall|j: int| 0 <= j < cells.len() ==> cells[j] != name,
    decreases cells.len(),
{
    if cells.len() > 0 {
        let before = cells.drop_last();
        lemma_position_first(before, name);
        assert forall|j: int| 0 <= j < before.len() implies before[j] == cells[j] by {}
    }
}

/// Bytes that do not start with `#` are refused for that, whatever follows.
pub proof fn lemma_marker_required(bytes: Seq<u8>)
    requires
        bytes.len() == 0 || bytes[0] != 35u8,
    ensures
        decoded_csv(bytes) == Err::<Seq<StatisticView>, CsvFailure>(
            CsvFailure::Other(marker_message()),
        ),
{
}

/// A header without a column `type` is refused for that; one with `type`
/// but without `svname` is refused for the lack of `svname`. The rows are
/// not looked at.
pub proof fn lemma_header_needs_both_columns(records: Seq<Option<Seq<Seq<char>>>>)
    requires
        records.len() > 0,
        records[0] is Some,
    ensures
        position(trimmed_cells(records[0]->0), "type"@) is None ==> decoded_records(records)
            == Err::<Seq<StatisticView>, CsvFailure>(CsvFailure::HeaderName("type missing"@)),
        position(trimmed_cells(records[0]->0), "type"@) is Some && position(
            trimmed_cells(records[0]->0),
            "svname"@,
        ) is None ==> decoded_records(records) == Err::<Seq<StatisticView>, CsvFailure>(
            CsvFailure::HeaderName("svname missing"@),
        ),
{
}

/// A row with the discriminant of a frontend is refused unless its `svname`
/// is `FRONTEND`; if it is, the row gives what binding it to the schema of a
/// frontend gives. The same holds of a backend and `BACKEND`.
pub proof fn lemma_fixed_svname(
    header: Seq<Seq<char>>,
    type_at: int,
    svname_at: int,
    row: Seq<Seq<char>>,
    line: int,
    role: Role,
)
    requires
        0 <= type_at < row.len(),
        0 <= svname_at < row.len(),
        role_of(row[type_at]) == Some(role),
        role == Role::Frontend || role == Role::Backend,
    ensures
        row[svname_at] != role.fixed_svname()->0 ==> decoded_row(
            header,
            type_at,
            svname_at,
            row,
            line,
        ) == Err::<StatisticView, CsvFailure>(
            CsvFailure::RowValue(svname_message(line, row[svname_at], role.fixed_svname()->0)),
        ),
        row[svname_at] == role.fixed_svname()->0 ==> decoded_row(
            header,
            type_at,
            svname_at,
            row,
            line,
        ) == (match bound(role.fields(), paired(header, row)) {
            Ok(slots) => Ok::<StatisticView, CsvFailure>(StatisticView { role, slots }),
            Err(failure) => Err(CsvFailure::RowBind { line, failure }),
        }),
        role_of("0"@) == Some(Role::Frontend),
        role_of("1"@) == Some(Role::Backend),
        Role::Frontend.fixed_svname() == Some("FRONTEND"@),
        Role::Backend.fixed_svname() == Some("BACKEND"@),
{
    reveal_strlit("0");
    reveal_strlit("1");
    assert("1"@[0] != "0"@[0]);
}

/// A row whose discriminant is none of `0`, `1`, `2` and `3` is refused as
/// of unknown type; `9` is such a discriminant, and so is `4`.
pub proof fn lemma_unknown_type(
    header: Seq<Seq<char>>,
    type_at: int,
    svname_at: int,
    row: Seq<Seq<char>>,
    line: int,
)
    requires
        0 <= type_at < row.len(),
        0 <= svname_at < row.len(),
        row[type_at] != "0"@,
        row[type_at] != "1"@,
        row[type_at] != "2"@,
        row[type_at] != "3"@,
    ensures
        decoded_row(header, type_at, svname_at, row, line) == Err::<StatisticView, CsvFailure>(
            CsvFailure::UnknownType,
        ),
        role_of("9"@) is None,
        role_of("4"@) is None,
{
    reveal_strlit("0");
    reveal_strlit("1");
    reveal_strlit("2");
    reveal_strlit("3");
    reveal_strlit("4");
    reveal_strlit("9");
    assert("9"@[0] != "0"@[0] && "9"@[0] != "1"@[0] && "9"@[0] != "2"@[0] && "9"@[0] != "3"@[0]);
    assert("4"@[0] != "0"@[0] && "4"@[0] != "1"@[0] && "4"@[0] != "2"@[0] && "4"@[0] != "3"@[0]);
}

/// A dump that is decoded gives one record for each row, in the order of the
/// rows: each record is what its row alone gives.
pub proof fn lemma_one_record_per_row(
    header: Seq<Seq<char>>,
    type_at: int,
    svname_at: int,
    records: Seq<Option<Seq<Seq<char>>>>,
    n: int,
)
    requires
        1 <= n <= records.len(),
        decoded_rows(header, type_at, svname_at, records, n) is Ok,
    ensures
        ({
            let done = decoded_rows(header, type_at, svname_at, records, n)->Ok_0;
            &&& done.len() == n - 1
            &&& forall|k: int|
                1 <= k < n ==> decoded_record(header, type_at, svname_at, records[k], k) == Ok::<
                    StatisticView,
                    CsvFailure,
                >(#[trigger] done[k - 1])
        }),
    decreases n,
{
    if n > 1 {
        lemma_one_record_per_row(header, type_at, svname_at, records, n - 1);
        let before = decoded_rows(header, type_at, svname_at, records, n - 1)->Ok_0;
        let done = decoded_rows(header, type_at, svname_at, records, n)->Ok_0;
        assert forall|k: int| 1 <= k < n implies decoded_record(
            header,
            type_at,
            svname_at,
            records[k],
            k,
        ) == Ok::<StatisticView, CsvFailure>(#[trigger] done[k - 1]) by {
            if k < n - 1 {
                assert(done[k - 1] == before[k - 1]);
            }
        }
    }
}

/// Once a row has failed, the rows after it change nothing.
pub proof fn lemma_rows_failure_stays(
    header: Seq<Seq<char>>,
    type_at: int,
    svname_at: int,
    records: Seq<Option<Seq<Seq<char>>>>,
    n: int,
    m: int,
)
    requires
        n <= m,
        decoded_rows(header, type_at, svname_at, records, n) is Err,
    ensures
        decoded_rows(header, type_at, svname_at, records, m) == decoded_rows(
            header,
            type_at,
            svname_at,
            records,
            n,
        ),
    decreases m - n,
{
    if n < m {
        lemma_rows_failure_stays(header, type_at, svname_at, records, n, m - 1);
    }
}

/// The cells of `row`, each without the white space around it.
fn trim_cells(row: &Vec<String>) -> (r: Vec<String>)
    ensures
        row_view(r) == trimmed_cells(row_view(*row)),
{
    let mut out: Vec<String> = Vec::new();
    let mut i: usize = 0;
    while i < row.len()
        invariant
            i <= row@.len(),
            out@.len() == i,
            forall|j: int| 0 <= j < i ==> (#[trigger] out@[j])@ == trimmed(row@[j]@),
        decreases row.len() - i,
    {
        out.push(trim(row[i].as_str()));
        i += 1;
    }
    proof {
        assert(row_view(out) =~= trimmed_cells(row_view(*row)));
    }
    out
}

/// The position of the first cell of `cells` that holds `name`.
fn find_column(cells: &Vec<String>, name: &str) -> (r: Option<usize>)
    ensures
        r is Some <==> position(row_view(*cells), name@) is Some,
        r matches Some(i) ==> position(row_view(*cells), name@) == Some(i as int) && i
            < cells@.len(),
{
    let ghost all = row_view(*cells);
    let mut i: usize = 0;
    proof {
        assert(all.take(0) =~= Seq::<Seq<char>>::empty());
    }
    while i < cells.len()
        invariant
            i <= cells@.len(),
            all == row_view(*cells),
            position(all.take(i as int), name@) is None,
        decreases cells.len() - i,
    {
        proof {
            assert(all.take(i + 1).drop_last() =~= all.take(i as int));
            assert(all.take(i + 1).last() == cells@[i as int]@);
        }
        if str_eq(cells[i].as_str(), name) {
            proof {
                lemma_position_stays(all, name@, i + 1, all.len() as int);
                assert(all.take(all.len() as int) =~= all);
            }
            return Some(i);
        }
        i += 1;
    }
    proof {
        assert(all.take(all.len() as int) =~= all);
    }
    None
}

/// A name found among the first cells is found at the same place among more.
proof fn lemma_position_stays(cells: Seq<Seq<char>>, name: Seq<char>, n: int, m: int)
    requires
        0 <= n <= m <= cells.len(),
        position(cells.take(n), name) is Some,
    ensures
        position(cells.take(m), name) == position(cells.take(n), name),
    decreases m - n,
{
    if n < m {
        lemma_position_stays(cells, name, n, m - 1);
        assert(cells.take(m).drop_last() =~= cells.take(m - 1));
    }
}

/// The attributes of a row: each cell under the name of its column.
pub fn row_attributes(header: &Vec<String>, row: &Vec<String>) -> (r: Vec<Attribute>)
    ensures
        attribute_views(r@) == paired(row_view(*header), row_view(*row)),
{
    let n: usize = if header.len() <= row.len() {
        header.len()
    } else {
        row.len()
    };
    let mut out: Vec<Attribute> = Vec::new();
    let mut i: usize = 0;
    while i < n
        invariant
            i <= n,
            n <= header@.len(),
            n <= row@.len(),
            out@.len() == i,
            forall|j: int|
                0 <= j < i ==> (#[trigger] out@[j])@ == (header@[j]@, Scalar::Text(row@[j]@)),
        decreases n - i,
    {
        out.push(Attribute { name: header[i].clone(), value: Value::Str(row[i].clone()) });
        i += 1;
    }
    proof {
        assert(attribute_views(out@) =~= paired(row_view(*header), row_view(*row)));
    }
    out
}

/// The text of [`missing_cell_message`].
fn missing_cell(line: usize, position: usize, what: &str) -> (r: String)
    ensures
        r@ == missing_cell_message(line as int, position as int, what@),
{
    let mut m = "line:".to_owned();
    m.append(unsigned_to_string(line as u64).as_str());
    m.append(" position:");
    m.append(unsigned_to_string(position as u64).as_str());
    m.append(what);
    m
}

/// The text of [`svname_message`].
fn svname_mismatch(line: usize, svname: &str, expected: &str) -> (r: String)
    ensures
        r@ == svname_message(line as int, svname@, expected@),
{
    let mut m = "line:".to_owned();
    m.append(unsigned_to_string(line as u64).as_str());
    m.append(" svname:");
    m.append(svname);
    m.append(" svname should eq ");
    m.append(expected);
    m
}

/// Decodes one row.
fn decode_row(
    schemas: &Schemas,
    header: &Vec<String>,
    type_at: usize,
    svname_at: usize,
    row: &Vec<String>,
    line: usize,
) -> (r: Result<Statistic, StatisticsFromCsvBytesError>)
    ensures
        match r {
            Ok(record) => {
                &&& decoded_row(
                    row_view(*header),
                    type_at as int,
                    svname_at as int,
                    row_view(*row),
                    line as int,
                ) == Ok::<StatisticView, CsvFailure>(record@)
                &&& record.wf()
            },
            Err(e) => {
                &&& decoded_row(
                    row_view(*header),
                    type_at as int,
                    svname_at as int,
                    row_view(*row),
                    line as int,
                ) == Err::<StatisticView, CsvFailure>(e@)
            },
        },
{
    if type_at >= row.len() {
        return Err(
            StatisticsFromCsvBytesError::RowValueMismatch(
                missing_cell(line, type_at, " type missing"),
            ),
        );
    }
    if svname_at >= row.len() {
        return Err(
            StatisticsFromCsvBytesError::RowValueMismatch(
                missing_cell(line, svname_at, " svname missing"),
            ),
        );
    }
    let svname = row[svname_at].as_str();
    let role = match Role::from_tag(row[type_at].as_str()) {
        None => {
            return Err(StatisticsFromCsvBytesError::UnknownType);
        },
        Some(role) => role,
    };
    match role {
        Role::Frontend => {
            if !str_eq(svname, SVNAME_FRONTEND) {
                return Err(
                    StatisticsFromCsvBytesError::RowValueMismatch(
                        svname_mismatch(line, svname, SVNAME_FRONTEND),
                    ),
                );
            }
        },
        Role::Backend => {
            if !str_eq(svname, SVNAME_BACKEND) {
                return Err(
                    StatisticsFromCsvBytesError::RowValueMismatch(
                        svname_mismatch(line, svname, SVNAME_BACKEND),
                    ),
                );
            }
        },
        _ => {},
    }
    let attrs = row_attributes(header, row);
    match Statistic::bind(role, schemas, &attrs) {
        Ok(record) => Ok(record),
        Err(error) => Err(StatisticsFromCsvBytesError::RowDeFailed(RowError { line, error })),
    }
}

/// The header of a dump: the names of its columns, and where the two columns
/// stand that every row is dispatched on.
struct Header {
    names: Vec<String>,
    type_at: usize,
    svname_at: usize,
}

impl Header {
    /// Whether this is the header that the record `first` gives.
    spec fn heads(&self, first: Seq<Seq<char>>) -> bool {
        &&& row_view(self.names) == trimmed_cells(first)
        &&& position(row_view(self.names), "type"@) == Some(self.type_at as int)
        &&& position(row_view(self.names), "svname"@) == Some(self.svname_at as int)
    }
}

/// What the first record of a dump gives: the header, or why it is none.
pub open spec fn decoded_header(first: Option<Seq<Seq<char>>>) -> Option<CsvFailure> {
    match first {
        None => Some(CsvFailure::Parse),
        Some(cells) => if position(trimmed_cells(cells), "type"@) is None {
            Some(CsvFailure::HeaderName("type missing"@))
        } else if position(trimmed_cells(cells), "svname"@) is None {
            Some(CsvFailure::HeaderName("svname missing"@))
        } else {
            None
        },
    }
}

/// Reads the header from the first record of a dump.
fn read_header(record: Result<Vec<String>, csv::Error>) -> (r: Result<
    Header,
    StatisticsFromCsvBytesError,
>)
    ensures
        match r {
            Ok(h) => decoded_header(record_view(record)) is None && h.heads(
                record_view(record)->0,
            ),
            Err(e) => decoded_header(record_view(record)) == Some(e@),
        },
{
    let row = match record {
        Ok(row) => row,
        Err(e) => {
            return Err(StatisticsFromCsvBytesError::CsvParseFailed(e));
        },
    };
    let names = trim_cells(&row);
    let type_at = match find_column(&names, "type") {
        Some(i) => i,
        None => {
            return Err(StatisticsFromCsvBytesError::HeaderNameMismatch("type missing"));
        },
    };
    let svname_at = match find_column(&names, "svname") {
        Some(i) => i,
        None => {
            return Err(StatisticsFromCsvBytesError::HeaderNameMismatch("svname missing"));
        },
    };
    Ok(Header { names, type_at, svname_at })
}

/// What record number `line` gives: a statistic, or why it gives none.
pub open spec fn decoded_record(
    header: Seq<Seq<char>>,
    type_at: int,
    svname_at: int,
    record: Option<Seq<Seq<char>>>,
    line: int,
) -> Result<StatisticView, CsvFailure> {
    match record {
        None => Err(CsvFailure::Parse),
        Some(row) => decoded_row(header, type_at, svname_at, row, line),
    }
}

/// Decodes the record of one row.
fn decode_record(
    schemas: &Schemas,
    header: &Header,
    record: Result<Vec<String>, csv::Error>,
    line: usize,
) -> (r: Result<Statistic, StatisticsFromCsvBytesError>)
    ensures
        match r {
            Ok(statistic) => {
                &&& decoded_record(
                    row_view(header.names),
                    header.type_at as int,
                    header.svname_at as int,
                    record_view(record),
                    line as int,
                ) == Ok::<StatisticView, CsvFailure>(statistic@)
                &&& statistic.wf()
            },
            Err(e) => {
                &&& decoded_record(
                    row_view(header.names),
                    header.type_at as int,
                    header.svname_at as int,
                    record_view(record),
                    line as int,
                ) == Err::<StatisticView, CsvFailure>(e@)
            },
        },
{
    match record {
        Err(e) => Err(StatisticsFromCsvBytesError::CsvParseFailed(e)),
        Ok(row) => decode_row(
            schemas,
            &header.names,
            header.type_at,
            header.svname_at,
            &row,
            line,
        ),
    }
}

impl Statistics {
    /// Whether the states of every record are held in their canonical form.
    pub open spec fn wf(&self) -> bool {
        forall|i: int| 0 <= i < self.0@.len() ==> (#[trigger] self.0@[i]).wf()
    }

    /// Decodes the records that the CSV reader found in a dump: the header
    /// first, then each row in turn. The result is one record per row, or the
    /// error of the first record that fails.
    pub fn from_csv_records(records: Vec<Result<Vec<String>, csv::Error>>) -> (r: Result<
        Statistics,
        StatisticsFromCsvBytesError,
    >)
        ensures
            match r {
                Ok(s) => {
                    &&& decoded_records(record_views(records@)) == Ok::<
                        Seq<StatisticView>,
                        CsvFailure,
                    >(s@)
                    &&& s.wf()
                },
                Err(e) => decoded_records(record_views(records@)) == Err::<
                    Seq<StatisticView>,
                    CsvFailure,
                >(e@),
            },
    {
        let ghost all = record_views(records@);
        let ghost given = records@;
        let total: usize = records.len();
        let schemas = Schemas::new();
        let mut header = Header { names: Vec::new(), type_at: 0, svname_at: 0 };
        let mut inner: Vec<Statistic> = Vec::new();
        let mut line: usize = 0;
        for record in it: records.into_iter()
            invariant
                it.seq() == given,
                given.len() == total,
                all == record_views(given),
                line == it.index(),
                line == 0 ==> inner@.len() == 0,
                line >= 1 ==> {
                    &&& all[0] is Some
                    &&& header.heads(all[0]->0)
                    &&& decoded_rows(
                        row_view(header.names),
                        header.type_at as int,
                        header.svname_at as int,
                        all,
                        line as int,
                    ) == Ok::<Seq<StatisticView>, CsvFailure>(statistic_views(inner@))
                },
                forall|i: int| 0 <= i < inner@.len() ==> (#[trigger] inner@[i]).wf(),
        {
            proof {
                assert(all[line as int] == record_view(given[line as int]));
            }
            let step = if line == 0 {
                match read_header(record) {
                    Ok(h) => {
                        header = h;
                        Ok(None)
                    },
                    Err(e) => Err(e),
                }
            } else {
                match decode_record(&schemas, &header, record, line) {
                    Ok(statistic) => Ok(Some(statistic)),
                    Err(e) => Err(e),
                }
            };
            match step {
                Ok(None) => {
                    proof {
                        assert(statistic_views(inner@) =~= Seq::<StatisticView>::empty());
                    }
                },
                Ok(Some(statistic)) => {
                    let ghost before = statistic_views(inner@);
                    inner.push(statistic);
                    proof {
                        assert(statistic_views(inner@) =~= before.push(statistic@));
                    }
                },
                Err(e) => {
                    proof {
                        if line >= 1 {
                            lemma_rows_failure_stays(
                                row_view(header.names),
                                header.type_at as int,
                                header.svname_at as int,
                                all,
                                line + 1,
                                all.len() as int,
                            );
                        }
                    }
                    return Err(e);
                },
            }
            line += 1;
        }
        if line == 0 {
            return Err(StatisticsFromCsvBytesError::HeaderMissing);
        }
        Ok(Statistics(inner))
    }

    /// Decodes a dump in CSV form. The bytes must start with `#`; the rest is
    /// read as CSV and decoded as [`Statistics::from_csv_records`] says.
    pub fn from_csv_bytes(bytes: &[u8]) -> (r: Result<Statistics, StatisticsFromCsvBytesError>)
        ensures
            match r {
                Ok(s) => {
                    &&& decoded_csv(bytes@) == Ok::<Seq<StatisticView>, CsvFailure>(s@)
                    &&& s.wf()
                },
                Err(e) => decoded_csv(bytes@) == Err::<Seq<StatisticView>, CsvFailure>(e@),
            },
    {
        if bytes.len() == 0 || bytes[0] != 35u8 {
            return Err(
                StatisticsFromCsvBytesError::Other("The first line begins with a sharp ('#')"),
            );
        }
        let rest = slice_subrange(bytes, 1, bytes.len());
        proof {
            assert(rest@ =~= bytes@.skip(1));
        }
        Statistics::from_csv_records(read_csv_records(rest))
    }
}

} // verus!
