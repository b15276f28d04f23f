//! The exchange engine for spreadsheets: typed cells out, and rows in from
//! the first worksheet of a workbook, the columns bound to the fields by
//! position.

use vstd::prelude::*;
use calamine::{DataType, Range};
use crate::codec::{
    SourceCell, SourceCellView, TypedCell, TypedCellView, cell_text, cell_string, typed_cell,
    typed_cell_of,
};
use crate::exchange::ExchangeError;
use crate::schema::{Field, FieldView, fields_view};
use crate::store::{Row, RowView, build_row, row_of, row_view, rows_view, strings_view};

verus! {

/// The type `calamine::Range`, a rectangle of cells. Nothing is known of
/// what a value of it holds but through `sheet_height` and `sheet_cells`.
#[verifier::external_type_specification]
#[verifier::external_body]
#[verifier::reject_recursive_types(T)]
pub struct ExRange<T>(calamine::Range<T>);

/// The type `calamine::DataType`, one cell of a range. It is only named as
/// the kind of cell that a range holds; nothing is known of a value of it.
#[verifier::external_type_specification]
#[verifier::external_body]
pub struct ExDataType(calamine::DataType);

/// The number of rows of a range, as `calamine::Range::height` gives it.
pub uninterp spec fn sheet_height(range: calamine::Range<calamine::DataType>) -> nat;

/// The cells of a range by absolute position, row first: what
/// `calamine::Range::get_value` gives at each position at which it gives a
/// cell.
pub uninterp spec fn sheet_cells(range: calamine::Range<calamine::DataType>) -> Map<
    (int, int),
    SourceCellView,
>;

/// Calls `calamine::Range::height`. The contract only names the result.
#[verifier::external_body]
fn range_height(range: &Range<DataType>) -> (h: usize)
    ensures
        h == sheet_height(*range),
{
    range.height()
}

/// Calls `calamine::Range::get_value` with an absolute position and hands
/// the cell on by its kind, one kind of the library for each kind of
/// calamine's: a number with a fraction as the text that `to_string` gives
/// for it, a date, a duration and an error without what they hold. Gives
/// nothing where the range has no cell at the position. The contract only
/// names the result.
#[verifier::external_body]
fn range_cell(range: &Range<DataType>, row: u32, col: u32) -> (cell: Option<SourceCell>)
    ensures
        source_cell_view(cell) == cell_at(sheet_cells(*range), row as int, col as int),
{
    Some(match range.get_value((row, col))? {
        DataType::Int(i) => SourceCell::Int(*i),
        DataType::Float(f) => SourceCell::Real(f.to_string()),
        DataType::String(s) => SourceCell::Text(s.clone()),
        DataType::Bool(b) => SourceCell::Bool(*b),
        DataType::DateTime(_) => SourceCell::DateTime,
        DataType::Duration(_) => SourceCell::Duration,
        DataType::DateTimeIso(s) => SourceCell::DateTimeIso(s.clone()),
        DataType::DurationIso(s) => SourceCell::DurationIso(s.clone()),
        DataType::Error(_) => SourceCell::Error,
        DataType::Empty => SourceCell::Empty,
    })
}

/// The value of an optional source cell.
pub open spec fn source_cell_view(cell: Option<SourceCell>) -> Option<SourceCellView> {
    match cell {
        Some(c) => Some(c@),
        None => None,
    }
}

/// The cell at a position, if the sheet has one there.
pub open spec fn cell_at(cells: Map<(int, int), SourceCellView>, row: int, col: int) -> Option<
    SourceCellView,
> {
    if cells.contains_key((row, col)) {
        Some(cells[(row, col)])
    } else {
        None
    }
}

/// The canonical text of what a position holds: that of the cell, and the
/// empty text where there is no cell.
pub open spec fn text_of_cell(cell: Option<SourceCellView>) -> Seq<char> {
    match cell {
        Some(c) => cell_text(c),
        None => Seq::empty(),
    }
}

/// The canonical text at a position of a sheet. Positions are pairs of
/// 32-bit numbers: beyond them there is no cell.
pub open spec fn sheet_text(cells: Map<(int, int), SourceCellView>, row: int, col: int) -> Seq<
    char,
> {
    if 0 <= row <= u32::MAX && 0 <= col <= u32::MAX {
        text_of_cell(cell_at(cells, row, col))
    } else {
        Seq::empty()
    }
}

/// The texts of row `row` of a sheet in the first `width` columns.
pub open spec fn sheet_record(cells: Map<(int, int), SourceCellView>, row: int, width: nat)
    -> Seq<Seq<char>> {
    Seq::new(width, |c: int| sheet_text(cells, row, c))
}

/// The rows read from a sheet of the given height: row 0 stands for the
/// header and is passed over, whatever it holds; each later row is bound to
/// the fields by position, column `c` to field `c`.
pub open spec fn rows_of_sheet(
    fields: Seq<FieldView>,
    height: nat,
    cells: Map<(int, int), SourceCellView>,
) -> Seq<RowView> {
    Seq::new(
        if height >= 1 {
            (height - 1) as nat
        } else {
            0
        },
        |r: int| row_of(fields, sheet_record(cells, r + 1, fields.len())),
    )
}

fn text_at(range: &Range<DataType>, row: usize, col: usize) -> (s: String)
    ensures
        s@ == sheet_text(sheet_cells(*range), row as int, col as int),
{
    if row > u32::MAX as usize || col > u32::MAX as usize {
        String::new()
    } else {
        match range_cell(range, row as u32, col as u32) {
            Some(cell) => cell_string(&cell),
            None => String::new(),
        }
    }
}

/// Reads the rows of a structure from a worksheet's range: row 0 is passed
/// over, and each later row is bound to the fields by position.
pub fn rows_from_range(fields: &Vec<Field>, range: &Range<DataType>) -> (rows:
    Vec<Row>)
    ensures
        rows_view(rows@) == rows_of_sheet(
            fields_view(fields@),
            sheet_height(*range),
            sheet_cells(*range),
        ),
{
    let ghost fv = fields_view(fields@);
    let ghost cells = sheet_cells(*range);
    let height = range_height(range);
    let mut rows: Vec<Row> = Vec::new();
    let mut r: usize = 1;
    while r < height
        invariant
            1 <= r,
            r <= height || r == 1,
            fv == fields_view(fields@),
            cells == sheet_cells(*range),
            rows.len() == r - 1,
            forall|j: int|
                0 <= j < r - 1 ==> row_view(#[trigger] rows[j]) == row_of(
                    fv,
                    sheet_record(cells, j + 1, fv.len()),
                ),
        decreases height - r,
    {
        let mut values: Vec<String> = Vec::new();
        let mut c: usize = 0;
        while c < fields.len()
            invariant
                c <= fields.len(),
                cells == sheet_cells(*range),
                values.len() == c,
                forall|k: int| 0 <= k < c ==> (#[trigger] values[k])@ == sheet_text(cells, r as int, k),
            decreases fields.len() - c,
        {
            values.push(text_at(range, r, c));
            c += 1;
        }
        assert(strings_view(values@) =~= sheet_record(cells, r as int, fv.len()));
        rows.push(build_row(fields, &values));
        r += 1;
    }
    assert(rows_view(rows@) =~= rows_of_sheet(fv, height as nat, cells));
    rows
}

/// What opening a workbook gave.
pub enum SheetLoad {
    /// The range of the workbook's first worksheet.
    Sheet(Range<DataType>),
    /// The workbook has no worksheet.
    NoSheet,
    /// The file could not be opened or read as a workbook.
    Unreadable,
}

/// The rows that a workbook gives for the fields `fields`: those of its
/// first worksheet, `SheetEmpty` where it has none, `IoError` where it
/// could not be opened or read.
pub open spec fn imported_rows(fields: Seq<FieldView>, load: SheetLoad) -> Result<
    Seq<RowView>,
    ExchangeError,
> {
    match load {
        SheetLoad::Sheet(range) => Ok(
            rows_of_sheet(fields, sheet_height(range), sheet_cells(range)),
        ),
        SheetLoad::NoSheet => Err(ExchangeError::SheetEmpty),
        SheetLoad::Unreadable => Err(ExchangeError::IoError),
    }
}

/// The view of rows that were read, or of the reason why there are none.
pub open spec fn rows_result_view(r: Result<Vec<Row>, ExchangeError>) -> Result<
    Seq<RowView>,
    ExchangeError,
> {
    match r {
        Ok(rows) => Ok(rows_view(rows@)),
        Err(e) => Err(e),
    }
}

/// Reads the rows of a structure from what opening a workbook gave.
pub fn import_sheet(fields: &Vec<Field>, load: &SheetLoad) -> (r: Result<Vec<Row>, ExchangeError>)
    ensures
        rows_result_view(r) == imported_rows(fields_view(fields@), *load),
{
    match load {
        SheetLoad::Sheet(range) => Ok(rows_from_range(fields, range)),
        SheetLoad::NoSheet => Err(ExchangeError::SheetEmpty),
        SheetLoad::Unreadable => Err(ExchangeError::IoError),
    }
}

/// The cells written for a structure's rows, by row and column: row 0 holds
/// the field names as text cells; the row after it the first stored row,
/// and so on, with one typed cell per field that the stored row has a key
/// for and no cell for a field that it has none for.
pub open spec fn plan_of(fields: Seq<FieldView>, rows: Seq<RowView>) -> Seq<
    Seq<Option<TypedCellView>>,
> {
    Seq::new(
        rows.len() + 1,
        |r: int|
            Seq::new(
                fields.len(),
                |c: int|
                    if r == 0 {
                        Some(TypedCellView::Text(fields[c].name))
                    } else if rows[r - 1].contains_key(fields[c].name) {
                        Some(typed_cell_of(rows[r - 1][fields[c].name]))
                    } else {
                        None
                    },
            ),
    )
}

/// The value of an optional typed cell.
pub open spec fn cell_option_view(cell: Option<TypedCell>) -> Option<TypedCellView> {
    match cell {
        Some(c) => Some(c@),
        None => None,
    }
}

/// The values of a grid of optional typed cells.
pub open spec fn plan_view(plan: Seq<Vec<Option<TypedCell>>>) -> Seq<Seq<Option<TypedCellView>>> {
    plan.map_values(|row: Vec<Option<TypedCell>>| row@.map_values(|c| cell_option_view(c)))
}

/// Lays out the cells to write for a structure's rows.
pub fn sheet_plan(fields: &Vec<Field>, rows: &Vec<Row>) -> (plan: Vec<Vec<Option<TypedCell>>>)
    ensures
        plan_view(plan@) == plan_of(fields_view(fields@), rows_view(rows@)),
{
    let ghost fv = fields_view(fields@);
    let ghost rv = rows_view(rows@);
    let ghost wanted = plan_of(fv, rv);
    let mut plan: Vec<Vec<Option<TypedCell>>> = Vec::new();
    let mut header: Vec<Option<TypedCell>> = Vec::new();
    let mut c: usize = 0;
    while c < fields.len()
        invariant
            c <= fields.len(),
            fv == fields_view(fields@),
            header.len() == c,
            forall|k: int|
                0 <= k < c ==> cell_option_view(#[trigger] header[k]) == Some(
                    TypedCellView::Text(fv[k].name),
                ),
        decreases fields.len() - c,
    {
        header.push(Some(TypedCell::Text(fields[c].name.clone())));
        c += 1;
    }
    assert(header@.map_values(|c| cell_option_view(c)) =~= wanted[0]);
    plan.push(header);
    let mut r: usize = 0;
    while r < rows.len()
        invariant
            r <= rows.len(),
            fv == fields_view(fields@),
            rv == rows_view(rows@),
            wanted == plan_of(fv, rv),
            plan.len() == r + 1,
            forall|j: int|
                0 <= j < r + 1 ==> (#[trigger] plan[j])@.map_values(|c| cell_option_view(c))
                    == wanted[j],
        decreases rows.len() - r,
    {
        let mut line: Vec<Option<TypedCell>> = Vec::new();
        let mut c: usize = 0;
        while c < fields.len()
            invariant
                c <= fields.len(),
                r < rows.len(),
                fv == fields_view(fields@),
                rv == rows_view(rows@),
                line.len() == c,
                forall|k: int|
                    0 <= k < c ==> cell_option_view(#[trigger] line[k]) == if rv[r as int].contains_key(
                        fv[k].name,
                    ) {
                        Some(typed_cell_of(rv[r as int][fv[k].name]))
                    } else {
                        None
                    },
            decreases fields.len() - c,
        {
            let cell = match rows[r].get(fields[c].name.as_str()) {
                Some(value) => Some(typed_cell(value)),
                None => None,
            };
            line.push(cell);
            c += 1;
        }
        assert(line@.map_values(|c| cell_option_view(c)) =~= wanted[r + 1]);
        plan.push(line);
        r += 1;
    }
    assert(plan_view(plan@) =~= wanted);
    plan
}

} // verus!
