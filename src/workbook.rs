use vstd::prelude::*;

use crate::delimited::row_view;

verus! {

#[verifier::external_type_specification]
#[verifier::external_body]
pub struct ExWorksheet(rust_xlsxwriter::Worksheet);

#[verifier::external_type_specification]
#[verifier::external_body]
pub struct ExWorkbook(rust_xlsxwriter::Workbook);

#[verifier::external_type_specification]
#[verifier::external_body]
pub struct ExXlsxError(rust_xlsxwriter::XlsxError);

/// The rows a worksheet can hold.
pub const SHEET_ROWS: usize = 1_048_576;

/// The columns a worksheet can hold.
pub const SHEET_COLUMNS: usize = 16_384;

/// The longest text a cell can hold, in characters.
pub const CELL_CHARS: usize = 32_767;

/// The text cells of a worksheet, by (row, column), both 0-based.
pub uninterp spec fn sheet_cells(ws: rust_xlsxwriter::Worksheet) -> Map<(u32, u16), Seq<char>>;

/// The cells that rows give: each non-empty text at its row and column. Empty texts are
/// left out, as the worksheet leaves them out.
pub open spec fn grid_of(rows: Seq<Seq<Seq<char>>>) -> Map<(u32, u16), Seq<char>> {
    Map::new(
        |k: (u32, u16)|
            (k.0 as int) < rows.len() && (k.1 as int) < rows[k.0 as int].len() && rows[k.0 as int][k.1 as int].len()
                > 0,
        |k: (u32, u16)| rows[k.0 as int][k.1 as int],
    )
}

/// What a reader finds at (row, column) of a sheet: its text, or the empty text where there
/// is no cell.
pub open spec fn text_at(cells: Map<(u32, u16), Seq<char>>, row: u32, column: u16) -> Seq<char> {
    if cells.contains_key((row, column)) {
        cells[(row, column)]
    } else {
        Seq::empty()
    }
}

/// The worksheet refuses the text at (row, column): a non-empty text outside the sheet's
/// rows or columns, or longer than a cell holds.
pub open spec fn cell_refused(row: int, column: int, text: Seq<char>) -> bool {
    text.len() > 0 && (row >= SHEET_ROWS || column >= SHEET_COLUMNS || text.len() > CELL_CHARS)
}

/// Some cell of `row`, as row `i` of a sheet, is refused.
pub open spec fn row_refused(i: int, row: Seq<Seq<char>>) -> bool {
    exists|j: int| 0 <= j < row.len() && cell_refused(i, j, #[trigger] row[j])
}

/// Relies on `rust_xlsxwriter::Worksheet::new`: a sheet with no cells.
#[verifier::external_body]
fn new_sheet() -> (r: rust_xlsxwriter::Worksheet)
    ensures
        sheet_cells(r).dom().is_empty(),
{
    rust_xlsxwriter::Worksheet::new()
}

/// Relies on `rust_xlsxwriter::Worksheet::write_string`: an empty text is ignored; a text
/// outside the sheet's rows or columns, or longer than a cell holds, is refused and leaves
/// the sheet's cells as they were; any other text becomes the cell's.
#[verifier::external_body]
fn sheet_write_string(ws: &mut rust_xlsxwriter::Worksheet, row: u32, column: u16, text: &str) -> (r:
    Result<(), rust_xlsxwriter::XlsxError>)
    ensures
        r is Err <==> cell_refused(row as int, column as int, text@),
        r is Ok && text@.len() > 0 ==> sheet_cells(*final(ws)) == sheet_cells(*old(ws)).insert(
            (row, column),
            text@,
        ),
        r is Err || text@.len() == 0 ==> sheet_cells(*final(ws)) == sheet_cells(*old(ws)),
{
    match ws.write_string(row, column, text) {
        Ok(_) => Ok(()),
        Err(e) => Err(e),
    }
}

/// The cells of each worksheet of a workbook, in order.
pub uninterp spec fn workbook_sheets(wb: rust_xlsxwriter::Workbook) -> Seq<Map<(u32, u16), Seq<char>>>;

/// Relies on `rust_xlsxwriter::Workbook::new`: a workbook with no worksheets.
#[verifier::external_body]
fn new_workbook() -> (r: rust_xlsxwriter::Workbook)
    ensures
        workbook_sheets(r).len() == 0,
{
    rust_xlsxwriter::Workbook::new()
}

/// Relies on `rust_xlsxwriter::Workbook::push_worksheet`: the sheet becomes the workbook's
/// last, with its cells.
#[verifier::external_body]
fn push_sheet(wb: &mut rust_xlsxwriter::Workbook, ws: rust_xlsxwriter::Worksheet)
    ensures
        workbook_sheets(*final(wb)) == workbook_sheets(*old(wb)).push(sheet_cells(ws)),
{
    wb.push_worksheet(ws)
}

/// Relies on `rust_xlsxwriter::Workbook::save_to_buffer`: the workbook as the bytes of an
/// xlsx file, or `None` where it cannot be written.
#[verifier::external_body]
fn save_workbook(wb: &mut rust_xlsxwriter::Workbook) -> Option<Vec<u8>> {
    wb.save_to_buffer().ok()
}

/// Writes each cell of each row as a text cell of one worksheet; the workbook file is made
/// once all rows are in.
pub struct WorkbookEncoder {
    sheet: rust_xlsxwriter::Worksheet,
    written: usize,
    rows: Ghost<Seq<Seq<Seq<char>>>>,
}

impl WorkbookEncoder {
    /// The rows written so far.
    pub closed spec fn rows(&self) -> Seq<Seq<Seq<char>>> {
        self.rows@
    }

    /// The cells of the sheet.
    pub closed spec fn cells(&self) -> Map<(u32, u16), Seq<char>> {
        sheet_cells(self.sheet)
    }

    pub closed spec fn wf(&self) -> bool {
        &&& self.written == self.rows@.len()
        &&& sheet_cells(self.sheet) == grid_of(self.rows@)
    }

    pub proof fn lemma_cells(&self)
        requires
            self.wf(),
        ensures
            self.cells() == grid_of(self.rows()),
    {
    }

    pub fn new() -> (r: WorkbookEncoder)
        ensures
            r.wf(),
            r.rows() == Seq::<Seq<Seq<char>>>::empty(),
    {
        let sheet = new_sheet();
        let r = WorkbookEncoder { sheet, written: 0, rows: Ghost(Seq::empty()) };
        assert(sheet_cells(sheet) =~= Map::<(u32, u16), Seq<char>>::empty());
        assert(grid_of(r.rows@) =~= Map::<(u32, u16), Seq<char>>::empty());
        r
    }

    /// How many rows were written.
    pub fn rows_written(&self) -> (r: usize)
        requires
            self.wf(),
        ensures
            r == self.rows().len(),
    {
        self.written
    }

    /// Writes `row` as the next row of the sheet. Refused, with the 0-based column of the
    /// first cell that the sheet refuses, exactly when the sheet refuses one; the encoder is
    /// then of no further use.
    pub fn encode_row(&mut self, row: &Vec<String>) -> (r: Result<(), usize>)
        requires
            old(self).wf(),
            old(self).rows().len() < usize::MAX,
        ensures
            r is Ok <==> !row_refused(old(self).rows().len() as int, row_view(row@)),
            r matches Err(c) ==> c < row@.len() && cell_refused(
                old(self).rows().len() as int,
                c as int,
                row@[c as int]@,
            ),
            r is Ok ==> final(self).wf(),
            r is Ok ==> final(self).rows() == old(self).rows().push(row_view(row@)),
    {
        let ghost before = self.rows@;
        assert(before == old(self).rows());
        let ghost new_row = row_view(row@);
        let i = self.written;
        let mut j: usize = 0;
        while j < row.len()
            invariant
                before == old(self).rows(),
                i == before.len(),
                self.written == i,
                self.rows@ == before,
                new_row == row_view(row@),
                j <= row@.len(),
                sheet_cells(self.sheet) == grid_of(before.push(new_row.take(j as int))),
                forall|k: int| 0 <= k < j ==> !cell_refused(i as int, k, #[trigger] row@[k]@),
            decreases row.len() - j,
        {
            let text = row[j].as_str();
            let ghost old_cells = sheet_cells(self.sheet);
            let filled = text.unicode_len() > 0;
            if filled && (i > 4_294_967_295 || j > 65_535) {
                proof {
                    assert(new_row[j as int] == row@[j as int]@);
                }
                return Err(j);
            }
            if filled {
                let result = sheet_write_string(&mut self.sheet, i as u32, j as u16, text);
                if result.is_err() {
                    proof {
                        assert(new_row[j as int] == row@[j as int]@);
                    }
                    return Err(j);
                }
            }
            proof {
                assert(new_row[j as int] == row@[j as int]@);
                assert(new_row.take(j + 1) =~= new_row.take(j as int).push(new_row[j as int]));
                lemma_grid_push_cell(before, new_row.take(j as int), row@[j as int]@);
            }
            j = j + 1;
        }
        proof {
            assert(new_row.take(row@.len() as int) =~= new_row);
            assert forall|k: int| 0 <= k < new_row.len() implies !cell_refused(
                i as int,
                k,
                #[trigger] new_row[k],
            ) by {
                assert(new_row[k] == row@[k]@);
            }
        }
        self.rows = Ghost(before.push(new_row));
        self.written = i + 1;
        Ok(())
    }

    /// A workbook whose one worksheet holds the cells of the rows written.
    pub fn into_workbook(self) -> (r: rust_xlsxwriter::Workbook)
        requires
            self.wf(),
        ensures
            workbook_sheets(r) == seq![grid_of(self.rows())],
    {
        let mut book = new_workbook();
        push_sheet(&mut book, self.sheet);
        assert(workbook_sheets(book) =~= seq![grid_of(self.rows())]);
        book
    }

    /// The workbook of `into_workbook` as the bytes of an xlsx file, or `None` where it cannot
    /// be written.
    pub fn finish(self) -> Option<Vec<u8>>
        requires
            self.wf(),
    {
        let mut book = self.into_workbook();
        save_workbook(&mut book)
    }
}

proof fn lemma_grid_push_cell(before: Seq<Seq<Seq<char>>>, prefix: Seq<Seq<char>>, cell: Seq<char>)
    requires
        cell.len() > 0 ==> before.len() <= u32::MAX && prefix.len() <= u16::MAX,
    ensures
        grid_of(before.push(prefix.push(cell))) == if cell.len() > 0 {
            grid_of(before.push(prefix)).insert((before.len() as u32, prefix.len() as u16), cell)
        } else {
            grid_of(before.push(prefix))
        },
{
    let a = before.push(prefix);
    let b = before.push(prefix.push(cell));
    let expected = if cell.len() > 0 {
        grid_of(a).insert((before.len() as u32, prefix.len() as u16), cell)
    } else {
        grid_of(a)
    };
    assert forall|k: (u32, u16)|
        #[trigger] grid_of(b).contains_key(k) == expected.contains_key(k) && (grid_of(
            b,
        ).contains_key(k) ==> grid_of(b)[k] == expected[k]) by {
        if (k.0 as int) < before.len() {
            assert(b[k.0 as int] == before[k.0 as int]);
            assert(a[k.0 as int] == before[k.0 as int]);
        } else if k.0 as int == before.len() {
            assert(b[k.0 as int] == prefix.push(cell));
            assert(a[k.0 as int] == prefix);
        }
    }
    assert(grid_of(b) =~= expected);
}

/// Reading each (row, column) of the cells that rows give returns the text of that cell of
/// that row, the empty ones included.
pub proof fn lemma_grid_reads_back(rows: Seq<Seq<Seq<char>>>, row: u32, column: u16)
    requires
        (row as int) < rows.len(),
        (column as int) < rows[row as int].len(),
    ensures
        text_at(grid_of(rows), row, column) == rows[row as int][column as int],
{
}

} // verus!
