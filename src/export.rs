use vstd::prelude::*;
use vstd::string::*;
use vstd::utf8::encode_utf8;

use crate::delimited::{csv_record, csv_text, row_view, DelimitedEncoder};
use crate::error::ExportError;
use crate::filename::{check_filename, ensure_extension, filename_fault, with_extension};
use crate::format::{default_filename_of, extension_of, mime_type_of, ExportFormat};
use crate::plan::{batch_end, BatchPlan, BatchStep, PlanState, ProgressSample};
use crate::resource::UrlGuard;
use crate::rows::{location_of, locate_row, RowLocation};
use crate::workbook::{cell_refused, grid_of, row_refused, WorkbookEncoder};

verus! {

/// The encoder a session feeds, by format.
pub enum Encoder {
    Delimited(DelimitedEncoder),
    Workbook(WorkbookEncoder),
}

/// An encoded table: the bytes of the file and their MIME type.
pub struct Artifact {
    pub bytes: Vec<u8>,
    pub mime_type: String,
}

/// Checks what can be checked before the table is looked up: a table id is given, and the
/// batch size is positive.
pub fn check_request(table_id: &str, batch_size: usize) -> (r: Result<(), ExportError>)
    ensures
        table_id@.len() == 0 ==> r == Err::<(), ExportError>(ExportError::EmptyTableId),
        table_id@.len() > 0 && batch_size == 0 ==> r == Err::<(), ExportError>(
            ExportError::InvalidBatchSize,
        ),
        table_id@.len() > 0 && batch_size > 0 ==> r is Ok,
{
    if table_id.is_empty() {
        Err(ExportError::EmptyTableId)
    } else if batch_size == 0 {
        Err(ExportError::InvalidBatchSize)
    } else {
        Ok(())
    }
}

/// The name the file is offered under: the given one, or the format's default; refused when
/// it breaks a filename rule; else with the format's extension ensured.
pub fn download_name(filename: Option<String>, format: ExportFormat) -> (r: Result<String, ExportError>)
    ensures
        ({
            let name = match filename {
                Some(f) => f@,
                None => default_filename_of(format),
            };
            match r {
                Ok(s) => filename_fault(name) is None && s@ == with_extension(name, extension_of(format)),
                Err(e) => e matches ExportError::Filename(fe) && filename_fault(name) == Some(fe@),
            }
        }),
{
    let name = match filename {
        Some(f) => f,
        None => format.default_filename(),
    };
    match check_filename(name.as_str()) {
        Ok(()) => Ok(ensure_extension(name.as_str(), format.extension())),
        Err(e) => Err(ExportError::Filename(e)),
    }
}

/// Ends a download attempt: the guard is released whatever the attempt came to, and the
/// attempt's result is passed on unchanged. The URL comes back, to be revoked, if the guard
/// was not released before.
pub fn close_download(guard: &mut UrlGuard, attempt: Result<(), ExportError>) -> (r: (
    Result<(), ExportError>,
    Option<String>,
))
    ensures
        r.0 == attempt,
        final(guard).is_released(),
        old(guard).is_released() ==> r.1 is None,
        !old(guard).is_released() ==> (r.1 matches Some(u) && u@ == old(guard).url()),
{
    let url = guard.release();
    (attempt, url)
}

/// One export of one table: reads rows batch by batch as the caller hands them in, encodes
/// them, and makes the file at the end. The caller reads the rows, reports progress and
/// yields to the host between batches, as the session's steps say.
pub struct ExportSession {
    format: ExportFormat,
    primary_rows: usize,
    plan: BatchPlan,
    encoder: Encoder,
    next_row: usize,
}

impl ExportSession {
    pub closed spec fn format(&self) -> ExportFormat {
        self.format
    }

    pub closed spec fn primary_rows(&self) -> nat {
        self.primary_rows as nat
    }

    pub closed spec fn plan(&self) -> BatchPlan {
        self.plan
    }

    /// The rows encoded so far, in order.
    pub closed spec fn rows(&self) -> Seq<Seq<Seq<char>>> {
        match self.encoder {
            Encoder::Delimited(e) => e.rows(),
            Encoder::Workbook(w) => w.rows(),
        }
    }

    /// The cells written so far, for a workbook export.
    pub closed spec fn cells(&self) -> Map<(u32, u16), Seq<char>> {
        match self.encoder {
            Encoder::Delimited(_) => Map::empty(),
            Encoder::Workbook(w) => w.cells(),
        }
    }

    pub closed spec fn wf(&self) -> bool {
        &&& self.plan.wf()
        &&& self.plan@.state != PlanState::Failed
        &&& match self.encoder {
            Encoder::Delimited(e) => self.format == ExportFormat::Csv && e.wf(),
            Encoder::Workbook(w) => self.format == ExportFormat::Xlsx && w.wf(),
        }
        &&& self.rows().len() == self.next_row
        &&& self.plan@.state == PlanState::Idle ==> self.next_row == 0
        &&& self.plan@.state == PlanState::Running ==> self.plan@.offset <= self.next_row
            <= batch_end(self.plan@.offset, self.plan@.batch, self.plan@.total)
        &&& self.plan@.state == PlanState::Completed ==> self.next_row == self.plan@.total
    }

    /// The index of the next row the session expects.
    pub closed spec fn next_row(&self) -> nat {
        self.next_row as nat
    }

    pub proof fn lemma_wf(&self)
        requires
            self.wf(),
        ensures
            self.plan().wf(),
            self.rows().len() == self.next_row(),
            self.plan()@.state != PlanState::Failed,
            self.plan()@.state == PlanState::Running ==> self.plan()@.offset <= self.next_row()
                <= batch_end(self.plan()@.offset, self.plan()@.batch, self.plan()@.total),
            self.plan()@.state == PlanState::Completed ==> self.next_row() == self.plan()@.total,
            self.format() == ExportFormat::Xlsx ==> self.cells() == grid_of(self.rows()),
    {
        match self.encoder {
            Encoder::Workbook(w) => w.lemma_cells(),
            Encoder::Delimited(_) => {},
        }
    }

    /// A session over a table of `primary_rows` rows in its primary container and
    /// `secondary_rows` in its secondary one. A zero batch size is refused first, then an
    /// empty table.
    pub fn begin(format: ExportFormat, primary_rows: usize, secondary_rows: usize, batch_size: usize) -> (r:
        Result<ExportSession, ExportError>)
        requires
            primary_rows + secondary_rows <= usize::MAX,
        ensures
            batch_size == 0 ==> r == Err::<ExportSession, ExportError>(ExportError::InvalidBatchSize),
            batch_size > 0 && primary_rows + secondary_rows == 0 ==> r == Err::<
                ExportSession,
                ExportError,
            >(ExportError::EmptyTable),
            batch_size > 0 && primary_rows + secondary_rows > 0 ==> r is Ok,
            r matches Ok(s) ==> {
                &&& s.wf()
                &&& s.format() == format
                &&& s.primary_rows() == primary_rows
                &&& s.plan()@.total == primary_rows + secondary_rows
                &&& s.plan()@.batch == batch_size
                &&& s.plan()@.state == PlanState::Idle
                &&& s.rows() == Seq::<Seq<Seq<char>>>::empty()
            },
    {
        let plan = BatchPlan::new(primary_rows + secondary_rows, batch_size)?;
        let encoder = match format {
            ExportFormat::Csv => Encoder::Delimited(DelimitedEncoder::new()),
            ExportFormat::Xlsx => Encoder::Workbook(WorkbookEncoder::new()),
        };
        Ok(ExportSession { format, primary_rows, plan, encoder, next_row: 0 })
    }

    pub fn export_format(&self) -> (r: ExportFormat)
        ensures
            r == self.format(),
    {
        self.format
    }

    /// Starts the run; the first progress sample is 0.
    pub fn start(&mut self) -> (r: ProgressSample)
        requires
            old(self).wf(),
            old(self).plan()@.state == PlanState::Idle,
        ensures
            final(self).wf(),
            final(self).plan()@.state == PlanState::Running,
            final(self).plan()@.total == old(self).plan()@.total,
            final(self).plan()@.batch == old(self).plan()@.batch,
            final(self).plan()@.offset == 0,
            final(self).rows() == old(self).rows(),
            final(self).format() == old(self).format(),
            final(self).primary_rows() == old(self).primary_rows(),
            r == (ProgressSample { done: 0, total: old(self).plan()@.total as usize }),
    {
        proof {
            self.plan.lemma_wf();
        }
        self.plan.start()
    }

    /// The rows of the current batch: `r.0 <= i < r.1`.
    pub fn current_batch(&self) -> (r: (usize, usize))
        requires
            self.wf(),
            self.plan()@.state == PlanState::Running,
        ensures
            r.0 == self.plan()@.offset,
            r.1 == batch_end(self.plan()@.offset, self.plan()@.batch, self.plan()@.total),
            r.0 < r.1 <= self.plan()@.total,
    {
        self.plan.current_batch()
    }

    /// Where the table's row `index` is read from.
    pub fn locate(&self, index: usize) -> (r: RowLocation)
        ensures
            r == location_of(index as nat, self.primary_rows()),
    {
        locate_row(index, self.primary_rows)
    }

    /// Encodes the next row. On refusal the run fails with the encoder's error, at the row's
    /// 1-based number.
    pub fn push_row(&mut self, row: &Vec<String>) -> (r: Result<(), ExportError>)
        requires
            old(self).wf(),
            old(self).plan()@.state == PlanState::Running,
            old(self).next_row() < batch_end(
                old(self).plan()@.offset,
                old(self).plan()@.batch,
                old(self).plan()@.total,
            ),
        ensures
            final(self).format() == old(self).format(),
            final(self).primary_rows() == old(self).primary_rows(),
            r is Ok ==> {
                &&& final(self).wf()
                &&& final(self).plan() == old(self).plan()
                &&& final(self).rows() == old(self).rows().push(row_view(row@))
                &&& final(self).next_row() == old(self).next_row() + 1
            },
            r is Err ==> final(self).plan()@.state == PlanState::Failed,
            old(self).format() == ExportFormat::Csv ==> r is Ok,
            old(self).format() == ExportFormat::Xlsx ==> (r is Ok <==> !row_refused(
                old(self).next_row() as int,
                row_view(row@),
            )),
            r matches Err(e) ==> (match old(self).format() {
                ExportFormat::Csv => e == ExportError::DelimitedRecord {
                    row: (old(self).next_row() + 1) as usize,
                },
                ExportFormat::Xlsx => e matches ExportError::WorkbookCell { row: n, column: c } && n
                    == old(self).next_row() + 1 && 1 <= c <= row@.len() && cell_refused(
                    old(self).next_row() as int,
                    c - 1,
                    row@[c - 1]@,
                ),
            }),
    {
        proof {
            self.plan.lemma_wf();
        }
        let cells = row.len();
        let number = self.next_row + 1;
        let result = match &mut self.encoder {
            Encoder::Delimited(e) => match e.encode_row(row) {
                Ok(()) => Ok(()),
                Err(()) => Err(ExportError::DelimitedRecord { row: number }),
            },
            Encoder::Workbook(w) => match w.encode_row(row) {
                Ok(()) => Ok(()),
                Err(c) => {
                    assert(c < cells);
                    Err(ExportError::WorkbookCell { row: number, column: c + 1 })
                },
            },
        };
        match result {
            Ok(()) => {
                self.next_row = number;
                Ok(())
            },
            Err(e) => {
                self.plan.fail();
                Err(e)
            },
        }
    }

    /// Stops the run after the caller could not read a row or a cell.
    pub fn abort(&mut self)
        requires
            old(self).wf(),
        ensures
            final(self).plan()@.state == PlanState::Failed,
    {
        self.plan.fail();
    }

    /// Records that the current batch is done. The caller reports `r.progress`, and yields
    /// to the host before the next batch when `r.suspend` holds.
    pub fn complete_batch(&mut self) -> (r: BatchStep)
        requires
            old(self).wf(),
            old(self).plan()@.state == PlanState::Running,
            old(self).next_row() == batch_end(
                old(self).plan()@.offset,
                old(self).plan()@.batch,
                old(self).plan()@.total,
            ),
        ensures
            final(self).wf(),
            final(self).rows() == old(self).rows(),
            final(self).format() == old(self).format(),
            final(self).primary_rows() == old(self).primary_rows(),
            final(self).plan()@.total == old(self).plan()@.total,
            final(self).plan()@.batch == old(self).plan()@.batch,
            final(self).plan()@.offset == old(self).next_row(),
            r.progress == (ProgressSample {
                done: old(self).next_row() as usize,
                total: old(self).plan()@.total as usize,
            }),
            r.suspend == (old(self).next_row() < old(self).plan()@.total),
            final(self).plan()@.state == if r.suspend {
                PlanState::Running
            } else {
                PlanState::Completed
            },
    {
        self.plan.complete_batch()
    }

    /// The encoded file, once every row is in. Comma-separated text is the records of the
    /// rows; a workbook holds each non-empty cell text at its row and column.
    pub fn finish(self) -> (r: Result<Artifact, ExportError>)
        requires
            self.wf(),
            self.plan()@.state == PlanState::Completed,
        ensures
            r matches Ok(a) ==> a.bytes@.len() > 0 && a.mime_type@ == mime_type_of(self.format()),
            self.format() == ExportFormat::Csv ==> (r matches Ok(a) && a.bytes@ == encode_utf8(
                csv_text(self.rows()),
            )),
            self.format() == ExportFormat::Xlsx ==> (r matches Err(e) ==> e
                == ExportError::WorkbookSave || e == ExportError::EmptyArtifact),
    {
        proof {
            self.plan.lemma_wf();
        }
        let format = self.format;
        let bytes = match self.encoder {
            Encoder::Delimited(e) => {
                let ghost rows = e.rows();
                match e.finish() {
                    Some(b) => {
                        proof {
                            lemma_csv_text_not_empty(rows);
                        }
                        b
                    },
                    None => {
                        return Err(ExportError::DelimitedFlush);
                    },
                }
            },
            Encoder::Workbook(w) => match w.finish() {
                Some(b) => b,
                None => {
                    return Err(ExportError::WorkbookSave);
                },
            },
        };
        if bytes.len() == 0 {
            return Err(ExportError::EmptyArtifact);
        }
        Ok(Artifact { bytes, mime_type: String::from_str(format.mime_type()) })
    }
}

/// Rows make at least one byte of text: each record ends with a line feed.
proof fn lemma_csv_text_not_empty(rows: Seq<Seq<Seq<char>>>)
    requires
        rows.len() > 0,
    ensures
        encode_utf8(csv_text(rows)).len() > 0,
{
    let t = csv_text(rows);
    let rec = csv_record(rows.last());
    assert(rec.len() > 0);
    assert(t == csv_text(rows.drop_last()) + rec);
    assert(t.len() > 0);
    assert(encode_utf8(t).len() > 0) by {
        reveal_with_fuel(encode_utf8, 1);
        vstd::utf8::encode_utf8_first_scalar(t);
    }
}

} // verus!
