use vstd::prelude::*;

use crate::filename::FilenameError;

verus! {

/// The broad kind of an export failure.
#[derive(Debug, Clone, Copy, PartialEq, Eq, Structural)]
pub enum ErrorKind {
    Input,
    Resolution,
    Read,
    EmptyData,
    Encode,
    Filename,
    Resource,
}

/// Why an export failed. Row and column numbers are 1-based.
#[derive(Debug, Clone, PartialEq, Eq)]
pub enum ExportError {
    /// The table reference is the empty string.
    EmptyTableId,
    /// The batch size is zero.
    InvalidBatchSize,
    /// No element has the given id.
    NotFound(String),
    /// The element with the given id is not a row container of the expected kind.
    WrongKind(String),
    /// The row container could not produce this row.
    RowRead { row: usize },
    /// This cell could not be read.
    CellRead { row: usize, column: usize },
    /// The table has no rows.
    EmptyTable,
    /// The encoded file is empty.
    EmptyArtifact,
    /// The delimited-text writer refused this row.
    DelimitedRecord { row: usize },
    /// The delimited-text writer could not hand back its bytes.
    DelimitedFlush,
    /// The workbook refused the text of this cell.
    WorkbookCell { row: usize, column: usize },
    /// The workbook could not be serialised.
    WorkbookSave,
    /// The filename was refused.
    Filename(FilenameError),
    /// The host could not wrap the bytes or make a download link for them.
    Resource(String),
}

pub open spec fn kind_of(e: ExportError) -> ErrorKind {
    match e {
        ExportError::EmptyTableId | ExportError::InvalidBatchSize => ErrorKind::Input,
        ExportError::NotFound(_) | ExportError::WrongKind(_) => ErrorKind::Resolution,
        ExportError::RowRead { .. } | ExportError::CellRead { .. } => ErrorKind::Read,
        ExportError::EmptyTable | ExportError::EmptyArtifact => ErrorKind::EmptyData,
        ExportError::DelimitedRecord { .. } | ExportError::DelimitedFlush
        | ExportError::WorkbookCell { .. }
        | ExportError::WorkbookSave => ErrorKind::Encode,
        ExportError::Filename(_) => ErrorKind::Filename,
        ExportError::Resource(_) => ErrorKind::Resource,
    }
}

impl ExportError {
    pub fn kind(&self) -> (r: ErrorKind)
        ensures
            r == kind_of(*self),
    {
        match self {
            ExportError::EmptyTableId | ExportError::InvalidBatchSize => ErrorKind::Input,
            ExportError::NotFound(_) | ExportError::WrongKind(_) => ErrorKind::Resolution,
            ExportError::RowRead { .. } | ExportError::CellRead { .. } => ErrorKind::Read,
            ExportError::EmptyTable | ExportError::EmptyArtifact => ErrorKind::EmptyData,
            ExportError::DelimitedRecord { .. } | ExportError::DelimitedFlush
        | ExportError::WorkbookCell { .. }
            | ExportError::WorkbookSave => ErrorKind::Encode,
            ExportError::Filename(_) => ErrorKind::Filename,
            ExportError::Resource(_) => ErrorKind::Resource,
        }
    }
}

} // verus!
