//! Exports a table of text cells as comma-separated text or as an Excel workbook, a batch of
//! rows at a time, with progress after each batch, a checked filename, and a download
//! resource that is released exactly once.

pub mod delimited;
pub mod error;
pub mod export;
pub mod filename;
pub mod format;
pub mod plan;
pub mod resource;
pub mod rows;
pub mod workbook;

pub use delimited::DelimitedEncoder;
pub use error::{ErrorKind, ExportError};
pub use export::{check_request, close_download, download_name, Artifact, ExportSession};
pub use filename::{check_filename, ensure_extension, validate_filename, FilenameError};
pub use format::ExportFormat;
pub use plan::{BatchPlan, BatchStep, PlanState, ProgressSample, DEFAULT_BATCH_SIZE};
pub use resource::UrlGuard;
pub use rows::{locate_row, uses_secondary, RowLocation};
pub use workbook::WorkbookEncoder;
