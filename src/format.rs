use vstd::prelude::*;
use vstd::string::*;

verus! {

/// The encodings a table can be exported in.
#[derive(Debug, Clone, Copy, PartialEq, Eq, Structural)]
pub enum ExportFormat {
    /// Comma-separated text.
    Csv,
    /// An Excel workbook.
    Xlsx,
}

pub open spec fn extension_of(f: ExportFormat) -> Seq<char> {
    match f {
        ExportFormat::Csv => "csv"@,
        ExportFormat::Xlsx => "xlsx"@,
    }
}

pub open spec fn mime_type_of(f: ExportFormat) -> Seq<char> {
    match f {
        ExportFormat::Csv => "text/csv;charset=utf-8"@,
        ExportFormat::Xlsx => "application/vnd.openxmlformats-officedocument.spreadsheetml.sheet"@,
    }
}

pub open spec fn default_filename_of(f: ExportFormat) -> Seq<char> {
    "table_export."@ + extension_of(f)
}

impl Default for ExportFormat {
    fn default() -> (r: ExportFormat)
        ensures
            r == ExportFormat::Csv,
    {
        ExportFormat::Csv
    }
}

impl ExportFormat {
    /// The file extension, without the dot.
    pub fn extension(&self) -> (r: &'static str)
        ensures
            r@ == extension_of(*self),
    {
        match self {
            ExportFormat::Csv => "csv",
            ExportFormat::Xlsx => "xlsx",
        }
    }

    pub fn mime_type(&self) -> (r: &'static str)
        ensures
            r@ == mime_type_of(*self),
    {
        match self {
            ExportFormat::Csv => "text/csv;charset=utf-8",
            ExportFormat::Xlsx => "application/vnd.openxmlformats-officedocument.spreadsheetml.sheet",
        }
    }

    /// The filename used when the caller gives none.
    pub fn default_filename(&self) -> (r: String)
        ensures
            r@ == default_filename_of(*self),
    {
        String::from_str("table_export.").concat(self.extension())
    }
}

} // verus!
