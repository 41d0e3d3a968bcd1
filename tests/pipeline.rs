use belobog_stellar_grid::filename::ends_with_extension;
use belobog_stellar_grid::{
    check_request, close_download, download_name, ensure_extension, locate_row, uses_secondary,
    validate_filename, Artifact, ErrorKind, ExportError, ExportFormat, ExportSession,
    FilenameError, ProgressSample, RowLocation, UrlGuard,
};

fn row(cells: &[&str]) -> Vec<String> {
    cells.iter().map(|c| c.to_string()).collect()
}

struct Run {
    result: Result<Artifact, ExportError>,
    samples: Vec<ProgressSample>,
    suspensions: usize,
    batches: usize,
    reads: Vec<RowLocation>,
}

fn run(format: ExportFormat, primary: &[Vec<String>], secondary: &[Vec<String>], batch: usize) -> Run {
    let mut out = Run { result: Err(ExportError::EmptyTable), samples: vec![], suspensions: 0, batches: 0, reads: vec![] };
    let mut session = match ExportSession::begin(format, primary.len(), secondary.len(), batch) {
        Ok(s) => s,
        Err(e) => {
            out.result = Err(e);
            return out;
        }
    };
    out.samples.push(session.start());
    loop {
        let (from, to) = session.current_batch();
        for i in from..to {
            let location = session.locate(i);
            out.reads.push(location);
            let cells = match location {
                RowLocation::Primary(k) => &primary[k],
                RowLocation::Secondary(k) => &secondary[k],
            };
            if let Err(e) = session.push_row(cells) {
                out.result = Err(e);
                return out;
            }
        }
        let step = session.complete_batch();
        out.batches += 1;
        out.samples.push(step.progress);
        if !step.suspend {
            break;
        }
        out.suspensions += 1;
    }
    out.result = session.finish();
    out
}

fn percent(s: &ProgressSample) -> f64 {
    s.done as f64 / s.total as f64 * 100.0
}

fn read_csv(bytes: &[u8]) -> Vec<Vec<String>> {
    let mut reader = csv::ReaderBuilder::new().has_headers(false).flexible(true).from_reader(bytes);
    reader.records().map(|r| r.unwrap().iter().map(|f| f.to_string()).collect()).collect()
}

#[test]
fn progress_rises_from_zero_to_exactly_hundred() {
    let rows: Vec<Vec<String>> = (0..10).map(|i| row(&[&i.to_string()])).collect();
    let r = run(ExportFormat::Csv, &rows, &[], 3);
    let done: Vec<usize> = r.samples.iter().map(|s| s.done).collect();
    assert_eq!(done, vec![0, 3, 6, 9, 10]);
    let values: Vec<f64> = r.samples.iter().map(percent).collect();
    assert_eq!(values[0], 0.0);
    assert_eq!(*values.last().unwrap(), 100.0);
    assert!(values.windows(2).all(|w| w[0] <= w[1]));
    assert_eq!(r.batches, 4);
    assert_eq!(r.suspensions, 3);
}

#[test]
fn batch_as_large_as_table_is_one_batch_without_suspension() {
    let rows: Vec<Vec<String>> = (0..5).map(|i| row(&[&i.to_string()])).collect();
    let r = run(ExportFormat::Csv, &rows, &[], 1000);
    assert_eq!(r.batches, 1);
    assert_eq!(r.suspensions, 0);
    assert_eq!(r.samples, vec![ProgressSample { done: 0, total: 5 }, ProgressSample { done: 5, total: 5 }]);
}

#[test]
fn three_rows_one_per_batch() {
    let rows = vec![row(&["a1", "b1"]), row(&["a2", "b2"]), row(&["a3", "b3"])];
    let r = run(ExportFormat::Csv, &rows, &[], 1);
    assert_eq!(r.batches, 3);
    // Suspension comes between batches only, none after the last.
    assert_eq!(r.suspensions, 2);
    let artifact = r.result.unwrap();
    let cells: Vec<String> = read_csv(&artifact.bytes).into_iter().flatten().collect();
    assert_eq!(cells, vec!["a1", "b1", "a2", "b2", "a3", "b3"]);
}

#[test]
fn empty_table_is_empty_data() {
    let r = run(ExportFormat::Csv, &[], &[], 1000);
    let e = r.result.err().unwrap();
    assert_eq!(e, ExportError::EmptyTable);
    assert_eq!(e.kind(), ErrorKind::EmptyData);
    assert!(r.samples.is_empty());
}

#[test]
fn zero_batch_size_is_input_error_before_any_read() {
    let e = check_request("my-table", 0).unwrap_err();
    assert_eq!(e, ExportError::InvalidBatchSize);
    assert_eq!(e.kind(), ErrorKind::Input);
    let rows = vec![row(&["x"])];
    let r = run(ExportFormat::Csv, &rows, &[], 0);
    assert_eq!(r.result.err(), Some(ExportError::InvalidBatchSize));
    assert!(r.reads.is_empty());
}

#[test]
fn empty_table_id_is_input_error() {
    let e = check_request("", 1000).unwrap_err();
    assert_eq!(e, ExportError::EmptyTableId);
    assert_eq!(e.kind(), ErrorKind::Input);
    assert_eq!(check_request("t", 1), Ok(()));
}

#[test]
fn rows_read_primary_then_secondary() {
    assert_eq!(locate_row(0, 2), RowLocation::Primary(0));
    assert_eq!(locate_row(1, 2), RowLocation::Primary(1));
    assert_eq!(locate_row(2, 2), RowLocation::Secondary(0));
    assert_eq!(locate_row(3, 2), RowLocation::Secondary(1));
    assert_eq!(locate_row(4, 2), RowLocation::Secondary(2));
    let head = vec![row(&["h1"]), row(&["h2"])];
    let body = vec![row(&["b1"]), row(&["b2"]), row(&["b3"])];
    let r = run(ExportFormat::Csv, &head, &body, 2);
    assert_eq!(
        r.reads,
        vec![
            RowLocation::Primary(0),
            RowLocation::Primary(1),
            RowLocation::Secondary(0),
            RowLocation::Secondary(1),
            RowLocation::Secondary(2)
        ]
    );
    let text = String::from_utf8(r.result.unwrap().bytes).unwrap();
    assert_eq!(text, "h1\nh2\nb1\nb2\nb3\n");
}

#[test]
fn secondary_container_only_with_a_nonempty_id() {
    assert!(!uses_secondary(&None));
    assert!(!uses_secondary(&Some(String::new())));
    assert!(uses_secondary(&Some("tbody".to_string())));
}

#[test]
fn workbook_filename_gets_extension() {
    assert_eq!(download_name(Some("report".to_string()), ExportFormat::Xlsx).unwrap(), "report.xlsx");
    assert_eq!(download_name(Some("report.XLSX".to_string()), ExportFormat::Xlsx).unwrap(), "report.XLSX");
    assert_eq!(download_name(None, ExportFormat::Xlsx).unwrap(), "table_export.xlsx");
    assert_eq!(download_name(None, ExportFormat::Csv).unwrap(), "table_export.csv");
}

#[test]
fn refused_filename_is_filename_error() {
    let e = download_name(Some("bad/name".to_string()), ExportFormat::Csv).unwrap_err();
    assert_eq!(e, ExportError::Filename(FilenameError::PathSeparator));
    assert_eq!(e.kind(), ErrorKind::Filename);
}

#[test]
fn guard_released_when_trigger_fails() {
    let mut guard = UrlGuard::new("blob:http://example.com/x");
    let attempt = Err(ExportError::Resource("click refused".to_string()));
    let (result, revoke) = close_download(&mut guard, attempt.clone());
    assert_eq!(result, attempt);
    assert_eq!(revoke.as_deref(), Some("blob:http://example.com/x"));
    assert!(guard.released());
    let (again, revoke_again) = close_download(&mut guard, Ok(()));
    assert_eq!(again, Ok(()));
    assert_eq!(revoke_again, None);
}

#[test]
fn guard_released_when_filename_refused() {
    let mut guard = UrlGuard::new("blob:u");
    let attempt = download_name(Some("CON".to_string()), ExportFormat::Csv).map(|_| ());
    let (result, revoke) = close_download(&mut guard, attempt);
    assert_eq!(result.unwrap_err().kind(), ErrorKind::Filename);
    assert_eq!(revoke.as_deref(), Some("blob:u"));
}

#[test]
fn csv_bytes_are_exact() {
    let rows = vec![row(&["a", "b"]), row(&["x,y", "q\"r"]), row(&[""]), row(&["", ""]), row(&["l\nm"])];
    let r = run(ExportFormat::Csv, &rows, &[], 2);
    let artifact = r.result.unwrap();
    assert_eq!(artifact.mime_type, "text/csv;charset=utf-8");
    assert_eq!(String::from_utf8(artifact.bytes).unwrap(), "a,b\n\"x,y\",\"q\"\"r\"\n\"\"\n,\n\"l\nm\"\n");
}

#[test]
fn csv_reads_back_as_the_same_rows() {
    let rows = vec![
        row(&["名前", "値"]),
        row(&["has,comma", "has \"quote\"", "line\nbreak", "cr\rhere"]),
        row(&[""]),
        row(&["", "", ""]),
        row(&["tab\there", " lead", "trail "]),
    ];
    let r = run(ExportFormat::Csv, &rows, &[], 2);
    assert_eq!(read_csv(&r.result.unwrap().bytes), rows);
}

#[test]
fn workbook_export_is_a_zip_file() {
    let rows = vec![row(&["a", "b"]), row(&["", "c"])];
    let r = run(ExportFormat::Xlsx, &rows, &[], 1);
    let artifact = r.result.unwrap();
    assert_eq!(artifact.mime_type, "application/vnd.openxmlformats-officedocument.spreadsheetml.sheet");
    assert_eq!(&artifact.bytes[..2], b"PK");
    assert_eq!(r.suspensions, 1);
}

#[test]
fn workbook_refuses_overlong_cell() {
    let long = "x".repeat(32_768);
    let rows = vec![row(&["ok", "fine"]), vec!["ok".to_string(), long]];
    let r = run(ExportFormat::Xlsx, &rows, &[], 10);
    let e = r.result.err().unwrap();
    assert_eq!(e, ExportError::WorkbookCell { row: 2, column: 2 });
    assert_eq!(e.kind(), ErrorKind::Encode);
}

#[test]
fn workbook_accepts_longest_cell() {
    let rows = vec![vec!["x".repeat(32_767)]];
    assert!(run(ExportFormat::Xlsx, &rows, &[], 10).result.is_ok());
}

#[test]
fn extension_added_once() {
    for x in ["report", "report.csv", "a.CSV", "", ".", "x.csv.txt"] {
        let once = ensure_extension(x, "csv");
        assert_eq!(ensure_extension(&once, "csv"), once);
    }
    assert_eq!(ensure_extension("", "csv"), ".csv");
    assert_eq!(ensure_extension("a.Csv", "csv"), "a.Csv");
}

#[test]
fn reserved_names_refused_in_any_case_and_with_any_extension() {
    for name in ["con", "Con", "cOn.txt", "nul.tar.gz", "Com7", "lpt9.csv", "aux.", "PRN.x"] {
        assert!(validate_filename(name).is_err(), "{}", name);
    }
    for name in ["com0", "com10", "lpt", "console", "connect.csv", "xcon", "con-1"] {
        assert!(validate_filename(name).is_ok(), "{}", name);
    }
}

#[test]
fn plain_names_accepted() {
    for name in ["a", "report 2024.csv", "数据", "x.y.z", "a".repeat(255).as_str()] {
        assert!(validate_filename(name).is_ok(), "{}", name);
    }
    // 255 bytes is the limit, not 255 characters.
    assert!(validate_filename(&"数".repeat(86)).is_err());
    assert!(validate_filename(&"数".repeat(85)).is_ok());
}

#[test]
fn filename_messages() {
    assert_eq!(validate_filename("a<b"), Err("文件名不能包含非法字符: <".to_string()));
    assert_eq!(validate_filename("a*b?"), Err("文件名不能包含非法字符: ?".to_string()));
    assert_eq!(validate_filename("con.csv"), Err("文件名 'con' 是系统保留名称".to_string()));
    assert_eq!(validate_filename("Lpt3"), Err("文件名 'Lpt3' 是系统保留名称".to_string()));
    assert_eq!(validate_filename(&"a".repeat(256)), Err("文件名过长（最大 255 个字符）".to_string()));
    assert_eq!(validate_filename(" a"), Err("文件名不能以点或空格开头或结尾".to_string()));
    assert_eq!(FilenameError::IllegalChar('x').message(), "文件名不能包含非法字符: x");
}

#[test]
fn error_kinds() {
    let cases = vec![
        (ExportError::EmptyTableId, ErrorKind::Input),
        (ExportError::InvalidBatchSize, ErrorKind::Input),
        (ExportError::NotFound("t".to_string()), ErrorKind::Resolution),
        (ExportError::WrongKind("t".to_string()), ErrorKind::Resolution),
        (ExportError::RowRead { row: 1 }, ErrorKind::Read),
        (ExportError::CellRead { row: 1, column: 2 }, ErrorKind::Read),
        (ExportError::EmptyTable, ErrorKind::EmptyData),
        (ExportError::EmptyArtifact, ErrorKind::EmptyData),
        (ExportError::DelimitedRecord { row: 3 }, ErrorKind::Encode),
        (ExportError::DelimitedFlush, ErrorKind::Encode),
        (ExportError::WorkbookCell { row: 1, column: 1 }, ErrorKind::Encode),
        (ExportError::WorkbookSave, ErrorKind::Encode),
        (ExportError::Filename(FilenameError::Empty), ErrorKind::Filename),
        (ExportError::Resource("x".to_string()), ErrorKind::Resource),
    ];
    for (e, k) in cases {
        assert_eq!(e.kind(), k);
    }
}

#[test]
fn formats_name_their_files() {
    assert_eq!(ExportFormat::Csv.extension(), "csv");
    assert_eq!(ExportFormat::Xlsx.extension(), "xlsx");
    assert_eq!(ExportFormat::Csv.mime_type(), "text/csv;charset=utf-8");
    assert_eq!(ExportFormat::Xlsx.default_filename(), "table_export.xlsx");
}

#[test]
fn extension_compared_in_lowercase_beyond_ascii() {
    assert_eq!(ensure_extension("x.É", "é"), "x.É");
    assert_eq!(ensure_extension("ΑΡΧΕΙΟ.ΚΣΒ", "κσβ"), "ΑΡΧΕΙΟ.ΚΣΒ");
    assert_eq!(ensure_extension("x.e", "é"), "x.e.é");
}

#[test]
fn lowered_suffix_comparison() {
    assert!(ends_with_extension("report.xlsx", "xlsx"));
    assert!(ends_with_extension(".csv", "csv"));
    assert!(!ends_with_extension("csv", "csv"));
    assert!(!ends_with_extension("report_xlsx", "xlsx"));
    assert!(!ends_with_extension("report.XLSX", "xlsx"));
    assert!(ends_with_extension("x.", ""));
}

#[test]
fn rows_of_different_lengths_encode_as_they_are() {
    let rows = vec![row(&["a", "b"]), row(&["c"]), row(&["d", "e", "f"])];
    let r = run(ExportFormat::Csv, &rows, &[], 1000);
    assert_eq!(read_csv(&r.result.unwrap().bytes), rows);
}
