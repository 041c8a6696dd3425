use std::path::PathBuf;
use std::sync::Mutex;

use pageseer::batch::{
    dedup_output_dirs, done_line, failed_line, skipped_line, source_label, start_line, stem_of,
    summary_line,
};
use pageseer::{BatchSummary, NullProgressSink, PageseerError, ProgressSink, SourceInput};

fn path_input(name: &str) -> SourceInput {
    SourceInput::Path(name.to_string())
}

#[test]
fn unique_stems_pass_through() {
    let inputs = vec![path_input("a.pdf"), path_input("b.pdf"), path_input("c.pdf")];
    let dirs = dedup_output_dirs(&inputs, "./out", false).unwrap();
    assert_eq!(PathBuf::from(&dirs[0]), PathBuf::from("./out").join("a"));
    assert_eq!(PathBuf::from(&dirs[1]), PathBuf::from("./out").join("b"));
    assert_eq!(PathBuf::from(&dirs[2]), PathBuf::from("./out").join("c"));
}

#[test]
fn collision_yields_suffix_in_input_order() {
    let inputs = vec![
        path_input("dir1/file.pdf"),
        path_input("dir2/file.pdf"),
        path_input("dir3/file.pdf"),
    ];
    let dirs = dedup_output_dirs(&inputs, "./out", false).unwrap();
    assert_eq!(PathBuf::from(&dirs[0]), PathBuf::from("./out").join("file"));
    assert_eq!(PathBuf::from(&dirs[1]), PathBuf::from("./out").join("file-2"));
    assert_eq!(PathBuf::from(&dirs[2]), PathBuf::from("./out").join("file-3"));
}

#[test]
fn flat_mode_unique_returns_output_dir_for_all() {
    let inputs = vec![path_input("a.pdf"), path_input("b.pdf")];
    let dirs = dedup_output_dirs(&inputs, "./out", true).unwrap();
    assert_eq!(PathBuf::from(&dirs[0]), PathBuf::from("./out"));
    assert_eq!(PathBuf::from(&dirs[1]), PathBuf::from("./out"));
}

#[test]
fn flat_mode_collision_is_config_error() {
    let inputs = vec![path_input("a/x.pdf"), path_input("b/x.pdf")];
    let err = dedup_output_dirs(&inputs, "./out", true).unwrap_err();
    match err {
        PageseerError::Config(msg) => assert!(msg.contains("stem collision")),
        other => panic!("expected Config, got {other:?}"),
    }
}

#[test]
fn bytes_input_uses_filename_stem() {
    let inputs = vec![SourceInput::Bytes { data: vec![], filename: "report.docx".into() }];
    let dirs = dedup_output_dirs(&inputs, "./out", false).unwrap();
    assert_eq!(PathBuf::from(&dirs[0]), PathBuf::from("./out").join("report"));
}

#[test]
fn null_sink_drops_events() {
    let sink = NullProgressSink;
    sink.record_start(0, 3, "a.pdf");
    sink.record_done(0, 3, "a.pdf", 5, 0);
    sink.record_failed(0, 3, "a.pdf", "boom");
    sink.record_skipped(0, 3, "a.pdf");
    sink.record_summary(&BatchSummary { documents_total: 3, ..BatchSummary::default() });
}

struct Cap<'a>(&'a Mutex<Vec<String>>);

impl ProgressSink for Cap<'_> {
    fn record_start(&self, idx: u32, total: u32, label: &str) {
        self.0.lock().unwrap().push(format!("start {idx}/{total} {label}"));
    }
    fn record_done(&self, idx: u32, total: u32, label: &str, ok: u32, fail: u32) {
        self.0.lock().unwrap().push(format!("done {idx}/{total} {label} {ok}/{fail}"));
    }
    fn record_failed(&self, idx: u32, total: u32, label: &str, msg: &str) {
        self.0.lock().unwrap().push(format!("failed {idx}/{total} {label} {msg}"));
    }
    fn record_skipped(&self, idx: u32, total: u32, label: &str) {
        self.0.lock().unwrap().push(format!("skipped {idx}/{total} {label}"));
    }
    fn record_summary(&self, _s: &BatchSummary) {}
}

#[test]
fn captured_sink_records_events_in_order() {
    let captured: Mutex<Vec<String>> = Mutex::new(Vec::new());
    let sink = Cap(&captured);
    sink.record_start(0, 2, "x");
    sink.record_done(0, 2, "x", 3, 0);
    sink.record_failed(1, 2, "y", "bad");
    let lines = captured.lock().unwrap();
    assert_eq!(lines.len(), 3);
    assert!(lines[0].contains("start 0/2 x"));
    assert!(lines[1].contains("done 0/2 x 3/0"));
    assert!(lines[2].contains("failed 1/2 y bad"));
}

#[test]
fn labels_use_file_name_or_hint() {
    assert_eq!(source_label(&path_input("dir/report.pdf")), "report.pdf");
    assert_eq!(source_label(&path_input("/")), "<no-name>");
    assert_eq!(source_label(&path_input("a/..")), "<no-name>");
    let bytes = SourceInput::Bytes { data: vec![1], filename: "x.docx".into() };
    assert_eq!(source_label(&bytes), "x.docx");
}

#[test]
fn stems_fall_back_to_document() {
    assert_eq!(stem_of(&path_input("dir/report.tar.gz")), "report.tar");
    assert_eq!(stem_of(&path_input(".hidden")), ".hidden");
    assert_eq!(stem_of(&path_input("..")), "document");
    assert_eq!(stem_of(&path_input("")), "document");
}

#[test]
fn repeated_stem_directories_are_distinct() {
    let inputs = vec![path_input("a/doc.pdf"), path_input("b/doc.pdf"), path_input("c/other.pdf")];
    let dirs = dedup_output_dirs(&inputs, "out/", false).unwrap();
    assert_eq!(dirs, vec!["out/doc".to_string(), "out/doc-2".to_string(), "out/other".to_string()]);
    assert_ne!(dirs[0], dirs[1]);
}

#[test]
fn flat_collision_names_first_repeated_stem() {
    let inputs = vec![path_input("a.pdf"), path_input("x/b.pdf"), path_input("y/b.pdf")];
    match dedup_output_dirs(&inputs, "./out", true) {
        Err(PageseerError::Config(msg)) => {
            assert_eq!(msg, "stem collision in --flat mode: \"b\" appears more than once")
        }
        other => panic!("expected Config, got {other:?}"),
    }
}

#[test]
fn progress_lines_read_as_documented() {
    assert_eq!(start_line(0, 2, "a.pdf"), "pageseer: [1/2] processing a.pdf...");
    assert_eq!(done_line(0, 2, "a.pdf", 5, 0), "pageseer: [1/2] a.pdf done (5 pages)");
    assert_eq!(done_line(1, 2, "b.pdf", 4, 1), "pageseer: [2/2] b.pdf done (4 pages, 1 failed)");
    assert_eq!(failed_line(1, 12, "c.docx", "boom"), "pageseer: [2/12] c.docx FAILED: boom");
    assert_eq!(skipped_line(9, 10, "d.pdf"), "pageseer: [10/10] d.pdf skipped (--strict)");
}

#[test]
fn summary_line_points_to_errors_file_on_failure() {
    let ok = BatchSummary {
        documents_total: 2,
        documents_succeeded: 2,
        pages_succeeded: 10,
        ..BatchSummary::default()
    };
    assert_eq!(
        summary_line(&ok),
        "pageseer: 10/10 pages OK across 2 documents (0 partial, 0 failed, 0 skipped)"
    );
    let bad = BatchSummary {
        documents_total: 3,
        documents_succeeded: 1,
        documents_partial: 1,
        documents_failed: 1,
        pages_succeeded: 29,
        pages_failed: 1,
        ..BatchSummary::default()
    };
    assert_eq!(
        summary_line(&bad),
        "pageseer: 29/30 pages OK across 3 documents (1 partial, 1 failed, 0 skipped) — see errors.json"
    );
}
