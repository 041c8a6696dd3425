use pageseer::pipeline::{
    conversion_outcome, failed_outcome, finish_batch, plan_batch, plan_document, progress_event,
    raster_failure, record_page, report_progress, rewrite_source_paths_in_outcome, stops_batch,
    summary_to_exit_code, BatchRun, ConversionEvent, DocumentTask, PageEvent, PageRun,
    ProgressEvent, RasterFailure,
};
use pageseer::{
    BatchSummary, DocumentOutcome, DocumentResult, ExtractReport, FailureStage, NullProgressSink,
    Options, PageseerError, SourceInput,
};

fn s(succeeded: u32, partial: u32, failed: u32, skipped: u32, pages_ok: u32, pages_failed: u32) -> BatchSummary {
    BatchSummary {
        documents_total: succeeded + partial + failed + skipped,
        documents_succeeded: succeeded,
        documents_partial: partial,
        documents_failed: failed,
        documents_skipped: skipped,
        pages_succeeded: pages_ok,
        pages_failed,
    }
}

#[test]
fn all_success_yields_0() {
    assert_eq!(summary_to_exit_code(&s(3, 0, 0, 0, 30, 0)), 0);
}

#[test]
fn partial_with_some_pages_yields_2() {
    assert_eq!(summary_to_exit_code(&s(2, 1, 0, 0, 29, 1)), 2);
}

#[test]
fn all_failed_yields_1() {
    assert_eq!(summary_to_exit_code(&s(0, 0, 3, 0, 0, 0)), 1);
}

#[test]
fn strict_skipped_with_one_failure_yields_1() {
    assert_eq!(summary_to_exit_code(&s(0, 0, 1, 2, 0, 0)), 1);
}

#[test]
fn strict_skipped_with_partial_first_yields_2() {
    assert_eq!(summary_to_exit_code(&s(0, 1, 0, 2, 5, 1)), 2);
}

/// Runs the decisions of a batch whose documents all end without outside work.
fn run_without_outside_work(inputs: &[SourceInput]) -> Result<(pageseer::BatchReport, bool), PageseerError> {
    let plan = plan_batch(inputs, Options::default())?;
    let total = plan.total;
    let mut run = BatchRun::new(plan);
    for (i, input) in inputs.iter().enumerate() {
        if run.stopped {
            run.record_skip();
        } else {
            let outcome = match plan_document(input) {
                DocumentTask::Finished(o) => o,
                DocumentTask::Hwp { path, .. } => {
                    // The file does not exist: reading it fails with `NotFound`.
                    let e = std::io::Error::from(std::io::ErrorKind::NotFound);
                    conversion_outcome(
                        &path,
                        ConversionEvent::ReadFailed(
                            PageseerError::Rhwp(format!("read input: {e}")).display_text(),
                        ),
                    )
                }
                _ => panic!("expected no rasterization"),
            };
            run.record_attempt(outcome);
        }
        let d = &run.documents[i];
        report_progress(&NullProgressSink, i as u32, total, &d.source_label, &d.outcome);
    }
    Ok(run.finish())
}

#[test]
fn strict_batch_skips_documents_after_a_failure() {
    let inputs = [
        SourceInput::Path("a.xyz".into()),
        SourceInput::Path("b.xyz".into()),
        SourceInput::Path("c.xyz".into()),
    ];
    let plan = plan_batch(&inputs, Options { strict: true, ..Options::default() }).unwrap();
    let mut run = BatchRun::new(plan);
    let first = match plan_document(&inputs[0]) {
        DocumentTask::Finished(o) => o,
        _ => panic!("expected a finished outcome"),
    };
    run.record_attempt(first);
    assert!(run.stopped);
    run.record_skip();
    run.record_skip();
    assert!(matches!(run.documents[1].outcome, DocumentOutcome::Skipped));
    assert_eq!(run.documents[2].input_index, 2);
    assert_eq!(run.documents[2].source_label, "c.xyz");
    assert_eq!(run.documents[2].output_dir, "./out/c");
    let (report, write_errors) = run.finish();
    assert_eq!(report.summary.documents_failed, 1);
    assert_eq!(report.summary.documents_skipped, 2);
    assert!(write_errors);
    assert_eq!(summary_to_exit_code(&report.summary), 1);
}

#[test]
fn continue_mode_attempts_every_document() {
    let inputs = [SourceInput::Path("a.xyz".into()), SourceInput::Path("b.xyz".into())];
    let (report, _) = run_without_outside_work(&inputs).unwrap();
    assert_eq!(report.summary.documents_failed, 2);
    assert_eq!(report.summary.documents_skipped, 0);
}

#[test]
fn empty_input_vec_returns_config_error() {
    let result = plan_batch(&[], Options::default());
    assert!(matches!(result, Err(PageseerError::Config(_))));
}

#[test]
fn unknown_extension_yields_failed_outcome() {
    let (report, write_errors) =
        run_without_outside_work(&[SourceInput::Path("nonexistent.xyz".into())])
            .expect("extract should not return Err for unsupported format");
    assert_eq!(report.documents.len(), 1);
    match &report.documents[0].outcome {
        DocumentOutcome::Failed(f) => {
            assert_eq!(f.stage, FailureStage::SourceRead);
            assert!(f.message.contains("unsupported"));
        }
        other => panic!("expected Failed, got {other:?}"),
    }
    assert_eq!(report.summary.documents_failed, 1);
    assert!(write_errors);
}

#[test]
fn bytes_input_yields_failed_outcome_in_v0_2_a() {
    let (report, _) = run_without_outside_work(&[SourceInput::Bytes {
        data: vec![1, 2, 3],
        filename: "x.pdf".into(),
    }])
    .expect("extract should not return Err for unsupported input form");
    assert_eq!(report.summary.documents_failed, 1);
    assert!(matches!(report.documents[0].outcome, DocumentOutcome::Failed(_)));
}

#[test]
fn nonexistent_hwp_yields_failed_outcome() {
    let (report, _) = run_without_outside_work(&[SourceInput::Path("nonexistent.hwp".into())])
        .expect("extract should not return Err for HWP read error");
    assert_eq!(report.summary.documents_failed, 1);
    match &report.documents[0].outcome {
        DocumentOutcome::Failed(f) => {
            assert_eq!(f.stage, FailureStage::SourceRead);
        }
        other => panic!("expected Failed, got {other:?}"),
    }
}

#[test]
fn plans_follow_the_extension() {
    match plan_document(&SourceInput::Path("in/Report.PDF".into())) {
        DocumentTask::Pdf { path, stem } => {
            assert_eq!(path, "in/Report.PDF");
            assert_eq!(stem, "Report");
        }
        _ => panic!("expected Pdf"),
    }
    assert!(matches!(plan_document(&SourceInput::Path("a.pptx".into())), DocumentTask::Office { .. }));
    assert!(matches!(plan_document(&SourceInput::Path("a.hwpx".into())), DocumentTask::Hwp { .. }));
    match plan_document(&SourceInput::Path("noext".into())) {
        DocumentTask::Finished(DocumentOutcome::Failed(f)) => {
            assert_eq!(f.message, "unsupported format: .");
            assert_eq!(f.source_path.as_deref(), Some("noext"));
        }
        _ => panic!("expected Failed"),
    }
    match plan_document(&SourceInput::Bytes { data: vec![], filename: "x.pdf".into() }) {
        DocumentTask::Finished(DocumentOutcome::Failed(f)) => {
            assert_eq!(f.message, "SourceInput::Bytes not supported in v0.2-A (filename=x.pdf)");
            assert_eq!(f.source_path, None);
        }
        _ => panic!("expected Failed"),
    }
}

#[test]
fn flat_plan_rejects_colliding_stems() {
    let opts = Options { flat: true, concurrency: 0, ..Options::default() };
    let inputs = [SourceInput::Path("dir1/x.xyz".into()), SourceInput::Path("dir2/x.xyz".into())];
    assert!(matches!(plan_batch(&inputs, opts.clone()), Err(PageseerError::Config(_))));
    let plan = plan_batch(&inputs[..1], opts).unwrap();
    assert_eq!(plan.options.concurrency, 1);
    assert_eq!(plan.output_dirs, vec!["./out".to_string()]);
    assert_eq!(plan.labels, vec!["x.xyz".to_string()]);
    assert_eq!(plan.total, 1);
}

fn saved(path: &str, w: u32, h: u32) -> PageEvent {
    PageEvent::Saved { output_path: path.into(), width_px: w, height_px: h }
}

#[test]
fn strict_mode_stops_and_records_the_failure() {
    let mut run = PageRun::start("a.pdf", 4).unwrap();
    assert!(record_page(&mut run, "a.pdf", saved("out/a/page-001.png", 10, 20), true));
    assert!(!record_page(&mut run, "a.pdf", PageEvent::RenderFailed("bad".into()), true));
    assert_eq!(run.pages_done, 2);
    assert_eq!(run.report.succeeded_count(), 1);
    assert_eq!(run.report.failed_count(), 1);
    assert_eq!(run.report.failed[0].page_index, Some(1));
    assert_eq!(run.report.failed[0].stage, FailureStage::Rasterize);
    assert_eq!(run.report.succeeded[0].output_path, "out/a/page-001.png");
    assert_eq!(run.report.succeeded[0].height_px, 20);
    let outcome = DocumentOutcome::Processed(run.report);
    assert!(stops_batch(true, &outcome));
    assert!(!stops_batch(false, &outcome));
}

#[test]
fn continue_mode_records_each_failure() {
    let mut run = PageRun::start("a.pdf", 4).unwrap();
    assert!(record_page(&mut run, "a.pdf", PageEvent::RenderFailed("bad".into()), false));
    assert!(record_page(&mut run, "a.pdf", PageEvent::SaveFailed("disk".into()), false));
    assert!(record_page(&mut run, "a.pdf", saved("p3", 1, 1), false));
    assert_eq!(run.report.failed_count(), 2);
    assert_eq!(run.report.failed[0].stage, FailureStage::Rasterize);
    assert_eq!(run.report.failed[1].stage, FailureStage::Write);
    assert_eq!(run.report.failed[1].page_index, Some(1));
    assert_eq!(run.report.failed[1].source_path.as_deref(), Some("a.pdf"));
    assert_eq!(run.report.succeeded[0].page_index, 2);
}

#[test]
fn converted_outcomes_name_the_input() {
    let mut run = PageRun::start("a.pdf", 4).unwrap();
    record_page(&mut run, "/tmp/conv.pdf", saved("o/page-001.png", 1, 2), false);
    record_page(&mut run, "/tmp/conv.pdf", PageEvent::RenderFailed("x".into()), false);
    match rewrite_source_paths_in_outcome(DocumentOutcome::Processed(run.report), "in/a.hwp") {
        DocumentOutcome::Processed(r) => {
            assert_eq!(r.succeeded[0].source_path.as_deref(), Some("in/a.hwp"));
            assert_eq!(r.succeeded[0].output_path, "o/page-001.png");
            assert_eq!(r.failed[0].source_path.as_deref(), Some("in/a.hwp"));
            assert_eq!(r.failed[0].message, "x");
        }
        _ => panic!("expected Processed"),
    }
    let failed = failed_outcome("/tmp/conv.pdf", FailureStage::Rasterize, "m".into());
    match rewrite_source_paths_in_outcome(failed, "in/b.docx") {
        DocumentOutcome::Failed(f) => assert_eq!(f.source_path.as_deref(), Some("in/b.docx")),
        _ => panic!("expected Failed"),
    }
    assert!(matches!(
        rewrite_source_paths_in_outcome(DocumentOutcome::Skipped, "x"),
        DocumentOutcome::Skipped
    ));
}

fn failure_of(o: DocumentOutcome) -> pageseer::PageFailure {
    match o {
        DocumentOutcome::Failed(f) => f,
        other => panic!("expected Failed, got {other:?}"),
    }
}

#[test]
fn conversion_failures_get_their_stage() {
    let f = failure_of(conversion_outcome("a.hwp", ConversionEvent::ReadFailed("gone".into())));
    assert_eq!((f.stage, f.message.as_str(), f.source_path.as_deref()), (FailureStage::SourceRead, "gone", Some("a.hwp")));
    for ev in [
        ConversionEvent::ClientFailed("c".into()),
        ConversionEvent::ConvertFailed("v".into()),
        ConversionEvent::TempWriteFailed("t".into()),
    ] {
        let f = failure_of(conversion_outcome("b.docx", ev));
        assert_eq!(f.stage, FailureStage::Convert);
        assert_eq!(f.page_index, None);
    }
    let mut run = PageRun::start("a.pdf", 4).unwrap();
    record_page(&mut run, "/tmp/x.pdf", saved("o/p", 1, 1), false);
    match conversion_outcome("b.docx", ConversionEvent::Rasterized(DocumentOutcome::Processed(run.report))) {
        DocumentOutcome::Processed(r) => assert_eq!(r.succeeded[0].source_path.as_deref(), Some("b.docx")),
        _ => panic!("expected Processed"),
    }
}

#[test]
fn raster_failures_get_their_stage() {
    let f = failure_of(raster_failure("a.pdf", RasterFailure::SourceUnreadable("no file".into())));
    assert_eq!(f.stage, FailureStage::SourceRead);
    let f = failure_of(raster_failure("a.pdf", RasterFailure::BackendFailed("lib".into())));
    assert_eq!(f.stage, FailureStage::Rasterize);
    let f = failure_of(raster_failure("a.pdf", RasterFailure::LoadFailed("bad pdf".into())));
    assert_eq!(f.stage, FailureStage::Rasterize);
    let f = failure_of(raster_failure("a.pdf", RasterFailure::DirFailed("ro".into())));
    assert_eq!(f.stage, FailureStage::Write);
    let f = failure_of(raster_failure("a.pdf", RasterFailure::TooManyPages(4294967296)));
    assert_eq!(f.message, "page index 4294967296 exceeds u32::MAX");
}

#[test]
fn strict_batch_stops_after_a_failed_document() {
    let failed = failed_outcome("a.xyz", FailureStage::SourceRead, "x".into());
    assert!(stops_batch(true, &failed));
    assert!(!stops_batch(false, &failed));
    assert!(!stops_batch(true, &DocumentOutcome::Processed(ExtractReport::new())));
    assert!(!stops_batch(true, &DocumentOutcome::Skipped));
}

#[test]
fn progress_events_carry_counts() {
    let mut run = PageRun::start("a.pdf", 4).unwrap();
    record_page(&mut run, "a", PageEvent::SaveFailed("w".into()), false);
    match progress_event(&DocumentOutcome::Processed(run.report)) {
        ProgressEvent::Done { pages_ok, pages_failed } => assert_eq!((pages_ok, pages_failed), (0, 1)),
        _ => panic!("expected Done"),
    }
    assert!(matches!(progress_event(&DocumentOutcome::Skipped), ProgressEvent::Skipped));
}

#[test]
fn finished_batch_without_failures_writes_no_errors_file() {
    let mut run = PageRun::start("a.pdf", 4).unwrap();
    record_page(&mut run, "a.pdf", saved("p", 1, 1), false);
    let docs = vec![DocumentResult {
        input_index: 0,
        source_label: "a.pdf".into(),
        output_dir: "out/a".into(),
        outcome: DocumentOutcome::Processed(run.report),
    }];
    let (batch, write_errors) = finish_batch(docs);
    assert!(!write_errors);
    assert_eq!(summary_to_exit_code(&batch.summary), 0);
    assert!(pageseer::errors_json::build(&batch).is_none());
}

#[test]
fn page_runs_name_their_pages_and_refuse_oversized_documents() {
    let mut run = PageRun::start("a.pdf", 12).unwrap();
    assert_eq!(run.next_page_path("out/a", "a", pageseer::ImageFormat::Png, false), "out/a/page-001.png");
    record_page(&mut run, "a.pdf", PageEvent::RenderFailed("x".into()), false);
    assert_eq!(run.next_page_path("out", "a", pageseer::ImageFormat::Png, true), "out/a-002.png");
    match PageRun::start("big.pdf", u32::MAX as usize + 1) {
        Err(DocumentOutcome::Failed(f)) => {
            assert_eq!(f.stage, FailureStage::Rasterize);
            assert_eq!(f.message, "page index 4294967296 exceeds u32::MAX");
        }
        _ => panic!("expected a failure"),
    }
}
