use pageseer::{
    BatchReport, BatchSummary, DocumentOutcome, DocumentResult, ExtractReport, FailureStage,
    PageArtifact, PageFailure,
};

fn artifact(index: u32, out: &str) -> PageArtifact {
    PageArtifact {
        source_path: None,
        page_index: index,
        output_path: out.to_string(),
        width_px: 10,
        height_px: 10,
    }
}

#[test]
fn new_report_is_fully_successful() {
    let r = ExtractReport::new();
    assert!(r.is_fully_successful());
    assert_eq!(r.succeeded_count(), 0);
    assert_eq!(r.failed_count(), 0);
}

#[test]
fn report_with_failure_is_not_fully_successful() {
    let mut r = ExtractReport::new();
    r.failed.push(PageFailure {
        source_path: None,
        page_index: Some(0),
        stage: FailureStage::Rasterize,
        message: "x".to_owned(),
    });
    assert!(!r.is_fully_successful());
    assert_eq!(r.failed_count(), 1);
}

#[test]
fn failure_stage_strings_match_schema() {
    assert_eq!(FailureStage::SourceRead.as_str(), "source-read");
    assert_eq!(FailureStage::Convert.as_str(), "convert");
    assert_eq!(FailureStage::Rasterize.as_str(), "rasterize");
    assert_eq!(FailureStage::Write.as_str(), "write");
}

#[test]
fn batch_summary_default_is_all_zero() {
    let s = BatchSummary::default();
    assert_eq!(s.documents_total, 0);
    assert_eq!(s.documents_succeeded, 0);
    assert_eq!(s.documents_partial, 0);
    assert_eq!(s.documents_failed, 0);
    assert_eq!(s.documents_skipped, 0);
    assert_eq!(s.pages_succeeded, 0);
    assert_eq!(s.pages_failed, 0);
}

#[test]
fn batch_summary_fields_settable() {
    let s = BatchSummary {
        documents_total: 3,
        documents_succeeded: 1,
        documents_partial: 1,
        documents_failed: 1,
        documents_skipped: 0,
        pages_succeeded: 29,
        pages_failed: 1,
    };
    assert_eq!(s.documents_total, 3);
    assert_eq!(s.pages_succeeded, 29);
}

#[test]
fn document_outcome_processed_holds_extract_report() {
    let mut inner = ExtractReport::new();
    inner.failed.push(PageFailure {
        source_path: None,
        page_index: Some(0),
        stage: FailureStage::Rasterize,
        message: "x".into(),
    });
    let outcome = DocumentOutcome::Processed(inner);
    match outcome {
        DocumentOutcome::Processed(r) => assert_eq!(r.failed_count(), 1),
        _ => panic!("expected Processed"),
    }
}

#[test]
fn document_outcome_failed_holds_page_failure() {
    let f = PageFailure {
        source_path: None,
        page_index: None,
        stage: FailureStage::Convert,
        message: "boom".into(),
    };
    let outcome = DocumentOutcome::Failed(f);
    assert!(matches!(outcome, DocumentOutcome::Failed(_)));
}

#[test]
fn document_outcome_skipped_is_constructable() {
    let outcome = DocumentOutcome::Skipped;
    assert!(matches!(outcome, DocumentOutcome::Skipped));
}

#[test]
fn batch_report_documents_field_writable() {
    let report = BatchReport { documents: vec![], summary: BatchSummary::default() };
    assert_eq!(report.documents.len(), 0);
}

#[test]
fn batch_summary_from_documents_counts_processed_only() {
    let mut full = ExtractReport::new();
    full.succeeded.push(artifact(0, "a.png"));
    full.succeeded.push(artifact(1, "b.png"));
    let mut partial = ExtractReport::new();
    partial.succeeded.push(artifact(0, "c.png"));
    partial.failed.push(PageFailure {
        source_path: None,
        page_index: Some(1),
        stage: FailureStage::Rasterize,
        message: "x".into(),
    });
    let docs = vec![
        DocumentResult {
            input_index: 0,
            source_label: "a".into(),
            output_dir: "a".into(),
            outcome: DocumentOutcome::Processed(full),
        },
        DocumentResult {
            input_index: 1,
            source_label: "b".into(),
            output_dir: "b".into(),
            outcome: DocumentOutcome::Processed(partial),
        },
        DocumentResult {
            input_index: 2,
            source_label: "c".into(),
            output_dir: "c".into(),
            outcome: DocumentOutcome::Failed(PageFailure {
                source_path: None,
                page_index: None,
                stage: FailureStage::Convert,
                message: "x".into(),
            }),
        },
        DocumentResult {
            input_index: 3,
            source_label: "d".into(),
            output_dir: "d".into(),
            outcome: DocumentOutcome::Skipped,
        },
    ];
    let s = BatchSummary::from_documents(&docs);
    assert_eq!(s.documents_total, 4);
    assert_eq!(s.documents_succeeded, 1);
    assert_eq!(s.documents_partial, 1);
    assert_eq!(s.documents_failed, 1);
    assert_eq!(s.documents_skipped, 1);
    assert_eq!(s.pages_succeeded, 3);
    assert_eq!(s.pages_failed, 1);
    assert_eq!(
        s.documents_succeeded + s.documents_partial + s.documents_failed + s.documents_skipped,
        s.documents_total
    );
}

#[test]
fn empty_batch_summary_is_zero() {
    let s = BatchSummary::from_documents(&[]);
    assert_eq!(s.documents_total, 0);
    assert_eq!(s.pages_succeeded + s.pages_failed, 0);
}

#[test]
fn processed_document_without_a_written_page_counts_as_failed() {
    let mut none_ok = ExtractReport::new();
    none_ok.failed.push(PageFailure {
        source_path: None,
        page_index: Some(0),
        stage: FailureStage::Rasterize,
        message: "x".into(),
    });
    let docs = vec![DocumentResult {
        input_index: 0,
        source_label: "a".into(),
        output_dir: "a".into(),
        outcome: DocumentOutcome::Processed(none_ok),
    }];
    let s = BatchSummary::from_documents(&docs);
    assert_eq!(s.documents_failed, 1);
    assert_eq!(s.documents_partial, 0);
    assert_eq!(s.pages_failed, 1);
}
