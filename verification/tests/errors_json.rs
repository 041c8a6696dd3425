use pageseer::errors_json::build;
use pageseer::{
    BatchReport, BatchSummary, DocumentOutcome, DocumentResult, ExtractReport, FailureStage,
    PageFailure,
};

fn doc_processed(idx: u32, label: &str, inner: ExtractReport) -> DocumentResult {
    DocumentResult {
        input_index: idx,
        source_label: label.into(),
        output_dir: "./out".into(),
        outcome: DocumentOutcome::Processed(inner),
    }
}

#[test]
fn empty_report_yields_none() {
    let r = BatchReport { documents: vec![], summary: BatchSummary::default() };
    assert!(build(&r).is_none());
}

#[test]
fn page_index_serialized_as_one_based() {
    let mut inner = ExtractReport::new();
    inner.failed.push(PageFailure {
        source_path: Some("a.pdf".into()),
        page_index: Some(0),
        stage: FailureStage::Rasterize,
        message: "boom".into(),
    });
    let docs = vec![doc_processed(0, "a.pdf", inner)];
    let report = BatchReport { summary: BatchSummary::from_documents(&docs), documents: docs };
    let payload = build(&report).unwrap();
    assert_eq!(payload.version, 2);
    assert_eq!(payload.errors[0].document_index, 0);
    assert_eq!(payload.errors[0].page, Some(1));
    assert_eq!(payload.errors[0].stage, "rasterize");
    assert_eq!(payload.errors[0].source, "a.pdf");
}

#[test]
fn document_level_failed_outcome_serializes_with_null_page() {
    let docs = vec![DocumentResult {
        input_index: 1,
        source_label: "b.pdf".into(),
        output_dir: "./out/b".into(),
        outcome: DocumentOutcome::Failed(PageFailure {
            source_path: Some("b.pdf".into()),
            page_index: None,
            stage: FailureStage::Convert,
            message: "corrupt".into(),
        }),
    }];
    let report = BatchReport { summary: BatchSummary::from_documents(&docs), documents: docs };
    let payload = build(&report).unwrap();
    assert_eq!(payload.errors[0].document_index, 1);
    assert_eq!(payload.errors[0].page, None);
    assert_eq!(payload.errors[0].stage, "convert");
}

#[test]
fn skipped_documents_excluded() {
    let docs = vec![DocumentResult {
        input_index: 0,
        source_label: "x.pdf".into(),
        output_dir: "./out".into(),
        outcome: DocumentOutcome::Skipped,
    }];
    let report = BatchReport { summary: BatchSummary::from_documents(&docs), documents: docs };
    assert!(build(&report).is_none());
}

#[test]
fn entries_follow_document_order_and_fall_back_to_label() {
    let mut inner = ExtractReport::new();
    for (i, msg) in [(2u32, "p3"), (4u32, "p5")] {
        inner.failed.push(PageFailure {
            source_path: None,
            page_index: Some(i),
            stage: FailureStage::Write,
            message: msg.into(),
        });
    }
    let docs = vec![
        DocumentResult {
            input_index: 0,
            source_label: "first.docx".into(),
            output_dir: "out/first".into(),
            outcome: DocumentOutcome::Failed(PageFailure {
                source_path: None,
                page_index: None,
                stage: FailureStage::SourceRead,
                message: "gone".into(),
            }),
        },
        doc_processed(1, "second.pdf", inner),
    ];
    let report = BatchReport { summary: BatchSummary::from_documents(&docs), documents: docs };
    let payload = build(&report).unwrap();
    assert_eq!(payload.errors.len(), 3);
    // one entry per failed page, plus one for the document that failed as a whole
    assert_eq!(payload.errors.len() as u32, report.summary.pages_failed + 1);
    assert_eq!(payload.errors[0].source, "first.docx");
    assert_eq!(payload.errors[0].stage, "source-read");
    assert_eq!(payload.errors[1].document_index, 1);
    assert_eq!(payload.errors[1].page, Some(3));
    assert_eq!(payload.errors[1].source, "second.pdf");
    assert_eq!(payload.errors[2].page, Some(5));
    assert_eq!(payload.errors[2].message, "p5");
    assert_eq!(payload.summary.documents_failed, 2);
}
