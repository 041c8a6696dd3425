//! Result types of a batch and their counts.
use vstd::prelude::*;

verus! {

/// One page rendered and written successfully.
#[derive(Debug, Clone)]
pub struct PageArtifact {
    /// Source document path (`None` for in-memory input).
    pub source_path: Option<String>,
    /// Zero-based page index, as the renderer numbers pages.
    pub page_index: u32,
    /// Path of the image written.
    pub output_path: String,
    /// Image width in pixels.
    pub width_px: u32,
    /// Image height in pixels.
    pub height_px: u32,
}

/// A failed page, or a failure of a whole document.
#[derive(Debug, Clone)]
pub struct PageFailure {
    /// Source document path.
    pub source_path: Option<String>,
    /// Zero-based page index; `None` for a document-level failure.
    pub page_index: Option<u32>,
    /// The pipeline stage that failed.
    pub stage: FailureStage,
    /// Human-readable description.
    pub message: String,
}

/// The pipeline stage at which a failure happened.
#[derive(Debug, Clone, Copy, PartialEq, Eq, Structural)]
pub enum FailureStage {
    /// Reading the source file.
    SourceRead,
    /// Converting to the intermediate `PDF` (Gotenberg / rhwp).
    Convert,
    /// Rasterizing with pdfium.
    Rasterize,
    /// Writing to disk.
    Write,
}

/// The identifier of each stage in the error report schema.
pub open spec fn stage_name(stage: FailureStage) -> Seq<char> {
    match stage {
        FailureStage::SourceRead => "source-read"@,
        FailureStage::Convert => "convert"@,
        FailureStage::Rasterize => "rasterize"@,
        FailureStage::Write => "write"@,
    }
}

impl FailureStage {
    /// The lower-case, hyphenated name used in `errors.json`.
    pub fn as_str(self) -> (s: &'static str)
        ensures
            s@ == stage_name(self),
    {
        match self {
            FailureStage::SourceRead => "source-read",
            FailureStage::Convert => "convert",
            FailureStage::Rasterize => "rasterize",
            FailureStage::Write => "write",
        }
    }
}

/// Document and page counts of a whole batch.
#[derive(Debug, Clone, Copy)]
pub struct BatchSummary {
    /// Documents in the batch.
    pub documents_total: u32,
    /// Documents whose pages all succeeded.
    pub documents_succeeded: u32,
    /// Documents where only some pages succeeded.
    pub documents_partial: u32,
    /// Documents where not one page succeeded (including whole-document failures).
    pub documents_failed: u32,
    /// Documents not attempted (strict mode).
    pub documents_skipped: u32,
    /// Pages written, over all documents.
    pub pages_succeeded: u32,
    /// Pages failed, over all documents.
    pub pages_failed: u32,
}

impl Default for BatchSummary {
    /// All counts zero.
    fn default() -> (s: Self)
        ensures
            s.documents_total == 0,
            s.documents_succeeded == 0,
            s.documents_partial == 0,
            s.documents_failed == 0,
            s.documents_skipped == 0,
            s.pages_succeeded == 0,
            s.pages_failed == 0,
    {
        BatchSummary {
            documents_total: 0,
            documents_succeeded: 0,
            documents_partial: 0,
            documents_failed: 0,
            documents_skipped: 0,
            pages_succeeded: 0,
            pages_failed: 0,
        }
    }
}

/// The result of one input document.
#[derive(Debug, Clone)]
pub struct DocumentResult {
    /// Zero-based position among the inputs.
    pub input_index: u32,
    /// Display label: the file name of a path input, the file name hint of bytes.
    pub source_label: String,
    /// Directory that holds this document's images (after de-duplication).
    pub output_dir: String,
    /// How the document ended.
    pub outcome: DocumentOutcome,
}

/// How one document ended.
#[derive(Debug, Clone)]
pub enum DocumentOutcome {
    /// Reached the page stage; any number of pages may have succeeded or failed.
    Processed(ExtractReport),
    /// Failed as a whole (`SourceRead` / `Convert`).
    Failed(PageFailure),
    /// Not attempted because an earlier document failed in strict mode.
    Skipped,
}

/// The result of a batch: per-document results in input order, and their counts.
#[derive(Debug, Clone)]
pub struct BatchReport {
    /// Per-document results, in input order.
    pub documents: Vec<DocumentResult>,
    /// Document and page counts.
    pub summary: BatchSummary,
}

/// Pages written and pages failed for one document.
#[derive(Debug, Clone)]
pub struct ExtractReport {
    /// Pages written.
    pub succeeded: Vec<PageArtifact>,
    /// Failures.
    pub failed: Vec<PageFailure>,
}

impl Default for ExtractReport {
    /// An empty report.
    fn default() -> (r: Self)
        ensures
            r.succeeded@.len() == 0,
            r.failed@.len() == 0,
    {
        ExtractReport::new()
    }
}

impl ExtractReport {
    /// A new, empty report.
    pub fn new() -> (r: Self)
        ensures
            r.succeeded@.len() == 0,
            r.failed@.len() == 0,
    {
        ExtractReport { succeeded: Vec::new(), failed: Vec::new() }
    }

    /// Number of pages written.
    pub fn succeeded_count(&self) -> (n: usize)
        ensures
            n == self.succeeded@.len(),
    {
        self.succeeded.len()
    }

    /// Number of failures.
    pub fn failed_count(&self) -> (n: usize)
        ensures
            n == self.failed@.len(),
    {
        self.failed.len()
    }

    /// `true` when nothing failed.
    pub fn is_fully_successful(&self) -> (b: bool)
        ensures
            b == (self.failed@.len() == 0),
    {
        self.failed.len() == 0
    }
}

/// `n`, or `u32::MAX` when `n` does not fit.
pub open spec fn saturate(n: nat) -> u32 {
    if n > u32::MAX { u32::MAX } else { n as u32 }
}

/// The sum of `f` over `docs`.
pub open spec fn sum_over(docs: Seq<DocumentResult>, f: spec_fn(DocumentResult) -> nat) -> nat
    decreases docs.len(),
{
    if docs.len() == 0 {
        0
    } else {
        sum_over(docs.drop_last(), f) + f(docs.last())
    }
}

/// 1 for a processed document without failures.
pub open spec fn is_succeeded(d: DocumentResult) -> nat {
    match d.outcome {
        DocumentOutcome::Processed(r) => if r.failed@.len() == 0 { 1 } else { 0 },
        _ => 0,
    }
}

/// 1 for a processed document where some pages succeeded and some failed.
pub open spec fn is_partial(d: DocumentResult) -> nat {
    match d.outcome {
        DocumentOutcome::Processed(r) => if r.failed@.len() != 0 && r.succeeded@.len() != 0 {
            1
        } else {
            0
        },
        _ => 0,
    }
}

/// 1 for a failed document: one that failed as a whole, or a processed one
/// where pages failed and not one page succeeded.
pub open spec fn is_failed(d: DocumentResult) -> nat {
    match d.outcome {
        DocumentOutcome::Failed(_) => 1,
        DocumentOutcome::Processed(r) => if r.failed@.len() != 0 && r.succeeded@.len() == 0 {
            1
        } else {
            0
        },
        _ => 0,
    }
}

/// 1 for a document that failed as a whole (before its pages).
pub open spec fn is_whole_failure(d: DocumentResult) -> nat {
    match d.outcome {
        DocumentOutcome::Failed(_) => 1,
        _ => 0,
    }
}

/// 1 for a skipped document.
pub open spec fn is_skipped(d: DocumentResult) -> nat {
    match d.outcome {
        DocumentOutcome::Skipped => 1,
        _ => 0,
    }
}

/// The pages written for a document.
pub open spec fn pages_ok(d: DocumentResult) -> nat {
    match d.outcome {
        DocumentOutcome::Processed(r) => r.succeeded@.len(),
        _ => 0,
    }
}

/// The pages failed for a document (document-level failures not counted).
pub open spec fn pages_bad(d: DocumentResult) -> nat {
    match d.outcome {
        DocumentOutcome::Processed(r) => r.failed@.len(),
        _ => 0,
    }
}

/// The summary of `docs`: each count is the exact count, held at `u32::MAX`
/// when it does not fit.
pub open spec fn summary_of(docs: Seq<DocumentResult>) -> BatchSummary {
    BatchSummary {
        documents_total: saturate(docs.len()),
        documents_succeeded: saturate(sum_over(docs, |d: DocumentResult| is_succeeded(d))),
        documents_partial: saturate(sum_over(docs, |d: DocumentResult| is_partial(d))),
        documents_failed: saturate(sum_over(docs, |d: DocumentResult| is_failed(d))),
        documents_skipped: saturate(sum_over(docs, |d: DocumentResult| is_skipped(d))),
        pages_succeeded: saturate(sum_over(docs, |d: DocumentResult| pages_ok(d))),
        pages_failed: saturate(sum_over(docs, |d: DocumentResult| pages_bad(d))),
    }
}

/// `min(n, u32::MAX)` for a length.
fn saturating_u32(n: usize) -> (r: u32)
    ensures
        r == saturate(n as nat),
{
    if n > u32::MAX as usize { u32::MAX } else { n as u32 }
}

proof fn lemma_sum_step(docs: Seq<DocumentResult>, i: int, f: spec_fn(DocumentResult) -> nat)
    requires
        0 <= i < docs.len(),
    ensures
        sum_over(docs.take(i + 1), f) == sum_over(docs.take(i), f) + f(docs[i]),
{
    assert(docs.take(i + 1).drop_last() =~= docs.take(i));
}

impl BatchSummary {
    /// Counts documents by outcome and pages by result.
    pub fn from_documents(docs: &[DocumentResult]) -> (s: Self)
        ensures
            s == summary_of(docs@),
    {
        let mut s = BatchSummary {
            documents_total: saturating_u32(docs.len()),
            ..BatchSummary::default()
        };
        let n = docs.len();
        let mut i: usize = 0;
        assert(docs@.take(0) =~= Seq::<DocumentResult>::empty());
        while i < n
            invariant
                n == docs@.len(),
                i <= n,
                s.documents_total == saturate(n as nat),
                s.documents_succeeded == saturate(sum_over(docs@.take(i as int), |d: DocumentResult| is_succeeded(d))),
                s.documents_partial == saturate(sum_over(docs@.take(i as int), |d: DocumentResult| is_partial(d))),
                s.documents_failed == saturate(sum_over(docs@.take(i as int), |d: DocumentResult| is_failed(d))),
                s.documents_skipped == saturate(sum_over(docs@.take(i as int), |d: DocumentResult| is_skipped(d))),
                s.pages_succeeded == saturate(sum_over(docs@.take(i as int), |d: DocumentResult| pages_ok(d))),
                s.pages_failed == saturate(sum_over(docs@.take(i as int), |d: DocumentResult| pages_bad(d))),
            decreases n - i,
        {
            proof {
                lemma_sum_step(docs@, i as int, |d: DocumentResult| is_succeeded(d));
                lemma_sum_step(docs@, i as int, |d: DocumentResult| is_partial(d));
                lemma_sum_step(docs@, i as int, |d: DocumentResult| is_failed(d));
                lemma_sum_step(docs@, i as int, |d: DocumentResult| is_skipped(d));
                lemma_sum_step(docs@, i as int, |d: DocumentResult| pages_ok(d));
                lemma_sum_step(docs@, i as int, |d: DocumentResult| pages_bad(d));
            }
            match &docs[i].outcome {
                DocumentOutcome::Processed(report) => {
                    if report.failed.len() == 0 {
                        s.documents_succeeded = s.documents_succeeded.saturating_add(1);
                    } else if report.succeeded.len() == 0 {
                        s.documents_failed = s.documents_failed.saturating_add(1);
                    } else {
                        s.documents_partial = s.documents_partial.saturating_add(1);
                    }
                    s.pages_succeeded = s.pages_succeeded.saturating_add(
                        saturating_u32(report.succeeded.len()),
                    );
                    s.pages_failed = s.pages_failed.saturating_add(saturating_u32(report.failed.len()));
                },
                DocumentOutcome::Failed(_) => {
                    s.documents_failed = s.documents_failed.saturating_add(1);
                },
                DocumentOutcome::Skipped => {
                    s.documents_skipped = s.documents_skipped.saturating_add(1);
                },
            }
            i = i + 1;
        }
        assert(docs@.take(n as int) =~= docs@);
        s
    }
}

} // verus!
