//! The decisions of a batch run.  The caller performs the outside work
//! (conversion, rendering, writing files, progress output); these functions
//! decide what is to be done and what each result means.
use vstd::prelude::*;
use crate::SourceInput;
use crate::batch::{
    collision_for_inputs, dedup_output_dirs, dirs_for_inputs, source_label, spec_source_label,
    ProgressSink,
};
use crate::error::PageseerError;
use crate::format::{detect_from_path, format_of_path, DetectedFormat};
use crate::options::{normalized_options, Options};
use crate::paths::{extension, file_stem, path_extension, path_file_stem};
use crate::text::{dec, push_decimal};
use crate::options::ImageFormat;
use crate::output::{document_page_path, spec_document_page_path};
use crate::report::{
    saturate, summary_of, BatchReport, BatchSummary, DocumentOutcome, DocumentResult,
    ExtractReport, FailureStage, PageArtifact, PageFailure,
};

verus! {

/// What has to be done for one document.
pub enum DocumentTask {
    /// Rasterize the `PDF` at `path`, naming pages after `stem`.
    Pdf { path: String, stem: String },
    /// Convert the Office document at `path` to `PDF` through Gotenberg, then rasterize it.
    Office { path: String, stem: String },
    /// Convert the `HWP` document at `path` to `PDF`, then rasterize it.
    Hwp { path: String, stem: String },
    /// Nothing to do: the outcome is already known.
    Finished(DocumentOutcome),
}

/// The stem of a path, or `document` when it has none.
pub open spec fn stem_or_document(path: Seq<char>) -> Seq<char> {
    match file_stem(path) {
        Some(s) => s,
        None => "document"@,
    }
}

/// `f` is a document-level failure of `stage` with the given source and message.
pub open spec fn is_document_failure(
    f: PageFailure,
    source: Option<Seq<char>>,
    stage: FailureStage,
    message: Seq<char>,
) -> bool {
    &&& match f.source_path {
        Some(p) => source == Some(p@),
        None => source is None,
    }
    &&& f.page_index is None
    &&& f.stage == stage
    &&& f.message@ == message
}

/// The message for an unsupported extension.
pub open spec fn unsupported_text(path: Seq<char>) -> Seq<char> {
    "unsupported format: ."@ + match extension(path) {
        Some(e) => e,
        None => Seq::empty(),
    }
}

/// The message for in-memory input, which this version does not process.
pub open spec fn bytes_unsupported_text(filename: Seq<char>) -> Seq<char> {
    "SourceInput::Bytes not supported in v0.2-A (filename="@ + filename + ")"@
}

/// `t` is the task that `input` calls for.
pub open spec fn task_for(input: SourceInput, t: DocumentTask) -> bool {
    match input {
        SourceInput::Bytes { filename, .. } => t matches DocumentTask::Finished(
            DocumentOutcome::Failed(f),
        ) && is_document_failure(
            f,
            None,
            FailureStage::SourceRead,
            bytes_unsupported_text(filename@),
        ),
        SourceInput::Path(p) => match format_of_path(p@) {
            DetectedFormat::Pdf => t matches DocumentTask::Pdf { path, stem } && path@ == p@
                && stem@ == stem_or_document(p@),
            DetectedFormat::Office => t matches DocumentTask::Office { path, stem } && path@ == p@
                && stem@ == stem_or_document(p@),
            DetectedFormat::Hwp => t matches DocumentTask::Hwp { path, stem } && path@ == p@
                && stem@ == stem_or_document(p@),
            DetectedFormat::Other => t matches DocumentTask::Finished(DocumentOutcome::Failed(f))
                && is_document_failure(
                f,
                Some(p@),
                FailureStage::SourceRead,
                unsupported_text(p@),
            ),
        },
    }
}

/// A document-level failure of `path` at `stage`.
pub fn failed_outcome(path: &str, stage: FailureStage, message: String) -> (o: DocumentOutcome)
    ensures
        o matches DocumentOutcome::Failed(f) && is_document_failure(f, Some(path@), stage, message@),
{
    DocumentOutcome::Failed(
        PageFailure { source_path: Some(path.to_owned()), page_index: None, stage, message },
    )
}

/// Decides what one input needs: in-memory input and unknown extensions fail
/// at once (`SourceRead`); `PDF`, Office and `HWP` paths go to their pipeline.
pub fn plan_document(input: &SourceInput) -> (t: DocumentTask)
    ensures
        task_for(*input, t),
{
    match input {
        SourceInput::Bytes { filename, .. } => {
            let mut m = "SourceInput::Bytes not supported in v0.2-A (filename=".to_owned();
            m.append(filename.as_str());
            m.append(")");
            DocumentTask::Finished(
                DocumentOutcome::Failed(
                    PageFailure {
                        source_path: None,
                        page_index: None,
                        stage: FailureStage::SourceRead,
                        message: m,
                    },
                ),
            )
        },
        SourceInput::Path(p) => {
            let path = p.as_str();
            match detect_from_path(path) {
                DetectedFormat::Other => {
                    let mut m = "unsupported format: .".to_owned();
                    match path_extension(path) {
                        Some(e) => {
                            m.append(e.as_str());
                        },
                        None => {
                            assert(m@ + Seq::<char>::empty() =~= m@);
                        },
                    }
                    DocumentTask::Finished(failed_outcome(path, FailureStage::SourceRead, m))
                },
                format => {
                    let stem = match path_file_stem(path) {
                        Some(s) => s,
                        None => "document".to_owned(),
                    };
                    let owned = p.clone();
                    match format {
                        DetectedFormat::Pdf => DocumentTask::Pdf { path: owned, stem },
                        DetectedFormat::Office => DocumentTask::Office { path: owned, stem },
                        _ => DocumentTask::Hwp { path: owned, stem },
                    }
                },
            }
        },
    }
}

/// `a` is `prior` with its source path set to `input_path`.
pub open spec fn artifact_relocated(a: PageArtifact, prior: PageArtifact, input_path: Seq<char>) -> bool {
    &&& a.source_path matches Some(p) && p@ == input_path
    &&& a.page_index == prior.page_index
    &&& a.output_path@ == prior.output_path@
    &&& a.width_px == prior.width_px
    &&& a.height_px == prior.height_px
}

/// `f` is `prior` with its source path set to `input_path`.
pub open spec fn failure_relocated(f: PageFailure, prior: PageFailure, input_path: Seq<char>) -> bool {
    &&& f.source_path matches Some(p) && p@ == input_path
    &&& f.page_index == prior.page_index
    &&& f.stage == prior.stage
    &&& f.message@ == prior.message@
}

/// `o` is `prior` with every source path set to `input_path`.
pub open spec fn outcome_relocated(o: DocumentOutcome, prior: DocumentOutcome, input_path: Seq<char>) -> bool {
    match prior {
        DocumentOutcome::Processed(r) => o matches DocumentOutcome::Processed(r2) && {
            &&& r2.succeeded@.len() == r.succeeded@.len()
            &&& r2.failed@.len() == r.failed@.len()
            &&& forall|k: int|
                0 <= k < r.succeeded@.len() ==> artifact_relocated(
                    #[trigger] r2.succeeded@[k],
                    r.succeeded@[k],
                    input_path,
                )
            &&& forall|k: int|
                0 <= k < r.failed@.len() ==> failure_relocated(
                    #[trigger] r2.failed@[k],
                    r.failed@[k],
                    input_path,
                )
        },
        DocumentOutcome::Failed(f) => o matches DocumentOutcome::Failed(f2) && failure_relocated(
            f2,
            f,
            input_path,
        ),
        DocumentOutcome::Skipped => o matches DocumentOutcome::Skipped,
    }
}

fn relocate_failure(f: &PageFailure, input_path: &str) -> (g: PageFailure)
    ensures
        failure_relocated(g, *f, input_path@),
{
    PageFailure {
        source_path: Some(input_path.to_owned()),
        page_index: f.page_index,
        stage: f.stage,
        message: f.message.clone(),
    }
}

/// Points every source path of an outcome at `input_path`: after a conversion,
/// results name the converted input, not the intermediate `PDF`.
pub fn rewrite_source_paths_in_outcome(outcome: DocumentOutcome, input_path: &str) -> (o:
    DocumentOutcome)
    ensures
        outcome_relocated(o, outcome, input_path@),
{
    match outcome {
        DocumentOutcome::Processed(r) => {
            let mut succeeded: Vec<PageArtifact> = Vec::new();
            let n = r.succeeded.len();
            let mut k: usize = 0;
            while k < n
                invariant
                    n == r.succeeded@.len(),
                    k <= n,
                    succeeded@.len() == k,
                    forall|q: int|
                        0 <= q < k ==> artifact_relocated(
                            #[trigger] succeeded@[q],
                            r.succeeded@[q],
                            input_path@,
                        ),
                decreases n - k,
            {
                let a = &r.succeeded[k];
                succeeded.push(
                    PageArtifact {
                        source_path: Some(input_path.to_owned()),
                        page_index: a.page_index,
                        output_path: a.output_path.clone(),
                        width_px: a.width_px,
                        height_px: a.height_px,
                    },
                );
                k = k + 1;
            }
            let mut failed: Vec<PageFailure> = Vec::new();
            let m = r.failed.len();
            let mut k: usize = 0;
            while k < m
                invariant
                    m == r.failed@.len(),
                    k <= m,
                    failed@.len() == k,
                    forall|q: int|
                        0 <= q < k ==> failure_relocated(
                            #[trigger] failed@[q],
                            r.failed@[q],
                            input_path@,
                        ),
                decreases m - k,
            {
                failed.push(relocate_failure(&r.failed[k], input_path));
                k = k + 1;
            }
            DocumentOutcome::Processed(ExtractReport { succeeded, failed })
        },
        DocumentOutcome::Failed(f) => DocumentOutcome::Failed(relocate_failure(&f, input_path)),
        DocumentOutcome::Skipped => DocumentOutcome::Skipped,
    }
}

/// How the conversion of an Office or `HWP` document to `PDF` ended.
pub enum ConversionEvent {
    /// The source file could not be read.
    ReadFailed(String),
    /// The conversion client could not be set up.
    ClientFailed(String),
    /// The converter failed.
    ConvertFailed(String),
    /// The intermediate `PDF` could not be written.
    TempWriteFailed(String),
    /// The intermediate `PDF` was rasterized with this outcome.
    Rasterized(DocumentOutcome),
}

/// The outcome of a converted document: a read failure is `SourceRead`,
/// every other failure before rasterizing is `Convert`, and a rasterized
/// outcome names the converted input instead of the intermediate `PDF`.
pub fn conversion_outcome(path: &str, event: ConversionEvent) -> (o: DocumentOutcome)
    ensures
        match event {
            ConversionEvent::ReadFailed(m) => o matches DocumentOutcome::Failed(f)
                && is_document_failure(f, Some(path@), FailureStage::SourceRead, m@),
            ConversionEvent::ClientFailed(m) => o matches DocumentOutcome::Failed(f)
                && is_document_failure(f, Some(path@), FailureStage::Convert, m@),
            ConversionEvent::ConvertFailed(m) => o matches DocumentOutcome::Failed(f)
                && is_document_failure(f, Some(path@), FailureStage::Convert, m@),
            ConversionEvent::TempWriteFailed(m) => o matches DocumentOutcome::Failed(f)
                && is_document_failure(f, Some(path@), FailureStage::Convert, m@),
            ConversionEvent::Rasterized(prior) => outcome_relocated(o, prior, path@),
        },
{
    match event {
        ConversionEvent::ReadFailed(m) => failed_outcome(path, FailureStage::SourceRead, m),
        ConversionEvent::ClientFailed(m) => failed_outcome(path, FailureStage::Convert, m),
        ConversionEvent::ConvertFailed(m) => failed_outcome(path, FailureStage::Convert, m),
        ConversionEvent::TempWriteFailed(m) => failed_outcome(path, FailureStage::Convert, m),
        ConversionEvent::Rasterized(prior) => rewrite_source_paths_in_outcome(prior, path),
    }
}

/// Why a `PDF` could not reach the page stage.
pub enum RasterFailure {
    /// The renderer library could not be loaded.
    BackendFailed(String),
    /// The `PDF` file could not be opened.
    SourceUnreadable(String),
    /// The renderer did not accept the `PDF`.
    LoadFailed(String),
    /// The output directory could not be created.
    DirFailed(String),
    /// The document has a page whose index does not fit a `u32`.
    TooManyPages(usize),
}

/// The message for a page index that does not fit.
pub open spec fn too_many_pages_text(index: nat) -> Seq<char> {
    "page index "@ + dec(index) + " exceeds u32::MAX"@
}

/// The outcome of a `PDF` that did not reach the page stage: an unreadable
/// file is `SourceRead`, an output directory that cannot be made is `Write`,
/// and every renderer failure is `Rasterize`.
pub fn raster_failure(path: &str, failure: RasterFailure) -> (o: DocumentOutcome)
    ensures
        match failure {
            RasterFailure::BackendFailed(m) => o matches DocumentOutcome::Failed(f)
                && is_document_failure(f, Some(path@), FailureStage::Rasterize, m@),
            RasterFailure::SourceUnreadable(m) => o matches DocumentOutcome::Failed(f)
                && is_document_failure(f, Some(path@), FailureStage::SourceRead, m@),
            RasterFailure::LoadFailed(m) => o matches DocumentOutcome::Failed(f)
                && is_document_failure(f, Some(path@), FailureStage::Rasterize, m@),
            RasterFailure::DirFailed(m) => o matches DocumentOutcome::Failed(f)
                && is_document_failure(f, Some(path@), FailureStage::Write, m@),
            RasterFailure::TooManyPages(i) => o matches DocumentOutcome::Failed(f)
                && is_document_failure(
                f,
                Some(path@),
                FailureStage::Rasterize,
                too_many_pages_text(i as nat),
            ),
        },
{
    match failure {
        RasterFailure::BackendFailed(m) => failed_outcome(path, FailureStage::Rasterize, m),
        RasterFailure::SourceUnreadable(m) => failed_outcome(path, FailureStage::SourceRead, m),
        RasterFailure::LoadFailed(m) => failed_outcome(path, FailureStage::Rasterize, m),
        RasterFailure::DirFailed(m) => failed_outcome(path, FailureStage::Write, m),
        RasterFailure::TooManyPages(i) => {
            let mut m = "page index ".to_owned();
            push_decimal(&mut m, i as u64);
            m.append(" exceeds u32::MAX");
            failed_outcome(path, FailureStage::Rasterize, m)
        },
    }
}

/// The outcome records a failure: the document failed as a whole, or a page failed.
pub open spec fn has_failure(o: DocumentOutcome) -> bool {
    match o {
        DocumentOutcome::Failed(_) => true,
        DocumentOutcome::Processed(r) => r.failed@.len() > 0,
        DocumentOutcome::Skipped => false,
    }
}

/// Whether the documents after this one are skipped: in strict mode, once a
/// document records a failure.
pub fn stops_batch(strict: bool, outcome: &DocumentOutcome) -> (stop: bool)
    ensures
        stop == (strict && has_failure(*outcome)),
{
    if !strict {
        return false;
    }
    match outcome {
        DocumentOutcome::Failed(_) => true,
        DocumentOutcome::Processed(r) => r.failed.len() > 0,
        DocumentOutcome::Skipped => false,
    }
}

/// What happened to one page.
pub enum PageEvent {
    /// Rendering failed with this message.
    RenderFailed(String),
    /// The image was written to `output_path`, with these dimensions.
    Saved { output_path: String, width_px: u32, height_px: u32 },
    /// Writing the image failed with this message.
    SaveFailed(String),
}

/// `f` is the failure of page `page_index` of `source` at `stage`.
pub open spec fn is_page_failure(
    f: PageFailure,
    source: Seq<char>,
    page_index: u32,
    stage: FailureStage,
    message: Seq<char>,
) -> bool {
    &&& f.source_path matches Some(p) && p@ == source
    &&& f.page_index == Some(page_index)
    &&& f.stage == stage
    &&& f.message@ == message
}

/// The pages of one document recorded so far, in page order.
pub struct PageRun {
    /// What has been recorded.
    pub report: ExtractReport,
    /// How many pages have been recorded (the index of the next page).
    pub pages_done: u32,
    /// How many pages the document has.
    pub page_count: usize,
}

/// Page `i` appears among the written or the failed pages of `r`.
pub open spec fn page_recorded(r: ExtractReport, i: u32) -> bool {
    ||| exists|k: int| 0 <= k < r.succeeded@.len() && (#[trigger] r.succeeded@[k]).page_index == i
    ||| exists|k: int| 0 <= k < r.failed@.len() && (#[trigger] r.failed@[k]).page_index == Some(i)
}

/// The failed page index at position `k` (or `u32::MAX` for a document-level entry).
pub open spec fn failed_index(r: ExtractReport, k: int) -> u32 {
    match r.failed@[k].page_index {
        Some(i) => i,
        None => u32::MAX,
    }
}

/// Every page of `0..pages_done` is recorded exactly once: it appears in
/// one of the two lists, each list is in strictly increasing page order,
/// only pages below `pages_done` appear, and no page is in both lists.
pub open spec fn page_run_wf(run: PageRun) -> bool {
    let r = run.report;
    &&& run.pages_done <= run.page_count <= u32::MAX
    &&& r.succeeded@.len() + r.failed@.len() == run.pages_done
    &&& forall|k: int| 0 <= k < r.succeeded@.len() ==> (#[trigger] r.succeeded@[k]).page_index < run.pages_done
    &&& forall|k: int| 0 <= k < r.failed@.len() ==> (#[trigger] r.failed@[k]).page_index is Some
        && failed_index(r, k) < run.pages_done
    &&& forall|a: int, b: int|
        0 <= a < b < r.succeeded@.len() ==> (#[trigger] r.succeeded@[a]).page_index
            < (#[trigger] r.succeeded@[b]).page_index
    &&& forall|a: int, b: int|
        0 <= a < b < r.failed@.len() ==> #[trigger] failed_index(r, a) < #[trigger] failed_index(r, b)
    &&& forall|a: int, b: int|
        0 <= a < r.succeeded@.len() && 0 <= b < r.failed@.len() ==> (#[trigger] r.succeeded@[a]).page_index
            != #[trigger] failed_index(r, b)
    &&& forall|i: u32| i < run.pages_done ==> #[trigger] page_recorded(r, i)
}

impl PageRun {
    /// Starts the pages of a `page_count`-page document; a document with a
    /// page whose index does not fit a `u32` fails at once (`Rasterize`).
    pub fn start(path: &str, page_count: usize) -> (r: Result<PageRun, DocumentOutcome>)
        ensures
            match r {
                Ok(run) => {
                    &&& page_count <= u32::MAX
                    &&& run.page_count == page_count
                    &&& run.pages_done == 0
                    &&& run.report.succeeded@.len() == 0
                    &&& run.report.failed@.len() == 0
                    &&& page_run_wf(run)
                },
                Err(o) => {
                    &&& page_count > u32::MAX
                    &&& o matches DocumentOutcome::Failed(f) && is_document_failure(
                        f,
                        Some(path@),
                        FailureStage::Rasterize,
                        too_many_pages_text((u32::MAX + 1) as nat),
                    )
                },
            },
    {
        if page_count > u32::MAX as usize {
            let first_unfit: usize = u32::MAX as usize + 1;
            return Err(raster_failure(path, RasterFailure::TooManyPages(first_unfit)));
        }
        Ok(PageRun { report: ExtractReport::new(), pages_done: 0, page_count })
    }

    /// Where the image of the next page is written inside the document's
    /// directory `doc_dir`.
    pub fn next_page_path(
        &self,
        doc_dir: &str,
        stem: &str,
        format: ImageFormat,
        flat: bool,
    ) -> (p: String)
        requires
            page_run_wf(*self),
            self.pages_done < self.page_count,
        ensures
            p@ == spec_document_page_path(
                doc_dir@,
                stem@,
                self.pages_done as nat,
                self.page_count as nat,
                format,
                flat,
            ),
    {
        document_page_path(doc_dir, stem, self.pages_done, self.page_count, format, flat)
    }
}

/// Records what happened to the next page (index `pages_done`), and says
/// whether to go on with the page after it.  A failure is recorded in every
/// mode; in strict mode it also stops the document.
pub fn record_page(run: &mut PageRun, source: &str, event: PageEvent, strict: bool) -> (keep_going: bool)
    requires
        old(run).pages_done < old(run).page_count,
        page_run_wf(*old(run)),
    ensures
        page_run_wf(*final(run)),
        final(run).pages_done == old(run).pages_done + 1,
        final(run).page_count == old(run).page_count,
        match event {
            PageEvent::Saved { output_path, width_px, height_px } => {
                &&& keep_going
                &&& final(run).report.failed@ == old(run).report.failed@
                &&& final(run).report.succeeded@.len() == old(run).report.succeeded@.len() + 1
                &&& final(run).report.succeeded@.drop_last() == old(run).report.succeeded@
                &&& final(run).report.succeeded@.last().source_path matches Some(p) && p@ == source@
                &&& final(run).report.succeeded@.last().page_index == old(run).pages_done
                &&& final(run).report.succeeded@.last().output_path@ == output_path@
                &&& final(run).report.succeeded@.last().width_px == width_px
                &&& final(run).report.succeeded@.last().height_px == height_px
            },
            PageEvent::RenderFailed(message) => record_failure(
                old(run).report,
                final(run).report,
                keep_going,
                strict,
                source@,
                old(run).pages_done,
                FailureStage::Rasterize,
                message@,
            ),
            PageEvent::SaveFailed(message) => record_failure(
                old(run).report,
                final(run).report,
                keep_going,
                strict,
                source@,
                old(run).pages_done,
                FailureStage::Write,
                message@,
            ),
        },
{
    let ghost prior = *run;
    let page_index = run.pages_done;
    let keep_going = match event {
        PageEvent::Saved { output_path, width_px, height_px } => {
            run.report.succeeded.push(
                PageArtifact {
                    source_path: Some(source.to_owned()),
                    page_index,
                    output_path,
                    width_px,
                    height_px,
                },
            );
            assert(run.report.succeeded@.drop_last() =~= prior.report.succeeded@);
            true
        },
        PageEvent::RenderFailed(message) => {
            run.report.failed.push(
                PageFailure {
                    source_path: Some(source.to_owned()),
                    page_index: Some(page_index),
                    stage: FailureStage::Rasterize,
                    message,
                },
            );
            assert(run.report.failed@.drop_last() =~= prior.report.failed@);
            !strict
        },
        PageEvent::SaveFailed(message) => {
            run.report.failed.push(
                PageFailure {
                    source_path: Some(source.to_owned()),
                    page_index: Some(page_index),
                    stage: FailureStage::Write,
                    message,
                },
            );
            assert(run.report.failed@.drop_last() =~= prior.report.failed@);
            !strict
        },
    };
    run.pages_done = page_index + 1;
    proof {
        let r = run.report;
        let pr = prior.report;
        assert forall|k: int| 0 <= k < pr.failed@.len() implies failed_index(r, k) == failed_index(pr, k) by {
            assert(r.failed@[k] == pr.failed@[k]);
        }
        assert forall|i: u32| i < run.pages_done implies #[trigger] page_recorded(r, i) by {
            if i == page_index {
                if r.succeeded@.len() > pr.succeeded@.len() {
                    assert(r.succeeded@[r.succeeded@.len() - 1].page_index == i);
                } else {
                    assert(r.failed@[r.failed@.len() - 1].page_index == Some(i));
                }
            } else {
                assert(page_recorded(pr, i));
                if exists|k: int| 0 <= k < pr.succeeded@.len() && (#[trigger] pr.succeeded@[k]).page_index == i {
                    let k = choose|k: int| 0 <= k < pr.succeeded@.len() && (#[trigger] pr.succeeded@[k]).page_index == i;
                    assert(r.succeeded@[k] == pr.succeeded@[k]);
                } else {
                    let k = choose|k: int| 0 <= k < pr.failed@.len() && (#[trigger] pr.failed@[k]).page_index == Some(i);
                    assert(r.failed@[k] == pr.failed@[k]);
                }
            }
        }
    }
    keep_going
}

/// A page failure is appended to the failures; the document goes on unless
/// in strict mode, where this failure stops it.
pub open spec fn record_failure(
    before: ExtractReport,
    after: ExtractReport,
    keep_going: bool,
    strict: bool,
    source: Seq<char>,
    page_index: u32,
    stage: FailureStage,
    message: Seq<char>,
) -> bool {
    &&& keep_going == !strict
    &&& after.succeeded@ == before.succeeded@
    &&& after.failed@.len() == before.failed@.len() + 1
    &&& after.failed@.drop_last() == before.failed@
    &&& is_page_failure(after.failed@.last(), source, page_index, stage, message)
}

/// What the progress sink is told when a document ends.
pub enum ProgressEvent {
    /// The document reached the page stage.
    Done { pages_ok: u32, pages_failed: u32 },
    /// The document failed as a whole.
    Failed { message: String },
    /// The document was skipped.
    Skipped,
}

/// The progress event of an outcome; page counts are held at `u32::MAX`.
pub fn progress_event(outcome: &DocumentOutcome) -> (e: ProgressEvent)
    ensures
        match *outcome {
            DocumentOutcome::Processed(r) => e matches ProgressEvent::Done { pages_ok, pages_failed }
                && pages_ok == saturate(r.succeeded@.len()) && pages_failed == saturate(
                r.failed@.len(),
            ),
            DocumentOutcome::Failed(f) => e matches ProgressEvent::Failed { message } && message@
                == f.message@,
            DocumentOutcome::Skipped => e matches ProgressEvent::Skipped,
        },
{
    match outcome {
        DocumentOutcome::Processed(r) => ProgressEvent::Done {
            pages_ok: saturating(r.succeeded.len()),
            pages_failed: saturating(r.failed.len()),
        },
        DocumentOutcome::Failed(f) => ProgressEvent::Failed { message: f.message.clone() },
        DocumentOutcome::Skipped => ProgressEvent::Skipped,
    }
}

/// `n`, held at `u32::MAX`.
pub fn saturating(n: usize) -> (r: u32)
    ensures
        r == saturate(n as nat),
{
    if n > u32::MAX as usize { u32::MAX } else { n as u32 }
}

/// Tells the sink how a document ended.
pub fn report_progress<P: ProgressSink>(
    progress: &P,
    idx: u32,
    total: u32,
    label: &str,
    outcome: &DocumentOutcome,
) {
    match progress_event(outcome) {
        ProgressEvent::Done { pages_ok, pages_failed } => {
            progress.record_done(idx, total, label, pages_ok, pages_failed);
        },
        ProgressEvent::Failed { message } => {
            progress.record_failed(idx, total, label, message.as_str());
        },
        ProgressEvent::Skipped => {
            progress.record_skipped(idx, total, label);
        },
    }
}

/// The work of a batch, decided before any document is touched.
pub struct BatchPlan {
    /// The options, normalized.
    pub options: Options,
    /// The output directory of each input.
    pub output_dirs: Vec<String>,
    /// The display label of each input.
    pub labels: Vec<String>,
    /// The number of inputs, held at `u32::MAX`.
    pub total: u32,
}

/// Plans a batch: an empty input list is a configuration error; otherwise
/// the options are normalized and each input gets its output directory and
/// label (a flat-layout stem collision is a configuration error).
pub fn plan_batch(inputs: &[SourceInput], options: Options) -> (r: Result<BatchPlan, PageseerError>)
    ensures
        inputs@.len() == 0 ==> (r matches Err(PageseerError::Config(m)) && m@ == "empty input list"@),
        inputs@.len() > 0 ==> match r {
            Ok(plan) => {
                &&& plan.options == normalized_options(options)
                &&& dirs_for_inputs(inputs@, options.output_dir@, options.flat, plan.output_dirs@)
                &&& plan.labels@.len() == inputs@.len()
                &&& forall|i: int|
                    0 <= i < inputs@.len() ==> (#[trigger] plan.labels@[i])@ == spec_source_label(
                        inputs@[i],
                    )
                &&& plan.total == saturate(inputs@.len())
            },
            Err(e) => collision_for_inputs(inputs@, options.flat, e),
        },
{
    if inputs.len() == 0 {
        return Err(PageseerError::Config("empty input list".to_owned()));
    }
    let options = options.normalized();
    let output_dirs = match dedup_output_dirs(inputs, options.output_dir.as_str(), options.flat) {
        Ok(d) => d,
        Err(e) => return Err(e),
    };
    let n = inputs.len();
    let mut labels: Vec<String> = Vec::new();
    let mut i: usize = 0;
    while i < n
        invariant
            n == inputs@.len(),
            i <= n,
            labels@.len() == i,
            forall|q: int| 0 <= q < i ==> (#[trigger] labels@[q])@ == spec_source_label(inputs@[q]),
        decreases n - i,
    {
        labels.push(source_label(&inputs[i]));
        i = i + 1;
    }
    Ok(BatchPlan { options, output_dirs, labels, total: saturating(n) })
}

/// A batch in progress: its plan, the results of the documents handled so
/// far, and whether a strict-mode failure has stopped it.
pub struct BatchRun {
    /// The plan of the batch.
    pub plan: BatchPlan,
    /// One result per document handled so far, in input order.
    pub documents: Vec<DocumentResult>,
    /// A failure in strict mode: the remaining documents are skipped.
    pub stopped: bool,
}

/// Some document before position `k` recorded a failure.
pub open spec fn failure_before(docs: Seq<DocumentResult>, k: int) -> bool {
    exists|a: int| 0 <= a < k && #[trigger] has_failure(docs[a].outcome)
}

/// The invariant of a batch in progress: each result carries its input's
/// position, label and directory; a document is skipped exactly when, in
/// strict mode, an earlier document recorded a failure; and the batch is
/// stopped exactly when, in strict mode, some document recorded one.
pub open spec fn batch_run_wf(run: BatchRun) -> bool {
    let docs = run.documents@;
    let strict = run.plan.options.strict;
    &&& run.plan.labels@.len() == run.plan.output_dirs@.len()
    &&& docs.len() <= run.plan.labels@.len()
    &&& forall|k: int|
        0 <= k < docs.len() ==> {
            &&& (#[trigger] docs[k]).input_index == saturate(k as nat)
            &&& docs[k].source_label@ == run.plan.labels@[k]@
            &&& docs[k].output_dir@ == run.plan.output_dirs@[k]@
            &&& (docs[k].outcome is Skipped <==> strict && failure_before(docs, k))
        }
    &&& run.stopped == (strict && failure_before(docs, docs.len() as int))
}

impl BatchRun {
    /// A batch with no document handled yet.
    pub fn new(plan: BatchPlan) -> (run: BatchRun)
        requires
            plan.labels@.len() == plan.output_dirs@.len(),
        ensures
            run.plan == plan,
            run.documents@.len() == 0,
            !run.stopped,
            batch_run_wf(run),
    {
        BatchRun { plan, documents: Vec::new(), stopped: false }
    }

    fn push_result(&mut self, outcome: DocumentOutcome)
        requires
            old(self).documents@.len() < old(self).plan.labels@.len(),
            old(self).plan.labels@.len() == old(self).plan.output_dirs@.len(),
        ensures
            final(self).plan == old(self).plan,
            final(self).stopped == old(self).stopped,
            final(self).documents@.len() == old(self).documents@.len() + 1,
            final(self).documents@.drop_last() == old(self).documents@,
            final(self).documents@.last().outcome == outcome,
            final(self).documents@.last().input_index == saturate(old(self).documents@.len()),
            final(self).documents@.last().source_label@ == old(self).plan.labels@[old(
                self,
            ).documents@.len() as int]@,
            final(self).documents@.last().output_dir@ == old(self).plan.output_dirs@[old(
                self,
            ).documents@.len() as int]@,
    {
        let i = self.documents.len();
        let result = DocumentResult {
            input_index: saturating(i),
            source_label: self.plan.labels[i].clone(),
            output_dir: self.plan.output_dirs[i].clone(),
            outcome,
        };
        self.documents.push(result);
        assert(self.documents@.drop_last() =~= old(self).documents@);
    }

    /// Records the outcome of the next document, which was attempted; a
    /// failure in strict mode stops the batch.
    pub fn record_attempt(&mut self, outcome: DocumentOutcome)
        requires
            batch_run_wf(*old(self)),
            !old(self).stopped,
            old(self).documents@.len() < old(self).plan.labels@.len(),
            !(outcome is Skipped),
        ensures
            batch_run_wf(*final(self)),
            final(self).plan == old(self).plan,
            final(self).documents@.drop_last() == old(self).documents@,
            final(self).documents@.last().outcome == outcome,
            final(self).stopped == (old(self).plan.options.strict && has_failure(outcome)),
    {
        let stop = stops_batch(self.plan.options.strict, &outcome);
        let ghost prior = self.documents@;
        self.push_result(outcome);
        self.stopped = stop;
        proof { self.lemma_step(prior); }
    }

    /// Records the next document as skipped (the batch was stopped).
    pub fn record_skip(&mut self)
        requires
            batch_run_wf(*old(self)),
            old(self).stopped,
            old(self).documents@.len() < old(self).plan.labels@.len(),
        ensures
            batch_run_wf(*final(self)),
            final(self).plan == old(self).plan,
            final(self).documents@.drop_last() == old(self).documents@,
            final(self).documents@.last().outcome is Skipped,
            final(self).stopped,
    {
        let ghost prior = self.documents@;
        self.push_result(DocumentOutcome::Skipped);
        proof { self.lemma_step(prior); }
    }

    proof fn lemma_step(&self, prior: Seq<DocumentResult>)
        requires
            self.documents@.len() == prior.len() + 1,
            self.documents@.drop_last() == prior,
            self.plan.labels@.len() == self.plan.output_dirs@.len(),
            self.documents@.len() <= self.plan.labels@.len(),
            forall|k: int|
                0 <= k < prior.len() ==> {
                    &&& (#[trigger] prior[k]).input_index == saturate(k as nat)
                    &&& prior[k].source_label@ == self.plan.labels@[k]@
                    &&& prior[k].output_dir@ == self.plan.output_dirs@[k]@
                    &&& (prior[k].outcome is Skipped <==> self.plan.options.strict && failure_before(prior, k))
                },
            self.documents@.last().input_index == saturate(prior.len()),
            self.documents@.last().source_label@ == self.plan.labels@[prior.len() as int]@,
            self.documents@.last().output_dir@ == self.plan.output_dirs@[prior.len() as int]@,
            (self.documents@.last().outcome is Skipped <==> self.plan.options.strict && failure_before(
                prior,
                prior.len() as int,
            )),
            self.stopped == (self.plan.options.strict && (failure_before(prior, prior.len() as int)
                || has_failure(self.documents@.last().outcome))),
        ensures
            batch_run_wf(*self),
    {
        let docs = self.documents@;
        let n = prior.len() as int;
        assert forall|k: int| 0 <= k < docs.len() implies failure_before(docs, k) == failure_before(prior, k) || k == docs.len() by {
            if k < docs.len() {
                if failure_before(docs, k) {
                    let a = choose|a: int| 0 <= a < k && #[trigger] has_failure(docs[a].outcome);
                    assert(docs[a] == prior[a]);
                }
                if failure_before(prior, k) {
                    let a = choose|a: int| 0 <= a < k && #[trigger] has_failure(prior[a].outcome);
                    assert(docs[a] == prior[a]);
                }
            }
        }
        assert forall|k: int| 0 <= k < docs.len() implies {
            &&& (#[trigger] docs[k]).input_index == saturate(k as nat)
            &&& docs[k].source_label@ == self.plan.labels@[k]@
            &&& docs[k].output_dir@ == self.plan.output_dirs@[k]@
            &&& (docs[k].outcome is Skipped <==> self.plan.options.strict && failure_before(docs, k))
        } by {
            if k < n {
                assert(docs[k] == prior[k]);
            }
        }
        assert(failure_before(docs, docs.len() as int) == (failure_before(prior, n) || has_failure(docs[n].outcome))) by {
            if failure_before(prior, n) {
                let a = choose|a: int| 0 <= a < n && #[trigger] has_failure(prior[a].outcome);
                assert(docs[a] == prior[a]);
            }
            if failure_before(docs, docs.len() as int) && !has_failure(docs[n].outcome) {
                let a = choose|a: int| 0 <= a < docs.len() && #[trigger] has_failure(docs[a].outcome);
                assert(a != n);
                assert(docs[a] == prior[a]);
            }
        }
    }

    /// Closes the batch (see `finish_batch`).
    pub fn finish(self) -> (r: (BatchReport, bool))
        ensures
            r.0.documents == self.documents,
            r.0.summary == summary_of(self.documents@),
            r.1 == needs_errors_file(r.0.summary),
    {
        finish_batch(self.documents)
    }
}

/// The summary calls for an `errors.json`: some page or document failed.
pub open spec fn needs_errors_file(s: BatchSummary) -> bool {
    s.pages_failed > 0 || s.documents_failed > 0
}

/// Closes a batch: the report of the documents with their summary, and
/// whether an `errors.json` is to be written.
pub fn finish_batch(documents: Vec<DocumentResult>) -> (r: (BatchReport, bool))
    ensures
        r.0.documents == documents,
        r.0.summary == summary_of(documents@),
        r.1 == needs_errors_file(r.0.summary),
{
    let summary = BatchSummary::from_documents(documents.as_slice());
    let write_errors = summary.pages_failed > 0 || summary.documents_failed > 0;
    (BatchReport { documents, summary }, write_errors)
}

/// The exit status for a summary: 0 when nothing failed, 2 when some
/// pages still succeeded, 1 otherwise.
pub open spec fn exit_code_for(s: BatchSummary) -> u8 {
    if s.pages_failed == 0 && s.documents_failed == 0 {
        0
    } else if s.pages_succeeded > 0 {
        2
    } else {
        1
    }
}

/// The process exit status of a finished batch.
pub fn summary_to_exit_code(s: &BatchSummary) -> (code: u8)
    ensures
        code == exit_code_for(*s),
{
    if s.pages_failed == 0 && s.documents_failed == 0 {
        0
    } else if s.pages_succeeded > 0 {
        2
    } else {
        1
    }
}

} // verus!
