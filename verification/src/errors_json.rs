//! The content of `errors.json`: one entry per failure of a batch.
use vstd::prelude::*;
use crate::report::{
    stage_name, BatchReport, BatchSummary, DocumentOutcome, DocumentResult, PageFailure,
};

verus! {

/// Root of the `errors.json` schema (version 2).
#[derive(Debug)]
pub struct ErrorsReport {
    /// Schema version (currently 2).
    pub version: u32,
    /// Batch counts.
    pub summary: BatchSummary,
    /// One entry per failure.
    pub errors: Vec<ErrorEntry>,
}

/// One failure.
#[derive(Debug)]
pub struct ErrorEntry {
    /// Input index of the document.
    pub document_index: u32,
    /// The failure's source path, or the document label when it has none.
    pub source: String,
    /// One-based page number; `None` for a document-level failure.
    pub page: Option<u32>,
    /// Stage identifier.
    pub stage: &'static str,
    /// Human-readable message.
    pub message: String,
}

/// The failures a document contributes: its failed pages when processed,
/// its single failure when it failed as a whole, none when skipped.
pub open spec fn doc_failures(d: DocumentResult) -> Seq<PageFailure> {
    match d.outcome {
        DocumentOutcome::Processed(r) => r.failed@,
        DocumentOutcome::Failed(f) => seq![f],
        DocumentOutcome::Skipped => Seq::empty(),
    }
}

/// Every failure of a batch with its document, in document order.
pub open spec fn failures_of(docs: Seq<DocumentResult>) -> Seq<(DocumentResult, PageFailure)>
    decreases docs.len(),
{
    if docs.len() == 0 {
        Seq::empty()
    } else {
        let d = docs.last();
        failures_of(docs.drop_last()) + doc_failures(d).map_values(|f: PageFailure| (d, f))
    }
}

/// No page failure carries the largest page index, whose one-based number
/// would not fit.
pub open spec fn page_numbers_fit(docs: Seq<DocumentResult>) -> bool {
    forall|k: int|
        0 <= k < failures_of(docs).len() ==> (#[trigger] failures_of(docs)[k]).1.page_index != Some(
            u32::MAX,
        )
}

/// The entry that reports failure `f` of document `d`.
pub open spec fn entry_matches(e: ErrorEntry, d: DocumentResult, f: PageFailure) -> bool {
    &&& e.document_index == d.input_index
    &&& e.source@ == match f.source_path {
        Some(p) => p@,
        None => d.source_label@,
    }
    &&& e.page == match f.page_index {
        Some(i) => Some((i + 1) as u32),
        None => None,
    }
    &&& e.stage@ == stage_name(f.stage)
    &&& e.message@ == f.message@
}

/// The entry for failure `f` of document `doc`, with a one-based page number.
fn entry_for(doc: &DocumentResult, f: &PageFailure) -> (e: ErrorEntry)
    requires
        f.page_index != Some(u32::MAX),
    ensures
        entry_matches(e, *doc, *f),
{
    let source = match &f.source_path {
        Some(p) => p.clone(),
        None => doc.source_label.clone(),
    };
    let page = match f.page_index {
        Some(i) => Some(i + 1),
        None => None,
    };
    ErrorEntry {
        document_index: doc.input_index,
        source,
        page,
        stage: f.stage.as_str(),
        message: f.message.clone(),
    }
}

/// The `errors.json` content of a batch, or `None` when nothing failed (the
/// caller then writes no file).
pub fn build(report: &BatchReport) -> (r: Option<ErrorsReport>)
    requires
        page_numbers_fit(report.documents@),
    ensures
        match r {
            None => failures_of(report.documents@).len() == 0,
            Some(p) => {
                &&& failures_of(report.documents@).len() > 0
                &&& p.version == 2
                &&& p.summary == report.summary
                &&& p.errors@.len() == failures_of(report.documents@).len()
                &&& forall|k: int|
                    0 <= k < p.errors@.len() ==> entry_matches(
                        #[trigger] p.errors@[k],
                        failures_of(report.documents@)[k].0,
                        failures_of(report.documents@)[k].1,
                    )
            },
        },
{
    let docs = &report.documents;
    let n = docs.len();
    let mut errors: Vec<ErrorEntry> = Vec::new();
    let mut i: usize = 0;
    assert(docs@.take(0) =~= Seq::<DocumentResult>::empty());
    while i < n
        invariant
            n == docs@.len(),
            i <= n,
            page_numbers_fit(docs@),
            errors@.len() == failures_of(docs@.take(i as int)).len(),
            forall|k: int|
                0 <= k < errors@.len() ==> entry_matches(
                    #[trigger] errors@[k],
                    failures_of(docs@.take(i as int))[k].0,
                    failures_of(docs@.take(i as int))[k].1,
                ),
        decreases n - i,
    {
        let doc = &docs[i];
        let ghost before = failures_of(docs@.take(i as int));
        let ghost mine = doc_failures(*doc).map_values(|f: PageFailure| (*doc, f));
        proof {
            assert(docs@.take(i + 1).drop_last() =~= docs@.take(i as int));
            assert(failures_of(docs@.take(i + 1)) == before + mine);
            lemma_failures_prefix(docs@, i as int);
        }
        match &doc.outcome {
            DocumentOutcome::Processed(inner) => {
                let m = inner.failed.len();
                let mut j: usize = 0;
                while j < m
                    invariant
                        m == inner.failed@.len(),
                        j <= m,
                        doc_failures(*doc) == inner.failed@,
                        mine == doc_failures(*doc).map_values(|f: PageFailure| (*doc, f)),
                        forall|q: int| 0 <= q < mine.len() ==> (#[trigger] mine[q]).1.page_index != Some(u32::MAX),
                        errors@.len() == before.len() + j,
                        forall|k: int|
                            0 <= k < before.len() ==> entry_matches(
                                #[trigger] errors@[k],
                                before[k].0,
                                before[k].1,
                            ),
                        forall|k: int|
                            before.len() <= k < errors@.len() ==> entry_matches(
                                #[trigger] errors@[k],
                                mine[k - before.len()].0,
                                mine[k - before.len()].1,
                            ),
                    decreases m - j,
                {
                    assert(mine[j as int] == (*doc, inner.failed@[j as int]));
                    errors.push(entry_for(doc, &inner.failed[j]));
                    j = j + 1;
                }
            },
            DocumentOutcome::Failed(f) => {
                assert(mine[0] == (*doc, *f));
                errors.push(entry_for(doc, f));
            },
            DocumentOutcome::Skipped => {},
        }
        assert forall|k: int| 0 <= k < errors@.len() implies entry_matches(
            #[trigger] errors@[k],
            failures_of(docs@.take(i + 1))[k].0,
            failures_of(docs@.take(i + 1))[k].1,
        ) by {
            if k >= before.len() {
                assert(failures_of(docs@.take(i + 1))[k] == mine[k - before.len()]);
            } else {
                assert(failures_of(docs@.take(i + 1))[k] == before[k]);
            }
        }
        i = i + 1;
    }
    assert(docs@.take(n as int) =~= docs@);
    if errors.len() == 0 {
        return None;
    }
    Some(ErrorsReport { version: 2, summary: report.summary, errors })
}

/// The failures of document `i` are those that follow the failures of the
/// documents before it, so the page numbers of a prefix fit when the whole does.
proof fn lemma_failures_prefix(docs: Seq<DocumentResult>, i: int)
    requires
        0 <= i < docs.len(),
        page_numbers_fit(docs),
    ensures
        forall|q: int|
            0 <= q < doc_failures(docs[i]).len() ==> (#[trigger] doc_failures(docs[i])[q]).page_index
                != Some(u32::MAX),
{
    lemma_failures_append(docs, i);
    assert forall|q: int| 0 <= q < doc_failures(docs[i]).len() implies (#[trigger] doc_failures(
        docs[i],
    )[q]).page_index != Some(u32::MAX) by {
        let k = failures_of(docs.take(i)).len() + q;
        assert(failures_of(docs)[k] == (docs[i], doc_failures(docs[i])[q]));
    }
}

/// The failures of the first `i + 1` documents are a prefix of all failures.
proof fn lemma_failures_append(docs: Seq<DocumentResult>, i: int)
    requires
        0 <= i < docs.len(),
    ensures
        failures_of(docs).len() >= failures_of(docs.take(i + 1)).len(),
        forall|k: int|
            0 <= k < failures_of(docs.take(i + 1)).len() ==> failures_of(docs)[k] == failures_of(
                docs.take(i + 1),
            )[k],
        failures_of(docs.take(i + 1)) == failures_of(docs.take(i)) + doc_failures(docs[i]).map_values(
            |f: PageFailure| (docs[i], f),
        ),
    decreases docs.len(),
{
    assert(docs.take(i + 1).drop_last() =~= docs.take(i));
    if i + 1 < docs.len() {
        lemma_failures_append(docs.drop_last(), i);
        assert(docs.drop_last().take(i + 1) =~= docs.take(i + 1));
        assert(docs.drop_last().take(i) =~= docs.take(i));
    } else {
        assert(docs.take(i + 1) =~= docs);
    }
}

} // verus!
