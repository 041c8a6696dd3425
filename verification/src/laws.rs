//! Properties that relate several functions of the library.
use vstd::prelude::*;
use crate::batch::{
    collision_for_inputs, collision_text, count_in, dedup_dir, dirs_for_inputs, repeats_before,
    spec_stem, stems_of,
};
use crate::error::{debug_quoted, PageseerError};
use crate::SourceInput;
use crate::errors_json::{doc_failures, entry_matches, failures_of, ErrorEntry};
use crate::format::format_of_path;
use crate::gotenberg::trim_trailing_slashes;
use crate::options::{format_extension, normalized_options, ImageFormat, Options};
use crate::output::{page_file_name, spec_document_page_path, spec_padding_width, spec_page_output_path};
use crate::paths::{extension, file_name, file_stem, join, last_dot};
use crate::pipeline::{
    artifact_relocated, batch_run_wf, exit_code_for, failed_index, failure_before,
    failure_relocated, has_failure, is_page_failure, needs_errors_file, outcome_relocated,
    page_recorded, page_run_wf, record_failure, stem_or_document, task_for, BatchRun,
    DocumentTask, PageRun,
};
use crate::report::{
    is_failed, is_partial, is_skipped, is_succeeded, is_whole_failure, pages_bad, pages_ok,
    stage_name, sum_over,
    summary_of, BatchSummary, DocumentOutcome, DocumentResult, ExtractReport, FailureStage,
    PageFailure,
};
use crate::text::{
    dec, lemma_dec_injective, lemma_dec_len_monotone, lemma_dec_value, lemma_zero_padded_injective,
    lemma_lex_frame, lemma_lex_of_value, lemma_zero_padded_digits, lemma_zero_padded_value, lex_less,
    lower, zero_padded,
};

verus! {

proof fn lemma_partition(docs: Seq<DocumentResult>)
    ensures
        sum_over(docs, |d: DocumentResult| is_succeeded(d)) + sum_over(docs, |d: DocumentResult| is_partial(d))
            + sum_over(docs, |d: DocumentResult| is_failed(d)) + sum_over(docs, |d: DocumentResult| is_skipped(d))
            == docs.len(),
    decreases docs.len(),
{
    if docs.len() > 0 {
        lemma_partition(docs.drop_last());
    }
}

/// Every document of a batch is counted exactly once: succeeded, partial,
/// failed and skipped add up to the total (when the count fits a `u32`).
pub proof fn law_documents_partition(docs: Seq<DocumentResult>)
    requires
        docs.len() <= u32::MAX,
    ensures
        summary_of(docs).documents_succeeded + summary_of(docs).documents_partial
            + summary_of(docs).documents_failed + summary_of(docs).documents_skipped
            == summary_of(docs).documents_total,
{
    lemma_partition(docs);
}

/// The number of error entries is the number of failed pages plus the
/// number of documents that failed as a whole.
proof fn lemma_failure_count(docs: Seq<DocumentResult>)
    ensures
        failures_of(docs).len() == sum_over(docs, |d: DocumentResult| pages_bad(d)) + sum_over(
            docs,
            |d: DocumentResult| is_whole_failure(d),
        ),
        sum_over(docs, |d: DocumentResult| is_whole_failure(d)) <= sum_over(
            docs,
            |d: DocumentResult| is_failed(d),
        ),
        sum_over(docs, |d: DocumentResult| is_failed(d)) <= sum_over(
            docs,
            |d: DocumentResult| is_whole_failure(d),
        ) + sum_over(docs, |d: DocumentResult| pages_bad(d)),
    decreases docs.len(),
{
    if docs.len() > 0 {
        lemma_failure_count(docs.drop_last());
        let d = docs.last();
        assert(doc_failures(d).map_values(|f: crate::report::PageFailure| (d, f)).len() == doc_failures(
            d,
        ).len());
    }
}

/// An `errors.json` is written exactly when it has entries: the summary
/// reports a failed page or a failed document if and only if the error
/// report of the same documents is non-empty.
pub proof fn law_errors_file_iff_failures(docs: Seq<DocumentResult>)
    ensures
        needs_errors_file(summary_of(docs)) <==> failures_of(docs).len() > 0,
{
    lemma_failure_count(docs);
}

/// When the page count fits, the error report holds one entry per failed
/// page and one per document that failed as a whole.
pub proof fn law_error_entries_match_summary(docs: Seq<DocumentResult>)
    requires
        sum_over(docs, |d: DocumentResult| pages_bad(d)) <= u32::MAX,
    ensures
        failures_of(docs).len() == summary_of(docs).pages_failed + sum_over(
            docs,
            |d: DocumentResult| is_whole_failure(d),
        ),
{
    lemma_failure_count(docs);
}

/// The command line exits with 0 exactly when no error report is due.
pub proof fn law_exit_zero_iff_no_errors(docs: Seq<DocumentResult>)
    ensures
        exit_code_for(summary_of(docs)) == 0 <==> failures_of(docs).len() == 0,
        exit_code_for(summary_of(docs)) == 0 <==> !needs_errors_file(summary_of(docs)),
{
    law_errors_file_iff_failures(docs);
}

/// Re-pointing source paths (after a conversion) changes no count of the
/// document: its class and its page counts stay the same.
pub proof fn law_relocation_keeps_counts(d1: DocumentResult, d2: DocumentResult, input_path: Seq<char>)
    requires
        outcome_relocated(d2.outcome, d1.outcome, input_path),
    ensures
        is_succeeded(d2) == is_succeeded(d1),
        is_partial(d2) == is_partial(d1),
        is_failed(d2) == is_failed(d1),
        is_skipped(d2) == is_skipped(d1),
        pages_ok(d2) == pages_ok(d1),
        pages_bad(d2) == pages_bad(d1),
{
}

/// In strict mode the first page failure stops the document, and it is
/// recorded, not dropped.
pub proof fn law_strict_stops_and_reports(
    before: ExtractReport,
    after: ExtractReport,
    keep_going: bool,
    source: Seq<char>,
    page_index: u32,
    stage: FailureStage,
    message: Seq<char>,
)
    requires
        record_failure(before, after, keep_going, true, source, page_index, stage, message),
    ensures
        !keep_going,
        after.failed@.len() == before.failed@.len() + 1,
        is_page_failure(after.failed@.last(), source, page_index, stage, message),
        after.succeeded@ == before.succeeded@,
{
}

/// Every page of a document run appears exactly once among its results:
/// each page below `pages_done` is recorded, no page is recorded twice in
/// a list, and none is both written and failed.
pub proof fn law_each_page_once(run: PageRun, i: u32)
    requires
        page_run_wf(run),
        i < run.pages_done,
    ensures
        page_recorded(run.report, i),
        forall|a: int, b: int|
            0 <= a < run.report.succeeded@.len() && 0 <= b < run.report.succeeded@.len()
                && run.report.succeeded@[a].page_index == i && run.report.succeeded@[b].page_index == i
                ==> a == b,
        forall|a: int, b: int|
            0 <= a < run.report.failed@.len() && 0 <= b < run.report.failed@.len()
                && run.report.failed@[a].page_index == Some(i) && run.report.failed@[b].page_index
                == Some(i) ==> a == b,
        !((exists|a: int| 0 <= a < run.report.succeeded@.len() && run.report.succeeded@[a].page_index == i)
            && (exists|b: int| 0 <= b < run.report.failed@.len() && run.report.failed@[b].page_index == Some(i))),
{
    let r = run.report;
    assert forall|a: int, b: int|
        0 <= a < r.succeeded@.len() && 0 <= b < r.succeeded@.len() && r.succeeded@[a].page_index == i
            && r.succeeded@[b].page_index == i implies a == b by {
        if a < b {
            assert(r.succeeded@[a].page_index < r.succeeded@[b].page_index);
        } else if b < a {
            assert(r.succeeded@[b].page_index < r.succeeded@[a].page_index);
        }
    }
    assert forall|a: int, b: int|
        0 <= a < r.failed@.len() && 0 <= b < r.failed@.len() && r.failed@[a].page_index == Some(i)
            && r.failed@[b].page_index == Some(i) implies a == b by {
        assert(failed_index(r, a) == i);
        assert(failed_index(r, b) == i);
        if a < b {
            assert(failed_index(r, a) < failed_index(r, b));
        } else if b < a {
            assert(failed_index(r, b) < failed_index(r, a));
        }
    }
    if (exists|a: int| 0 <= a < r.succeeded@.len() && r.succeeded@[a].page_index == i)
        && (exists|b: int| 0 <= b < r.failed@.len() && r.failed@[b].page_index == Some(i)) {
        let a = choose|a: int| 0 <= a < r.succeeded@.len() && r.succeeded@[a].page_index == i;
        let b = choose|b: int| 0 <= b < r.failed@.len() && r.failed@[b].page_index == Some(i);
        assert(failed_index(r, b) == i);
        assert(r.succeeded@[a].page_index != failed_index(r, b));
    }
}

/// In strict mode every document after the first one that records a
/// failure is skipped; without strict mode no document is skipped.
pub proof fn law_strict_skips_after_failure(run: BatchRun, a: int, b: int)
    requires
        batch_run_wf(run),
        0 <= a < b < run.documents@.len(),
    ensures
        run.plan.options.strict && has_failure(run.documents@[a].outcome) ==> run.documents@[b].outcome is Skipped,
        !run.plan.options.strict ==> !(run.documents@[b].outcome is Skipped),
{
    let docs = run.documents@;
    assert(docs[b].outcome is Skipped <==> run.plan.options.strict && failure_before(docs, b));
    if run.plan.options.strict && has_failure(docs[a].outcome) {
        assert(failure_before(docs, b));
    }
}

/// Normalizing options twice is normalizing them once, and the result
/// always processes at least one document at a time.
pub proof fn law_normalized_idempotent(o: Options)
    ensures
        normalized_options(normalized_options(o)) == normalized_options(o),
        normalized_options(o).concurrency >= 1,
{
}

/// The stage identifiers of the error schema are pairwise distinct.
pub proof fn law_stage_names_distinct(a: FailureStage, b: FailureStage)
    requires
        a != b,
    ensures
        stage_name(a) != stage_name(b),
{
    reveal_strlit("source-read");
    reveal_strlit("convert");
    reveal_strlit("rasterize");
    reveal_strlit("write");
    assert(stage_name(FailureStage::SourceRead).len() == 11);
    assert(stage_name(FailureStage::Convert).len() == 7);
    assert(stage_name(FailureStage::Rasterize).len() == 9);
    assert(stage_name(FailureStage::Write).len() == 5);
    if stage_name(a) == stage_name(b) {
        assert(stage_name(a).len() == stage_name(b).len());
        assert(stage_name(a)[0] == stage_name(b)[0]);
    }
}

/// Detection ignores ASCII case: two paths whose extensions agree once
/// lower-cased (`a.pdf`, `A.PDF`) are of the same format.
pub proof fn law_detection_ignores_case(p1: Seq<char>, p2: Seq<char>)
    requires
        extension(p1) is Some,
        extension(p2) is Some,
        lower(extension(p1).unwrap()) == lower(extension(p2).unwrap()),
    ensures
        format_of_path(p1) == format_of_path(p2),
{
}

proof fn lemma_last_dot_bounds(s: Seq<char>)
    ensures
        last_dot(s) matches Some(p) ==> 0 <= p < s.len() && s[p] == '.',
    decreases s.len(),
{
    if s.len() > 0 && s.last() != '.' {
        lemma_last_dot_bounds(s.drop_last());
    }
}

/// A file name with an extension is its stem, a dot, and the extension.
pub proof fn law_name_is_stem_dot_extension(path: Seq<char>)
    requires
        extension(path) is Some,
    ensures
        file_name(path) == Some(file_stem(path).unwrap() + seq!['.'] + extension(path).unwrap()),
{
    let name = file_name(path).unwrap();
    lemma_last_dot_bounds(name);
    let p = last_dot(name).unwrap();
    assert(name =~= name.subrange(0, p) + seq!['.'] + name.subrange(p + 1, name.len() as int));
}

/// A resolved service `URL` never ends with a slash, and resolving it again
/// changes nothing.
pub proof fn law_trimmed_url(s: Seq<char>)
    ensures
        trim_trailing_slashes(s).len() > 0 ==> trim_trailing_slashes(s).last() != '/',
        trim_trailing_slashes(trim_trailing_slashes(s)) == trim_trailing_slashes(s),
    decreases s.len(),
{
    if s.len() > 0 && s.last() == '/' {
        law_trimmed_url(s.drop_last());
    }
}

/// Every page number of a document fits in the padding width of its page
/// count, so all page numbers of a document have the same width.
pub proof fn law_page_numbers_fit_padding(page_count: nat, k: nat)
    requires
        1 <= k <= page_count,
    ensures
        dec(k).len() <= spec_padding_width(page_count),
        zero_padded(k, spec_padding_width(page_count)).len() == spec_padding_width(page_count),
{
    lemma_dec_len_monotone(k, page_count);
    lemma_zero_padded_value(k, spec_padding_width(page_count));
}

/// Joining one base with two parts that are both relative gives equal
/// paths only for equal parts.
proof fn lemma_join_injective(base: Seq<char>, p1: Seq<char>, p2: Seq<char>)
    requires
        !(p1.len() > 0 && p1[0] == '/'),
        !(p2.len() > 0 && p2[0] == '/'),
        join(base, p1) == join(base, p2),
    ensures
        p1 == p2,
{
    let head = if base.len() == 0 || base.last() == '/' { base } else { base + seq!['/'] };
    assert(join(base, p1) == head + p1);
    assert(join(base, p2) == head + p2);
    assert(p1 =~= (head + p1).subrange(head.len() as int, (head + p1).len() as int));
    assert(p2 =~= (head + p2).subrange(head.len() as int, (head + p2).len() as int));
}

/// Two parts that start the same way are both relative or both absolute.
proof fn lemma_same_start(p1: Seq<char>, p2: Seq<char>, prefix: Seq<char>)
    requires
        prefix.len() > 0,
        prefix.is_prefix_of(p1),
        prefix.is_prefix_of(p2),
    ensures
        (p1.len() > 0 && p1[0] == '/') == (p2.len() > 0 && p2[0] == '/'),
{
    assert(p1[0] == prefix[0]);
    assert(p2[0] == prefix[0]);
}

/// Equal sequences built as `a + x + b` and `a + y + b` with `x` and `y` of
/// the same length have `x == y`.
proof fn lemma_middle_equal(a: Seq<char>, x: Seq<char>, y: Seq<char>, b: Seq<char>)
    requires
        x.len() == y.len(),
        a + x + b == a + y + b,
    ensures
        x == y,
{
    assert(x =~= (a + x + b).subrange(a.len() as int, (a.len() + x.len()) as int));
    assert(y =~= (a + y + b).subrange(a.len() as int, (a.len() + y.len()) as int));
}

/// Page images sort in page order: for pages `a < b` of one document, the
/// path of `a` is lexicographically before the path of `b` (and so they
/// differ), whether taken inside the document's directory or from the root.
pub proof fn law_page_paths_in_order(
    dir: Seq<char>,
    stem: Seq<char>,
    a: nat,
    b: nat,
    page_count: nat,
    format: ImageFormat,
    flat: bool,
)
    requires
        a < b < page_count,
    ensures
        lex_less(
            spec_document_page_path(dir, stem, a, page_count, format, flat),
            spec_document_page_path(dir, stem, b, page_count, format, flat),
        ),
        spec_document_page_path(dir, stem, a, page_count, format, flat) != spec_document_page_path(
            dir,
            stem,
            b,
            page_count,
            format,
            flat,
        ),
        lex_less(
            spec_page_output_path(dir, stem, a, page_count, format, flat),
            spec_page_output_path(dir, stem, b, page_count, format, flat),
        ),
{
    let w = spec_padding_width(page_count);
    law_page_numbers_fit_padding(page_count, a + 1);
    law_page_numbers_fit_padding(page_count, b + 1);
    let za = zero_padded(a + 1, w);
    let zb = zero_padded(b + 1, w);
    lemma_zero_padded_value(a + 1, w);
    lemma_zero_padded_value(b + 1, w);
    lemma_zero_padded_digits(a + 1, w);
    lemma_zero_padded_digits(b + 1, w);
    lemma_lex_of_value(za, zb);
    let ext = "."@ + format_extension(format);
    reveal_strlit("page-");
    reveal_strlit("-");
    let lead = if flat { stem + "-"@ } else { "page-"@ };
    let n1 = page_file_name(stem, a + 1, w, format, flat);
    let n2 = page_file_name(stem, b + 1, w, format, flat);
    assert(n1 =~= lead + za + ext);
    assert(n2 =~= lead + zb + ext);
    assert(lead.len() > 0);
    assert(n1[0] == lead[0]);
    assert(n2[0] == lead[0]);
    lemma_ordered_join(dir, lead, za, zb, ext);
    let d2 = if flat { dir } else { join(dir, stem) };
    lemma_ordered_join(d2, lead, za, zb, ext);
    let p1 = spec_document_page_path(dir, stem, a, page_count, format, flat);
    let p2 = spec_document_page_path(dir, stem, b, page_count, format, flat);
    if p1 == p2 {
        let k = choose|k: int| 0 <= k < p1.len() && k < p2.len() && p1.take(k) == p2.take(k) && p1[k] < p2[k];
        assert(p1[k] == p2[k]);
    }
}

/// Joining a base with `lead + x + ext` and with `lead + y + ext` keeps the
/// order of `x` and `y`.
proof fn lemma_ordered_join(base: Seq<char>, lead: Seq<char>, x: Seq<char>, y: Seq<char>, ext: Seq<char>)
    requires
        lex_less(x, y),
        lead.len() > 0,
    ensures
        lex_less(join(base, lead + x + ext), join(base, lead + y + ext)),
{
    let n1 = lead + x + ext;
    let n2 = lead + y + ext;
    assert(n1[0] == lead[0]);
    assert(n2[0] == lead[0]);
    if lead[0] == '/' {
        lemma_lex_frame(lead, x, y, ext, ext);
    } else {
        let head = if base.len() == 0 || base.last() == '/' { base } else { base + seq!['/'] };
        assert(join(base, n1) =~= (head + lead) + x + ext);
        assert(join(base, n2) =~= (head + lead) + y + ext);
        lemma_lex_frame(head + lead, x, y, ext, ext);
    }
}

/// Rewriting source paths twice is rewriting them once with the second
/// path: the first rewrite is forgotten.
pub proof fn law_relocation_last_wins(
    o: DocumentOutcome,
    o1: DocumentOutcome,
    o2: DocumentOutcome,
    p: Seq<char>,
    q: Seq<char>,
)
    requires
        outcome_relocated(o1, o, p),
        outcome_relocated(o2, o1, q),
    ensures
        outcome_relocated(o2, o, q),
{
    match o {
        DocumentOutcome::Processed(r) => {
            let r1 = o1->Processed_0;
            let r2 = o2->Processed_0;
            assert forall|k: int| 0 <= k < r.succeeded@.len() implies artifact_relocated(
                #[trigger] r2.succeeded@[k],
                r.succeeded@[k],
                q,
            ) by {
                assert(artifact_relocated(r1.succeeded@[k], r.succeeded@[k], p));
                assert(artifact_relocated(r2.succeeded@[k], r1.succeeded@[k], q));
            }
            assert forall|k: int| 0 <= k < r.failed@.len() implies failure_relocated(
                #[trigger] r2.failed@[k],
                r.failed@[k],
                q,
            ) by {
                assert(failure_relocated(r1.failed@[k], r.failed@[k], p));
                assert(failure_relocated(r2.failed@[k], r1.failed@[k], q));
            }
        },
        _ => {},
    }
}

/// Distinct pages of a document are written to distinct files, in either layout.
pub proof fn law_page_paths_distinct(
    output_dir: Seq<char>,
    stem: Seq<char>,
    a: nat,
    b: nat,
    page_count: nat,
    format: ImageFormat,
    flat: bool,
)
    requires
        a < page_count,
        b < page_count,
        a != b,
    ensures
        spec_page_output_path(output_dir, stem, a, page_count, format, flat) != spec_page_output_path(
            output_dir,
            stem,
            b,
            page_count,
            format,
            flat,
        ),
{
    let w = spec_padding_width(page_count);
    law_page_numbers_fit_padding(page_count, a + 1);
    law_page_numbers_fit_padding(page_count, b + 1);
    let za = zero_padded(a + 1, w);
    let zb = zero_padded(b + 1, w);
    let n1 = page_file_name(stem, a + 1, w, format, flat);
    let n2 = page_file_name(stem, b + 1, w, format, flat);
    let ext = "."@ + format_extension(format);
    reveal_strlit("page-");
    reveal_strlit("-");
    if spec_page_output_path(output_dir, stem, a, page_count, format, flat) == spec_page_output_path(
        output_dir,
        stem,
        b,
        page_count,
        format,
        flat,
    ) {
        let lead = if flat { stem + "-"@ } else { "page-"@ };
        assert(n1 =~= lead + za + ext);
        assert(n2 =~= lead + zb + ext);
        assert(lead.len() > 0);
        assert(lead.is_prefix_of(n1));
        assert(lead.is_prefix_of(n2));
        lemma_same_start(n1, n2, lead);
        if !flat {
            assert("page-"@[0] == 'p');
            assert(n1[0] == 'p');
            assert(n2[0] == 'p');
            lemma_join_injective(join(output_dir, stem), n1, n2);
        } else {
            if n1.len() > 0 && n1[0] == '/' {
                assert(join(output_dir, n1) == n1);
                assert(join(output_dir, n2) == n2);
            } else {
                lemma_join_injective(output_dir, n1, n2);
            }
        }
        lemma_middle_equal(lead, za, zb, ext);
        lemma_zero_padded_injective(a + 1, b + 1, w);
    }
}

proof fn lemma_count_monotone(stems: Seq<Seq<char>>, m: int, n: int, x: Seq<char>)
    requires
        0 <= m <= n,
    ensures
        count_in(stems, m, x) <= count_in(stems, n, x),
    decreases n - m,
{
    if m < n {
        lemma_count_monotone(stems, m, n - 1, x);
    }
}

proof fn lemma_count_positive(stems: Seq<Seq<char>>, i: int)
    requires
        0 <= i < stems.len(),
    ensures
        count_in(stems, i + 1, stems[i]) >= 1,
{
}

/// Inputs with the same stem get distinct output directories in the nested
/// layout (`<stem>`, `<stem>-2`, `<stem>-3`, ... in input order).
pub proof fn law_same_stem_distinct_dirs(output_dir: Seq<char>, stems: Seq<Seq<char>>, i: int, j: int)
    requires
        0 <= i < j < stems.len(),
        stems[i] == stems[j],
    ensures
        dedup_dir(output_dir, stems, i) != dedup_dir(output_dir, stems, j),
{
    let s = stems[i];
    let ki = count_in(stems, i + 1, s);
    let kj = count_in(stems, j + 1, s);
    lemma_count_monotone(stems, i + 1, j, s);
    lemma_count_positive(stems, i);
    assert(kj == count_in(stems, j, s) + 1);
    assert(ki < kj);
    reveal_strlit("-");
    let suffix_j = "-"@ + dec(kj);
    let pj = s + suffix_j;
    lemma_dec_value(kj);
    if dedup_dir(output_dir, stems, i) == dedup_dir(output_dir, stems, j) {
        let pi = if ki == 1 { s } else { s + "-"@ + dec(ki) };
        assert(dedup_dir(output_dir, stems, i) == join(output_dir, pi));
        assert(dedup_dir(output_dir, stems, j) == join(output_dir, s + "-"@ + dec(kj)));
        let pj2 = s + "-"@ + dec(kj);
        if s.len() > 0 {
            assert(s.is_prefix_of(pi));
            assert(s.is_prefix_of(pj2));
            lemma_same_start(pi, pj2, s);
        } else {
            assert(pj2[0] == '-');
            if ki != 1 {
                assert(pi[0] == '-');
            }
        }
        if pi.len() > 0 && pi[0] == '/' {
            assert(join(output_dir, pi) == pi);
            assert(join(output_dir, pj2) == pj2);
        } else {
            lemma_join_injective(output_dir, pi, pj2);
        }
        if ki == 1 {
            assert(pi.len() < pj2.len());
        } else {
            lemma_dec_value(ki);
            assert(dec(ki) =~= pi.subrange((s.len() + 1) as int, pi.len() as int));
            assert(dec(kj) =~= pj2.subrange((s.len() + 1) as int, pj2.len() as int));
            lemma_dec_injective(ki, kj);
        }
    }
}


/// The exit status has three outcomes: 0 when nothing failed; when a page
/// or a document failed, 2 if at least one page was still written and 1 if
/// not a single page was, whatever the count of partial documents is.
pub proof fn law_exit_code_partial_or_total(s: BatchSummary)
    ensures
        s.pages_failed == 0 && s.documents_failed == 0 ==> exit_code_for(s) == 0,
        (s.pages_failed > 0 || s.documents_failed > 0) && s.pages_succeeded > 0 ==> exit_code_for(s)
            == 2,
        (s.pages_failed > 0 || s.documents_failed > 0) && s.pages_succeeded == 0 ==> exit_code_for(s)
            == 1,
{
}

/// A sum over a batch is at least the term of each of its documents.
proof fn lemma_sum_at_least(docs: Seq<DocumentResult>, f: spec_fn(DocumentResult) -> nat, i: int)
    requires
        0 <= i < docs.len(),
    ensures
        sum_over(docs, f) >= f(docs[i]),
    decreases docs.len(),
{
    if i < docs.len() - 1 {
        lemma_sum_at_least(docs.drop_last(), f, i);
    }
}

/// A sum over a batch is zero when every term is.
proof fn lemma_sum_zero(docs: Seq<DocumentResult>, f: spec_fn(DocumentResult) -> nat)
    requires
        forall|i: int| 0 <= i < docs.len() ==> f(#[trigger] docs[i]) == 0,
    ensures
        sum_over(docs, f) == 0,
    decreases docs.len(),
{
    if docs.len() > 0 {
        assert forall|i: int| 0 <= i < docs.drop_last().len() implies f(
            #[trigger] docs.drop_last()[i],
        ) == 0 by {
            assert(docs.drop_last()[i] == docs[i]);
        }
        lemma_sum_zero(docs.drop_last(), f);
    }
}

/// A batch where one document wrote a page and one document failed (a page
/// or as a whole) exits with 2; a batch with a failure and not a single
/// written page exits with 1.
pub proof fn law_batch_exit_code(docs: Seq<DocumentResult>, j: int)
    requires
        0 <= j < docs.len(),
        docs[j].outcome is Failed || pages_bad(docs[j]) > 0,
    ensures
        (exists|i: int| 0 <= i < docs.len() && pages_ok(#[trigger] docs[i]) > 0) ==> exit_code_for(
            summary_of(docs),
        ) == 2,
        (forall|i: int| 0 <= i < docs.len() ==> pages_ok(#[trigger] docs[i]) == 0) ==> exit_code_for(
            summary_of(docs),
        ) == 1,
{
    let s = summary_of(docs);
    if docs[j].outcome is Failed {
        lemma_sum_at_least(docs, |d: DocumentResult| is_failed(d), j);
        assert(s.documents_failed > 0);
    } else {
        lemma_sum_at_least(docs, |d: DocumentResult| pages_bad(d), j);
        assert(s.pages_failed > 0);
    }
    if exists|i: int| 0 <= i < docs.len() && pages_ok(#[trigger] docs[i]) > 0 {
        let i = choose|i: int| 0 <= i < docs.len() && pages_ok(#[trigger] docs[i]) > 0;
        lemma_sum_at_least(docs, |d: DocumentResult| pages_ok(d), i);
        assert(s.pages_succeeded > 0);
    }
    if forall|i: int| 0 <= i < docs.len() ==> pages_ok(#[trigger] docs[i]) == 0 {
        let f = |d: DocumentResult| pages_ok(d);
        assert forall|i: int| 0 <= i < docs.len() implies f(#[trigger] docs[i]) == 0 by {
            assert(pages_ok(docs[i]) == 0);
        }
        lemma_sum_zero(docs, f);
        assert(s.pages_succeeded == 0);
    }
}

/// In the flat layout all inputs share one directory, so planning succeeds
/// only when no two inputs share a stem, adjacent or not.
pub proof fn law_flat_needs_distinct_stems(
    inputs: Seq<SourceInput>,
    output_dir: Seq<char>,
    dirs: Seq<String>,
    i: int,
    j: int,
)
    requires
        dirs_for_inputs(inputs, output_dir, true, dirs),
        0 <= i < j < inputs.len(),
    ensures
        spec_stem(inputs[i]) != spec_stem(inputs[j]),
{
    assert(!repeats_before(stems_of(inputs), j));
    assert(stems_of(inputs)[i] == spec_stem(inputs[i]));
    assert(stems_of(inputs)[j] == spec_stem(inputs[j]));
}

/// A refused flat layout is a configuration error that names, quoted, a stem
/// that two inputs share.
pub proof fn law_flat_refusal_names_shared_stem(inputs: Seq<SourceInput>, e: PageseerError)
    requires
        collision_for_inputs(inputs, true, e),
    ensures
        exists|i: int, j: int|
            {
                &&& 0 <= i < j < inputs.len()
                &&& spec_stem(#[trigger] inputs[i]) == spec_stem(#[trigger] inputs[j])
                &&& e matches PageseerError::Config(m) && m@ == collision_text(
                    debug_quoted(spec_stem(inputs[j])),
                )
            },
{
    let j = choose|j: int|
        {
            &&& 0 <= j < inputs.len()
            &&& repeats_before(stems_of(inputs), j)
            &&& forall|q: int| 0 <= q < j ==> !repeats_before(stems_of(inputs), q)
            &&& e matches PageseerError::Config(m) && m@ == collision_text(
                debug_quoted(stems_of(inputs)[j]),
            )
        };
    let i = choose|i: int| 0 <= i < j && stems_of(inputs)[i] == stems_of(inputs)[j];
    assert(stems_of(inputs)[i] == spec_stem(inputs[i]));
    assert(stems_of(inputs)[j] == spec_stem(inputs[j]));
}

/// An `errors.json` entry names the failure's own source path when the
/// failure has one, and the document's label only when it has none; its page
/// is the one-based number of the failed page.
pub proof fn law_error_entry_source(e: ErrorEntry, d: DocumentResult, f: PageFailure)
    requires
        entry_matches(e, d, f),
    ensures
        f.source_path is Some ==> e.source@ == f.source_path.unwrap()@,
        f.source_path is None ==> e.source@ == d.source_label@,
        f.page_index is Some ==> e.page == Some((f.page_index.unwrap() + 1) as u32),
        f.page_index is None ==> e.page is None,
{
}

/// Failures of inputs with different source paths get entries with
/// different sources, even when the inputs share a file name (and so a label).
pub proof fn law_error_entries_keep_directories(
    e1: ErrorEntry,
    d1: DocumentResult,
    f1: PageFailure,
    e2: ErrorEntry,
    d2: DocumentResult,
    f2: PageFailure,
)
    requires
        entry_matches(e1, d1, f1),
        entry_matches(e2, d2, f2),
        f1.source_path is Some,
        f2.source_path is Some,
        f1.source_path.unwrap()@ != f2.source_path.unwrap()@,
    ensures
        e1.source@ != e2.source@,
{
}

/// Adding a document to a batch: one with written pages and failed pages is
/// counted as partial and never as failed; one with failed pages and no
/// written page, or one that failed as a whole, is counted as failed and
/// never as partial; any other document changes neither count.
pub proof fn law_partial_and_failed_documents(docs: Seq<DocumentResult>, d: DocumentResult)
    requires
        docs.len() < u32::MAX,
    ensures
        d.outcome is Processed && pages_ok(d) > 0 && pages_bad(d) > 0 ==> {
            &&& summary_of(docs.push(d)).documents_partial == summary_of(docs).documents_partial + 1
            &&& summary_of(docs.push(d)).documents_failed == summary_of(docs).documents_failed
        },
        (d.outcome is Failed || (d.outcome is Processed && pages_ok(d) == 0 && pages_bad(d) > 0))
            ==> {
            &&& summary_of(docs.push(d)).documents_failed == summary_of(docs).documents_failed + 1
            &&& summary_of(docs.push(d)).documents_partial == summary_of(docs).documents_partial
        },
        (d.outcome is Skipped || pages_bad(d) == 0 && !(d.outcome is Failed)) ==> {
            &&& summary_of(docs.push(d)).documents_failed == summary_of(docs).documents_failed
            &&& summary_of(docs.push(d)).documents_partial == summary_of(docs).documents_partial
        },
{
    lemma_partition(docs);
    let e = docs.push(d);
    assert(e.drop_last() =~= docs);
    assert(e.last() == d);
    assert(sum_over(e, |x: DocumentResult| is_partial(x)) == sum_over(
        docs,
        |x: DocumentResult| is_partial(x),
    ) + is_partial(d));
    assert(sum_over(e, |x: DocumentResult| is_failed(x)) == sum_over(
        docs,
        |x: DocumentResult| is_failed(x),
    ) + is_failed(d));
}

/// Every path document is named after its file stem, whatever its format:
/// the stem of a `PDF`, Office or `HWP` task is the stem that names the
/// input's output, and the file name is that stem, a dot and the extension.
pub proof fn law_task_stem_is_file_stem(p: String, t: DocumentTask)
    requires
        task_for(SourceInput::Path(p), t),
    ensures
        t matches DocumentTask::Pdf { stem, .. } ==> stem@ == spec_stem(SourceInput::Path(p))
            && file_name(p@) == Some(stem@ + seq!['.'] + extension(p@).unwrap()),
        t matches DocumentTask::Office { stem, .. } ==> stem@ == spec_stem(SourceInput::Path(p))
            && file_name(p@) == Some(stem@ + seq!['.'] + extension(p@).unwrap()),
        t matches DocumentTask::Hwp { stem, .. } ==> stem@ == spec_stem(SourceInput::Path(p))
            && file_name(p@) == Some(stem@ + seq!['.'] + extension(p@).unwrap()),
{
    if extension(p@) is Some {
        law_name_is_stem_dot_extension(p@);
    }
}

} // verus!
