//! Batch helpers: progress notification, display labels and the
//! per-document output directories.
use vstd::prelude::*;
use crate::SourceInput;
use crate::error::{debug_quoted, quoted, PageseerError};
use crate::paths::{file_name, file_stem, join, join_path, path_file_name, path_file_stem};
use crate::report::BatchSummary;
use crate::text::{dec, push_decimal};

verus! {

/// Progress callback of a batch.  Every method may be called from
/// concurrent threads.
pub trait ProgressSink: Send + Sync {
    /// A document starts.
    fn record_start(&self, input_index: u32, total: u32, label: &str);

    /// A document reached the page stage.
    fn record_done(&self, input_index: u32, total: u32, label: &str, pages_ok: u32, pages_failed: u32);

    /// A document failed as a whole (`SourceRead` / `Convert`).
    fn record_failed(&self, input_index: u32, total: u32, label: &str, message: &str);

    /// A document was not attempted (strict mode).
    fn record_skipped(&self, input_index: u32, total: u32, label: &str);

    /// The batch ended; one last summary.
    fn record_summary(&self, summary: &BatchSummary);
}

/// A sink that ignores every event.
pub struct NullProgressSink;

impl ProgressSink for NullProgressSink {
    fn record_start(&self, input_index: u32, total: u32, label: &str) {
    }

    fn record_done(&self, input_index: u32, total: u32, label: &str, pages_ok: u32, pages_failed: u32) {
    }

    fn record_failed(&self, input_index: u32, total: u32, label: &str, message: &str) {
    }

    fn record_skipped(&self, input_index: u32, total: u32, label: &str) {
    }

    fn record_summary(&self, summary: &BatchSummary) {
    }
}

/// The `pageseer: [i/n] ` head of a progress line, `i` one-based.
pub open spec fn line_head(idx: u32, total: u32) -> Seq<char> {
    "pageseer: ["@ + dec((idx + 1) as nat) + "/"@ + dec(total as nat) + "] "@
}

fn push_head(out: &mut String, idx: u32, total: u32)
    requires
        idx < u32::MAX,
    ensures
        final(out)@ == old(out)@ + line_head(idx, total),
{
    out.append("pageseer: [");
    push_decimal(out, (idx + 1) as u64);
    out.append("/");
    push_decimal(out, total as u64);
    out.append("] ");
}

/// The line printed when a document starts.
pub fn start_line(idx: u32, total: u32, label: &str) -> (r: String)
    requires
        idx < u32::MAX,
    ensures
        r@ == "pageseer: ["@ + dec((idx + 1) as nat) + "/"@ + dec(total as nat) + "] processing "@ + label@
            + "..."@,
{
    let mut r = String::new();
    r.append("pageseer: [");
    push_decimal(&mut r, (idx + 1) as u64);
    r.append("/");
    push_decimal(&mut r, total as u64);
    r.append("] processing ");
    r.append(label);
    r.append("...");
    r
}

/// The line printed when a document reached the page stage; the failed
/// count is mentioned only when some page failed.
pub fn done_line(idx: u32, total: u32, label: &str, ok: u32, failed: u32) -> (r: String)
    requires
        idx < u32::MAX,
    ensures
        r@ == line_head(idx, total) + label@ + if failed == 0 {
            " done ("@ + dec(ok as nat) + " pages)"@
        } else {
            " done ("@ + dec(ok as nat) + " pages, "@ + dec(failed as nat) + " failed)"@
        },
{
    let mut r = String::new();
    push_head(&mut r, idx, total);
    r.append(label);
    r.append(" done (");
    push_decimal(&mut r, ok as u64);
    if failed == 0 {
        r.append(" pages)");
    } else {
        r.append(" pages, ");
        push_decimal(&mut r, failed as u64);
        r.append(" failed)");
    }
    r
}

/// The line printed when a document failed as a whole.
pub fn failed_line(idx: u32, total: u32, label: &str, message: &str) -> (r: String)
    requires
        idx < u32::MAX,
    ensures
        r@ == line_head(idx, total) + label@ + " FAILED: "@ + message@,
{
    let mut r = String::new();
    push_head(&mut r, idx, total);
    r.append(label);
    r.append(" FAILED: ");
    r.append(message);
    r
}

/// The line printed when a document was skipped.
pub fn skipped_line(idx: u32, total: u32, label: &str) -> (r: String)
    requires
        idx < u32::MAX,
    ensures
        r@ == line_head(idx, total) + label@ + " skipped (--strict)"@,
{
    let mut r = String::new();
    push_head(&mut r, idx, total);
    r.append(label);
    r.append(" skipped (--strict)");
    r
}

/// The closing summary line; it points to `errors.json` when anything failed.
pub fn summary_line(s: &BatchSummary) -> (r: String)
    requires
        s.pages_succeeded + s.pages_failed <= u32::MAX,
    ensures
        r@ == "pageseer: "@ + dec(s.pages_succeeded as nat) + "/"@ + dec(
            (s.pages_succeeded + s.pages_failed) as nat,
        ) + " pages OK across "@ + dec(s.documents_total as nat) + " documents ("@ + dec(
            s.documents_partial as nat,
        ) + " partial, "@ + dec(s.documents_failed as nat) + " failed, "@ + dec(
            s.documents_skipped as nat,
        ) + " skipped)"@ + if s.pages_failed > 0 || s.documents_failed > 0 {
            " — see errors.json"@
        } else {
            Seq::empty()
        },
{
    let total_pages = s.pages_succeeded + s.pages_failed;
    let mut r = "pageseer: ".to_owned();
    push_decimal(&mut r, s.pages_succeeded as u64);
    r.append("/");
    push_decimal(&mut r, total_pages as u64);
    r.append(" pages OK across ");
    push_decimal(&mut r, s.documents_total as u64);
    r.append(" documents (");
    push_decimal(&mut r, s.documents_partial as u64);
    r.append(" partial, ");
    push_decimal(&mut r, s.documents_failed as u64);
    r.append(" failed, ");
    push_decimal(&mut r, s.documents_skipped as u64);
    r.append(" skipped)");
    if s.pages_failed > 0 || s.documents_failed > 0 {
        r.append(" — see errors.json");
    } else {
        assert(r@ + Seq::<char>::empty() =~= r@);
    }
    r
}

/// The display label of an input: the file name of a path (`<no-name>` when
/// it has none), the file name hint of bytes.
pub open spec fn spec_source_label(input: SourceInput) -> Seq<char> {
    match input {
        SourceInput::Path(p) => match file_name(p@) {
            Some(n) => n,
            None => "<no-name>"@,
        },
        SourceInput::Bytes { filename, .. } => filename@,
    }
}

/// The stem that names an input's output: the file stem of the path, or of
/// the file name hint of bytes; `document` when there is none.
pub open spec fn spec_stem(input: SourceInput) -> Seq<char> {
    let p = match input {
        SourceInput::Path(p) => p@,
        SourceInput::Bytes { filename, .. } => filename@,
    };
    match file_stem(p) {
        Some(s) => s,
        None => "document"@,
    }
}

/// Display label of an input, for progress lines and error reports.
pub fn source_label(input: &SourceInput) -> (r: String)
    ensures
        r@ == spec_source_label(*input),
{
    match input {
        SourceInput::Path(p) => match path_file_name(p.as_str()) {
            Some(n) => n,
            None => "<no-name>".to_owned(),
        },
        SourceInput::Bytes { filename, .. } => filename.clone(),
    }
}

/// The stem of an input (see `spec_stem`).
pub fn stem_of(input: &SourceInput) -> (r: String)
    ensures
        r@ == spec_stem(*input),
{
    let p = match input {
        SourceInput::Path(p) => p.as_str(),
        SourceInput::Bytes { filename, .. } => filename.as_str(),
    };
    match path_file_stem(p) {
        Some(s) => s,
        None => "document".to_owned(),
    }
}

/// The stems of all inputs.
pub open spec fn stems_of(inputs: Seq<SourceInput>) -> Seq<Seq<char>> {
    inputs.map_values(|i: SourceInput| spec_stem(i))
}

/// How many of the first `n` stems equal `x`.
pub open spec fn count_in(stems: Seq<Seq<char>>, n: int, x: Seq<char>) -> nat
    decreases n,
{
    if n <= 0 {
        0
    } else {
        count_in(stems, n - 1, x) + if stems[n - 1] == x { 1nat } else { 0nat }
    }
}

/// The output directory of input `i` in the nested layout: `<out>/<stem>` for
/// the first input with its stem, `<out>/<stem>-k` for the `k`-th (k >= 2).
pub open spec fn dedup_dir(output_dir: Seq<char>, stems: Seq<Seq<char>>, i: int) -> Seq<char> {
    let k = count_in(stems, i + 1, stems[i]);
    if k == 1 {
        join(output_dir, stems[i])
    } else {
        join(output_dir, stems[i] + "-"@ + dec(k))
    }
}

/// Stem `j` already occurs among the stems before it.
pub open spec fn repeats_before(stems: Seq<Seq<char>>, j: int) -> bool {
    exists|i: int| 0 <= i < j && stems[i] == stems[j]
}

/// The message of a flat-layout stem collision.
pub open spec fn collision_text(stem_debug: Seq<char>) -> Seq<char> {
    "stem collision in --flat mode: "@ + stem_debug + " appears more than once"@
}

/// The configuration error of a flat-layout stem collision, given the stem
/// as `Debug` prints it.
pub fn flat_collision_error(stem_debug: &str) -> (e: PageseerError)
    ensures
        e matches PageseerError::Config(m) && m@ == collision_text(stem_debug@),
{
    let mut m = "stem collision in --flat mode: ".to_owned();
    m.append(stem_debug);
    m.append(" appears more than once");
    PageseerError::Config(m)
}

/// `dirs` are the output directories of `inputs`: `output_dir` for every
/// input in the flat layout (where no stem repeats), `dedup_dir` otherwise.
pub open spec fn dirs_for_inputs(
    inputs: Seq<SourceInput>,
    output_dir: Seq<char>,
    flat: bool,
    dirs: Seq<String>,
) -> bool {
    &&& dirs.len() == inputs.len()
    &&& flat ==> forall|j: int| 0 <= j < inputs.len() ==> !repeats_before(stems_of(inputs), j)
    &&& forall|j: int|
        0 <= j < dirs.len() ==> (#[trigger] dirs[j])@ == if flat {
            output_dir
        } else {
            dedup_dir(output_dir, stems_of(inputs), j)
        }
}

/// `e` reports the first repeated stem of a flat layout.
pub open spec fn collision_for_inputs(inputs: Seq<SourceInput>, flat: bool, e: PageseerError) -> bool {
    &&& flat
    &&& exists|j: int|
        {
            &&& 0 <= j < inputs.len()
            &&& repeats_before(stems_of(inputs), j)
            &&& forall|q: int| 0 <= q < j ==> !repeats_before(stems_of(inputs), q)
            &&& e matches PageseerError::Config(m) && m@ == collision_text(
                debug_quoted(stems_of(inputs)[j]),
            )
        }
}

/// Counts the stems among the first `n` that equal `stems[i]`.
fn count_equal(stems: &Vec<String>, n: usize, i: usize) -> (c: usize)
    requires
        n <= stems@.len(),
        i < stems@.len(),
    ensures
        c == count_in(stems@.map_values(|s: String| s@), n as int, stems@[i as int]@),
        c <= n,
{
    let ghost views = stems@.map_values(|s: String| s@);
    let mut c: usize = 0;
    let mut k: usize = 0;
    while k < n
        invariant
            n <= stems@.len(),
            i < stems@.len(),
            views == stems@.map_values(|s: String| s@),
            k <= n,
            c <= k,
            c == count_in(views, k as int, views[i as int]),
        decreases n - k,
    {
        if stems[k] == stems[i] {
            c = c + 1;
        }
        k = k + 1;
    }
    c
}

/// The output directory of each input.
///
/// Nested layout: `<output_dir>/<stem>`, and on a repeated stem
/// `<stem>-2`, `<stem>-3`, ... in input order.  Flat layout: `output_dir`
/// itself for every input, and a configuration error when two inputs share a
/// stem (naming the first stem that repeats).
pub fn dedup_output_dirs(inputs: &[SourceInput], output_dir: &str, flat: bool) -> (r: Result<
    Vec<String>,
    PageseerError,
>)
    ensures
        match r {
            Ok(dirs) => dirs_for_inputs(inputs@, output_dir@, flat, dirs@),
            Err(e) => collision_for_inputs(inputs@, flat, e),
        },
{
    let n = inputs.len();
    let mut stems: Vec<String> = Vec::new();
    let mut k: usize = 0;
    while k < n
        invariant
            n == inputs@.len(),
            k <= n,
            stems@.len() == k,
            forall|q: int| 0 <= q < k ==> (#[trigger] stems@[q])@ == spec_stem(inputs@[q]),
        decreases n - k,
    {
        stems.push(stem_of(&inputs[k]));
        k = k + 1;
    }
    let ghost views = stems@.map_values(|s: String| s@);
    assert(views =~= stems_of(inputs@));
    if flat {
        let mut j: usize = 0;
        while j < n
            invariant
                flat,
                n == inputs@.len(),
                stems@.len() == n,
                views == stems@.map_values(|s: String| s@),
                views == stems_of(inputs@),
                j <= n,
                forall|q: int| 0 <= q < j ==> !repeats_before(views, q),
            decreases n - j,
        {
            let mut i: usize = 0;
            while i < j
                invariant
                    flat,
                    n == inputs@.len(),
                    stems@.len() == n,
                    views == stems@.map_values(|s: String| s@),
                    views == stems_of(inputs@),
                    j < n,
                    i <= j,
                    forall|q: int| 0 <= q < j ==> !repeats_before(views, q),
                    forall|p: int| 0 <= p < i ==> views[p] != views[j as int],
                decreases j - i,
            {
                if stems[i] == stems[j] {
                    let e = flat_collision_error(quoted(stems[j].as_str()).as_str());
                    assert(views[i as int] == views[j as int]);
                    assert(repeats_before(views, j as int));
                    return Err(e);
                }
                i = i + 1;
            }
            j = j + 1;
        }
        let mut dirs: Vec<String> = Vec::new();
        let mut q: usize = 0;
        while q < n
            invariant
                q <= n,
                dirs@.len() == q,
                forall|p: int| 0 <= p < q ==> (#[trigger] dirs@[p])@ == output_dir@,
            decreases n - q,
        {
            dirs.push(output_dir.to_owned());
            q = q + 1;
        }
        return Ok(dirs);
    }
    let mut dirs: Vec<String> = Vec::new();
    let mut j: usize = 0;
    while j < n
        invariant
            n == inputs@.len(),
            stems@.len() == n,
            views == stems@.map_values(|s: String| s@),
            views == stems_of(inputs@),
            j <= n,
            dirs@.len() == j,
            forall|p: int| 0 <= p < j ==> (#[trigger] dirs@[p])@ == dedup_dir(output_dir@, views, p),
        decreases n - j,
    {
        let c = count_equal(&stems, j + 1, j);
        let dir = if c == 1 {
            join_path(output_dir, stems[j].as_str())
        } else {
            let mut name = stems[j].clone();
            name.append("-");
            push_decimal(&mut name, c as u64);
            join_path(output_dir, name.as_str())
        };
        dirs.push(dir);
        j = j + 1;
    }
    Ok(dirs)
}

} // verus!
