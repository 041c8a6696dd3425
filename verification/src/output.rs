//! Output path naming for page images.
use vstd::prelude::*;
use crate::options::{format_extension, ImageFormat};
use crate::paths::{join, join_path};
use crate::text::{dec, push_zero_padded, zero_padded};

verus! {

/// The padding width for page numbers: the number of digits of the page
/// count (counting at least one page), but never fewer than three.
pub open spec fn spec_padding_width(page_count: nat) -> nat {
    let n = if page_count == 0 { 1 } else { page_count };
    if dec(n).len() < 3 { 3 } else { dec(n).len() }
}

/// The name of the image file for page `one_based` of a document.
/// Flat layout: `<stem>-NNN.<ext>`; nested layout: `page-NNN.<ext>`.
pub open spec fn page_file_name(
    stem: Seq<char>,
    one_based: nat,
    width: nat,
    format: ImageFormat,
    flat: bool,
) -> Seq<char> {
    if flat {
        stem + "-"@ + zero_padded(one_based, width) + "."@ + format_extension(format)
    } else {
        "page-"@ + zero_padded(one_based, width) + "."@ + format_extension(format)
    }
}

/// Where the image of a page is written inside a document's directory
/// `dir`: `<dir>/<stem>-NNN.<ext>` in the flat layout (where `dir` is the
/// output root), `<dir>/page-NNN.<ext>` otherwise; `NNN` is the one-based
/// page number, zero-padded to the padding width of the page count.
pub open spec fn spec_document_page_path(
    dir: Seq<char>,
    stem: Seq<char>,
    page_index: nat,
    page_count: nat,
    format: ImageFormat,
    flat: bool,
) -> Seq<char> {
    join(dir, page_file_name(stem, page_index + 1, spec_padding_width(page_count), format, flat))
}

/// Where the image of a page is written, from the output root:
/// `<out>/<stem>-NNN.<ext>` in the flat layout, `<out>/<stem>/page-NNN.<ext>`
/// otherwise.
pub open spec fn spec_page_output_path(
    output_dir: Seq<char>,
    stem: Seq<char>,
    page_index: nat,
    page_count: nat,
    format: ImageFormat,
    flat: bool,
) -> Seq<char> {
    let dir = if flat { output_dir } else { join(output_dir, stem) };
    spec_document_page_path(dir, stem, page_index, page_count, format, flat)
}

proof fn lemma_dec_len_step(n: nat)
    requires
        n >= 10,
    ensures
        dec(n).len() == dec(n / 10).len() + 1,
{
}

/// The padding width for page numbers of a document with `page_count` pages
/// (at least 3 digits).
pub fn padding_width(page_count: usize) -> (w: usize)
    ensures
        w == spec_padding_width(page_count as nat),
{
    let mut n: usize = if page_count > 1 { page_count } else { 1 };
    let ghost n0: nat = n as nat;
    let mut digits: usize = 0;
    proof { crate::text::lemma_dec_len_le(n0); }
    while n > 0
        invariant
            n0 >= 1,
            n > 0 ==> digits + dec(n as nat).len() == dec(n0).len(),
            n == 0 ==> digits == dec(n0).len(),
            digits <= dec(n0).len(),
            dec(n0).len() <= n0,
            n0 <= usize::MAX,
        decreases n,
    {
        proof {
            if n >= 10 {
                lemma_dec_len_step(n as nat);
            }
            crate::text::lemma_dec_len_le(n as nat);
        }
        digits = digits + 1;
        n = n / 10;
    }
    if digits > 3 { digits } else { 3 }
}

/// The file name of a page image (see `page_file_name`).
fn page_image_name(
    source_stem: &str,
    page_index_zero_based: u32,
    page_count: usize,
    format: ImageFormat,
    flat: bool,
) -> (name: String)
    requires
        page_index_zero_based < u32::MAX,
    ensures
        name@ == page_file_name(
            source_stem@,
            (page_index_zero_based + 1) as nat,
            spec_padding_width(page_count as nat),
            format,
            flat,
        ),
{
    let pad = padding_width(page_count);
    let one_based = page_index_zero_based + 1;
    let ext = format.extension();
    let mut filename = String::new();
    if flat {
        filename.append(source_stem);
        filename.append("-");
    } else {
        filename.append("page-");
    }
    push_zero_padded(&mut filename, one_based as u64, pad);
    filename.append(".");
    filename.append(ext);
    assert(filename@ =~= page_file_name(source_stem@, one_based as nat, pad as nat, format, flat));
    filename
}

/// Where the image of page `page_index_zero_based` of a `page_count`-page
/// document is written, from the output root.
pub fn page_output_path(
    output_dir: &str,
    source_stem: &str,
    page_index_zero_based: u32,
    page_count: usize,
    format: ImageFormat,
    flat: bool,
) -> (p: String)
    requires
        page_index_zero_based < u32::MAX,
    ensures
        p@ == spec_page_output_path(
            output_dir@,
            source_stem@,
            page_index_zero_based as nat,
            page_count as nat,
            format,
            flat,
        ),
{
    let filename = page_image_name(source_stem, page_index_zero_based, page_count, format, flat);
    if flat {
        join_path(output_dir, filename.as_str())
    } else {
        let dir = join_path(output_dir, source_stem);
        join_path(dir.as_str(), filename.as_str())
    }
}

/// Where the image of page `page_index_zero_based` is written inside the
/// document's own directory `doc_dir` (the output root in the flat layout).
pub fn document_page_path(
    doc_dir: &str,
    source_stem: &str,
    page_index_zero_based: u32,
    page_count: usize,
    format: ImageFormat,
    flat: bool,
) -> (p: String)
    requires
        page_index_zero_based < u32::MAX,
    ensures
        p@ == spec_document_page_path(
            doc_dir@,
            source_stem@,
            page_index_zero_based as nat,
            page_count as nat,
            format,
            flat,
        ),
{
    let filename = page_image_name(source_stem, page_index_zero_based, page_count, format, flat);
    join_path(doc_dir, filename.as_str())
}

} // verus!
