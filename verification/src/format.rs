//! Input format detection, by file extension alone.
use vstd::prelude::*;
use crate::paths::{extension, path_extension};
use crate::text::{chars_of, lower, lower_equals};

verus! {

/// Input format classes that `extract` accepts.
#[derive(Debug, Clone, Copy, PartialEq, Eq, Structural)]
pub enum DetectedFormat {
    /// `PDF`.
    Pdf,
    /// Office (`DOCX`/`DOC`/`XLSX`/`XLS`/`PPTX`/`PPT`/`ODT`/`ODS`/`ODP`/`RTF`).
    Office,
    /// `HWP`/`HWPX` (Hangul documents).
    Hwp,
    /// Anything else.
    Other,
}

/// Lower-cased extensions of the Office formats.
pub open spec fn is_office_extension(e: Seq<char>) -> bool {
    ||| e == "docx"@
    ||| e == "doc"@
    ||| e == "xlsx"@
    ||| e == "xls"@
    ||| e == "pptx"@
    ||| e == "ppt"@
    ||| e == "odt"@
    ||| e == "ods"@
    ||| e == "odp"@
    ||| e == "rtf"@
}

/// Lower-cased extensions of the Hangul formats.
pub open spec fn is_hwp_extension(e: Seq<char>) -> bool {
    e == "hwp"@ || e == "hwpx"@
}

/// The format a path's extension names, compared without regard to ASCII case.
pub open spec fn format_of_path(path: Seq<char>) -> DetectedFormat {
    match extension(path) {
        None => DetectedFormat::Other,
        Some(e) => {
            let l = lower(e);
            if l == "pdf"@ {
                DetectedFormat::Pdf
            } else if is_office_extension(l) {
                DetectedFormat::Office
            } else if is_hwp_extension(l) {
                DetectedFormat::Hwp
            } else {
                DetectedFormat::Other
            }
        },
    }
}

/// Classifies a path by its extension only.
pub fn detect_from_path(path: &str) -> (f: DetectedFormat)
    ensures
        f == format_of_path(path@),
{
    let ext = match path_extension(path) {
        Some(e) => e,
        None => return DetectedFormat::Other,
    };
    let e = chars_of(ext.as_str());
    if lower_equals(&e, "pdf") {
        DetectedFormat::Pdf
    } else if lower_equals(&e, "docx") || lower_equals(&e, "doc") || lower_equals(&e, "xlsx")
        || lower_equals(&e, "xls") || lower_equals(&e, "pptx") || lower_equals(&e, "ppt")
        || lower_equals(&e, "odt") || lower_equals(&e, "ods") || lower_equals(&e, "odp")
        || lower_equals(&e, "rtf") {
        DetectedFormat::Office
    } else if lower_equals(&e, "hwp") || lower_equals(&e, "hwpx") {
        DetectedFormat::Hwp
    } else {
        DetectedFormat::Other
    }
}

} // verus!
