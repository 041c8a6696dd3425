use pageseer::format::{detect_from_path, DetectedFormat};

#[test]
fn pdf_extension_detected() {
    assert_eq!(detect_from_path("a.pdf"), DetectedFormat::Pdf);
    assert_eq!(detect_from_path("A.PDF"), DetectedFormat::Pdf);
}

#[test]
fn unknown_extension_is_other() {
    assert_eq!(detect_from_path("a.xyz"), DetectedFormat::Other);
    assert_eq!(detect_from_path("a"), DetectedFormat::Other);
}

#[test]
fn office_extensions_detected() {
    for ext in &["docx", "doc", "xlsx", "xls", "pptx", "ppt", "odt", "ods", "odp", "rtf", "DOCX"] {
        let p = format!("a.{ext}");
        assert_eq!(detect_from_path(&p), DetectedFormat::Office, "ext={ext}");
    }
}

#[test]
fn hwp_extensions_detected() {
    for ext in &["hwp", "hwpx", "HWP", "HWPX"] {
        let p = format!("a.{ext}");
        assert_eq!(detect_from_path(&p), DetectedFormat::Hwp, "ext={ext}");
    }
}

#[test]
fn extension_of_final_component_only() {
    assert_eq!(detect_from_path("dir.pdf/notes"), DetectedFormat::Other);
    assert_eq!(detect_from_path("dir/.pdf"), DetectedFormat::Other);
    assert_eq!(detect_from_path("dir/x.Pdf/"), DetectedFormat::Pdf);
    assert_eq!(detect_from_path("x.pdf.bak"), DetectedFormat::Other);
    assert_eq!(detect_from_path("x.bak.HwPx"), DetectedFormat::Hwp);
}
