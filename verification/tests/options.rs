use pageseer::options::parse_image_format;
use pageseer::{ImageFormat, Options};
use std::time::Duration;

#[test]
fn default_dpi_is_150() {
    assert_eq!(Options::default().dpi, 150);
}

#[test]
fn default_format_is_png() {
    assert_eq!(Options::default().format, ImageFormat::Png);
}

#[test]
fn png_extension_is_png() {
    assert_eq!(ImageFormat::Png.extension(), "png");
}

#[test]
fn jpeg_extension_is_jpg() {
    assert_eq!(ImageFormat::Jpeg { quality: 85 }.extension(), "jpg");
}

#[test]
fn concurrency_zero_is_clamped_to_one() {
    let opts = Options { concurrency: 0, ..Options::default() }.normalized();
    assert_eq!(opts.concurrency, 1);
}

#[test]
fn concurrency_positive_is_preserved() {
    let opts = Options { concurrency: 8, ..Options::default() }.normalized();
    assert_eq!(opts.concurrency, 8);
}

#[test]
fn default_options_as_documented() {
    let o = Options::default();
    assert_eq!(o.output_dir, "./out");
    assert_eq!(o.gotenberg_timeout, Duration::from_secs(120));
    assert!(!o.flat && !o.strict);
    assert_eq!(o.max_edge, None);
    assert_eq!(o.gotenberg_url, None);
    assert_eq!(o.concurrency, 1);
}

#[test]
fn normalizing_twice_is_normalizing_once() {
    let once = Options { concurrency: 0, dpi: 72, ..Options::default() }.normalized();
    let twice = once.clone().normalized();
    assert_eq!(twice.concurrency, once.concurrency);
    assert_eq!(twice.dpi, 72);
}

#[test]
fn format_names_parse() {
    assert_eq!(parse_image_format("png", 50), Some(ImageFormat::Png));
    assert_eq!(parse_image_format("jpeg", 50), Some(ImageFormat::Jpeg { quality: 50 }));
    assert_eq!(parse_image_format("webp", 50), None);
    assert_eq!(parse_image_format("PNG", 50), None);
}
