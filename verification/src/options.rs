//! The options that steer a batch: output image format, resolution, layout.
use vstd::prelude::*;
use std::time::Duration;
use crate::text::str_equals;

verus! {

/// Output image format.
#[derive(Debug, Clone, Copy, PartialEq, Eq, Structural)]
pub enum ImageFormat {
    /// Lossless `PNG`.
    Png,
    /// `JPEG` with quality (1-100).
    Jpeg {
        /// Quality (1-100).
        quality: u8,
    },
}

/// The file extension written for each format.
pub open spec fn format_extension(format: ImageFormat) -> Seq<char> {
    match format {
        ImageFormat::Png => "png"@,
        ImageFormat::Jpeg { .. } => "jpg"@,
    }
}

impl ImageFormat {
    /// The file extension for this format: `png` or `jpg`.
    pub fn extension(self) -> (ext: &'static str)
        ensures
            ext@ == format_extension(self),
    {
        match self {
            ImageFormat::Png => "png",
            ImageFormat::Jpeg { .. } => "jpg",
        }
    }
}

/// The format a command-line name selects: `png`, or `jpeg` with the given
/// quality; any other name selects none.
pub open spec fn format_for_name(name: Seq<char>, quality: u8) -> Option<ImageFormat> {
    if name == "png"@ {
        Some(ImageFormat::Png)
    } else if name == "jpeg"@ {
        Some(ImageFormat::Jpeg { quality })
    } else {
        None
    }
}

/// Reads a format name as the command line accepts it.
pub fn parse_image_format(name: &str, quality: u8) -> (r: Option<ImageFormat>)
    ensures
        r == format_for_name(name@, quality),
{
    if str_equals(name, "png") {
        Some(ImageFormat::Png)
    } else if str_equals(name, "jpeg") {
        Some(ImageFormat::Jpeg { quality })
    } else {
        None
    }
}

/// Options that control `extract`.
#[derive(Debug, Clone)]
pub struct Options {
    /// Output image format.
    pub format: ImageFormat,
    /// Rasterization `DPI`; 150 by default.
    pub dpi: u32,
    /// Longest-edge pixel limit; `None` means unlimited.
    pub max_edge: Option<u32>,
    /// Output root directory.
    pub output_dir: String,
    /// `true`: flat layout (`<out>/<stem>-NNN.<ext>`); `false`: one directory per document.
    pub flat: bool,
    /// `true`: stop at the first failure; `false`: continue on error.
    pub strict: bool,
    /// Gotenberg base `URL`; `None` resolves through the environment or the default.
    pub gotenberg_url: Option<String>,
    /// Gotenberg request timeout.
    pub gotenberg_timeout: Duration,
    /// Documents processed in parallel; 0 is clamped to 1.
    pub concurrency: usize,
}

/// `Duration::clone`: `Duration` is `Copy` and derives `Clone`, so a clone
/// is the same value.
pub assume_specification[ <Duration as Clone>::clone ](d: &Duration) -> (r: Duration)
    ensures
        r == *d,
;

/// The `Duration` of `secs` whole seconds, as `Duration::from_secs` makes it.
pub uninterp spec fn duration_of_secs(secs: u64) -> Duration;

/// `Duration::from_secs`: the duration of `secs` whole seconds.
#[verifier::external_body]
fn duration_from_secs(secs: u64) -> (d: Duration)
    ensures
        d == duration_of_secs(secs),
{
    Duration::from_secs(secs)
}

impl Default for Options {
    /// PNG at 150 DPI into `./out`, nested layout, continue on error, one
    /// document at a time, a 120 second Gotenberg timeout.
    fn default() -> (o: Self)
        ensures
            o.format == ImageFormat::Png,
            o.dpi == 150,
            o.max_edge is None,
            o.output_dir@ == "./out"@,
            !o.flat,
            !o.strict,
            o.gotenberg_url is None,
            o.gotenberg_timeout == duration_of_secs(120),
            o.concurrency == 1,
    {
        Options {
            format: ImageFormat::Png,
            dpi: 150,
            max_edge: None,
            output_dir: "./out".to_owned(),
            flat: false,
            strict: false,
            gotenberg_url: None,
            gotenberg_timeout: duration_from_secs(120),
            concurrency: 1,
        }
    }
}

/// `o` with a concurrency of 0 read as 1.
pub open spec fn normalized_options(o: Options) -> Options {
    if o.concurrency == 0 {
        Options { concurrency: 1, ..o }
    } else {
        o
    }
}

impl Options {
    /// A copy with `concurrency == 0` normalized to 1; every other field is kept.
    pub fn normalized(self) -> (r: Self)
        ensures
            r == normalized_options(self),
    {
        let mut o = self;
        if o.concurrency == 0 {
            o.concurrency = 1;
        }
        o
    }
}

} // verus!
