//! Rasterize documents into per-page images: the verified core of the batch
//! pipeline (format detection, output naming, de-duplication, outcome and
//! summary bookkeeping, and the error report).
use vstd::prelude::*;

pub mod text;
pub mod paths;
pub mod options;
pub mod format;
pub mod output;
pub mod report;
pub mod error;
pub mod errors_json;
pub mod batch;
pub mod pipeline;
pub mod gotenberg;
pub mod laws;

pub use batch::{NullProgressSink, ProgressSink};
pub use error::PageseerError;
pub use options::{ImageFormat, Options};
pub use report::{
    BatchReport, BatchSummary, DocumentOutcome, DocumentResult, ExtractReport, FailureStage,
    PageArtifact, PageFailure,
};

verus! {

/// An input document handed to the library.
#[derive(Debug, Clone)]
pub enum SourceInput {
    /// A file path.
    Path(String),
    /// Document bytes in memory, with its file name (used to tell the format).
    Bytes {
        /// Document bytes.
        data: Vec<u8>,
        /// File name hint (`report.docx` and the like).
        filename: String,
    },
}

} // verus!
