//! The error type of the public API.
use vstd::prelude::*;
use crate::text::{dec, push_decimal};
use vstd::string::to_string_from_display_ensures;

verus! {

/// `std::io::Error`, carried through as an opaque value.
#[verifier::external_type_specification]
#[verifier::external_body]
pub struct ExIoError(std::io::Error);

/// Root error of the public API.
#[derive(Debug)]
pub enum PageseerError {
    /// File I/O failed.
    Io(std::io::Error),
    /// The Gotenberg `HTTP` call failed.
    Gotenberg {
        /// `HTTP` status code (`None` when the connection failed).
        status: Option<u16>,
        /// The `Gotenberg-Trace` header.
        trace: Option<String>,
        /// Human-readable description.
        message: String,
    },
    /// `PDFium` failed to render.
    Pdfium(String),
    /// `HWP` processing failed.
    Rhwp(String),
    /// Configuration error (argument mismatch, empty input, name collision).
    Config(String),
}

impl From<std::io::Error> for PageseerError {
    /// An I/O error becomes the `Io` variant.
    fn from(e: std::io::Error) -> (r: Self) {
        PageseerError::Io(e)
    }
}

impl vstd::std_specs::convert::FromSpecImpl<std::io::Error> for PageseerError {
    open spec fn obeys_from_spec() -> bool {
        true
    }

    open spec fn from_spec(e: std::io::Error) -> PageseerError {
        PageseerError::Io(e)
    }
}

/// What `format!("{:?}", s)` prints for a string: the text quoted, with
/// quotes, backslashes and non-printable characters escaped.
pub uninterp spec fn debug_quoted(s: Seq<char>) -> Seq<char>;

/// `<str as Debug>::fmt`, through `format!`.
#[verifier::external_body]
pub(crate) fn quoted(s: &str) -> (r: String)
    ensures
        r@ == debug_quoted(s@),
{
    format!("{:?}", s)
}

/// What `format!("{:?}", o)` prints for an `Option<u16>`.
pub open spec fn debug_option_u16(o: Option<u16>) -> Seq<char> {
    match o {
        None => "None"@,
        Some(n) => "Some("@ + dec(n as nat) + ")"@,
    }
}

/// What `format!("{:?}", o)` prints for an `Option<String>`.
pub open spec fn debug_option_string(o: Option<String>) -> Seq<char> {
    match o {
        None => "None"@,
        Some(s) => "Some("@ + debug_quoted(s@) + ")"@,
    }
}

/// The text of a Gotenberg error, given the already rendered trace.
pub open spec fn gotenberg_text(status: Option<u16>, trace_debug: Seq<char>, message: Seq<char>) -> Seq<char> {
    "gotenberg error (status "@ + debug_option_u16(status) + ", trace "@ + trace_debug + "): "@ + message
}

/// The text of a Gotenberg error: status and trace as `Debug` prints them,
/// then the message.
pub fn gotenberg_error_text(status: Option<u16>, trace_debug: &str, message: &str) -> (r: String)
    ensures
        r@ == gotenberg_text(status, trace_debug@, message@),
{
    let mut r = String::new();
    r.append("gotenberg error (status ");
    match status {
        None => {
            r.append("None");
        },
        Some(n) => {
            r.append("Some(");
            push_decimal(&mut r, n as u64);
            r.append(")");
        },
    }
    r.append(", trace ");
    r.append(trace_debug);
    r.append("): ");
    r.append(message);
    r
}

impl PageseerError {
    /// The message that describes the error, as the command line prints it.
    pub fn display_text(&self) -> (r: String)
        ensures
            match self {
                PageseerError::Io(e) => exists|d: String|
                    to_string_from_display_ensures::<std::io::Error>(e, d) && r@ == "io error: "@
                        + d@,
                PageseerError::Gotenberg { status, trace, message } => r@ == gotenberg_text(
                    *status,
                    debug_option_string(*trace),
                    message@,
                ),
                PageseerError::Pdfium(m) => r@ == "pdfium error: "@ + m@,
                PageseerError::Rhwp(m) => r@ == "rhwp error: "@ + m@,
                PageseerError::Config(m) => r@ == "config error: "@ + m@,
            },
    {
        match self {
            PageseerError::Io(e) => {
                let mut r = "io error: ".to_owned();
                let detail = e.to_string();
                r.append(detail.as_str());
                assert(to_string_from_display_ensures::<std::io::Error>(e, detail));
                r
            },
            PageseerError::Gotenberg { status, trace, message } => {
                let trace_text = match trace {
                    None => "None".to_owned(),
                    Some(t) => {
                        let mut s = "Some(".to_owned();
                        s.append(quoted(t.as_str()).as_str());
                        s.append(")");
                        s
                    },
                };
                gotenberg_error_text(*status, trace_text.as_str(), message.as_str())
            },
            PageseerError::Pdfium(m) => "pdfium error: ".to_owned().concat(m.as_str()),
            PageseerError::Rhwp(m) => "rhwp error: ".to_owned().concat(m.as_str()),
            PageseerError::Config(m) => "config error: ".to_owned().concat(m.as_str()),
        }
    }
}

} // verus!
