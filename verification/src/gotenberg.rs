//! Gotenberg endpoint resolution.  The `HTTP` exchange itself is done by
//! the caller; this decides where it goes.
use vstd::prelude::*;
use crate::error::PageseerError;

verus! {

/// `s` without its trailing `/` characters (`str::trim_end_matches('/')`).
pub open spec fn trim_trailing_slashes(s: Seq<char>) -> Seq<char>
    decreases s.len(),
{
    if s.len() > 0 && s.last() == '/' {
        trim_trailing_slashes(s.drop_last())
    } else {
        s
    }
}

/// `s` with its trailing `/` characters removed.
pub fn trim_slashes(s: &str) -> (r: String)
    ensures
        r@ == trim_trailing_slashes(s@),
{
    let mut end = s.unicode_len();
    assert(s@.subrange(0, end as int) =~= s@);
    while end > 0 && s.get_char(end - 1) == '/'
        invariant
            end <= s@.len(),
            trim_trailing_slashes(s@.subrange(0, end as int)) == trim_trailing_slashes(s@),
        decreases end,
    {
        assert(s@.subrange(0, end as int).drop_last() =~= s@.subrange(0, end - 1));
        end = end - 1;
    }
    s.substring_char(0, end).to_owned()
}

/// The base `URL` of the Gotenberg service: the explicit option first, then
/// the `GOTENBERG_URL` setting, then `http://localhost:3000`; trailing
/// slashes are removed.
pub open spec fn base_url_for(option_url: Option<Seq<char>>, env_url: Option<Seq<char>>) -> Seq<char> {
    match option_url {
        Some(u) => trim_trailing_slashes(u),
        None => match env_url {
            Some(u) => trim_trailing_slashes(u),
            None => "http://localhost:3000"@,
        },
    }
}

/// Resolves the Gotenberg base `URL` from the option and the value of the
/// `GOTENBERG_URL` environment variable (read by the caller).
pub fn resolve_base_url(option_url: Option<&str>, env_url: Option<&str>) -> (r: String)
    ensures
        r@ == base_url_for(
            match option_url {
                Some(u) => Some(u@),
                None => None,
            },
            match env_url {
                Some(u) => Some(u@),
                None => None,
            },
        ),
{
    match option_url {
        Some(u) => trim_slashes(u),
        None => match env_url {
            Some(u) => trim_slashes(u),
            None => "http://localhost:3000".to_owned(),
        },
    }
}

/// The `URL` of the LibreOffice conversion route of a Gotenberg service.
pub fn convert_endpoint(base_url: &str) -> (r: String)
    ensures
        r@ == base_url@ + "/forms/libreoffice/convert"@,
{
    let mut r = base_url.to_owned();
    r.append("/forms/libreoffice/convert");
    r
}

/// Whether an `HTTP` status reports success (`2xx`).
pub fn is_success_status(status: u16) -> (ok: bool)
    ensures
        ok == (200 <= status < 300),
{
    200 <= status && status < 300
}

/// The error for a conversion answered with a failure status: the status
/// code and trace header are kept, and the message is `HTTP <status>: <body>`
/// (`status_text` as the status is displayed).
pub fn http_failure(status: u16, status_text: &str, trace: Option<String>, body: &str) -> (e:
    PageseerError)
    ensures
        e matches PageseerError::Gotenberg { status: s, trace: t, message } && s == Some(status)
            && t == trace && message@ == "HTTP "@ + status_text@ + ": "@ + body@,
{
    let mut message = "HTTP ".to_owned();
    message.append(status_text);
    message.append(": ");
    message.append(body);
    PageseerError::Gotenberg { status: Some(status), trace, message }
}

} // verus!
