//! URL parsing and percent-decoding, as far as the runtime reads them.
use vstd::prelude::*;
use vstd::string::StrSliceExecFns;

verus! {

/// `s` starts with `p`.
pub open spec fn has_prefix(s: Seq<char>, p: Seq<char>) -> bool {
    p.len() <= s.len() && s.subrange(0, p.len() as int) == p
}

/// Whether `s` starts with `p`.
pub fn str_has_prefix(s: &str, p: &str) -> (b: bool)
    ensures
        b == has_prefix(s@, p@),
{
    let n = s.unicode_len();
    let m = p.unicode_len();
    if m > n {
        return false;
    }
    let mut i: usize = 0;
    while i < m
        invariant
            i <= m <= n,
            n == s@.len(),
            m == p@.len(),
            forall|j: int| 0 <= j < i ==> s@[j] == p@[j],
        decreases m - i,
    {
        if s.get_char(i) != p.get_char(i) {
            proof {
                assert(s@.subrange(0, m as int)[i as int] == s@[i as int]);
            }
            return false;
        }
        i = i + 1;
    }
    assert(s@.subrange(0, m as int) =~= p@);
    true
}

/// The parts of a parsed URL that the runtime reads.
pub struct UrlParts {
    /// The host as serialized (IPv6 addresses in brackets), if any.
    pub host: Option<String>,
    /// The port, unless none or the scheme's default was given.
    pub port: Option<u16>,
    /// The path, percent-encoded.
    pub path: String,
    /// The query without its `?`, if any.
    pub query: Option<String>,
}

/// The view of `UrlParts`.
pub struct UrlPartsView {
    pub host: Option<Seq<char>>,
    pub port: Option<u16>,
    pub path: Seq<char>,
    pub query: Option<Seq<char>>,
}

/// The view of an optional string.
pub open spec fn opt_view(s: Option<String>) -> Option<Seq<char>> {
    match s {
        Some(x) => Some(x@),
        None => None,
    }
}

impl View for UrlParts {
    type V = UrlPartsView;

    open spec fn view(&self) -> UrlPartsView {
        UrlPartsView {
            host: opt_view(self.host),
            port: self.port,
            path: self.path@,
            query: opt_view(self.query),
        }
    }
}

/// What `url::Url::parse` makes of `input`: its parts, or the text of the
/// parse error.
pub uninterp spec fn url_parsed(input: Seq<char>) -> Result<UrlPartsView, Seq<char>>;

/// The view of a parse's result.
pub open spec fn parse_view(r: Result<UrlParts, String>) -> Result<UrlPartsView, Seq<char>> {
    match r {
        Ok(p) => Ok(p@),
        Err(e) => Err(e@),
    }
}

/// Parses an absolute URL with `url::Url::parse` and reads its host, port,
/// path and query; the result is named `url_parsed`.
#[verifier::external_body]
pub(crate) fn parse_url(input: &str) -> (r: Result<UrlParts, String>)
    ensures
        parse_view(r) == url_parsed(input@),
{
    match url::Url::parse(input) {
        Err(e) => Err(e.to_string()),
        Ok(u) => Ok(UrlParts {
            host: u.host_str().map(str::to_owned),
            port: u.port(),
            path: u.path().to_owned(),
            query: u.query().map(str::to_owned),
        }),
    }
}

/// What `urlencoding::decode` makes of `input`: the text with each `%`
/// and two hex digits replaced by that byte, or none when the bytes are
/// then no UTF-8.
pub uninterp spec fn url_decoded(input: Seq<char>) -> Option<Seq<char>>;

/// Percent-decodes `input` with `urlencoding::decode`; the result is named
/// `url_decoded`. Of it this states what the source shows: text without a
/// `%` comes back as it is.
#[verifier::external_body]
pub(crate) fn percent_decode(input: &str) -> (r: Option<String>)
    ensures
        opt_view(r) == url_decoded(input@),
        !input@.contains('%') ==> opt_view(r) == Some(input@),
{
    match urlencoding::decode(input) {
        Ok(s) => Some(s.into_owned()),
        Err(_) => None,
    }
}

/// A path that some platform takes for absolute: one that starts with a
/// slash or a backslash, or whose second character is a drive's colon.
pub open spec fn maybe_absolute(path: Seq<char>) -> bool {
    path.len() > 0 && (path[0] == '/' || path[0] == '\\' || (path.len() > 1 && path[1] == ':'))
}

/// The `file:` URL of the directory `path`, made with
/// `url::Url::from_directory_path`. What the path must be and how it is
/// written depend on the platform the code runs on, so this states only what
/// holds on every platform: the path must be absolute (on Unix it starts
/// with a slash; on Windows with a drive such as `C:` or a backslash), and
/// the URL is in the `file` scheme and ends with a slash.
#[verifier::external_body]
pub(crate) fn directory_url(path: &str) -> (r: Option<String>)
    ensures
        r is Some ==> maybe_absolute(path@),
        r is Some ==> ({
            let u = opt_view(r)->0;
            u.len() >= 6 && u.subrange(0, 5) == "file:"@ && u.last() == '/'
        }),
{
    url::Url::from_directory_path(path).ok().map(String::from)
}

} // verus!
