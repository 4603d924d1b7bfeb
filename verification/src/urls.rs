//! The library's view of a URL, and parsing through the `url` and `base64`
//! crates.
//!
//! The dispatcher and the template expander only ever read URL components,
//! so a URL is modelled as a record of plain strings. Parsing a string into
//! such a record is done by the `url` crate behind a trusted wrapper; what
//! that parser returns is given a name (`parse_of`) rather than restated.

use vstd::prelude::*;

verus! {

/// A parsed URL, reduced to the components the dispatcher reads.
///
/// `full` is the canonical string form of the URL, as the parser serialised
/// it; the other fields are the named components.
#[derive(Debug, Clone)]
pub struct Url {
    pub scheme: String,
    pub host: Option<String>,
    pub path: String,
    pub query: Option<String>,
    pub fragment: Option<String>,
    pub full: String,
}

/// The mathematical value of a [`Url`]: each component as a character
/// sequence.
pub struct UrlView {
    pub scheme: Seq<char>,
    pub host: Option<Seq<char>>,
    pub path: Seq<char>,
    pub query: Option<Seq<char>>,
    pub fragment: Option<Seq<char>>,
    pub full: Seq<char>,
}

impl View for Url {
    type V = UrlView;

    open spec fn view(&self) -> UrlView {
        UrlView {
            scheme: self.scheme@,
            host: self.host.deep_view(),
            path: self.path@,
            query: self.query.deep_view(),
            fragment: self.fragment.deep_view(),
            full: self.full@,
        }
    }
}

/// What one attempt of the URL parser can yield: a parsed URL, the
/// distinguished "relative URL without a base" failure (which triggers the
/// base64 fallback), or any other failure.
pub enum ParseOutcome {
    Parsed(Url),
    Relative,
    Failed,
}

/// The mathematical value of a [`ParseOutcome`].
pub enum ParseOutcomeView {
    Parsed(UrlView),
    Relative,
    Failed,
}

impl View for ParseOutcome {
    type V = ParseOutcomeView;

    open spec fn view(&self) -> ParseOutcomeView {
        match self {
            ParseOutcome::Parsed(u) => ParseOutcomeView::Parsed(u@),
            ParseOutcome::Relative => ParseOutcomeView::Relative,
            ParseOutcome::Failed => ParseOutcomeView::Failed,
        }
    }
}

/// What `url::Url::parse` yields on a given string: the parsed components,
/// the "relative URL without a base" failure, or another failure.
pub uninterp spec fn parse_of(s: Seq<char>) -> ParseOutcomeView;

/// What base64's standard-alphabet decode yields on a given string.
pub uninterp spec fn base64_decode_of(s: Seq<char>) -> Option<Seq<u8>>;

/// What UTF-8 decoding yields on a given byte sequence.
pub uninterp spec fn utf8_of(b: Seq<u8>) -> Option<Seq<char>>;

/// Relies on `url::Url::parse` and the component accessors of `url::Url`
/// (`scheme`, `host_str`, `path`, `query`, `fragment`, `as_str`): for a
/// fixed input string, which components are parsed depends on that string
/// alone.
#[verifier::external_body]
pub(crate) fn parse_outcome(s: &str) -> (r: ParseOutcome)
    ensures
        r@ == parse_of(s@),
{
    match url::Url::parse(s) {
        Ok(u) => ParseOutcome::Parsed(Url {
            scheme: u.scheme().to_string(),
            host: u.host_str().map(|h| h.to_string()),
            path: u.path().to_string(),
            query: u.query().map(|q| q.to_string()),
            fragment: u.fragment().map(|f| f.to_string()),
            full: u.as_str().to_string(),
        }),
        Err(url::ParseError::RelativeUrlWithoutBase) => ParseOutcome::Relative,
        Err(_) => ParseOutcome::Failed,
    }
}

/// Relies on `base64::Engine::decode` with the `STANDARD` engine: for a
/// fixed input string, the decoded bytes depend on that string alone.
#[verifier::external_body]
fn base64_decode(s: &str) -> (r: Option<Vec<u8>>)
    ensures
        match r {
            Some(v) => base64_decode_of(s@) == Some(v@),
            None => base64_decode_of(s@) is None,
        },
{
    base64::Engine::decode(&base64::engine::general_purpose::STANDARD, s).ok()
}

/// Relies on `std::str::from_utf8`: for a fixed byte sequence, whether the
/// bytes are valid UTF-8 and which characters they decode to depend on
/// those bytes alone.
#[verifier::external_body]
fn utf8_to_string(v: &Vec<u8>) -> (r: Option<String>)
    ensures
        match r {
            Some(s) => utf8_of(v@) == Some(s@),
            None => utf8_of(v@) is None,
        },
{
    match std::str::from_utf8(v.as_slice()) {
        Ok(s) => Some(s.to_string()),
        Err(_) => None,
    }
}

/// The URL that [`parse_url`] yields on a given string: the direct parse
/// where it succeeds, and otherwise, where the string "looks relative", the
/// parse of its base64-decoded form.
pub open spec fn parse_url_spec(s: Seq<char>) -> Option<UrlView> {
    match parse_of(s) {
        ParseOutcomeView::Parsed(u) => Some(u),
        ParseOutcomeView::Relative => match base64_decode_of(s) {
            Some(bytes) => match utf8_of(bytes) {
                Some(decoded) => match parse_of(decoded) {
                    ParseOutcomeView::Parsed(u) => Some(u),
                    _ => None,
                },
                None => None,
            },
            None => None,
        },
        ParseOutcomeView::Failed => None,
    }
}

/// Parse a command-line argument as a URL.
///
/// A string that the parser reports as a relative URL without a base is
/// retried as base64: decoded and parsed again.
pub fn parse_url(url_str: &str) -> (r: Option<Url>)
    ensures
        match r {
            Some(u) => parse_url_spec(url_str@) == Some(u@),
            None => parse_url_spec(url_str@) is None,
        },
{
    match parse_outcome(url_str) {
        ParseOutcome::Parsed(u) => Some(u),
        ParseOutcome::Relative => match base64_decode(url_str) {
            Some(bytes) => match utf8_to_string(&bytes) {
                Some(decoded) => match parse_outcome(decoded.as_str()) {
                    ParseOutcome::Parsed(u) => Some(u),
                    _ => None,
                },
                None => None,
            },
            None => None,
        },
        ParseOutcome::Failed => None,
    }
}

} // verus!
