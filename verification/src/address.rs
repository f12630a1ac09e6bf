//! Normalization of a server address given by the user into the URL that the
//! test requests.
//!
//! A bare `a.b.c.d:port` becomes an `http` URL with that host and port; any
//! other text is read as a URL. A URL whose path is the root path gets the
//! default resource path instead.

use crate::net::{
    parse_socket_address, push_socket_address, socket_address_of, socket_address_text,
    SocketAddress,
};
use crate::text::{chars_of, push_str, string_of};
use vstd::prelude::*;

verus! {

/// Longest URL text, in characters, whose path this crate replaces.
pub const MAX_URL_CHARS: usize = 0x0100_0000;

/// The text `http://`.
pub open spec fn http_prefix() -> Seq<char> {
    seq!['h', 't', 't', 'p', ':', '/', '/']
}

/// The root path, `/`.
pub open spec fn root_path() -> Seq<char> {
    seq!['/']
}

/// The default resource path, `/stream`.
pub open spec fn default_path() -> Seq<char> {
    seq!['/', 's', 't', 'r', 'e', 'a', 'm']
}

/// The URL text written for a bare socket address.
pub open spec fn socket_url_text(address: SocketAddress) -> Seq<char> {
    http_prefix() + socket_address_text(address)
}

/// The text that is read as a URL: the URL written for `input` when it is a
/// bare socket address, else `input` itself.
pub open spec fn candidate_text(input: Seq<char>) -> Seq<char> {
    match socket_address_of(input) {
        Some(address) => socket_url_text(address),
        None => input,
    }
}

/// What `Url::parse` makes of `text`: the serialization of the parsed URL, or
/// the parse error's message.
pub uninterp spec fn url_parse(text: Seq<char>) -> Result<Seq<char>, Seq<char>>;

/// The path, as `Url::path` gives it, of the URL that `text` parses to.
pub uninterp spec fn url_path(text: Seq<char>) -> Seq<char>;

/// The serialization of the URL that `text` parses to after `Url::set_path`
/// has set its path to `path`.
pub uninterp spec fn url_with_path(text: Seq<char>, path: Seq<char>) -> Seq<char>;

/// Why an address could not be normalized.
#[derive(Clone, Debug, PartialEq, Eq)]
pub enum AddressError {
    /// The text is no socket address and does not parse as a URL.
    InvalidUrl {
        /// The parser's message.
        message: String,
    },
    /// The URL's path is the root path, and the URL is longer than
    /// `MAX_URL_CHARS` characters.
    TooLong,
}

/// Model of an [`AddressError`].
pub enum AddressErrorView {
    /// See [`AddressError::InvalidUrl`].
    InvalidUrl {
        /// The parser's message.
        message: Seq<char>,
    },
    /// See [`AddressError::TooLong`].
    TooLong,
}

impl View for AddressError {
    type V = AddressErrorView;

    open spec fn view(&self) -> AddressErrorView {
        match self {
            AddressError::InvalidUrl { message } => AddressErrorView::InvalidUrl {
                message: message@,
            },
            AddressError::TooLong => AddressErrorView::TooLong,
        }
    }
}

/// The URL chosen once `text` has parsed to `parsed` with path `path`: the
/// URL with the default path where `path` is the root path, else `parsed`.
pub open spec fn with_default_path(text: Seq<char>, parsed: Seq<char>, path: Seq<char>) -> Result<
    Seq<char>,
    AddressErrorView,
> {
    if path != root_path() {
        Ok(parsed)
    } else if text.len() > MAX_URL_CHARS {
        Err(AddressErrorView::TooLong)
    } else {
        Ok(url_with_path(text, default_path()))
    }
}

/// The normalized URL of `input`, or why there is none.
pub open spec fn normalized(input: Seq<char>) -> Result<Seq<char>, AddressErrorView> {
    let text = candidate_text(input);
    match url_parse(text) {
        Err(message) => Err(AddressErrorView::InvalidUrl { message }),
        Ok(parsed) => with_default_path(text, parsed, url_path(text)),
    }
}

/// The texts that a result of two strings holds.
pub open spec fn texts_of(result: Result<String, String>) -> Result<Seq<char>, Seq<char>> {
    match result {
        Ok(text) => Ok(text@),
        Err(message) => Err(message@),
    }
}

/// The model of a normalization's outcome.
pub open spec fn outcome_of(result: Result<String, AddressError>) -> Result<
    Seq<char>,
    AddressErrorView,
> {
    match result {
        Ok(url) => Ok(url@),
        Err(error) => Err(error@),
    }
}

/// Calls `Url::parse` on `text` and hands back the parsed URL's
/// serialization, or the message of the parse error.
#[verifier::external_body]
fn parse_url(text: &str) -> (parsed: Result<String, String>)
    ensures
        texts_of(parsed) == url_parse(text@),
{
    match reqwest::Url::parse(text) {
        Ok(url) => Ok(String::from(url)),
        Err(error) => Err(error.to_string()),
    }
}

/// Calls `Url::parse` on `text` and `Url::path` on the result: the path of
/// the parsed URL, present exactly when `text` parses.
#[verifier::external_body]
fn parse_url_path(text: &str) -> (path: Option<String>)
    ensures
        path is Some <==> url_parse(text@) is Ok,
        path matches Some(p) ==> p@ == url_path(text@),
{
    match reqwest::Url::parse(text) {
        Ok(url) => Some(url.path().to_string()),
        Err(_) => None,
    }
}

/// Calls `Url::parse` on `text` and `Url::set_path` with `path` on the
/// result: the serialization of the changed URL, present exactly when `text`
/// parses. `set_path` fails on a serialization of four gigabytes; the bounds
/// keep far below that.
#[verifier::external_body]
fn parse_url_with_path(text: &str, path: &str) -> (url: Option<String>)
    requires
        text@.len() <= MAX_URL_CHARS,
        path@.len() <= 16,
    ensures
        url is Some <==> url_parse(text@) is Ok,
        url matches Some(u) ==> u@ == url_with_path(text@, path@),
{
    match reqwest::Url::parse(text) {
        Ok(mut url) => {
            url.set_path(path);
            Some(String::from(url))
        },
        Err(_) => None,
    }
}

/// The URL text for a bare socket address: `http://a.b.c.d:port`.
pub fn socket_url(address: SocketAddress) -> (text: String)
    ensures
        text@ == socket_url_text(address),
{
    let mut out: Vec<char> = Vec::new();
    proof {
        reveal_strlit("http://");
    }
    push_str(&mut out, "http://");
    proof {
        assert(out@ =~= http_prefix());
    }
    push_socket_address(&mut out, address);
    string_of(&out)
}

/// The text that is read as a URL: `http://a.b.c.d:port` when `input` is the
/// bare socket address `a.b.c.d:port`, else `input` unchanged.
pub fn candidate_url_text(input: &str) -> (text: String)
    ensures
        text@ == candidate_text(input@),
{
    match parse_socket_address(input) {
        Some(address) => socket_url(address),
        None => input.to_owned(),
    }
}

/// Whether `path` is the root path, so that the default resource path takes
/// its place.
pub fn is_root_path(path: &str) -> (root: bool)
    ensures
        root <==> path@ == root_path(),
{
    let chars = chars_of(path);
    let root = chars.len() == 1 && chars[0] == '/';
    proof {
        if root {
            assert(path@ =~= root_path());
        }
    }
    root
}

/// Chooses the final URL once `text` has parsed to `parsed` with path
/// `path`: `parsed` itself unless `path` is the root path; then the same URL
/// with the default resource path, or `TooLong` for a text of more than
/// `MAX_URL_CHARS` characters.
pub fn apply_default_path(text: &str, parsed: String, path: &str) -> (url: Result<
    String,
    AddressError,
>)
    requires
        url_parse(text@) is Ok,
    ensures
        outcome_of(url) == with_default_path(text@, parsed@, path@),
{
    if !is_root_path(path) {
        return Ok(parsed);
    }
    if text.unicode_len() > MAX_URL_CHARS {
        return Err(AddressError::TooLong);
    }
    proof {
        reveal_strlit("/stream");
        assert("/stream"@ =~= default_path());
    }
    match parse_url_with_path(text, "/stream") {
        Some(changed) => Ok(changed),
        None => Ok(parsed),
    }
}

/// Normalizes the address that the user gave: a bare `a.b.c.d:port` becomes
/// `http://a.b.c.d:port`, anything else is taken as a URL; the result of
/// parsing that has its root path replaced by `/stream`.
pub fn normalize_address(input: &str) -> (url: Result<String, AddressError>)
    ensures
        outcome_of(url) == normalized(input@),
{
    let text = candidate_url_text(input);
    match parse_url(text.as_str()) {
        Err(message) => Err(AddressError::InvalidUrl { message }),
        Ok(parsed) => {
            match parse_url_path(text.as_str()) {
                Some(path) => apply_default_path(text.as_str(), parsed, path.as_str()),
                None => Ok(parsed),
            }
        },
    }
}

} // verus!
