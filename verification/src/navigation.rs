//! The top-level navigation policy of the main window: only the embedded
//! application origin (and, in development, the configured loopback dev
//! server) may load, never with credentials in the URL.
use vstd::prelude::*;

verus! {

/// The parts of a URL the policy reads.
#[derive(Debug)]
pub struct UrlParts {
    pub scheme: String,
    pub username: String,
    pub has_password: bool,
    pub host: Option<String>,
    pub port: Option<u16>,
}

pub struct UrlPartsView {
    pub scheme: Seq<char>,
    pub username: Seq<char>,
    pub has_password: bool,
    pub host: Option<Seq<char>>,
    pub port: Option<u16>,
}

impl View for UrlParts {
    type V = UrlPartsView;

    open spec fn view(&self) -> UrlPartsView {
        UrlPartsView {
            scheme: self.scheme@,
            username: self.username@,
            has_password: self.has_password,
            host: match self.host {
                Some(h) => Some(h@),
                None => None,
            },
            port: self.port,
        }
    }
}

/// The parts of the absolute URL `text` as the WHATWG URL parser of the
/// `url` crate reads them, or none when it is not an absolute URL.
pub uninterp spec fn parsed_url(text: Seq<char>) -> Option<UrlPartsView>;

/// `url::Url::parse` (url), read through `scheme`, `username`, `password`,
/// `host_str` and `port`. The parse is a function of the text alone; what it
/// yields for a given text is not stated here.
#[verifier::external_body]
fn parse_url(text: &str) -> (r: Option<UrlParts>)
    ensures
        match r {
            Some(u) => parsed_url(text@) == Some(u@),
            None => parsed_url(text@) is None,
        },
{
    url::Url::parse(text).ok().map(|u| UrlParts {
        scheme: u.scheme().to_owned(),
        username: u.username().to_owned(),
        has_password: u.password().is_some(),
        host: u.host_str().map(|h| h.to_owned()),
        port: u.port(),
    })
}

impl UrlParts {
    /// The parts of an absolute URL, if `text` is one.
    pub fn parse(text: &str) -> (r: Option<UrlParts>)
        ensures
            match r {
                Some(u) => parsed_url(text@) == Some(u@),
                None => parsed_url(text@) is None,
            },
    {
        parse_url(text)
    }
}

/// The dev server's port.
pub const DEV_SERVER_PORT: u16 = 1420;

/// Whether the main window may navigate to `url`.
pub open spec fn spec_navigation_allowed(url: UrlPartsView, allow_dev_server: bool) -> bool {
    let production_origin = url.scheme == "http"@ && url.host == Some("tauri.localhost"@) && url.port is None;
    let development_origin = allow_dev_server && url.scheme == "http"@ && url.host == Some("127.0.0.1"@)
        && url.port == Some(DEV_SERVER_PORT);
    url.username.len() == 0 && !url.has_password && (production_origin || development_origin)
}

fn str_is(a: &str, b: &str) -> (r: bool)
    ensures
        r == (a@ == b@),
{
    crate::text::str_eq(a, b)
}

fn host_is(host: &Option<String>, expected: &str) -> (r: bool)
    ensures
        r == (match host {
            Some(h) => h@ == expected@,
            None => false,
        }),
{
    match host {
        Some(h) => str_is(h.as_str(), expected),
        None => false,
    }
}

pub fn is_allowed_top_level_navigation(url: &UrlParts, allow_dev_server: bool) -> (b: bool)
    ensures
        b == spec_navigation_allowed(url@, allow_dev_server),
{
    if url.username.unicode_len() != 0 || url.has_password {
        return false;
    }
    let http = str_is(url.scheme.as_str(), "http");
    let production_origin = http && host_is(&url.host, "tauri.localhost") && url.port.is_none();
    let development_origin = allow_dev_server && http && host_is(&url.host, "127.0.0.1") && match url.port {
        Some(p) => p == DEV_SERVER_PORT,
        None => false,
    };
    production_origin || development_origin
}

/// Whether the main window may navigate to the URL `text`; text that is not
/// an absolute URL never loads.
pub fn navigation_allowed(text: &str, allow_dev_server: bool) -> (b: bool)
    ensures
        b == (match parsed_url(text@) {
            Some(u) => spec_navigation_allowed(u, allow_dev_server),
            None => false,
        }),
{
    match parse_url(text) {
        Some(u) => is_allowed_top_level_navigation(&u, allow_dev_server),
        None => false,
    }
}

} // verus!
