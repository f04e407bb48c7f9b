//! The parts of a URL that discovery reads, taken from the url crate's parser.
use vstd::prelude::*;

use crate::text::{concat, decimal, decimal_string};

verus! {

/// The scheme, host and explicit port of a parsed URL. The port is absent where the URL
/// names none or names its scheme's default.
#[derive(Debug, Clone)]
pub struct UrlParts {
    pub scheme: String,
    pub host: Option<String>,
    pub port: Option<u16>,
}

pub struct UrlPartsView {
    pub scheme: Seq<char>,
    pub host: Option<Seq<char>>,
    pub port: Option<u16>,
}

impl View for UrlParts {
    type V = UrlPartsView;

    open spec fn view(&self) -> UrlPartsView {
        UrlPartsView {
            scheme: self.scheme@,
            host: match self.host {
                Some(h) => Some(h@),
                None => None,
            },
            port: self.port,
        }
    }
}

/// What the url crate's parser reads from a text: `None` where it refuses it.
pub uninterp spec fn parsed_url(s: Seq<char>) -> Option<UrlPartsView>;

/// Relies on `url::Url::parse` and its `scheme`, `host_str` and `port` accessors.
#[verifier::external_body]
pub(crate) fn parse_url(s: &str) -> (r: Option<UrlParts>)
    ensures
        match r {
            Some(p) => parsed_url(s@) == Some(p@),
            None => parsed_url(s@) is None,
        },
{
    match url::Url::parse(s) {
        Ok(u) => Some(UrlParts {
            scheme: u.scheme().to_string(),
            host: u.host_str().map(|h| h.to_string()),
            port: u.port(),
        }),
        Err(_) => None,
    }
}

/// `scheme://host:port`.
pub open spec fn origin(scheme: Seq<char>, host: Seq<char>, port: nat) -> Seq<char> {
    scheme + "://"@ + host + ":"@ + decimal(port)
}

/// Writes `scheme://host:port`.
pub fn make_origin(scheme: &str, host: &str, port: u16) -> (r: String)
    ensures
        r@ == origin(scheme@, host@, port as nat),
{
    let a = concat(scheme, "://");
    let b = concat(a.as_str(), host);
    let c = concat(b.as_str(), ":");
    let p = decimal_string(port as u64);
    concat(c.as_str(), p.as_str())
}

/// The port a URL is served on: its explicit port, else 443 for `https` and 80 otherwise.
pub open spec fn effective_port(p: UrlPartsView) -> nat {
    match p.port {
        Some(n) => n as nat,
        None => if p.scheme == "https"@ { 443 } else { 80 },
    }
}

/// The base URL of a device location: `scheme://host:port`, the port made explicit; the
/// location itself where it does not parse or names no host.
pub open spec fn base_url_spec(location: Seq<char>) -> Seq<char> {
    match parsed_url(location) {
        Some(p) => match p.host {
            Some(h) => origin(p.scheme, h, effective_port(p)),
            None => location,
        },
        None => location,
    }
}

/// The base URL of a device location.
pub fn extract_base_url(location: &str) -> (r: String)
    ensures
        r@ == base_url_spec(location@),
{
    match parse_url(location) {
        Some(p) => match &p.host {
            Some(h) => {
                let port: u16 = match p.port {
                    Some(n) => n,
                    None => if crate::text::str_eq(p.scheme.as_str(), "https") { 443 } else { 80 },
                };
                make_origin(p.scheme.as_str(), h.as_str(), port)
            },
            None => String::from_str(location),
        },
        None => String::from_str(location),
    }
}

} // verus!
