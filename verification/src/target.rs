//! The target URL of a request, taken apart.

use vstd::prelude::*;
use vstd::string::*;
use crate::error::TwitterError;
use crate::order::bytes_eq;
use crate::params::pairs_view;
use crate::text::{append, append_ascii, ascii, ascii_bytes, decimal, to_decimal};

verus! {

/// The parts of a parsed URL that signing reads.
#[derive(Debug)]
pub struct UrlParts {
    /// The scheme, in lower case, without `:`.
    pub scheme: Vec<u8>,
    /// The host, if the URL has one.
    pub host: Option<Vec<u8>>,
    /// The port, unless it is absent or the default of the scheme.
    pub port: Option<u16>,
    /// The path, as the URL holds it.
    pub path: Vec<u8>,
    /// The names and values of the query string, decoded, in their order.
    pub query: Vec<(Vec<u8>, Vec<u8>)>,
}

/// The parts of a URL as byte strings.
pub struct UrlPartsView {
    pub scheme: Seq<u8>,
    pub host: Option<Seq<u8>>,
    pub port: Option<u16>,
    pub path: Seq<u8>,
    pub query: Seq<(Seq<u8>, Seq<u8>)>,
}

impl View for UrlParts {
    type V = UrlPartsView;

    open spec fn view(&self) -> UrlPartsView {
        UrlPartsView {
            scheme: self.scheme@,
            host: match self.host {
                Some(h) => Some(h@),
                None => None,
            },
            port: self.port,
            path: self.path@,
            query: pairs_view(self.query@),
        }
    }
}

/// The parts of the URL that `text` parses to, or `None` where it is no URL.
pub uninterp spec fn parsed_url(text: Seq<u8>) -> Option<UrlPartsView>;

/// Whether a request to the URL can be signed: it has a host, and its scheme
/// is `http` or `https`.
pub open spec fn signable(u: UrlPartsView) -> bool {
    u.host.is_some() && (u.scheme == ascii("http"@) || u.scheme == ascii("https"@))
}

/// Whether `text` parses to a URL that can be signed.
pub open spec fn signable_text(text: Seq<u8>) -> bool {
    match parsed_url(text) {
        Some(u) => signable(u),
        None => false,
    }
}

/// Whether `port` is the port that `scheme` implies.
pub open spec fn is_default_port(scheme: Seq<u8>, port: u16) -> bool {
    (scheme == ascii("http"@) && port == 80) || (scheme == ascii("https"@) && port == 443)
}

/// `:` and the port in decimal, where the URL names a port other than the
/// default of its scheme.
pub open spec fn port_text(u: UrlPartsView) -> Seq<u8> {
    match u.port {
        Some(p) => if is_default_port(u.scheme, p) {
            Seq::<u8>::empty()
        } else {
            seq![0x3Au8] + decimal(p as nat)
        },
        None => Seq::<u8>::empty(),
    }
}

/// The URL without its query string and fragment: scheme, `://`, host, port
/// and path.
pub open spec fn base_url(u: UrlPartsView) -> Seq<u8> {
    u.scheme + ascii("://"@) + match u.host {
        Some(h) => h,
        None => Seq::<u8>::empty(),
    } + port_text(u) + u.path
}

/// Parses with `url::Url::parse` and copies out what `scheme`, `host_str`,
/// `port`, `path` and `query_pairs` give for the parsed URL. Text that is not
/// UTF-8 or that `parse` rejects gives `None`. The contract only gives the
/// outcome its name.
#[verifier::external_body]
fn parse_url(text: &[u8]) -> (res: Option<UrlParts>)
    ensures
        res.is_some() == parsed_url(text@).is_some(),
        res matches Some(p) ==> parsed_url(text@) == Some(p@),
{
    let url = url::Url::parse(std::str::from_utf8(text).ok()?).ok()?;
    Some(UrlParts {
        scheme: url.scheme().as_bytes().to_vec(),
        host: url.host_str().map(|h| h.as_bytes().to_vec()),
        port: url.port(),
        path: url.path().as_bytes().to_vec(),
        query: url.query_pairs().map(|(k, v)| (k.as_bytes().to_vec(), v.as_bytes().to_vec())).collect(),
    })
}

/// Whether the parts are those of a URL that can be signed.
pub fn is_signable(parts: &UrlParts) -> (res: bool)
    ensures
        res == signable(parts@),
{
    proof {
        reveal_strlit("http");
        reveal_strlit("https");
    }
    let http = ascii_bytes("http");
    let https = ascii_bytes("https");
    parts.host.is_some() && (bytes_eq(parts.scheme.as_slice(), http.as_slice()) || bytes_eq(
        parts.scheme.as_slice(),
        https.as_slice(),
    ))
}

/// Parses the target URL of a request. A text that is no URL, or a URL that
/// cannot be signed, is refused.
pub fn split_url(text: &[u8]) -> (res: Result<UrlParts, TwitterError>)
    ensures
        res.is_ok() == signable_text(text@),
        match res {
            Ok(parts) => parsed_url(text@) == Some(parts@),
            Err(e) => e == TwitterError::Encoding,
        },
{
    match parse_url(text) {
        Some(parts) => {
            if is_signable(&parts) {
                Ok(parts)
            } else {
                Err(TwitterError::Encoding)
            }
        },
        None => Err(TwitterError::Encoding),
    }
}

/// Builds the base URL that is signed.
pub fn base_string_url(parts: &UrlParts) -> (res: Vec<u8>)
    ensures
        res@ == base_url(parts@),
{
    proof {
        reveal_strlit("http");
        reveal_strlit("https");
        reveal_strlit("://");
    }
    let http_scheme = ascii_bytes("http");
    let https_scheme = ascii_bytes("https");
    let mut res: Vec<u8> = Vec::new();
    append(&mut res, parts.scheme.as_slice());
    append_ascii(&mut res, "://");
    match &parts.host {
        Some(h) => {
            append(&mut res, h.as_slice());
        },
        None => {},
    }
    match parts.port {
        Some(p) => {
            let http = bytes_eq(parts.scheme.as_slice(), http_scheme.as_slice()) && p == 80;
            let https = bytes_eq(parts.scheme.as_slice(), https_scheme.as_slice()) && p == 443;
            if !(http || https) {
                res.push(0x3Au8);
                let digits = to_decimal(p as u64);
                append(&mut res, digits.as_slice());
            }
        },
        None => {},
    }
    append(&mut res, parts.path.as_slice());
    assert(res@ =~= base_url(parts@));
    res
}

} // verus!
