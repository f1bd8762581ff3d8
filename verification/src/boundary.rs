//! What the proxy has from the crates that it is built on: the HTTP types, the
//! URL parser and the PEM reader. Everything here is believed, not proved; the
//! comment on each item says what is believed of which function.

use crate::message::fields;
use crate::message::is_token;
use crate::message::is_web_base;
use crate::message::one_target;
use crate::message::text_of;
use crate::message::Header;
use crate::message::UpstreamView;
use crate::text::lowercase;
use crate::text::trim_end;
use crate::tls::byte_strings;
use crate::tls::PrivateKey;
use crate::tls::PrivateKeyView;
use axum::http::HeaderMap;
use axum::http::Method;
use axum::http::StatusCode;
use axum::http::Uri;
use rustls::pki_types::PrivateKeyDer;
use url::Url;
use vstd::prelude::*;

verus! {

/// `axum::http::Uri`, the URI of a request.
#[verifier::external_type_specification]
#[verifier::external_body]
pub struct ExUri(axum::http::Uri);

/// `axum::http::Method`, which is also `reqwest::Method`.
#[verifier::external_type_specification]
#[verifier::external_body]
pub struct ExMethod(axum::http::Method);

/// `axum::http::HeaderValue`.
#[verifier::external_type_specification]
#[verifier::external_body]
pub struct ExHeaderValue(axum::http::HeaderValue);

/// `axum::http::HeaderMap`, the header fields of a message.
#[verifier::external_type_specification]
#[verifier::external_body]
#[verifier::reject_recursive_types(T)]
pub struct ExHeaderMap<T>(axum::http::HeaderMap<T>);

/// `url::Url`, an absolute URL.
#[verifier::external_type_specification]
#[verifier::external_body]
pub struct ExUrl(url::Url);

/// `reqwest::Client`, the handle that requests are sent with.
#[verifier::external_type_specification]
#[verifier::external_body]
pub struct ExClient(reqwest::Client);

/// What `Uri::path` returns.
pub uninterp spec fn uri_path(uri: Uri) -> Seq<char>;

/// What `Uri::query` returns.
pub uninterp spec fn uri_query(uri: Uri) -> Option<Seq<char>>;

/// What `Uri::path_and_query` returns, as text.
pub uninterp spec fn uri_path_and_query(uri: Uri) -> Option<Seq<char>>;

/// What `Method::as_str` returns.
pub uninterp spec fn method_text(method: Method) -> Seq<char>;

/// The fields of a header map, in the order in which `HeaderMap::iter` hands
/// them out.
pub uninterp spec fn header_fields(headers: HeaderMap) -> Seq<(Seq<char>, Seq<u8>)>;

/// What `Url::parse` makes of a text: what `Url::as_str`, `Url::host_str` and
/// `Url::port` return for the URL, or the message of the error.
pub uninterp spec fn url_parse(text: Seq<char>) -> Result<UpstreamView, Seq<char>>;

/// What `Url::as_str` returns.
pub uninterp spec fn url_text(url: Url) -> Seq<char>;

/// What `Url::host_str` returns.
pub uninterp spec fn url_host(url: Url) -> Option<Seq<char>>;

/// What `Url::port` returns.
pub uninterp spec fn url_port(url: Url) -> Option<u16>;

/// What `Url::host_str` returns for an http or https URL without query and
/// fragment, as a reading of the URL's text without the slashes at its end.
pub uninterp spec fn web_host(text: Seq<char>) -> Option<Seq<char>>;

/// What `Url::port` returns for an http or https URL without query and fragment,
/// as a reading of the URL's text without the slashes at its end.
pub uninterp spec fn web_port(text: Seq<char>) -> Option<u16>;

/// What `Url::path` returns.
pub uninterp spec fn url_path(url: Url) -> Seq<char>;

/// What `Url::query` returns.
pub uninterp spec fn url_query(url: Url) -> Option<Seq<char>>;

/// What is asked of the server under a URL that `Url::parse` makes of a text:
/// what `Url::path` and `Url::query` return for it, or nothing where the text is
/// not a URL.
pub uninterp spec fn url_target(text: Seq<char>) -> Option<(Seq<char>, Option<Seq<char>>)>;

/// What an upstream URL says to the proxy.
pub open spec fn upstream_view(url: Url) -> UpstreamView {
    UpstreamView { url: url_text(url), host: url_host(url), port: url_port(url) }
}

/// `axum::http::Uri::path`: the path of the URI, by its name [`uri_path`].
pub assume_specification[ axum::http::Uri::path ](uri: &Uri) -> (r: &str)
    ensures
        r@ == uri_path(*uri),
;

/// `axum::http::Uri::query`: the query of the URI without its question mark,
/// by its name [`uri_query`].
pub assume_specification[ axum::http::Uri::query ](uri: &Uri) -> (r: Option<&str>)
    ensures
        text_of(r) == uri_query(*uri),
;

/// `axum::http::Uri::path_and_query`, as text: by its name
/// [`uri_path_and_query`], and that it goes together with what `path` and
/// `query` return for the same URI.
#[verifier::external_body]
pub(crate) fn path_and_query_of(uri: &Uri) -> (r: Option<&str>)
    ensures
        text_of(r) == uri_path_and_query(*uri),
        one_target(uri_path(*uri), uri_query(*uri), text_of(r)),
{
    uri.path_and_query().map(|pq| pq.as_str())
}

/// `axum::http::Method::as_str`: the method's text, by its name
/// [`method_text`], and that it is a token.
pub assume_specification[ axum::http::Method::as_str ](method: &Method) -> (r: &str)
    ensures
        r@ == method_text(*method),
        is_token(r@),
;

/// `reqwest::Method::from_bytes`, on the bytes of a text: it makes a method of
/// every token, whose text is that token, and refuses everything else with one
/// and the same message.
#[verifier::external_body]
pub(crate) fn method_from(text: &str) -> (r: Result<String, String>)
    ensures
        match r {
            Ok(m) => is_token(text@) && m@ == text@,
            Err(e) => !is_token(text@) && e@ == "invalid HTTP method"@,
        },
{
    match reqwest::Method::from_bytes(text.as_bytes()) {
        Ok(m) => Ok(m.as_str().to_string()),
        Err(e) => Err(e.to_string()),
    }
}

/// `axum::http::StatusCode::from_u16`: the codes from 100 to 999 are status
/// codes, and no others.
#[verifier::external_body]
pub(crate) fn status_from(code: u16) -> (r: Option<u16>)
    ensures
        r == (if 100 <= code <= 999 {
            Some(code)
        } else {
            None
        }),
{
    StatusCode::from_u16(code).ok().map(|s| s.as_u16())
}

/// `axum::http::HeaderMap::iter`: the fields of the map, by their name
/// [`header_fields`], each with its name as text and the bytes of its value.
#[verifier::external_body]
pub(crate) fn fields_of(headers: &HeaderMap) -> (r: Vec<Header>)
    ensures
        fields(r@) == header_fields(*headers),
{
    headers.iter().map(
        |(name, value)|
            Header { name: name.as_str().to_string(), value: value.as_bytes().to_vec() },
    ).collect()
}

/// `url::Url::parse`: the outcome by its names [`url_parse`] and [`url_target`],
/// the URL by what its readings return.
#[verifier::external_body]
pub(crate) fn url_from(text: &str) -> (r: Result<Url, String>)
    ensures
        match r {
            Ok(u) => url_parse(text@) == Ok::<UpstreamView, Seq<char>>(upstream_view(u)),
            Err(e) => url_parse(text@) == Err::<UpstreamView, Seq<char>>(e@),
        },
        url_target(text@) == (match r {
            Ok(u) => Some((url_path(u), url_query(u))),
            Err(_) => None,
        }),
{
    match Url::parse(text) {
        Ok(u) => Ok(u),
        Err(e) => Err(e.to_string()),
    }
}

/// `url::Url::as_str`: the URL in its serialized form, by its name [`url_text`].
pub assume_specification[ url::Url::as_str ](url: &Url) -> (r: &str)
    ensures
        r@ == url_text(*url),
;

/// `url::Url::host_str`: the host, where the URL has one, by its name
/// [`url_host`]. In an http or https URL without query and fragment the host
/// stands in front of the path, so that the slashes at the end have no part in
/// it: there it is also [`web_host`] of the text without them.
pub assume_specification[ url::Url::host_str ](url: &Url) -> (r: Option<&str>)
    ensures
        text_of(r) == url_host(*url),
        is_web_base(url_text(*url)) ==> text_of(r) == web_host(trim_end(url_text(*url), '/')),
;

/// `url::Url::port`: the port, where the URL gives one that is not its scheme's
/// default, by its name [`url_port`]. Like the host it is read in front of the
/// path: in an http or https URL without query and fragment it is also
/// [`web_port`] of the text without the slashes at its end.
pub assume_specification[ url::Url::port ](url: &Url) -> (r: Option<u16>)
    ensures
        r == url_port(*url),
        is_web_base(url_text(*url)) ==> r == web_port(trim_end(url_text(*url), '/')),
;

/// `url::Url::path`: the path, percent-encoded as it is sent, by its name
/// [`url_path`].
pub assume_specification[ url::Url::path ](url: &Url) -> (r: &str)
    ensures
        r@ == url_path(*url),
;

/// `url::Url::query`: the query without its question mark, percent-encoded as it
/// is sent, by its name [`url_query`].
pub assume_specification[ url::Url::query ](url: &Url) -> (r: Option<&str>)
    ensures
        text_of(r) == url_query(*url),
;

/// `url::Url::clone`: the clone is the same URL.
pub assume_specification[ <url::Url as std::clone::Clone>::clone ](url: &Url) -> (r: Url)
    ensures
        r == *url,
;

/// `reqwest::Client::clone`: another handle to the same client. Nothing is
/// claimed of it.
pub assume_specification[ <reqwest::Client as std::clone::Clone>::clone ](
    client: &reqwest::Client,
) -> (r: reqwest::Client)
;

/// `str::to_ascii_lowercase`: the letters `A` to `Z` become `a` to `z`, and
/// every other character stays.
pub assume_specification[ str::to_ascii_lowercase ](s: &str) -> (r: String)
    ensures
        r@ == lowercase(s@),
;

/// What `rustls_pemfile::certs` reads in a PEM file: the certificates in it, or
/// the message of the first error.
pub uninterp spec fn pem_certificates(pem: Seq<u8>) -> Result<Seq<Seq<u8>>, Seq<char>>;

/// What `rustls_pemfile::private_key` reads in a PEM file: the first private key
/// in it, if there is one, or the message of the error that came before it.
pub uninterp spec fn pem_private_key(pem: Seq<u8>) -> Result<Option<PrivateKeyView>, Seq<char>>;

/// `rustls_pemfile::certs`, up to its first error: the DER bytes of the
/// certificates, by their name [`pem_certificates`].
#[verifier::external_body]
pub(crate) fn certificates_in(pem: &[u8]) -> (r: Result<Vec<Vec<u8>>, String>)
    ensures
        match r {
            Ok(certs) => pem_certificates(pem@) == Ok::<Seq<Seq<u8>>, Seq<char>>(
                byte_strings(certs@),
            ),
            Err(e) => pem_certificates(pem@) == Err::<Seq<Seq<u8>>, Seq<char>>(e@),
        },
{
    let mut rest = pem;
    rustls_pemfile::certs(&mut rest).map(
        |cert| cert.map(|c| c.to_vec()).map_err(|e| e.to_string()),
    ).collect()
}

/// `rustls_pemfile::private_key`: the key with its format and its DER bytes, by
/// its name [`pem_private_key`].
#[verifier::external_body]
pub(crate) fn private_key_in(pem: &[u8]) -> (r: Result<Option<PrivateKey>, String>)
    ensures
        match r {
            Ok(Some(key)) => pem_private_key(pem@) == Ok::<Option<PrivateKeyView>, Seq<char>>(
                Some(key@),
            ),
            Ok(None) => pem_private_key(pem@) == Ok::<Option<PrivateKeyView>, Seq<char>>(None),
            Err(e) => pem_private_key(pem@) == Err::<Option<PrivateKeyView>, Seq<char>>(e@),
        },
{
    let mut rest = pem;
    match rustls_pemfile::private_key(&mut rest) {
        Ok(None) => Ok(None),
        Ok(Some(PrivateKeyDer::Pkcs1(k))) => Ok(
            Some(PrivateKey::Pkcs1(k.secret_pkcs1_der().to_vec())),
        ),
        Ok(Some(PrivateKeyDer::Sec1(k))) => Ok(Some(PrivateKey::Sec1(k.secret_sec1_der().to_vec()))),
        Ok(Some(PrivateKeyDer::Pkcs8(k))) => Ok(
            Some(PrivateKey::Pkcs8(k.secret_pkcs8_der().to_vec())),
        ),
        Ok(Some(k)) => Ok(Some(PrivateKey::Other(k.secret_der().to_vec()))),
        Err(e) => Err(e.to_string()),
    }
}

} // verus!
