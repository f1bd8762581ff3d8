//! The messages that the proxy handles, as plain values.

use crate::boundary::web_host;
use crate::boundary::web_port;
use crate::text::trim_end;
use vstd::prelude::*;

verus! {

/// A header field: its name and the bytes of its value.
pub struct Header {
    pub name: String,
    pub value: Vec<u8>,
}

impl View for Header {
    type V = (Seq<char>, Seq<u8>);

    open spec fn view(&self) -> (Seq<char>, Seq<u8>) {
        (self.name@, self.value@)
    }
}

/// The header fields in `headers`, in order.
pub open spec fn fields(headers: Seq<Header>) -> Seq<(Seq<char>, Seq<u8>)> {
    headers.map_values(|h: Header| h@)
}

/// The text in `o`, if there is one.
pub open spec fn text_of(o: Option<&str>) -> Option<Seq<char>> {
    match o {
        Some(s) => Some(s@),
        None => None,
    }
}

/// The text in `o`, if there is one.
pub open spec fn string_of(o: Option<String>) -> Option<Seq<char>> {
    match o {
        Some(s) => Some(s@),
        None => None,
    }
}

/// A query with the question mark before it, or nothing.
pub open spec fn query_suffix(query: Option<Seq<char>>) -> Seq<char> {
    match query {
        Some(q) => seq!['?'] + q,
        None => Seq::empty(),
    }
}

/// How the three readings of one URI go together. The path is empty, begins with
/// a slash or is `*`, and there is no question mark in it. The path and query are the path, and the query behind a
/// question mark where there is one; but an empty path before a query reads as
/// `/` on its own, and a URI with nothing in it has the path and query `/`.
/// Where a URI has no path and query, it has no path and no query.
pub open spec fn one_target(
    path: Seq<char>,
    query: Option<Seq<char>>,
    path_and_query: Option<Seq<char>>,
) -> bool {
    &&& path.len() == 0 || path[0] == '/' || path == seq!['*']
    &&& !path.contains('?')
    &&& match path_and_query {
        Some(t) => {
            ||| t == path + query_suffix(query)
            ||| path == seq!['/'] && query is Some && t == query_suffix(query)
            ||| path.len() == 0 && query is None && t == seq!['/']
        },
        None => path.len() == 0 && query is None,
    }
}

/// The characters of a token: letters, digits and ``!#$%&'*+-.^_`|~``.
pub open spec fn is_token_char(c: char) -> bool {
    ||| 'a' <= c <= 'z'
    ||| 'A' <= c <= 'Z'
    ||| '0' <= c <= '9'
    ||| c == '!' || c == '#' || c == '$' || c == '%' || c == '&' || c == '\''
    ||| c == '*' || c == '+' || c == '-' || c == '.' || c == '^' || c == '_'
    ||| c == '`' || c == '|' || c == '~'
}

/// A token: one or more token characters, which is what a method has to be.
pub open spec fn is_token(s: Seq<char>) -> bool {
    &&& s.len() > 0
    &&& forall|i: int| 0 <= i < s.len() ==> is_token_char(#[trigger] s[i])
}

/// The upstream server: its base URL, and the host and the port in it. The
/// port is there only where it is not the default of the URL's scheme.
pub struct Upstream {
    pub url: String,
    pub host: Option<String>,
    pub port: Option<u16>,
}

/// What an [`Upstream`] says.
#[verifier::ext_equal]
pub struct UpstreamView {
    pub url: Seq<char>,
    pub host: Option<Seq<char>>,
    pub port: Option<u16>,
}

/// Whether a URL's text is that of an http or https URL without query and
/// fragment.
pub open spec fn is_web_base(url: Seq<char>) -> bool {
    &&& "http://"@.is_prefix_of(url) || "https://"@.is_prefix_of(url)
    &&& !url.contains('?')
    &&& !url.contains('#')
}

impl UpstreamView {
    /// What holds of every upstream that is read in a URL: where that is an http
    /// or https URL without query and fragment, the slashes at its end have no
    /// part in the host and the port.
    pub open spec fn well_formed(self) -> bool {
        is_web_base(self.url) ==> {
            &&& self.host == web_host(trim_end(self.url, '/'))
            &&& self.port == web_port(trim_end(self.url, '/'))
        }
    }
}

impl View for Upstream {
    type V = UpstreamView;

    open spec fn view(&self) -> UpstreamView {
        UpstreamView { url: self.url@, host: string_of(self.host), port: self.port }
    }
}

/// What the proxy reads of a client's request before its body: the method, the
/// path, the query without its question mark, the path and query as they were
/// written, and the header fields.
pub struct IncomingRequest {
    pub method: String,
    pub path: String,
    pub query: Option<String>,
    pub path_and_query: Option<String>,
    pub headers: Vec<Header>,
}

/// What an [`IncomingRequest`] says.
#[verifier::ext_equal]
pub struct IncomingRequestView {
    pub method: Seq<char>,
    pub path: Seq<char>,
    pub query: Option<Seq<char>>,
    pub path_and_query: Option<Seq<char>>,
    pub headers: Seq<(Seq<char>, Seq<u8>)>,
}

impl IncomingRequestView {
    /// What holds of every request that is read off a connection: the method is
    /// a token, and the path, the query and the path and query are those of one
    /// URI.
    pub open spec fn well_formed(self) -> bool {
        &&& is_token(self.method)
        &&& one_target(self.path, self.query, self.path_and_query)
    }
}

impl View for IncomingRequest {
    type V = IncomingRequestView;

    open spec fn view(&self) -> IncomingRequestView {
        IncomingRequestView {
            method: self.method@,
            path: self.path@,
            query: string_of(self.query),
            path_and_query: string_of(self.path_and_query),
            headers: fields(self.headers@),
        }
    }
}

/// A response that the proxy writes itself.
#[derive(Debug)]
pub struct PlainResponse {
    pub status: u16,
    pub content_type: String,
    pub body: String,
}

/// What a [`PlainResponse`] says.
#[verifier::ext_equal]
pub struct PlainResponseView {
    pub status: u16,
    pub content_type: Seq<char>,
    pub body: Seq<char>,
}

impl View for PlainResponse {
    type V = PlainResponseView;

    open spec fn view(&self) -> PlainResponseView {
        PlainResponseView {
            status: self.status,
            content_type: self.content_type@,
            body: self.body@,
        }
    }
}

/// A request as the proxy sends it to the upstream server. No body is sent
/// where there is none.
pub struct OutgoingRequest {
    pub method: String,
    pub url: String,
    pub headers: Vec<Header>,
    pub body: Option<Vec<u8>>,
}

/// What an [`OutgoingRequest`] asks.
#[verifier::ext_equal]
pub struct OutgoingRequestView {
    pub method: Seq<char>,
    pub url: Seq<char>,
    pub headers: Seq<(Seq<char>, Seq<u8>)>,
    pub body: Option<Seq<u8>>,
}

impl View for OutgoingRequest {
    type V = OutgoingRequestView;

    open spec fn view(&self) -> OutgoingRequestView {
        OutgoingRequestView {
            method: self.method@,
            url: self.url@,
            headers: fields(self.headers@),
            body: match self.body {
                Some(b) => Some(b@),
                None => None,
            },
        }
    }
}

/// The status and the header fields of a response that is handed on. Its body
/// is the upstream server's, unchanged.
pub struct ResponseHead {
    pub status: u16,
    pub headers: Vec<Header>,
}

/// What a [`ResponseHead`] says.
#[verifier::ext_equal]
pub struct ResponseHeadView {
    pub status: u16,
    pub headers: Seq<(Seq<char>, Seq<u8>)>,
}

impl View for ResponseHead {
    type V = ResponseHeadView;

    open spec fn view(&self) -> ResponseHeadView {
        ResponseHeadView { status: self.status, headers: fields(self.headers@) }
    }
}

} // verus!
