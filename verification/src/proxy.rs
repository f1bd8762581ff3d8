//! What the proxy does with a request: refuse it, or send it on and hand the
//! answer back.
//!
//! A request goes through three steps, each of which is a function here. The
//! server performs what a step asks for and hands the outcome to the next one.
//!
//! 1. [`on_request`]: the request's head has been read. A write operation, or
//!    what would go out as one, is refused; for everything else the outgoing request is built, and the body
//!    is to be read, up to [`MAX_REQUEST_BODY`] bytes.
//! 2. [`on_body`]: the body has been read, or could not be. The outgoing
//!    request is to be sent.
//! 3. [`on_upstream`]: the upstream server has answered, or could not be
//!    reached. The answer is to be handed on to the client.

use crate::boundary::fields_of;
use crate::boundary::header_fields;
use crate::boundary::method_from;
use crate::boundary::method_text;
use crate::boundary::path_and_query_of;
use crate::boundary::status_from;
use crate::boundary::upstream_view;
use crate::boundary::uri_path;
use crate::boundary::uri_path_and_query;
use crate::boundary::uri_query;
use crate::boundary::url_text;
use crate::filter::goes_out_as_write;
use crate::filter::is_outgoing_write;
use crate::filter::is_write;
use crate::filter::is_write_target;
use crate::message::fields;
use crate::message::is_token;
use crate::message::string_of;
use crate::message::Header;
use crate::message::IncomingRequest;
use crate::message::IncomingRequestView;
use crate::message::OutgoingRequest;
use crate::message::OutgoingRequestView;
use crate::message::PlainResponse;
use crate::message::PlainResponseView;
use crate::message::ResponseHead;
use crate::message::ResponseHeadView;
use crate::message::Upstream;
use crate::message::UpstreamView;
use crate::text::chars_of;
use crate::text::host_and_port;
use crate::text::join_host_and_port;
use crate::text::lowercase;
use crate::text::same;
use crate::text::trim_end;
use crate::text::trimmed_end;
use axum::http::HeaderMap;
use axum::http::Method;
use axum::http::Uri;
use url::Url;
use vstd::prelude::*;
use vstd::string::*;
use vstd::utf8::*;

verus! {

/// The largest request body that is read. Git fetch request bodies (the "want"
/// list) are small.
pub const MAX_REQUEST_BODY: usize = 50 * 1024 * 1024;

/// HTTP/1.1 hop-by-hop headers that must not be forwarded.
pub open spec fn hop_by_hop(name: Seq<char>) -> bool {
    ||| name == "connection"@
    ||| name == "keep-alive"@
    ||| name == "proxy-authenticate"@
    ||| name == "proxy-authorization"@
    ||| name == "te"@
    ||| name == "trailers"@
    ||| name == "transfer-encoding"@
    ||| name == "upgrade"@
}

/// Returns `true` for HTTP/1.1 hop-by-hop headers that must not be forwarded.
pub fn is_hop_by_hop(name: &str) -> (r: bool)
    ensures
        r == hop_by_hop(name@),
{
    same(name, "connection") || same(name, "keep-alive") || same(name, "proxy-authenticate")
        || same(name, "proxy-authorization") || same(name, "te") || same(name, "trailers")
        || same(name, "transfer-encoding") || same(name, "upgrade")
}

/// Shared state of every request handler.
#[derive(Clone)]
pub struct ProxyState {
    /// Base URL of the upstream git server.
    pub upstream: Url,
    /// Reusable HTTP client for upstream connections.
    pub client: reqwest::Client,
}

/// What the next thing to do with a request is, before it is sent.
pub enum Step {
    /// Answer the client with this response; nothing is sent upstream.
    Respond(PlainResponse),
    /// Go on with this outgoing request.
    Proceed(OutgoingRequest),
}

/// What a [`Step`] says.
#[verifier::ext_equal]
pub enum StepView {
    Respond(PlainResponseView),
    Proceed(OutgoingRequestView),
}

impl View for Step {
    type V = StepView;

    open spec fn view(&self) -> StepView {
        match self {
            Step::Respond(r) => StepView::Respond(r@),
            Step::Proceed(o) => StepView::Proceed(o@),
        }
    }
}

/// What the client is answered once a request has been sent.
pub enum Reply {
    /// A response of the proxy's own.
    Plain(PlainResponse),
    /// The upstream server's response, under this status and these headers,
    /// with its body as it comes.
    Relay(ResponseHead),
}

/// What a [`Reply`] says.
#[verifier::ext_equal]
pub enum ReplyView {
    Plain(PlainResponseView),
    Relay(ResponseHeadView),
}

impl View for Reply {
    type V = ReplyView;

    open spec fn view(&self) -> ReplyView {
        match self {
            Reply::Plain(r) => ReplyView::Plain(r@),
            Reply::Relay(h) => ReplyView::Relay(h@),
        }
    }
}

/// A plain-text response with this status and body.
pub open spec fn plain(status: u16, body: Seq<char>) -> PlainResponseView {
    PlainResponseView { status, content_type: "text/plain; charset=utf-8"@, body }
}

/// The answer to a write operation.
pub open spec fn refusal() -> PlainResponseView {
    plain(403, "Push operations are not supported by this read-only proxy\n"@)
}

/// A line of text that says what went wrong and why.
pub open spec fn failure(what: Seq<char>, why: Seq<char>) -> Seq<char> {
    what + why + "\n"@
}

/// Whether a header field of an upstream response reaches the client: it is
/// not a hop-by-hop header, in whatever case its name is written.
pub open spec fn is_end_to_end(field: (Seq<char>, Seq<u8>)) -> bool {
    !hop_by_hop(lowercase(field.0))
}

/// Whether a header field of a request reaches the upstream server: it is
/// neither a hop-by-hop header nor the client's `Host`.
pub open spec fn is_forwarded(field: (Seq<char>, Seq<u8>)) -> bool {
    lowercase(field.0) != "host"@ && is_end_to_end(field)
}

/// The header fields of an upstream response that reach the client.
pub open spec fn response_headers(headers: Seq<(Seq<char>, Seq<u8>)>) -> Seq<
    (Seq<char>, Seq<u8>),
> {
    headers.filter(|f: (Seq<char>, Seq<u8>)| is_end_to_end(f))
}

/// The header fields of a request that reach the upstream server.
pub open spec fn forwarded_headers(headers: Seq<(Seq<char>, Seq<u8>)>) -> Seq<
    (Seq<char>, Seq<u8>),
> {
    headers.filter(|f: (Seq<char>, Seq<u8>)| is_forwarded(f))
}

/// The `Host` field for the upstream server, where its URL has a host: the host,
/// and the port where there is one.
pub open spec fn host_fields(upstream: UpstreamView) -> Seq<(Seq<char>, Seq<u8>)> {
    match upstream.host {
        Some(host) => {
            let value = match upstream.port {
                Some(port) => host_and_port(host, port),
                None => host,
            };
            seq![("host"@, encode_utf8(value))]
        },
        None => Seq::empty(),
    }
}

/// The header fields that are sent to the upstream server.
pub open spec fn outgoing_headers(
    upstream: UpstreamView,
    headers: Seq<(Seq<char>, Seq<u8>)>,
) -> Seq<(Seq<char>, Seq<u8>)> {
    forwarded_headers(headers) + host_fields(upstream)
}

/// Whether a target can stand right behind the upstream's base: it begins with a
/// slash or with a question mark, so that it does not change the server's name.
pub open spec fn stands_alone(target: Seq<char>) -> bool {
    target.len() > 0 && (target[0] == '/' || target[0] == '?')
}

/// Whether a base ends in the name of its server: there is `://` behind its
/// scheme, and no slash, question mark or number sign behind that.
pub open spec fn ends_in_its_authority(base: Seq<char>) -> bool {
    match base.index_of_first(':') {
        Some(i) => {
            &&& i + 2 < base.len() && base[i + 1] == '/' && base[i + 2] == '/'
            &&& forall|j: int|
                i + 3 <= j < base.len() ==> base[j] != '/' && base[j] != '?' && base[j] != '#'
        },
        None => false,
    }
}

/// What is asked of the upstream server at a base without slashes at its end: the
/// path and query of the request, or `/` where it has none. Where the base ends in
/// the name of the server and the target, such as `*`, would make another name of
/// it, the target stands behind a slash.
pub open spec fn outgoing_target(
    base: Seq<char>,
    path_and_query: Option<Seq<char>>,
) -> Seq<char> {
    let target = match path_and_query {
        Some(t) => t,
        None => "/"@,
    };
    if !stands_alone(target) && ends_in_its_authority(base) {
        "/"@ + target
    } else {
        target
    }
}

/// The URL that a request goes to: the upstream's base URL without the slashes
/// at its end, and behind it what is asked of the upstream server.
pub open spec fn outgoing_url(base: Seq<char>, path_and_query: Option<Seq<char>>) -> Seq<char> {
    trim_end(base, '/') + outgoing_target(trim_end(base, '/'), path_and_query)
}

/// What the proxy does when it has read the head of a request and knows whether
/// the request would go out to the upstream server as a write operation.
pub open spec fn decided_step(
    upstream: UpstreamView,
    request: IncomingRequestView,
    goes_out: bool,
) -> StepView {
    if is_write(request.path, request.query) || goes_out {
        StepView::Respond(refusal())
    } else if !is_token(request.method) {
        StepView::Respond(plain(400, failure("Invalid HTTP method: "@, "invalid HTTP method"@)))
    } else {
        StepView::Proceed(
            OutgoingRequestView {
                method: request.method,
                url: outgoing_url(upstream.url, request.path_and_query),
                headers: outgoing_headers(upstream, request.headers),
                body: None,
            },
        )
    }
}

/// What the proxy does when it has read the head of a request.
pub open spec fn request_step(upstream: UpstreamView, request: IncomingRequestView) -> StepView {
    decided_step(
        upstream,
        request,
        goes_out_as_write(outgoing_url(upstream.url, request.path_and_query)),
    )
}

/// What the proxy does when it has read the body of a request, or has failed to.
pub open spec fn body_step(
    request: OutgoingRequestView,
    body: Result<Seq<u8>, Seq<char>>,
) -> StepView {
    match body {
        Ok(b) => if b.len() > MAX_REQUEST_BODY {
            StepView::Respond(
                plain(400, failure("Failed to read request body: "@, "length limit exceeded"@)),
            )
        } else {
            StepView::Proceed(
                OutgoingRequestView {
                    body: if b.len() > 0 {
                        Some(b)
                    } else {
                        request.body
                    },
                    ..request
                },
            )
        },
        Err(e) => StepView::Respond(plain(400, failure("Failed to read request body: "@, e))),
    }
}

/// What is sent upstream for a request and what was read as its body, if
/// anything is.
pub open spec fn sent(
    upstream: UpstreamView,
    request: IncomingRequestView,
    body: Result<Seq<u8>, Seq<char>>,
) -> Option<OutgoingRequestView> {
    match request_step(upstream, request) {
        StepView::Respond(_) => None,
        StepView::Proceed(o) => match body_step(o, body) {
            StepView::Respond(_) => None,
            StepView::Proceed(o) => Some(o),
        },
    }
}

/// The status that the client gets for an upstream status: the same one, or 500
/// where it is not a status.
pub open spec fn relayed_status(status: u16) -> u16 {
    if 100 <= status <= 999 {
        status
    } else {
        500
    }
}

/// The head of the response that the client gets for an upstream response.
pub open spec fn relayed_head(status: u16, headers: Seq<(Seq<char>, Seq<u8>)>) -> ResponseHeadView {
    ResponseHeadView { status: relayed_status(status), headers: response_headers(headers) }
}

/// What the client is answered when the upstream server has answered with a
/// status and header fields, or could not be reached, with a message.
pub open spec fn upstream_reply(
    answer: Result<(u16, Seq<(Seq<char>, Seq<u8>)>), Seq<char>>,
) -> ReplyView {
    match answer {
        Ok((status, headers)) => ReplyView::Relay(relayed_head(status, headers)),
        Err(e) => ReplyView::Plain(plain(502, failure("Upstream request failed: "@, e))),
    }
}

/// What the head of a request says to the proxy.
pub open spec fn request_view(
    method: Method,
    uri: Uri,
    headers: HeaderMap,
) -> IncomingRequestView {
    IncomingRequestView {
        method: method_text(method),
        path: uri_path(uri),
        query: uri_query(uri),
        path_and_query: uri_path_and_query(uri),
        headers: header_fields(headers),
    }
}

/// A plain-text response with this status and body.
pub fn plain_response(status: u16, body: String) -> (r: PlainResponse)
    ensures
        r@ == plain(status, body@),
        r.status == status,
        r.content_type@ == "text/plain; charset=utf-8"@,
        r.body == body,
{
    PlainResponse { status, content_type: "text/plain; charset=utf-8".to_owned(), body }
}

/// `what`, `why` and a line end.
fn failure_line(what: &str, why: &str) -> (r: String)
    ensures
        r@ == failure(what@, why@),
{
    let mut r = what.to_owned();
    r.append(why);
    r.append("\n");
    r
}

/// A copy of a header field.
fn copy_header(header: &Header) -> (r: Header)
    ensures
        r@ == header@,
{
    let r = Header { name: header.name.clone(), value: header.value.clone() };
    assert(r.value@ =~= header.value@);
    r
}

/// The header fields of an upstream response that reach the client, as they
/// came and in their order.
pub fn keep_end_to_end(headers: &Vec<Header>) -> (r: Vec<Header>)
    ensures
        fields(r@) == response_headers(fields(headers@)),
{
    let mut r: Vec<Header> = Vec::new();
    let ghost all = fields(headers@);
    let mut i: usize = 0;
    while i < headers.len()
        invariant
            i <= headers@.len(),
            all == fields(headers@),
            fields(r@) == response_headers(all.take(i as int)),
        decreases headers@.len() - i,
    {
        let name = headers[i].name.as_str().to_ascii_lowercase();
        proof {
            reveal(Seq::filter);
            assert(all.take(i + 1).drop_last() == all.take(i as int));
            assert(all.take(i + 1).last() == headers@[i as int]@);
        }
        if !is_hop_by_hop(name.as_str()) {
            let copy = copy_header(&headers[i]);
            assert(fields(r@.push(copy)) =~= fields(r@).push(copy@));
            r.push(copy);
        }
        i += 1;
    }
    assert(all.take(i as int) == all);
    r
}

/// The header fields of a request that reach the upstream server, as they came
/// and in their order.
pub fn keep_forwarded(headers: &Vec<Header>) -> (r: Vec<Header>)
    ensures
        fields(r@) == forwarded_headers(fields(headers@)),
{
    let mut r: Vec<Header> = Vec::new();
    let ghost all = fields(headers@);
    let mut i: usize = 0;
    while i < headers.len()
        invariant
            i <= headers@.len(),
            all == fields(headers@),
            fields(r@) == forwarded_headers(all.take(i as int)),
        decreases headers@.len() - i,
    {
        let name = headers[i].name.as_str().to_ascii_lowercase();
        proof {
            reveal(Seq::filter);
            assert(all.take(i + 1).drop_last() == all.take(i as int));
            assert(all.take(i + 1).last() == headers@[i as int]@);
        }
        // Skip hop-by-hop headers and the original Host; the upstream's own is set later.
        if !same(name.as_str(), "host") && !is_hop_by_hop(name.as_str()) {
            let copy = copy_header(&headers[i]);
            assert(fields(r@.push(copy)) =~= fields(r@).push(copy@));
            r.push(copy);
        }
        i += 1;
    }
    assert(all.take(i as int) == all);
    r
}

/// Adds the `Host` field that matches the upstream server.
fn push_host(headers: &mut Vec<Header>, upstream: &Upstream)
    ensures
        fields(final(headers)@) == fields(old(headers)@) + host_fields(upstream@),
{
    let ghost before = headers@;
    match &upstream.host {
        Some(host) => {
            let value = match upstream.port {
                Some(port) => join_host_and_port(host.as_str(), port),
                None => host.clone(),
            };
            let header = Header { name: "host".to_owned(), value: value.as_str().as_bytes_vec() };
            headers.push(header);
            assert(fields(headers@) =~= fields(before).push(header@));
        },
        None => {},
    }
    assert(fields(headers@) =~= fields(before) + host_fields(upstream@));
}

/// The URL that a request goes to.
fn build_url(base: &str, path_and_query: &Option<String>) -> (r: String)
    ensures
        r@ == outgoing_url(base@, string_of(*path_and_query)),
{
    let trimmed = trimmed_end(base, '/');
    let target = match path_and_query {
        Some(t) => t.as_str(),
        None => "/",
    };
    let mut alone = false;
    if !target.is_empty() {
        let first = target.get_char(0);
        alone = first == '/' || first == '?';
    }
    let mut url = trimmed.to_owned();
    if !alone && is_server_name_last(trimmed) {
        url.append("/");
    }
    url.append(target);
    assert(url@ =~= trimmed@ + outgoing_target(trimmed@, string_of(*path_and_query)));
    url
}

/// Whether a base ends in the name of its server.
fn is_server_name_last(base: &str) -> (r: bool)
    ensures
        r == ends_in_its_authority(base@),
{
    proof {
        base@.index_of_first_ensures(':');
    }
    let x = chars_of(base);
    let mut i: usize = 0;
    while i < x.len() && x[i] != ':'
        invariant
            x@ == base@,
            i <= x@.len(),
            forall|k: int| 0 <= k < i ==> x@[k] != ':',
        decreases x@.len() - i,
    {
        i += 1;
    }
    if i == x.len() {
        return false;
    }
    assert(base@.contains(':'));
    assert(base@.index_of_first(':') == Some(i as int));
    if x.len() - i < 3 || x[i + 1] != '/' || x[i + 2] != '/' {
        return false;
    }
    let mut j: usize = i + 3;
    while j < x.len()
        invariant
            x@ == base@,
            i + 3 <= j <= x@.len(),
            forall|k: int|
                i + 3 <= k < j ==> x@[k] != '/' && x@[k] != '?' && x@[k] != '#',
            base@.index_of_first(':') == Some(i as int),
        decreases x@.len() - j,
    {
        if x[j] == '/' || x[j] == '?' || x[j] == '#' {
            return false;
        }
        j += 1;
    }
    true
}

/// What the proxy does when it has read the head of a request. A write operation
/// is refused, and so is what would go out as one.
pub fn plan_request(upstream: &Upstream, request: &IncomingRequest) -> (step: Step)
    ensures
        step@ == request_step(upstream@, request@),
{
    let url = build_url(upstream.url.as_str(), &request.path_and_query);
    plan_decided(upstream, request, is_outgoing_write(url.as_str()))
}

/// What the proxy does when it has read the head of a request and knows whether
/// the request would go out to the upstream server as a write operation. A write
/// operation is refused, and so is what would go out as one; everything else
/// proceeds, to the upstream's URL, with the headers that are to be forwarded and
/// the upstream's own `Host`.
pub fn plan_decided(upstream: &Upstream, request: &IncomingRequest, goes_out: bool) -> (step: Step)
    ensures
        step@ == decided_step(upstream@, request@, goes_out),
{
    let query = match &request.query {
        Some(q) => Some(q.as_str()),
        None => None,
    };
    if is_write_target(request.path.as_str(), query) || goes_out {
        return Step::Respond(
            plain_response(
                403,
                "Push operations are not supported by this read-only proxy\n".to_owned(),
            ),
        );
    }
    let method = match method_from(request.method.as_str()) {
        Ok(m) => m,
        Err(e) => {
            return Step::Respond(
                plain_response(400, failure_line("Invalid HTTP method: ", e.as_str())),
            );
        },
    };
    let url = build_url(upstream.url.as_str(), &request.path_and_query);
    let mut headers = keep_forwarded(&request.headers);
    push_host(&mut headers, upstream);
    Step::Proceed(OutgoingRequest { method, url, headers, body: None })
}

/// What the proxy does when it has read the body of a request, or has failed to,
/// with this message. A body of more than [`MAX_REQUEST_BODY`] bytes counts as
/// one that could not be read, and one with nothing in it is not sent.
pub fn on_body(request: OutgoingRequest, body: Result<Vec<u8>, String>) -> (step: Step)
    ensures
        step@ == body_step(
            request@,
            match body {
                Ok(b) => Ok(b@),
                Err(e) => Err(e@),
            },
        ),
{
    match body {
        Ok(b) => {
            if b.len() > MAX_REQUEST_BODY {
                return Step::Respond(
                    plain_response(
                        400,
                        failure_line("Failed to read request body: ", "length limit exceeded"),
                    ),
                );
            }
            let mut request = request;
            if b.len() > 0 {
                request.body = Some(b);
            }
            Step::Proceed(request)
        },
        Err(e) => Step::Respond(
            plain_response(400, failure_line("Failed to read request body: ", e.as_str())),
        ),
    }
}

/// The head of the response that the client gets for an upstream response with
/// this status and these headers.
pub fn relay_head(status: u16, headers: &Vec<Header>) -> (r: ResponseHead)
    ensures
        r@ == relayed_head(status, fields(headers@)),
        r.status == (if 100 <= status <= 999 {
            status
        } else {
            500
        }),
{
    let status = match status_from(status) {
        Some(s) => s,
        None => 500,
    };
    ResponseHead { status, headers: keep_end_to_end(headers) }
}

/// Reads what the proxy needs of an upstream URL.
pub fn read_upstream(url: &Url) -> (r: Upstream)
    ensures
        r@ == upstream_view(*url),
        r@.well_formed(),
{
    let host = match url.host_str() {
        Some(h) => Some(h.to_owned()),
        None => None,
    };
    Upstream { url: url.as_str().to_owned(), host, port: url.port() }
}

/// Reads what the proxy needs of the head of a request.
pub fn read_request(method: &Method, uri: &Uri, headers: &HeaderMap) -> (r: IncomingRequest)
    ensures
        r@ == request_view(*method, *uri, *headers),
        r@.well_formed(),
{
    let query = match uri.query() {
        Some(q) => Some(q.to_owned()),
        None => None,
    };
    let path_and_query = match path_and_query_of(uri) {
        Some(t) => Some(t.to_owned()),
        None => None,
    };
    IncomingRequest {
        method: method.as_str().to_owned(),
        path: uri.path().to_owned(),
        query,
        path_and_query,
        headers: fields_of(headers),
    }
}

/// What the proxy does when it has read the head of a request.
pub fn on_request(state: &ProxyState, method: &Method, uri: &Uri, headers: &HeaderMap) -> (step:
    Step)
    ensures
        step@ == request_step(
            upstream_view(state.upstream),
            request_view(*method, *uri, *headers),
        ),
        step is Respond <==> is_write(uri_path(*uri), uri_query(*uri)) || goes_out_as_write(
            outgoing_url(url_text(state.upstream), uri_path_and_query(*uri)),
        ),
        upstream_view(state.upstream).well_formed(),
        request_view(*method, *uri, *headers).well_formed(),
{
    let upstream = read_upstream(&state.upstream);
    let request = read_request(method, uri, headers);
    plan_request(&upstream, &request)
}

/// What the client is answered when the upstream server has answered with this
/// status and these headers, or could not be reached, with this message.
pub fn on_upstream(answer: Result<(u16, &HeaderMap), String>) -> (reply: Reply)
    ensures
        reply@ == upstream_reply(
            match answer {
                Ok((status, headers)) => Ok((status, header_fields(*headers))),
                Err(e) => Err(e@),
            },
        ),
        answer is Ok <==> reply is Relay,
        answer is Ok && 100 <= answer->Ok_0.0 <= 999 ==> reply->Relay_0.status
            == answer->Ok_0.0,
{
    match answer {
        Ok((status, headers)) => Reply::Relay(relay_head(status, &fields_of(headers))),
        Err(e) => Reply::Plain(
            plain_response(502, failure_line("Upstream request failed: ", e.as_str())),
        ),
    }
}

/// What the client is answered when the response to hand on cannot be built.
pub fn internal_error() -> (r: PlainResponse)
    ensures
        r@ == plain(500, "Internal server error\n"@),
{
    plain_response(500, "Internal server error\n".to_owned())
}

} // verus!
