//! What holds of the proxy as a whole.

use crate::boundary::header_fields;
use crate::boundary::method_text;
use crate::boundary::upstream_view;
use crate::boundary::uri_path;
use crate::boundary::uri_path_and_query;
use crate::boundary::uri_query;
use crate::boundary::url_host;
use crate::boundary::url_port;
use crate::boundary::url_target;
use crate::boundary::url_text;
use crate::filter::goes_out_as_write;
use crate::filter::is_receive_pack_path;
use crate::filter::is_receive_pack_query;
use crate::filter::is_write;
use crate::filter::target_path;
use crate::filter::target_query;
use crate::message::fields;
use crate::message::is_token;
use crate::message::is_token_char;
use crate::message::is_web_base;
use crate::message::query_suffix;
use crate::message::text_of;
use crate::message::Header;
use crate::message::IncomingRequest;
use crate::message::IncomingRequestView;
use crate::message::OutgoingRequest;
use crate::message::OutgoingRequestView;
use crate::message::PlainResponse;
use crate::message::PlainResponseView;
use crate::message::ResponseHead;
use crate::message::Upstream;
use crate::message::UpstreamView;
use crate::proxy::body_step;
use crate::proxy::decided_step;
use crate::proxy::ends_in_its_authority;
use crate::proxy::forwarded_headers;
use crate::proxy::hop_by_hop;
use crate::proxy::host_fields;
use crate::proxy::is_end_to_end;
use crate::proxy::is_forwarded;
use crate::proxy::outgoing_headers;
use crate::proxy::outgoing_target;
use crate::proxy::outgoing_url;
use crate::proxy::plain;
use crate::proxy::refusal;
use crate::proxy::relayed_head;
use crate::proxy::relayed_status;
use crate::proxy::request_step;
use crate::proxy::request_view;
use crate::proxy::response_headers;
use crate::proxy::sent;
use crate::proxy::stands_alone;
use crate::proxy::upstream_reply;
use crate::proxy::Reply;
use crate::proxy::ReplyView;
use crate::proxy::Step;
use crate::proxy::StepView;
use crate::proxy::MAX_REQUEST_BODY;
use crate::text::decimal;
use crate::text::ends_in;
use crate::text::host_and_port;
use crate::text::lemma_split_first;
use crate::text::lemma_split_none;
use crate::text::lowercase;
use crate::text::split;
use crate::text::trim_end;
use crate::tls::byte_strings;
use crate::tls::identity_of;
use crate::tls::outcome;
use crate::tls::PrivateKey;
use crate::tls::PrivateKeyView;
use crate::tls::TlsError;
use crate::tls::TlsErrorView;
use crate::tls::TlsIdentity;
use crate::tls::TlsIdentityView;
use axum::http::HeaderMap;
use axum::http::Method;
use axum::http::Uri;
use url::Url;
use vstd::prelude::*;
use vstd::utf8::*;

verus! {

/// A write operation is answered with the refusal, and nothing of it is sent
/// upstream, whatever its method, its headers and its body are and whatever
/// the upstream is. So is a request that would go out as one.
pub proof fn law_writes_are_refused(
    upstream: UpstreamView,
    request: IncomingRequestView,
    body: Result<Seq<u8>, Seq<char>>,
)
    requires
        is_write(request.path, request.query) || goes_out_as_write(
            outgoing_url(upstream.url, request.path_and_query),
        ),
    ensures
        request_step(upstream, request) == StepView::Respond(refusal()),
        sent(upstream, request, body) is None,
{
}

/// No request that is sent upstream is a write operation: the URL that the
/// client makes of the one it is given has neither the path nor the query of one.
pub proof fn law_no_write_is_sent(
    upstream: UpstreamView,
    request: IncomingRequestView,
    body: Result<Seq<u8>, Seq<char>>,
)
    requires
        sent(upstream, request, body) is Some,
    ensures
        !goes_out_as_write(sent(upstream, request, body)->0.url),
{
}

/// Every request that neither is a write operation nor would go out as one is
/// sent upstream once its body has been read: with its own method, to the URL
/// made of the upstream's base and the request's own target, and with its own
/// body.
pub proof fn law_reads_are_sent(
    upstream: UpstreamView,
    request: IncomingRequestView,
    body: Seq<u8>,
)
    requires
        request.well_formed(),
        !is_write(request.path, request.query),
        !goes_out_as_write(outgoing_url(upstream.url, request.path_and_query)),
        body.len() <= MAX_REQUEST_BODY,
    ensures
        sent(upstream, request, Ok(body)) == Some(
            (OutgoingRequestView {
                method: request.method,
                url: outgoing_url(upstream.url, request.path_and_query),
                headers: outgoing_headers(upstream, request.headers),
                body: if body.len() > 0 {
                    Some(body)
                } else {
                    None
                },
            }),
        ),
{
}

/// Whether a request is refused rests on its URI and on the upstream's base URL
/// alone: neither the method nor the headers have a part in it.
pub proof fn law_only_the_uri_decides(
    upstream: UpstreamView,
    request: IncomingRequestView,
    other_upstream: UpstreamView,
    other: IncomingRequestView,
)
    requires
        request.well_formed(),
        other.well_formed(),
        request.path == other.path,
        request.query == other.query,
        request.path_and_query == other.path_and_query,
        upstream.url == other_upstream.url,
    ensures
        request_step(upstream, request) is Respond <==> request_step(
            other_upstream,
            other,
        ) is Respond,
{
}

/// Behind a base that ends in the name of the server, the target of a request
/// begins with a slash or a question mark, so that it cannot make another name of
/// it.
pub proof fn law_targets_do_not_change_the_server(
    base: Seq<char>,
    path_and_query: Option<Seq<char>>,
)
    requires
        ends_in_its_authority(trim_end(base, '/')),
    ensures
        ({
            let target = outgoing_target(trim_end(base, '/'), path_and_query);
            &&& outgoing_url(base, path_and_query) == trim_end(base, '/') + target
            &&& stands_alone(target)
        }),
{
    reveal_strlit("/");
}

/// The URL that a request goes to is the upstream's without the slashes at its
/// end, and behind it the request's path and query as they were written, wherever
/// they begin with a slash or a question mark or the base goes on behind the name
/// of the server.
pub proof fn law_targets_are_sent_as_written(base: Seq<char>, path_and_query: Seq<char>)
    requires
        stands_alone(path_and_query) || !ends_in_its_authority(trim_end(base, '/')),
    ensures
        outgoing_url(base, Some(path_and_query)) == trim_end(base, '/') + path_and_query,
{
}

/// A request is a write operation exactly when the target that would be sent
/// upstream, as it is written, has the path or the query of one.
pub proof fn law_the_target_sent_decides(base: Seq<char>, request: IncomingRequestView)
    requires
        request.well_formed(),
    ensures
        is_write(request.path, request.query) <==> is_write(
            target_path(outgoing_target(base, request.path_and_query)),
            target_query(outgoing_target(base, request.path_and_query)),
        ),
{
    reveal_strlit("/");
    reveal_strlit("/git-receive-pack");
    let t = outgoing_target(base, request.path_and_query);
    let path = request.path;
    // The path as it stands in the target.
    let written = match request.path_and_query {
        Some(p) => if p == path + query_suffix(request.query) {
            if stands_alone(p) || !ends_in_its_authority(base) {
                path
            } else {
                seq!['/'] + path
            }
        } else if request.query is Some {
            Seq::empty()
        } else {
            seq!['/']
        },
        None => seq!['/'],
    };
    assert(t =~= written + query_suffix(request.query));
    assert(!written.contains('?')) by {
        if written.contains('?') {
            let i = choose|i: int| 0 <= i < written.len() && written[i] == '?';
            if written.len() == path.len() + 1 {
                assert(path[i - 1] == '?');
            }
        }
    }
    lemma_target_parts(t, written, request.query);
    assert(is_receive_pack_path(written) == is_receive_pack_path(path)) by {
        if written != path {
            assert(!is_receive_pack_path(written));
            assert(!is_receive_pack_path(path));
        }
    }
}

/// A path without a question mark, and a query behind one, are read back.
proof fn lemma_target_parts(target: Seq<char>, path: Seq<char>, query: Option<Seq<char>>)
    requires
        target == path + query_suffix(query),
        !path.contains('?'),
    ensures
        target_path(target) == path,
        target_query(target) == query,
{
    target.index_of_first_ensures('?');
    match query {
        Some(q) => {
            let n = path.len() as int;
            assert(target[n] == '?');
            let i = target.index_of_first('?')->0;
            if i < n {
                assert(path[i] == '?');
            }
            assert(i == n);
            assert(target_path(target) =~= path);
            assert(target_query(target)->0 =~= q);
        },
        None => {
            assert(target =~= path);
        },
    }
}

/// No request that is sent upstream has a target that is, as it is written, a
/// write operation.
pub proof fn law_no_target_sent_is_a_write(
    upstream: UpstreamView,
    request: IncomingRequestView,
    body: Result<Seq<u8>, Seq<char>>,
)
    requires
        request.well_formed(),
        sent(upstream, request, body) is Some,
    ensures
        ({
            let target = outgoing_target(trim_end(upstream.url, '/'), request.path_and_query);
            &&& sent(upstream, request, body)->0.url == trim_end(upstream.url, '/') + target
            &&& !is_write(target_path(target), target_query(target))
        }),
{
    law_the_target_sent_decides(trim_end(upstream.url, '/'), request);
}

/// Pushing to a repository, wherever it is, is a write operation: both the
/// advertisement and the data.
pub proof fn law_pushes_are_writes(repository: Seq<char>, query: Option<Seq<char>>)
    ensures
        is_write(repository + "/info/refs"@, Some("service=git-receive-pack"@)),
        is_write(repository + "/git-receive-pack"@, query),
{
    let path = repository + "/git-receive-pack"@;
    assert(path.skip(path.len() - "/git-receive-pack"@.len()) =~= "/git-receive-pack"@);
    reveal_strlit("service=git-receive-pack");
    lemma_split_none("service=git-receive-pack"@, '&');
    assert(split("service=git-receive-pack"@, '&')[0] == "service=git-receive-pack"@);
}

/// Fetching from a repository, wherever it is, is not a write operation:
/// neither the advertisement nor the data.
pub proof fn law_fetches_are_reads(repository: Seq<char>)
    ensures
        !is_write(repository + "/info/refs"@, Some("service=git-upload-pack"@)),
        !is_write(repository + "/git-upload-pack"@, None),
{
    reveal_strlit("/git-receive-pack");
    reveal_strlit("/info/refs");
    reveal_strlit("/git-upload-pack");
    reveal_strlit("service=git-receive-pack");
    reveal_strlit("service=git-upload-pack");
    let a = repository + "/info/refs"@;
    if a.len() >= 17 {
        assert(a.skip(a.len() - 17)[16] == 's');
    }
    let b = repository + "/git-upload-pack"@;
    if b.len() >= 17 {
        assert(b.skip(b.len() - 17)[1] == '/');
    }
    lemma_split_none("service=git-upload-pack"@, '&');
    assert("service=git-upload-pack"@[12] != "service=git-receive-pack"@[12]);
}

/// A query asks for the receive-pack service exactly when one of its parts
/// does, wherever it is cut at an `&`.
pub proof fn law_parameters_stand_alone(a: Seq<char>, b: Seq<char>)
    ensures
        is_receive_pack_query(a + seq!['&'] + b) <==> is_receive_pack_query(a)
            || is_receive_pack_query(b),
{
    let p = "service=git-receive-pack"@;
    lemma_split_joined(a, b, '&');
    let x = split(a, '&');
    let y = split(b, '&');
    if x.contains(p) {
        let k = choose|k: int| 0 <= k < x.len() && x[k] == p;
        assert((x + y)[k] == p);
    }
    if y.contains(p) {
        let k = choose|k: int| 0 <= k < y.len() && y[k] == p;
        assert((x + y)[x.len() + k] == p);
    }
    if (x + y).contains(p) {
        let k = choose|k: int| 0 <= k < x.len() + y.len() && (x + y)[k] == p;
        if k < x.len() {
            assert(x[k] == p);
        } else {
            assert(y[k - x.len()] == p);
        }
    }
}

proof fn lemma_split_joined(a: Seq<char>, b: Seq<char>, separator: char)
    ensures
        split(a + seq![separator] + b, separator) == split(a, separator) + split(b, separator),
    decreases a.len(),
{
    let s = a + seq![separator] + b;
    a.index_of_first_ensures(separator);
    match a.index_of_first(separator) {
        Some(i) => {
            assert(!a.take(i).contains(separator));
            assert(s.take(i) == a.take(i));
            lemma_split_first(a, separator, i);
            lemma_split_first(s, separator, i);
            assert(s.skip(i + 1) =~= a.skip(i + 1) + seq![separator] + b);
            lemma_split_joined(a.skip(i + 1), b, separator);
            assert(split(s, separator) =~= split(a, separator) + split(b, separator));
        },
        None => {
            let n = a.len() as int;
            assert(s[n] == separator);
            assert(s.take(n) =~= a);
            lemma_split_none(a, separator);
            lemma_split_first(s, separator, n);
            assert(s.skip(n + 1) =~= b);
        },
    }
}

/// No hop-by-hop header is sent upstream, in whatever case its name is written.
pub proof fn law_no_hop_by_hop_is_sent(
    upstream: UpstreamView,
    headers: Seq<(Seq<char>, Seq<u8>)>,
    i: int,
)
    requires
        0 <= i < outgoing_headers(upstream, headers).len(),
    ensures
        !hop_by_hop(lowercase(outgoing_headers(upstream, headers)[i].0)),
{
    let pred = |f: (Seq<char>, Seq<u8>)| is_forwarded(f);
    let kept = forwarded_headers(headers);
    if i < kept.len() {
        headers.lemma_filter_pred(pred, i);
    } else {
        lemma_host_is_end_to_end();
    }
}

proof fn lemma_host_is_end_to_end()
    ensures
        lowercase("host"@) == "host"@,
        !hop_by_hop("host"@),
{
    reveal_strlit("host");
    reveal_strlit("connection");
    reveal_strlit("keep-alive");
    reveal_strlit("proxy-authenticate");
    reveal_strlit("proxy-authorization");
    reveal_strlit("te");
    reveal_strlit("trailers");
    reveal_strlit("transfer-encoding");
    reveal_strlit("upgrade");
    assert(lowercase("host"@) =~= "host"@);
}

/// The upstream server is sent its own `Host` where its URL has a host, and no
/// other: the client's is not among the headers, in whatever case it came.
pub proof fn law_one_host_is_sent(upstream: UpstreamView, headers: Seq<(Seq<char>, Seq<u8>)>)
    ensures
        outgoing_headers(upstream, headers).filter(
            |f: (Seq<char>, Seq<u8>)| lowercase(f.0) == "host"@,
        ) == host_fields(upstream),
{
    let host = |f: (Seq<char>, Seq<u8>)| lowercase(f.0) == "host"@;
    let pred = |f: (Seq<char>, Seq<u8>)| is_forwarded(f);
    let kept = forwarded_headers(headers);
    let own = host_fields(upstream);
    Seq::filter_distributes_over_add(kept, own, host);
    assert forall|i: int| 0 <= i < kept.len() implies !host(#[trigger] kept[i]) by {
        headers.lemma_filter_pred(pred, i);
    }
    kept.lemma_all_neg_filter_empty(host);
    lemma_host_is_end_to_end();
    assert forall|i: int| 0 <= i < own.len() implies host(#[trigger] own[i]) by {}
    lemma_filter_all(own, host);
    assert(kept.filter(host) + own =~= own);
}

proof fn lemma_filter_all<A>(s: Seq<A>, pred: spec_fn(A) -> bool)
    requires
        forall|i: int| 0 <= i < s.len() ==> pred(#[trigger] s[i]),
    ensures
        s.filter(pred) == s,
    decreases s.len(),
{
    reveal(Seq::filter);
    if s.len() > 0 {
        assert forall|i: int| 0 <= i < s.drop_last().len() implies pred(
            #[trigger] s.drop_last()[i],
        ) by {
            assert(pred(s[i]));
        }
        lemma_filter_all(s.drop_last(), pred);
        assert(pred(s[s.len() - 1]));
        assert(s.drop_last().push(s.last()) =~= s);
    }
}

/// Every other header of the request is sent upstream as it came, as often as
/// it came and in the order in which it came.
pub proof fn law_other_headers_are_sent_unchanged(
    upstream: UpstreamView,
    headers: Seq<(Seq<char>, Seq<u8>)>,
)
    ensures
        outgoing_headers(upstream, headers).filter(|f: (Seq<char>, Seq<u8>)| is_forwarded(f))
            == headers.filter(|f: (Seq<char>, Seq<u8>)| is_forwarded(f)),
{
    let pred = |f: (Seq<char>, Seq<u8>)| is_forwarded(f);
    let kept = forwarded_headers(headers);
    let own = host_fields(upstream);
    Seq::filter_distributes_over_add(kept, own, pred);
    assert forall|i: int| 0 <= i < kept.len() implies pred(#[trigger] kept[i]) by {
        headers.lemma_filter_pred(pred, i);
    }
    lemma_filter_all(kept, pred);
    lemma_host_is_end_to_end();
    assert forall|i: int| 0 <= i < own.len() implies !pred(#[trigger] own[i]) by {}
    own.lemma_all_neg_filter_empty(pred);
    assert(kept + own.filter(pred) =~= kept);
}

/// No hop-by-hop header of an upstream response reaches the client, in whatever
/// case its name is written.
pub proof fn law_no_hop_by_hop_is_relayed(headers: Seq<(Seq<char>, Seq<u8>)>, i: int)
    requires
        0 <= i < response_headers(headers).len(),
    ensures
        !hop_by_hop(lowercase(response_headers(headers)[i].0)),
{
    headers.lemma_filter_pred(|f: (Seq<char>, Seq<u8>)| is_end_to_end(f), i);
}

/// A response that has been handed on once is handed on unchanged: a second
/// proxy in the way changes neither its status nor its headers.
pub proof fn law_relaying_twice_is_relaying_once(
    status: u16,
    headers: Seq<(Seq<char>, Seq<u8>)>,
)
    ensures
        relayed_status(relayed_status(status)) == relayed_status(status),
        response_headers(response_headers(headers)) == response_headers(headers),
{
    let pred = |f: (Seq<char>, Seq<u8>)| is_end_to_end(f);
    let once = response_headers(headers);
    assert forall|i: int| 0 <= i < once.len() implies pred(#[trigger] once[i]) by {
        headers.lemma_filter_pred(pred, i);
    }
    lemma_filter_all(once, pred);
}

/// The client always gets a status, and it gets the upstream server's own where
/// that is one.
pub proof fn law_the_client_gets_a_status(status: u16)
    ensures
        100 <= relayed_status(status) <= 999,
        100 <= status <= 999 ==> relayed_status(status) == status,
{
}

/// Whether a header travels does not rest on the case in which its name is
/// written, nor on its value.
pub proof fn law_case_does_not_matter(a: (Seq<char>, Seq<u8>), b: (Seq<char>, Seq<u8>))
    requires
        lowercase(a.0) == lowercase(b.0),
    ensures
        is_end_to_end(a) == is_end_to_end(b),
        is_forwarded(a) == is_forwarded(b),
{
}

/// Slashes at the end of the upstream's base URL do not matter: with two http or
/// https URLs without query and fragment that differ in nothing else, the proxy
/// does the same with every request, and sends the same URL, headers and body.
pub proof fn law_slashes_at_the_end_do_not_matter(
    upstream: UpstreamView,
    other: UpstreamView,
    request: IncomingRequestView,
    body: Result<Seq<u8>, Seq<char>>,
)
    requires
        upstream.well_formed(),
        other.well_formed(),
        is_web_base(upstream.url),
        is_web_base(other.url),
        trim_end(upstream.url, '/') == trim_end(other.url, '/'),
    ensures
        request_step(upstream, request) == request_step(other, request),
        sent(upstream, request, body) == sent(other, request, body),
{
}

/// However many slashes are put at the end of a base URL, they are taken off.
pub proof fn law_slashes_put_at_the_end_are_taken_off(base: Seq<char>, slashes: nat)
    ensures
        trim_end(base + Seq::new(slashes, |i: int| '/'), '/') == trim_end(base, '/'),
    decreases slashes,
{
    let longer = base + Seq::new(slashes, |i: int| '/');
    if slashes == 0 {
        assert(longer =~= base);
    } else {
        let fewer = (slashes - 1) as nat;
        assert(longer.drop_last() =~= base + Seq::new(fewer, |i: int| '/'));
        law_slashes_put_at_the_end_are_taken_off(base, fewer);
    }
}

/// The base that the target of a request is put behind does not end in a slash,
/// and nothing but slashes has been taken off its end.
pub proof fn law_base_has_no_slash_at_its_end(base: Seq<char>)
    ensures
        ({
            let trimmed = trim_end(base, '/');
            &&& trimmed.len() > 0 ==> trimmed.last() != '/'
            &&& trimmed.len() <= base.len()
            &&& base == trimmed + Seq::new((base.len() - trimmed.len()) as nat, |i: int| '/')
        }),
    decreases base.len(),
{
    let trimmed = trim_end(base, '/');
    if base.len() > 0 && base.last() == '/' {
        law_base_has_no_slash_at_its_end(base.drop_last());
        let n = (base.len() - trimmed.len()) as nat;
        assert(base =~= base.drop_last().push('/'));
        assert(Seq::new(n, |i: int| '/') =~= Seq::new((n - 1) as nat, |i: int| '/').push('/'));
        assert(base =~= trimmed + Seq::new(n, |i: int| '/'));
    } else {
        assert(base =~= trimmed + Seq::new(0, |i: int| '/'));
    }
}

/// A request whose body could not be read is not sent upstream.
pub proof fn law_unread_requests_are_not_sent(
    upstream: UpstreamView,
    request: IncomingRequestView,
    message: Seq<char>,
)
    ensures
        sent(upstream, request, Err(message)) is None,
{
}

/// No body of more than [`MAX_REQUEST_BODY`] bytes is sent upstream.
pub proof fn law_no_larger_body_is_sent(
    upstream: UpstreamView,
    request: IncomingRequestView,
    body: Result<Seq<u8>, Seq<char>>,
)
    requires
        sent(upstream, request, body) is Some,
        sent(upstream, request, body)->0.body is Some,
    ensures
        sent(upstream, request, body)->0.body->0.len() <= MAX_REQUEST_BODY,
{
}

/// A path without a query is that of a write operation exactly when something
/// stands before `/git-receive-pack` in it and nothing behind.
pub proof fn law_a_write_path_ends_in_the_endpoint(path: Seq<char>)
    ensures
        is_write(path, None) <==> exists|x: Seq<char>|
            path == #[trigger] (x + "/git-receive-pack"@),
{
    law_what_ending_in_is(path, "/git-receive-pack"@);
}

/// A text ends in another exactly when it is something followed by it.
pub proof fn law_what_ending_in_is(s: Seq<char>, suffix: Seq<char>)
    ensures
        ends_in(s, suffix) <==> exists|x: Seq<char>| s == #[trigger] (x + suffix),
{
    if ends_in(s, suffix) {
        assert(s =~= s.take(s.len() - suffix.len()) + suffix);
    }
    if exists|x: Seq<char>| s == #[trigger] (x + suffix) {
        let x = choose|x: Seq<char>| s == #[trigger] (x + suffix);
        assert(s.skip(s.len() - suffix.len()) =~= suffix);
    }
}

/// A path and a query are those of a write operation exactly when the path ends
/// in `/git-receive-pack`, or `service=git-receive-pack` stands in the query
/// between two `&` signs, an end of the query counting as one.
pub proof fn law_what_a_write_is(path: Seq<char>, query: Option<Seq<char>>)
    ensures
        is_write(path, query) <==> ({
            ||| exists|x: Seq<char>| path == #[trigger] (x + "/git-receive-pack"@)
            ||| query is Some && exists|a: Seq<char>, b: Seq<char>|
                "&"@ + query->0 + "&"@ == #[trigger] (a + "&service=git-receive-pack&"@ + b)
        }),
{
    law_what_ending_in_is(path, "/git-receive-pack"@);
    if query is Some {
        let p = "service=git-receive-pack"@;
        reveal_strlit("service=git-receive-pack");
        reveal_strlit("&service=git-receive-pack&");
        reveal_strlit("&");
        assert("&"@ =~= seq!['&']);
        assert("&service=git-receive-pack&"@ =~= seq!['&'] + p + seq!['&']);
        law_pieces_stand_between_separators(query->0, '&', p);
    }
}

/// A text without separators is a piece of another exactly when it stands in it
/// between two separators, an end of the text counting as one.
pub proof fn law_pieces_stand_between_separators(
    s: Seq<char>,
    separator: char,
    piece: Seq<char>,
)
    requires
        !piece.contains(separator),
    ensures
        split(s, separator).contains(piece) <==> exists|a: Seq<char>, b: Seq<char>|
            seq![separator] + s + seq![separator] == #[trigger] (a + (seq![separator] + piece
                + seq![separator]) + b),
{
    let within = seq![separator] + piece + seq![separator];
    let padded = seq![separator] + s + seq![separator];
    if split(s, separator).contains(piece) {
        let (a, b) = lemma_piece_stands_between(s, separator, piece);
        assert(padded == a + within + b);
    }
    if exists|a: Seq<char>, b: Seq<char>| padded == #[trigger] (a + within + b) {
        let (a, b) = choose|a: Seq<char>, b: Seq<char>| padded == #[trigger] (a + within + b);
        lemma_between_is_a_piece(s, separator, piece, a, b);
    }
}

/// What stands before and behind a piece of a text between two separators.
proof fn lemma_piece_stands_between(s: Seq<char>, separator: char, piece: Seq<char>) -> (r: (
    Seq<char>,
    Seq<char>,
))
    requires
        split(s, separator).contains(piece),
    ensures
        seq![separator] + s + seq![separator] == r.0 + (seq![separator] + piece
            + seq![separator]) + r.1,
    decreases s.len(),
{
    let one = seq![separator];
    let within = one + piece + one;
    let none = Seq::<char>::empty();
    s.index_of_first_ensures(separator);
    match s.index_of_first(separator) {
        None => {
            lemma_split_none(s, separator);
            assert(one + s + one =~= none + within + none);
            (none, none)
        },
        Some(i) => {
            let first = s.take(i);
            let rest = s.skip(i + 1);
            lemma_split_first(s, separator, i);
            let pieces = split(rest, separator);
            let all = split(s, separator);
            assert(all =~= seq![first] + pieces);
            let k = choose|k: int| 0 <= k < all.len() && all[k] == piece;
            assert(s =~= first + one + rest);
            if k == 0 {
                assert(one + s + one =~= none + within + (rest + one));
                (none, rest + one)
            } else {
                assert(pieces[k - 1] == piece);
                let (a, b) = lemma_piece_stands_between(rest, separator, piece);
                assert(one + s + one =~= one + first + (one + rest + one));
                assert(one + first + (a + within + b) =~= (one + first + a) + within + b);
                (one + first + a, b)
            }
        },
    }
}

/// What stands in a text between two separators, and holds none, is a piece.
proof fn lemma_between_is_a_piece(
    s: Seq<char>,
    separator: char,
    piece: Seq<char>,
    a: Seq<char>,
    b: Seq<char>,
)
    requires
        !piece.contains(separator),
        seq![separator] + s + seq![separator] == a + (seq![separator] + piece + seq![separator])
            + b,
    ensures
        split(s, separator).contains(piece),
    decreases s.len(),
{
    let one = seq![separator];
    let within = one + piece + one;
    let padded = one + s + one;
    let n = piece.len() as int;
    let k = a.len() as int;
    assert(padded.len() == s.len() + 2);
    assert(padded.len() == k + n + 2 + b.len());
    assert(padded[k] == separator) by {
        assert((a + within + b)[k] == within[0]);
    }
    assert(padded[k + 1 + n] == separator) by {
        assert((a + within + b)[k + 1 + n] == within[1 + n]);
    }
    s.index_of_first_ensures(separator);
    match s.index_of_first(separator) {
        None => {
            lemma_split_none(s, separator);
            if 0 < k {
                assert(padded[k] == s[k - 1]);
            }
            if n < s.len() {
                assert(padded[1 + n] == s[n]);
            }
            assert forall|j: int| 0 <= j < n implies s[j] == piece[j] by {
                assert(padded[1 + j] == s[j]);
                assert((a + within + b)[1 + j] == within[1 + j]);
            }
            assert(s =~= piece);
            assert(split(s, separator)[0] == piece);
        },
        Some(i) => {
            let first = s.take(i);
            let rest = s.skip(i + 1);
            lemma_split_first(s, separator, i);
            let pieces = split(rest, separator);
            let all = split(s, separator);
            assert(all =~= seq![first] + pieces);
            if k == 0 {
                assert(padded[1 + i] == s[i]);
                assert forall|j: int| 0 <= j < n implies padded[1 + j] == piece[j] by {
                    assert((a + within + b)[1 + j] == within[1 + j]);
                }
                if i < n {
                    assert(piece[i] == separator);
                }
                if n < i {
                    assert(padded[1 + n] == s[n]);
                    assert(first[n] == separator);
                }
                assert(first =~= piece);
                assert(all[0] == piece);
            } else {
                if k <= i {
                    assert(padded[k] == s[k - 1]);
                    assert(first[k - 1] == separator);
                }
                let c = a.skip(i + 1);
                assert(padded.skip(i + 1) =~= one + rest + one);
                assert((a + within + b).skip(i + 1) =~= c + within + b);
                lemma_between_is_a_piece(rest, separator, piece, c, b);
                let j = choose|j: int| 0 <= j < pieces.len() && pieces[j] == piece;
                assert(all[j + 1] == piece);
            }
        },
    }
}

/// A request goes out as a write operation exactly when the client makes a URL of
/// its text whose path ends in `/git-receive-pack` or in whose query
/// `service=git-receive-pack` stands between two `&` signs.
pub proof fn law_what_goes_out_as_a_write(
    url: Seq<char>,
    path: Seq<char>,
    query: Option<Seq<char>>,
)
    ensures
        url_target(url) is None ==> !goes_out_as_write(url),
        url_target(url) == Some((path, query)) ==> (goes_out_as_write(url) <==> ({
            ||| exists|x: Seq<char>| path == #[trigger] (x + "/git-receive-pack"@)
            ||| query is Some && exists|a: Seq<char>, b: Seq<char>|
                "&"@ + query->0 + "&"@ == #[trigger] (a + "&service=git-receive-pack&"@ + b)
        })),
{
    law_what_a_write_is(path, query);
}

/// A request is answered with the refusal exactly when it would go out as a write
/// operation, or its path ends in `/git-receive-pack`, or
/// `service=git-receive-pack` stands in its query between two `&` signs. Every
/// other one goes on, under its own method and still without a body, where that
/// method is a token, and is answered that it is not where it is not.
pub proof fn law_which_requests_are_refused(
    upstream: UpstreamView,
    request: IncomingRequestView,
    goes_out: bool,
)
    ensures
        ({
            let step = decided_step(upstream, request, goes_out);
            let refused = goes_out || (exists|x: Seq<char>|
                request.path == #[trigger] (x + "/git-receive-pack"@)) || (request.query is Some
                && exists|a: Seq<char>, b: Seq<char>|
                "&"@ + request.query->0 + "&"@ == #[trigger] (a + "&service=git-receive-pack&"@
                    + b));
            &&& refused ==> step == StepView::Respond(
                PlainResponseView {
                    status: 403,
                    content_type: "text/plain; charset=utf-8"@,
                    body: "Push operations are not supported by this read-only proxy\n"@,
                },
            )
            &&& !refused && is_token(request.method) ==> step is Proceed
                && step->Proceed_0.method == request.method && step->Proceed_0.body is None
            &&& !refused && !is_token(request.method) ==> step == StepView::Respond(
                PlainResponseView {
                    status: 400,
                    content_type: "text/plain; charset=utf-8"@,
                    body: "Invalid HTTP method: invalid HTTP method\n"@,
                },
            )
        }),
{
    law_what_a_write_is(request.path, request.query);
    reveal_strlit("Invalid HTTP method: ");
    reveal_strlit("invalid HTTP method");
    reveal_strlit("\n");
    reveal_strlit("Invalid HTTP method: invalid HTTP method\n");
    assert("Invalid HTTP method: "@ + "invalid HTTP method"@ + "\n"@
        =~= "Invalid HTTP method: invalid HTTP method\n"@);
}

/// A request without a query is refused for what it asks exactly when the last
/// segment of its path is `git-receive-pack`: every other one with a token for its
/// method, that would not go out as a write operation, is sent on.
pub proof fn law_without_a_query_the_path_decides(
    upstream: UpstreamView,
    request: IncomingRequestView,
)
    requires
        request.query is None,
        is_token(request.method),
    ensures
        decided_step(upstream, request, false) is Respond <==> exists|x: Seq<char>|
            request.path == #[trigger] (x + "/git-receive-pack"@),
{
    law_which_requests_are_refused(upstream, request, false);
}

/// Whether a request would go out as a write operation is read in the URL that it
/// goes to, and in nothing else.
pub proof fn law_the_url_sent_decides(
    upstream: UpstreamView,
    request: IncomingRequestView,
    path: Seq<char>,
    query: Option<Seq<char>>,
)
    ensures
        url_target(outgoing_url(upstream.url, request.path_and_query)) is None ==> request_step(
            upstream,
            request,
        ) == decided_step(upstream, request, false),
        url_target(outgoing_url(upstream.url, request.path_and_query)) == Some((path, query))
            ==> request_step(upstream, request) == decided_step(
            upstream,
            request,
            (exists|x: Seq<char>| path == #[trigger] (x + "/git-receive-pack"@)) || (query is Some
                && exists|a: Seq<char>, b: Seq<char>|
                "&"@ + query->0 + "&"@ == #[trigger] (a + "&service=git-receive-pack&"@ + b)),
        ),
        decided_step(upstream, request, false) is Proceed ==> decided_step(
            upstream,
            request,
            false,
        )->Proceed_0.url == outgoing_url(upstream.url, request.path_and_query),
{
    law_what_a_write_is(path, query);
}

/// A method is a token exactly when it is not empty and each of its characters is
/// a letter, a digit or one of fifteen signs.
pub proof fn law_what_a_token_is(method: Seq<char>)
    ensures
        is_token(method) <==> ({
            &&& method.len() > 0
            &&& forall|i: int|
                0 <= i < method.len() ==> ({
                    ||| "abcdefghijklmnopqrstuvwxyz"@.contains(#[trigger] method[i])
                    ||| "ABCDEFGHIJKLMNOPQRSTUVWXYZ"@.contains(method[i])
                    ||| "0123456789"@.contains(method[i])
                    ||| "!#$%&'*+-.^_`|~"@.contains(method[i])
                })
        }),
{
    assert forall|i: int| 0 <= i < method.len() implies is_token_char(#[trigger] method[i]) == {
        ||| "abcdefghijklmnopqrstuvwxyz"@.contains(method[i])
        ||| "ABCDEFGHIJKLMNOPQRSTUVWXYZ"@.contains(method[i])
        ||| "0123456789"@.contains(method[i])
        ||| "!#$%&'*+-.^_`|~"@.contains(method[i])
    } by {
        lemma_letters(method[i]);
        lemma_digits_and_signs(method[i]);
    }
    if is_token(method) {
        assert forall|i: int| 0 <= i < method.len() implies {
            ||| "abcdefghijklmnopqrstuvwxyz"@.contains(#[trigger] method[i])
            ||| "ABCDEFGHIJKLMNOPQRSTUVWXYZ"@.contains(method[i])
            ||| "0123456789"@.contains(method[i])
            ||| "!#$%&'*+-.^_`|~"@.contains(method[i])
        } by {
            assert(is_token_char(method[i]));
        }
    }
}

proof fn lemma_letters(c: char)
    ensures
        "abcdefghijklmnopqrstuvwxyz"@.contains(c) <==> 'a' <= c <= 'z',
        "ABCDEFGHIJKLMNOPQRSTUVWXYZ"@.contains(c) <==> 'A' <= c <= 'Z',
{
    reveal_strlit("abcdefghijklmnopqrstuvwxyz");
    reveal_strlit("ABCDEFGHIJKLMNOPQRSTUVWXYZ");
    let small = "abcdefghijklmnopqrstuvwxyz"@;
    let large = "ABCDEFGHIJKLMNOPQRSTUVWXYZ"@;
    if 'a' <= c <= 'z' {
        assert(small[c as int - 97] == c);
    }
    if 'A' <= c <= 'Z' {
        assert(large[c as int - 65] == c);
    }
}

proof fn lemma_digits_and_signs(c: char)
    ensures
        "0123456789"@.contains(c) <==> '0' <= c <= '9',
        "!#$%&'*+-.^_`|~"@.contains(c) <==> ({
            ||| c == '!' || c == '#' || c == '$' || c == '%' || c == '&' || c == '\''
            ||| c == '*' || c == '+' || c == '-' || c == '.' || c == '^' || c == '_'
            ||| c == '`' || c == '|' || c == '~'
        }),
{
    reveal_strlit("0123456789");
    reveal_strlit("!#$%&'*+-.^_`|~");
    let digits = "0123456789"@;
    let signs = "!#$%&'*+-.^_`|~"@;
    if '0' <= c <= '9' {
        assert(digits[c as int - 48] == c);
    }
    if c == '!' {
        assert(signs[0] == c);
    } else if c == '#' {
        assert(signs[1] == c);
    } else if c == '$' {
        assert(signs[2] == c);
    } else if c == '%' {
        assert(signs[3] == c);
    } else if c == '&' {
        assert(signs[4] == c);
    } else if c == '\'' {
        assert(signs[5] == c);
    } else if c == '*' {
        assert(signs[6] == c);
    } else if c == '+' {
        assert(signs[7] == c);
    } else if c == '-' {
        assert(signs[8] == c);
    } else if c == '.' {
        assert(signs[9] == c);
    } else if c == '^' {
        assert(signs[10] == c);
    } else if c == '_' {
        assert(signs[11] == c);
    } else if c == '`' {
        assert(signs[12] == c);
    } else if c == '|' {
        assert(signs[13] == c);
    } else if c == '~' {
        assert(signs[14] == c);
    }
}

/// A text is cut at the first separator in it, and what stands behind is cut in
/// the same way; one without separators is one piece. No piece holds one.
pub proof fn law_texts_are_cut_at_their_separators(
    a: Seq<char>,
    b: Seq<char>,
    separator: char,
)
    requires
        !a.contains(separator),
    ensures
        split(a, separator) == seq![a],
        split(a + seq![separator] + b, separator) == seq![a] + split(b, separator),
        forall|k: int|
            0 <= k < split(b, separator).len() ==> !(#[trigger] split(b, separator)[k]).contains(
                separator,
            ),
{
    lemma_split_none(a, separator);
    lemma_split_joined(a, b, separator);
    lemma_pieces_hold_no_separator(b, separator);
}

proof fn lemma_pieces_hold_no_separator(s: Seq<char>, separator: char)
    ensures
        forall|k: int|
            0 <= k < split(s, separator).len() ==> !(#[trigger] split(s, separator)[k]).contains(
                separator,
            ),
    decreases s.len(),
{
    s.index_of_first_ensures(separator);
    match s.index_of_first(separator) {
        None => {
            lemma_split_none(s, separator);
        },
        Some(i) => {
            let rest = s.skip(i + 1);
            assert(!s.take(i).contains(separator));
            lemma_split_first(s, separator, i);
            lemma_pieces_hold_no_separator(rest, separator);
            let pieces = split(rest, separator);
            assert forall|k: int| 0 <= k < split(s, separator).len() implies !(
            #[trigger] split(s, separator)[k]).contains(separator) by {
                if k > 0 {
                    assert(split(s, separator)[k] == pieces[k - 1]);
                }
            }
        },
    }
}

/// What is put at the end of a text as often as one likes is taken off again, and
/// nothing else.
pub proof fn law_trimming_takes_off_the_end(s: Seq<char>, c: char, times: nat)
    requires
        s.len() == 0 || s.last() != c,
    ensures
        trim_end(s + Seq::new(times, |i: int| c), c) == s,
    decreases times,
{
    let longer = s + Seq::new(times, |i: int| c);
    if times == 0 {
        assert(longer =~= s);
    } else {
        let fewer = (times - 1) as nat;
        assert(longer.drop_last() =~= s + Seq::new(fewer, |i: int| c));
        law_trimming_takes_off_the_end(s, c, fewer);
    }
}

/// The URL made of a base, however many slashes stand at its end, and a target is
/// the base without those slashes and behind it: the target, character for
/// character, where it begins with a slash or a question mark; one slash where
/// there is none; and any other target, behind a slash where the base is a scheme,
/// `://` and nothing but the name of a server.
pub proof fn law_the_url_is_the_base_and_the_target(
    base: Seq<char>,
    slashes: nat,
    path_and_query: Option<Seq<char>>,
)
    requires
        base.len() == 0 || base.last() != '/',
    ensures
        ({
            let url = outgoing_url(base + Seq::new(slashes, |i: int| '/'), path_and_query);
            match path_and_query {
                None => url == base + seq!['/'],
                Some(t) => {
                    &&& t.len() > 0 && t[0] == '/' ==> url == base + t
                    &&& t.len() > 0 && t[0] == '?' ==> url == base + t
                    &&& t.len() == 0 || (t[0] != '/' && t[0] != '?') ==> url == (if exists|
                        scheme: Seq<char>,
                        server: Seq<char>,
                    |
                        base == #[trigger] (scheme + "://"@ + server) && !scheme.contains(':')
                            && !server.contains('/') && !server.contains('?')
                            && !server.contains('#') {
                        base + seq!['/'] + t
                    } else {
                        base + t
                    })
                },
            }
        }),
{
    law_trimming_takes_off_the_end(base, '/', slashes);
    reveal_strlit("/");
    assert("/"@ =~= seq!['/']);
    lemma_server_name_last(base);
    if path_and_query is Some {
        let t = path_and_query->0;
        assert(base + (seq!['/'] + t) =~= base + seq!['/'] + t);
    }
}

/// A base ends in the name of its server exactly when it is a scheme, `://` and a
/// name.
proof fn lemma_server_name_last(base: Seq<char>)
    ensures
        ends_in_its_authority(base) <==> exists|scheme: Seq<char>, server: Seq<char>|
            base == #[trigger] (scheme + "://"@ + server) && !scheme.contains(':')
                && !server.contains('/') && !server.contains('?') && !server.contains('#'),
{
    reveal_strlit("://");
    base.index_of_first_ensures(':');
    if ends_in_its_authority(base) {
        let i = base.index_of_first(':')->0;
        let scheme = base.take(i);
        let server = base.skip(i + 3);
        assert(base =~= scheme + "://"@ + server);
        assert forall|j: int| 0 <= j < server.len() implies server[j] != '/' && server[j] != '?'
            && server[j] != '#' by {
            assert(server[j] == base[i + 3 + j]);
        }
    }
    if exists|scheme: Seq<char>, server: Seq<char>|
        base == #[trigger] (scheme + "://"@ + server) && !scheme.contains(':')
            && !server.contains('/') && !server.contains('?') && !server.contains('#') {
        let (scheme, server) = choose|scheme: Seq<char>, server: Seq<char>|
            base == #[trigger] (scheme + "://"@ + server) && !scheme.contains(':')
                && !server.contains('/') && !server.contains('?') && !server.contains('#');
        let n = scheme.len() as int;
        assert(base[n] == ':');
        assert(base[n + 1] == '/');
        assert(base[n + 2] == '/');
        let i = base.index_of_first(':')->0;
        if i < n {
            assert(scheme[i] == ':');
        }
        assert(i == n);
        assert forall|j: int| i + 3 <= j < base.len() implies base[j] != '/' && base[j] != '?'
            && base[j] != '#' by {
            assert(base[j] == server[j - n - 3]);
        }
    }
}

/// Every request that goes on goes to the upstream's base without the slashes at
/// its end, followed by exactly its own target, where that begins with a slash or
/// a question mark; to the base and one slash where it has none; and behind a
/// slash where any other target would stand right behind the name of a server.
pub proof fn law_requests_go_to_the_base_and_their_target(
    upstream: UpstreamView,
    request: IncomingRequestView,
    goes_out: bool,
    base: Seq<char>,
    slashes: nat,
)
    requires
        base.len() == 0 || base.last() != '/',
        upstream.url == base + Seq::new(slashes, |i: int| '/'),
        decided_step(upstream, request, goes_out) is Proceed,
    ensures
        ({
            let url = decided_step(upstream, request, goes_out)->Proceed_0.url;
            match request.path_and_query {
                None => url == base + seq!['/'],
                Some(t) => {
                    &&& t.len() > 0 && t[0] == '/' ==> url == base + t
                    &&& t.len() > 0 && t[0] == '?' ==> url == base + t
                    &&& t.len() == 0 || (t[0] != '/' && t[0] != '?') ==> url == (if exists|
                        scheme: Seq<char>,
                        server: Seq<char>,
                    |
                        base == #[trigger] (scheme + "://"@ + server) && !scheme.contains(':')
                            && !server.contains('/') && !server.contains('?')
                            && !server.contains('#') {
                        base + seq!['/'] + t
                    } else {
                        base + t
                    })
                },
            }
        }),
{
    law_the_url_is_the_base_and_the_target(base, slashes, request.path_and_query);
}

/// A text in lower case is as long as it was, and differs from it only in that a
/// letter from `A` to `Z` has become the one of the same place from `a` to `z`.
pub proof fn law_what_lower_case_is(s: Seq<char>)
    ensures
        lowercase(s).len() == s.len(),
        forall|i: int, k: int|
            0 <= i < s.len() && 0 <= k < 26 && s[i] == "ABCDEFGHIJKLMNOPQRSTUVWXYZ"@[k]
                ==> #[trigger] lowercase(s)[i] == #[trigger] "abcdefghijklmnopqrstuvwxyz"@[k],
        forall|i: int|
            0 <= i < s.len() && !"ABCDEFGHIJKLMNOPQRSTUVWXYZ"@.contains(s[i]) ==> (
            #[trigger] lowercase(s)[i]) == s[i],
{
    assert forall|i: int|
        0 <= i < s.len() && !"ABCDEFGHIJKLMNOPQRSTUVWXYZ"@.contains(s[i]) implies (
    #[trigger] lowercase(s)[i]) == s[i] by {
        lemma_letters(s[i]);
    }
    reveal_strlit("abcdefghijklmnopqrstuvwxyz");
    reveal_strlit("ABCDEFGHIJKLMNOPQRSTUVWXYZ");
}

/// A name is that of a hop-by-hop header exactly when it is one of eight.
pub proof fn law_the_hop_by_hop_headers(name: Seq<char>)
    ensures
        hop_by_hop(name) <==> seq![
            "connection"@,
            "keep-alive"@,
            "proxy-authenticate"@,
            "proxy-authorization"@,
            "te"@,
            "trailers"@,
            "transfer-encoding"@,
            "upgrade"@,
        ].contains(name),
{
    let names = seq![
        "connection"@,
        "keep-alive"@,
        "proxy-authenticate"@,
        "proxy-authorization"@,
        "te"@,
        "trailers"@,
        "transfer-encoding"@,
        "upgrade"@,
    ];
    assert(names[0] == "connection"@);
    assert(names[1] == "keep-alive"@);
    assert(names[2] == "proxy-authenticate"@);
    assert(names[3] == "proxy-authorization"@);
    assert(names[4] == "te"@);
    assert(names[5] == "trailers"@);
    assert(names[6] == "transfer-encoding"@);
    assert(names[7] == "upgrade"@);
}

/// Predicates that agree keep the same items.
proof fn lemma_filter_same<A>(s: Seq<A>, p: spec_fn(A) -> bool, q: spec_fn(A) -> bool)
    requires
        forall|x: A| #[trigger] p(x) == q(x),
    ensures
        s.filter(p) == s.filter(q),
    decreases s.len(),
{
    reveal(Seq::filter);
    if s.len() > 0 {
        lemma_filter_same(s.drop_last(), p, q);
    }
}

/// The header fields of a request that are kept are its own, unchanged and in
/// order, but for those whose name is, in lower case, one of nine.
pub proof fn law_which_headers_are_forwarded(headers: Seq<(Seq<char>, Seq<u8>)>)
    ensures
        forwarded_headers(headers) == headers.filter(
            |f: (Seq<char>, Seq<u8>)|
                !seq![
                    "host"@,
                    "connection"@,
                    "keep-alive"@,
                    "proxy-authenticate"@,
                    "proxy-authorization"@,
                    "te"@,
                    "trailers"@,
                    "transfer-encoding"@,
                    "upgrade"@,
                ].contains(lowercase(f.0)),
        ),
{
    let p = |f: (Seq<char>, Seq<u8>)| is_forwarded(f);
    let q = |f: (Seq<char>, Seq<u8>)|
        !seq![
            "host"@,
            "connection"@,
            "keep-alive"@,
            "proxy-authenticate"@,
            "proxy-authorization"@,
            "te"@,
            "trailers"@,
            "transfer-encoding"@,
            "upgrade"@,
        ].contains(lowercase(f.0));
    assert forall|f: (Seq<char>, Seq<u8>)| #[trigger] p(f) == q(f) by {
        lemma_nine_names(lowercase(f.0));
    }
    lemma_filter_same(headers, p, q);
}

proof fn lemma_nine_names(name: Seq<char>)
    ensures
        seq![
            "host"@,
            "connection"@,
            "keep-alive"@,
            "proxy-authenticate"@,
            "proxy-authorization"@,
            "te"@,
            "trailers"@,
            "transfer-encoding"@,
            "upgrade"@,
        ].contains(name) <==> name == "host"@ || hop_by_hop(name),
{
    let names = seq![
        "host"@,
        "connection"@,
        "keep-alive"@,
        "proxy-authenticate"@,
        "proxy-authorization"@,
        "te"@,
        "trailers"@,
        "transfer-encoding"@,
        "upgrade"@,
    ];
    assert(names[0] == "host"@);
    assert(names[1] == "connection"@);
    assert(names[2] == "keep-alive"@);
    assert(names[3] == "proxy-authenticate"@);
    assert(names[4] == "proxy-authorization"@);
    assert(names[5] == "te"@);
    assert(names[6] == "trailers"@);
    assert(names[7] == "transfer-encoding"@);
    assert(names[8] == "upgrade"@);
}

/// The header fields that go upstream with a request are its own, unchanged and in
/// order, but for those whose name is, in lower case, one of nine; and behind them,
/// where the upstream's URL has a host, one `host` field: the host, and where there
/// is a port a colon and the port in decimal.
pub proof fn law_which_headers_are_sent(
    upstream: UpstreamView,
    request: IncomingRequestView,
    goes_out: bool,
)
    requires
        decided_step(upstream, request, goes_out) is Proceed,
    ensures
        ({
            let sent = decided_step(upstream, request, goes_out)->Proceed_0.headers;
            let own = request.headers.filter(
                |f: (Seq<char>, Seq<u8>)|
                    !seq![
                        "host"@,
                        "connection"@,
                        "keep-alive"@,
                        "proxy-authenticate"@,
                        "proxy-authorization"@,
                        "te"@,
                        "trailers"@,
                        "transfer-encoding"@,
                        "upgrade"@,
                    ].contains(lowercase(f.0)),
            );
            match (upstream.host, upstream.port) {
                (None, _) => sent == own,
                (Some(h), None) => {
                    &&& sent.len() > 0
                    &&& sent.drop_last() == own
                    &&& sent.last() == ("host"@, encode_utf8(h))
                },
                (Some(h), Some(p)) => {
                    &&& sent.len() > 0
                    &&& sent.drop_last() == own
                    &&& sent.last() == ("host"@, encode_utf8(h + ":"@ + decimal(p as nat)))
                },
            }
        }),
{
    law_which_headers_are_forwarded(request.headers);
    let kept = forwarded_headers(request.headers);
    let sent = decided_step(upstream, request, goes_out)->Proceed_0.headers;
    reveal_strlit(":");
    assert(":"@ =~= seq![':']);
    if upstream.host is Some {
        assert(sent.drop_last() =~= kept);
    } else {
        assert(sent =~= kept);
    }
}

/// A number in decimal is spelt in digits, its first one is not `0` unless it is
/// the only one, and read from the left, each digit behind ten times what stood
/// before it, it gives the number back.
pub proof fn law_what_decimal_is(n: nat)
    ensures
        decimal(n).len() > 0,
        forall|i: int|
            0 <= i < decimal(n).len() ==> "0123456789"@.contains(#[trigger] decimal(n)[i]),
        decimal(n).len() > 1 ==> decimal(n)[0] != '0',
        decimal(n).fold_left(0int, |v: int, c: char| 10 * v + (c as int - '0' as int)) == n,
    decreases n,
{
    let f = |v: int, c: char| 10 * v + (c as int - '0' as int);
    let s = decimal(n);
    reveal_with_fuel(Seq::fold_left, 2);
    if n < 10 {
        assert(s.drop_last() =~= Seq::<char>::empty());
        lemma_digits_and_signs(s[0]);
    } else {
        let t = decimal(n / 10);
        law_what_decimal_is(n / 10);
        assert(s.drop_last() =~= t);
        assert forall|i: int| 0 <= i < s.len() implies "0123456789"@.contains(#[trigger] s[i]) by {
            if i < t.len() {
                assert(s[i] == t[i]);
            } else {
                lemma_digits_and_signs(s[i]);
            }
        }
        assert(s[0] == t[0]);
        if t.len() == 1 {
            assert(n / 10 < 10) by {
                if n / 10 >= 10 {
                    law_what_decimal_is(n / 10 / 10);
                }
            }
        }
    }
}

/// A host and a port are written with a colon between them, the port in decimal.
pub proof fn law_a_host_and_a_port_are_joined_by_a_colon(host: Seq<char>, port: u16)
    ensures
        host_and_port(host, port) == host + ":"@ + decimal(port as nat),
{
    reveal_strlit(":");
    assert(":"@ =~= seq![':']);
}

/// The reply to the client is the upstream server's where that has answered: with
/// its own status, where that is from 100 to 999, and with 500 where it is not, and
/// with its own header fields, unchanged and in order, but for those whose name is,
/// in lower case, one of eight.
pub proof fn law_answers_are_handed_on(status: u16, headers: Seq<(Seq<char>, Seq<u8>)>)
    ensures
        upstream_reply(Ok((status, headers))) is Relay,
        100 <= status <= 999 ==> upstream_reply(Ok((status, headers)))->Relay_0.status == status,
        !(100 <= status <= 999) ==> upstream_reply(Ok((status, headers)))->Relay_0.status == 500,
        upstream_reply(Ok((status, headers)))->Relay_0.headers == headers.filter(
            |f: (Seq<char>, Seq<u8>)|
                !seq![
                    "connection"@,
                    "keep-alive"@,
                    "proxy-authenticate"@,
                    "proxy-authorization"@,
                    "te"@,
                    "trailers"@,
                    "transfer-encoding"@,
                    "upgrade"@,
                ].contains(lowercase(f.0)),
        ),
        upstream_reply(Ok((status, headers)))->Relay_0 == relayed_head(status, headers),
        relayed_head(status, headers).headers == response_headers(headers),
{
    let p = |f: (Seq<char>, Seq<u8>)| is_end_to_end(f);
    let q = |f: (Seq<char>, Seq<u8>)|
        !seq![
            "connection"@,
            "keep-alive"@,
            "proxy-authenticate"@,
            "proxy-authorization"@,
            "te"@,
            "trailers"@,
            "transfer-encoding"@,
            "upgrade"@,
        ].contains(lowercase(f.0));
    assert forall|f: (Seq<char>, Seq<u8>)| #[trigger] p(f) == q(f) by {
        law_the_hop_by_hop_headers(lowercase(f.0));
    }
    lemma_filter_same(headers, p, q);
}

/// Where the upstream server could not be reached, the client is told why.
pub proof fn law_failures_to_reach_the_upstream_are_told(why: Seq<char>)
    ensures
        upstream_reply(Err(why)) == ReplyView::Plain(
            (PlainResponseView {
                status: 502,
                content_type: "text/plain; charset=utf-8"@,
                body: "Upstream request failed: "@ + why + "\n"@,
            }),
        ),
{
}

/// Reading the body changes nothing of a request but its body, and nothing at all
/// where the body is empty. A body of more than 52428800 bytes is not taken, nor is
/// one that could not be read, and the client is told why.
pub proof fn law_what_a_body_does(request: OutgoingRequestView, body: Seq<u8>, why: Seq<char>)
    ensures
        body_step(request, Ok(body)) is Proceed <==> body.len() <= 52428800,
        body_step(request, Ok(body)) is Proceed ==> ({
            let full = body_step(request, Ok(body))->Proceed_0;
            &&& full.method == request.method
            &&& full.url == request.url
            &&& full.headers == request.headers
            &&& body.len() > 0 ==> full.body == Some(body)
            &&& body.len() == 0 ==> full.body == request.body
        }),
        body_step(request, Ok(body)) is Respond ==> body_step(request, Ok(body))->Respond_0 == (
        PlainResponseView {
            status: 400,
            content_type: "text/plain; charset=utf-8"@,
            body: "Failed to read request body: length limit exceeded\n"@,
        }),
        body_step(request, Err(why)) == StepView::Respond(
            (PlainResponseView {
                status: 400,
                content_type: "text/plain; charset=utf-8"@,
                body: "Failed to read request body: "@ + why + "\n"@,
            }),
        ),
{
    reveal_strlit("Failed to read request body: ");
    reveal_strlit("length limit exceeded");
    reveal_strlit("\n");
    reveal_strlit("Failed to read request body: length limit exceeded\n");
    assert("Failed to read request body: "@ + "length limit exceeded"@ + "\n"@
        =~= "Failed to read request body: length limit exceeded\n"@);
}

/// A response of the proxy's own is plain text, with the status and the text that
/// it is made of.
pub proof fn law_what_the_proxy_writes(status: u16, body: Seq<char>)
    ensures
        plain(status, body).status == status,
        plain(status, body).content_type == "text/plain; charset=utf-8"@,
        plain(status, body).body == body,
{
}

/// There is an identity to serve under exactly when the certificate file can be
/// read and a key is read in the key file, and it holds what was read. Otherwise
/// the certificate file is at fault where it could not be read, and the key file
/// where only that could not be.
pub proof fn law_when_there_is_an_identity(
    certificates: Result<Seq<Seq<u8>>, Seq<char>>,
    key: Result<Option<PrivateKeyView>, Seq<char>>,
)
    ensures
        identity_of(certificates, key) is Ok <==> certificates is Ok && key is Ok
            && key->Ok_0 is Some,
        identity_of(certificates, key) is Ok ==> ({
            &&& identity_of(certificates, key)->Ok_0.certificates == certificates->Ok_0
            &&& Some(identity_of(certificates, key)->Ok_0.key) == key->Ok_0
        }),
        certificates is Err ==> identity_of(certificates, key)->Err_0 == TlsErrorView::Certificate(
            certificates->Err_0,
        ),
        certificates is Ok && key is Err ==> identity_of(certificates, key)->Err_0
            == TlsErrorView::PrivateKey(key->Err_0),
        certificates is Ok && key is Ok && key->Ok_0 is None ==> identity_of(
            certificates,
            key,
        )->Err_0 == TlsErrorView::NoPrivateKey,
{
}

/// What is said of header fields is their names and values, one for one.
pub proof fn law_fields_are_read_one_for_one(headers: Seq<Header>)
    ensures
        fields(headers).len() == headers.len(),
        forall|i: int|
            0 <= i < headers.len() ==> (#[trigger] fields(headers)[i]).0 == headers[i].name@
                && fields(headers)[i].1 == headers[i].value@,
{
}

/// What is said of the messages is what they hold, field for field.
pub proof fn law_messages_say_what_they_hold(
    upstream: Upstream,
    incoming: IncomingRequest,
    outgoing: OutgoingRequest,
    response: PlainResponse,
    head: ResponseHead,
)
    ensures
        upstream@.url == upstream.url@,
        upstream@.host is Some <==> upstream.host is Some,
        upstream.host is Some ==> upstream@.host->0 == upstream.host->0@,
        upstream@.port == upstream.port,
        incoming@.method == incoming.method@,
        incoming@.path == incoming.path@,
        incoming@.query is Some <==> incoming.query is Some,
        incoming.query is Some ==> incoming@.query->0 == incoming.query->0@,
        incoming@.path_and_query is Some <==> incoming.path_and_query is Some,
        incoming.path_and_query is Some ==> incoming@.path_and_query->0
            == incoming.path_and_query->0@,
        incoming@.headers == fields(incoming.headers@),
        outgoing@.method == outgoing.method@,
        outgoing@.url == outgoing.url@,
        outgoing@.headers == fields(outgoing.headers@),
        outgoing@.body is Some <==> outgoing.body is Some,
        outgoing.body is Some ==> outgoing@.body->0 == outgoing.body->0@,
        response@.status == response.status,
        response@.content_type == response.content_type@,
        response@.body == response.body@,
        head@.status == head.status,
        head@.headers == fields(head.headers@),
{
}

/// What is said of a query that may be absent is the query, or that there is none.
pub proof fn law_absent_texts_stay_absent(text: Option<&str>)
    ensures
        text_of(text) is Some <==> text is Some,
        text is Some ==> text_of(text)->0 == text->0@,
{
}

/// What is said of a step and of a reply is which of the two it is and what it
/// holds.
pub proof fn law_steps_and_replies_say_what_they_hold(step: Step, reply: Reply)
    ensures
        step is Respond <==> step@ is Respond,
        step is Respond ==> step@->Respond_0 == step->Respond_0@,
        step is Proceed ==> step@->Proceed_0 == step->Proceed_0@,
        reply is Plain <==> reply@ is Plain,
        reply is Plain ==> reply@->Plain_0 == reply->Plain_0@,
        reply is Relay ==> reply@->Relay_0 == reply->Relay_0@,
{
}

/// What is said of an identity is its certificates, one for one, and its key, and
/// what is said of the result of making one is which of the two it is and what it
/// holds.
pub proof fn law_identities_say_what_they_hold(
    identity: TlsIdentity,
    error: TlsError,
)
    ensures
        identity@.certificates.len() == identity.certificates@.len(),
        forall|i: int|
            0 <= i < identity.certificates@.len() ==> (#[trigger] identity@.certificates[i])
                == identity.certificates@[i]@,
        byte_strings(identity.certificates@) == identity@.certificates,
        identity@.key == (match identity.key {
            PrivateKey::Pkcs1(der) => PrivateKeyView::Pkcs1(der@),
            PrivateKey::Sec1(der) => PrivateKeyView::Sec1(der@),
            PrivateKey::Pkcs8(der) => PrivateKeyView::Pkcs8(der@),
            PrivateKey::Other(der) => PrivateKeyView::Other(der@),
        }),
        error@ == (match error {
            TlsError::Certificate(e) => TlsErrorView::Certificate(e@),
            TlsError::PrivateKey(e) => TlsErrorView::PrivateKey(e@),
            TlsError::NoPrivateKey => TlsErrorView::NoPrivateKey,
        }),
        outcome(Ok(identity)) == Ok::<TlsIdentityView, TlsErrorView>(identity@),
        outcome(Err(error)) == Err::<TlsIdentityView, TlsErrorView>(error@),
{
}

/// The head of a request is read as it came, and the upstream's URL as it is.
pub proof fn law_requests_are_read_as_they_came(
    method: Method,
    uri: Uri,
    headers: HeaderMap,
    url: Url,
)
    ensures
        request_view(method, uri, headers).method == method_text(method),
        request_view(method, uri, headers).path == uri_path(uri),
        request_view(method, uri, headers).query == uri_query(uri),
        request_view(method, uri, headers).path_and_query == uri_path_and_query(uri),
        request_view(method, uri, headers).headers == header_fields(headers),
        upstream_view(url).url == url_text(url),
        upstream_view(url).host == url_host(url),
        upstream_view(url).port == url_port(url),
{
}

} // verus!
