//! The read-only rule: which requests are git *write* operations.
//!
//! The git smart-HTTP protocol identifies a push by the path and the query of
//! a request, not by its method:
//!
//! | Request | Purpose |
//! |---------|---------|
//! | `GET  /repo.git/info/refs?service=git-receive-pack` | push advertisement |
//! | `POST /repo.git/git-receive-pack`                   | push data          |

use crate::boundary::uri_path;
use crate::boundary::uri_query;
use crate::boundary::url_from;
use crate::boundary::url_target;
use crate::message::text_of;
use crate::text::ends_in;
use crate::text::has_piece;
use crate::text::has_suffix;
use crate::text::split;
use axum::http::Uri;
use vstd::prelude::*;

verus! {

/// The parameters of a query: its pieces between the `&` signs.
pub open spec fn parameters(query: Seq<char>) -> Seq<Seq<char>> {
    split(query, '&')
}

/// Whether a path is that of the receive-pack endpoint: its last segment is
/// `git-receive-pack`.
pub open spec fn is_receive_pack_path(path: Seq<char>) -> bool {
    ends_in(path, "/git-receive-pack"@)
}

/// Whether a query asks for the receive-pack service: one of its parameters is
/// `service=git-receive-pack`.
pub open spec fn is_receive_pack_query(query: Seq<char>) -> bool {
    parameters(query).contains("service=git-receive-pack"@)
}

/// Whether a path and a query are those of a write operation.
pub open spec fn is_write(path: Seq<char>, query: Option<Seq<char>>) -> bool {
    ||| is_receive_pack_path(path)
    ||| query is Some && is_receive_pack_query(query->0)
}

/// The path in a request target as it is written: what stands before the first
/// question mark.
pub open spec fn target_path(target: Seq<char>) -> Seq<char> {
    match target.index_of_first('?') {
        Some(i) => target.take(i),
        None => target,
    }
}

/// The query in a request target as it is written: what stands behind the first
/// question mark, where there is one.
pub open spec fn target_query(target: Seq<char>) -> Option<Seq<char>> {
    match target.index_of_first('?') {
        Some(i) => Some(target.skip(i + 1)),
        None => None,
    }
}

/// Whether a request to a URL, given as text, goes out as a write operation: the
/// URL that the client makes of the text, where it makes one, has the path or the
/// query of one.
pub open spec fn goes_out_as_write(url: Seq<char>) -> bool {
    match url_target(url) {
        Some((path, query)) => is_write(path, query),
        None => false,
    }
}

/// Returns `true` when the request targets a git *write* operation
/// (`git-receive-pack`) and should therefore be blocked by the proxy.
///
/// All other requests (upload-pack / fetch, dumb-HTTP static files, …) are
/// considered read-only and are allowed through.
pub fn is_write_operation(uri: &Uri) -> (r: bool)
    ensures
        r == is_write(uri_path(*uri), uri_query(*uri)),
{
    is_write_target(uri.path(), uri.query())
}

/// Whether the path and the query of a request, without its question mark, are
/// those of a write operation.
pub fn is_write_target(path: &str, query: Option<&str>) -> (r: bool)
    ensures
        r == is_write(path@, text_of(query)),
{
    // Block any request to the receive-pack endpoint.
    if has_suffix(path, "/git-receive-pack") {
        return true;
    }
    // Block the push discovery request (?service=git-receive-pack).
    match query {
        Some(q) => has_piece(q, '&', "service=git-receive-pack"),
        None => false,
    }
}

/// Whether a request to a URL goes out as a write operation. The client does not
/// send a URL as it is written: it makes a slash of a backslash and follows `..`,
/// so that a push may show only in the URL that it makes.
pub fn is_outgoing_write(url: &str) -> (r: bool)
    ensures
        r == goes_out_as_write(url@),
{
    match url_from(url) {
        Ok(u) => is_write_target(u.path(), u.query()),
        Err(_) => false,
    }
}

} // verus!
