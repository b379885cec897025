//! Forwarding one request.
//!
//! The forwarder changes where a request goes and nothing else. The target
//! is the upstream base URL with the request's path and query appended as
//! they came; method, headers and body are handed on untouched, and so is
//! whatever the upstream answers. A request that cannot be sent, or that is
//! sent in vain, is answered with a gateway failure.
//!
//! The request and the response are generic in what the forwarder must not
//! look into: the method `M`, the headers `H` and the body `B`.

use vstd::prelude::*;
use vstd::string::*;
use crate::uri::{is_well_formed, uri_well_formed};

verus! {

/// The status of a gateway failure: 502, Bad Gateway.
pub const BAD_GATEWAY: u16 = 502;

/// Why a request was not relayed.
#[derive(Clone, Copy, Debug, PartialEq, Eq, Structural)]
pub enum ForwardError {
    /// The target made of base URL, path and query is not a URI.
    BadGatewayConfiguration,
    /// The call to the upstream failed: refused, timed out or reset.
    UpstreamUnreachable,
}

/// A request as the listener received it.
#[derive(Debug, PartialEq, Eq)]
pub struct InboundRequest<M, H, B> {
    pub method: M,
    pub path: String,
    /// What followed the `?`; nothing where the request had no query or it
    /// could not be had, in which case the bare path is forwarded.
    pub query: Option<String>,
    pub headers: H,
    pub body: B,
}

/// A request as it goes to the upstream.
#[derive(Debug, PartialEq, Eq)]
pub struct OutboundRequest<M, H, B> {
    pub method: M,
    pub target: String,
    pub headers: H,
    pub body: B,
}

/// What the upstream answered.
#[derive(Debug, PartialEq, Eq)]
pub struct Response<H, B> {
    pub status: u16,
    pub headers: H,
    pub body: B,
}

/// What the caller is answered.
#[derive(Debug, PartialEq, Eq)]
pub enum Reply<H, B> {
    /// The upstream's response, as it came.
    Relayed(Response<H, B>),
    /// A gateway failure.
    Failed(ForwardError),
}

/// A query as mathematical value.
pub open spec fn query_text(query: Option<String>) -> Option<Seq<char>> {
    match query {
        Some(q) => Some(q@),
        None => None,
    }
}

/// A borrowed query as mathematical value.
pub open spec fn query_ref_text(query: Option<&str>) -> Option<Seq<char>> {
    match query {
        Some(q) => Some(q@),
        None => None,
    }
}

/// The path, then `?` and the query where there is one.
pub open spec fn path_and_query_text(path: Seq<char>, query: Option<Seq<char>>) -> Seq<char> {
    match query {
        Some(q) => path + seq!['?'] + q,
        None => path,
    }
}

/// The target of the outbound request: the base URL, then path and query.
/// Nothing is added between them and nothing is taken away.
pub open spec fn target_text(base: Seq<char>, path: Seq<char>, query: Option<Seq<char>>) -> Seq<
    char,
> {
    base + path_and_query_text(path, query)
}

/// The status that the caller sees.
pub open spec fn reply_status<H, B>(reply: Reply<H, B>) -> u16 {
    match reply {
        Reply::Relayed(response) => response.status,
        Reply::Failed(_) => BAD_GATEWAY,
    }
}

/// The target is the base URL and the request's own path and query, and
/// nothing else: cut behind the base, its front is the base and its back is
/// path and query as they came, with no slash added, merged or dropped.
pub proof fn lemma_target_is_concatenation(
    base: Seq<char>,
    path: Seq<char>,
    query: Option<Seq<char>>,
)
    ensures
        target_text(base, path, query).len() == base.len() + path_and_query_text(path, query).len(),
        target_text(base, path, query).take(base.len() as int) == base,
        target_text(base, path, query).skip(base.len() as int) == path_and_query_text(path, query),
        path_and_query_text(path, query).take(path.len() as int) == path,
        query is None ==> path_and_query_text(path, query) == path,
        query matches Some(q) ==> path_and_query_text(path, query).skip(path.len() as int)
            == seq!['?'] + q,
{
    let tail = path_and_query_text(path, query);
    let target = target_text(base, path, query);
    assert(target.take(base.len() as int) =~= base);
    assert(target.skip(base.len() as int) =~= tail);
    assert(tail.take(path.len() as int) =~= path);
    if let Some(q) = query {
        assert(tail.skip(path.len() as int) =~= seq!['?'] + q);
    }
}

/// The path of a request with its query.
pub fn path_and_query(path: &str, query: Option<&str>) -> (s: String)
    ensures
        s@ == path_and_query_text(path@, query_ref_text(query)),
{
    let mut s = path.to_owned();
    match query {
        Some(q) => {
            proof {
                reveal_strlit("?");
            }
            s.append("?");
            s.append(q);
            assert(s@ =~= path@ + seq!['?'] + q@);
        },
        None => {},
    }
    s
}

/// The target of the outbound request.
pub fn outbound_target(base: &str, path: &str, query: Option<&str>) -> (s: String)
    ensures
        s@ == target_text(base@, path@, query_ref_text(query)),
{
    let mut s = base.to_owned();
    let tail = path_and_query(path, query);
    s.append(tail.as_str());
    s
}

/// Points `request` at `target`, given whether `target` is a URI.
///
/// Where it is, the outbound request has the inbound one's method, headers
/// and body and goes to `target`; where it is not, there is no outbound
/// request and the failure is `BadGatewayConfiguration`.
pub fn redirect<M, H, B>(
    request: InboundRequest<M, H, B>,
    target: String,
    target_is_uri: bool,
) -> (r: Result<OutboundRequest<M, H, B>, ForwardError>)
    ensures
        r is Ok <==> target_is_uri,
        r matches Ok(out) ==> {
            &&& out.target == target
            &&& out.method == request.method
            &&& out.headers == request.headers
            &&& out.body == request.body
        },
        r matches Err(e) ==> e == ForwardError::BadGatewayConfiguration,
{
    if target_is_uri {
        Ok(
            OutboundRequest {
                method: request.method,
                target,
                headers: request.headers,
                body: request.body,
            },
        )
    } else {
        Err(ForwardError::BadGatewayConfiguration)
    }
}

/// Rewrites `request` for the upstream at `base`.
///
/// The outbound request goes to `base` followed by the request's path and
/// query, and is otherwise the inbound request. It exists exactly when that
/// target is a URI.
pub fn rewrite<M, H, B>(request: InboundRequest<M, H, B>, base: &str) -> (r: Result<
    OutboundRequest<M, H, B>,
    ForwardError,
>)
    ensures
        r is Ok <==> uri_well_formed(
            target_text(base@, request.path@, query_text(request.query)),
        ),
        r matches Ok(out) ==> {
            &&& out.target@ == target_text(base@, request.path@, query_text(request.query))
            &&& out.method == request.method
            &&& out.headers == request.headers
            &&& out.body == request.body
        },
        r matches Err(e) ==> e == ForwardError::BadGatewayConfiguration,
{
    let target = match &request.query {
        Some(q) => outbound_target(base, request.path.as_str(), Some(q.as_str())),
        None => outbound_target(base, request.path.as_str(), None),
    };
    let target_is_uri = is_well_formed(target.as_str());
    redirect(request, target, target_is_uri)
}

/// Turns the outcome of the call to the upstream into the reply.
///
/// A response is relayed as it came: same status, same headers, same body.
/// A failed call, whatever the failure, is answered `UpstreamUnreachable`.
pub fn conclude<H, B, E>(outcome: Result<Response<H, B>, E>) -> (reply: Reply<H, B>)
    ensures
        outcome matches Ok(response) ==> reply == Reply::Relayed(response),
        outcome is Err ==> reply == Reply::<H, B>::Failed(ForwardError::UpstreamUnreachable),
{
    match outcome {
        Ok(response) => Reply::Relayed(response),
        Err(_) => Reply::Failed(ForwardError::UpstreamUnreachable),
    }
}

/// The status with which a failure is answered: 502 for either.
pub fn failure_status(error: ForwardError) -> (status: u16)
    ensures
        status == BAD_GATEWAY,
{
    match error {
        ForwardError::BadGatewayConfiguration => BAD_GATEWAY,
        ForwardError::UpstreamUnreachable => BAD_GATEWAY,
    }
}

impl<H, B> Reply<H, B> {
    /// The status that the caller sees: the upstream's, or 502.
    pub fn status(&self) -> (status: u16)
        ensures
            status == reply_status(*self),
    {
        match self {
            Reply::Relayed(response) => response.status,
            Reply::Failed(error) => failure_status(*error),
        }
    }
}

} // verus!
