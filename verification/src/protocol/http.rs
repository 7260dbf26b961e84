//! The application engine's verified core: its endpoint parser and the
//! per-request rewrite. Per inbound request the engine picks the next
//! endpoint, points the request's target at it — new scheme and authority,
//! original path and query — and replaces the `Host` header with the new
//! authority's string form; everything else in the request passes through
//! untouched, as does the whole response.
use crate::endpoint::EndpointParser;
use crate::endpoint::EndpointSelector;
use crate::endpoint::EndpointStrategy;
use crate::endpoint::ParseError;
use crate::endpoint::round_robin_pick;
use crate::uri::Authority;
use crate::uri::Uri;
use crate::uri::UriView;
use crate::uri::parse_uri;
use crate::uri::spec_authority_string;
use crate::uri::spec_parse_uri;
use vstd::prelude::*;
use vstd::string::StringExecFns;

verus! {

/// The listen port used by the encrypted listener when the configuration
/// leaves it unspecified.
pub fn default_port() -> (p: u16)
    ensures
        p == 443,
{
    443
}

/// The TLS settings of the optional encrypted listener: the identity
/// archive's path, its passphrase, and the port the listener binds.
pub struct HttpsConfig {
    pub identity_file: String,
    pub password: String,
    pub port: u16,
}

/// Parses application endpoints: URLs of the form
/// `scheme://host[:port][/path][?query]`.
pub struct HttpEndpointParser;

impl EndpointParser<Uri> for HttpEndpointParser {
    open spec fn spec_parse(&self, input: Seq<char>) -> Option<UriView> {
        spec_parse_uri(input)
    }

    fn parse_endpoint(&self, input: String) -> (r: Result<Uri, ParseError>) {
        match parse_uri(input.as_str()) {
            Some(uri) => Ok(uri),
            None => Err(ParseError),
        }
    }
}

/// One request header, name and value.
pub struct HttpHeader {
    pub name: String,
    pub value: String,
}

/// The mathematical value of an [`HttpHeader`].
#[verifier::ext_equal]
pub struct HttpHeaderView {
    pub name: Seq<char>,
    pub value: Seq<char>,
}

impl View for HttpHeader {
    type V = HttpHeaderView;

    open spec fn view(&self) -> HttpHeaderView {
        HttpHeaderView { name: self.name@, value: self.value@ }
    }
}

impl DeepView for HttpHeader {
    type V = HttpHeaderView;

    open spec fn deep_view(&self) -> HttpHeaderView {
        self@
    }
}

/// A request as the engine sees it: the method and body pass through the
/// rewrite untouched, the target and the `Host` header are replaced.
/// Header names are held in their lower-case form, the form the engine's
/// header machinery hands over.
pub struct HttpRequest<B> {
    pub method: String,
    pub uri: Uri,
    pub headers: Vec<HttpHeader>,
    pub body: B,
}

/// The name of the one header the rewrite replaces.
pub open spec fn spec_host_name() -> Seq<char> {
    "host"@
}

/// The request target after the rewrite: the endpoint's scheme and
/// authority, the original path and query.
pub open spec fn spec_rewrite_uri(uri: UriView, endpoint: UriView) -> UriView {
    UriView {
        scheme: endpoint.scheme,
        authority: endpoint.authority,
        path_and_query: uri.path_and_query,
    }
}

/// The headers after the rewrite: every `host` entry gives way, each other
/// header keeps its place and value, and one `host` entry carrying the new
/// authority stands at the end.
pub open spec fn spec_replace_host(headers: Seq<HttpHeaderView>, authority: Seq<char>) -> Seq<
    HttpHeaderView,
> {
    headers.filter(|h: HttpHeaderView| h.name != spec_host_name()).push(
        (HttpHeaderView { name: spec_host_name(), value: authority }),
    )
}

/// The per-request fatal conditions of the rewrite: the selected endpoint
/// carries no scheme, or no authority, to point the request at.
#[derive(Clone, Copy, Debug, PartialEq, Eq, Structural)]
pub enum RewriteError {
    MissingScheme,
    MissingAuthority,
}

/// Removes every `host` header, keeping the rest in place, and appends one
/// carrying `authority`.
#[verifier::loop_isolation(false)]
fn replace_host_header(headers: Vec<HttpHeader>, authority: String) -> (r: Vec<HttpHeader>)
    ensures
        r.deep_view() == spec_replace_host(headers.deep_view(), authority@),
{
    let ghost all = headers.deep_view();
    let ghost pred = |h: HttpHeaderView| h.name != spec_host_name();
    let host_name = String::from_str("host");
    let mut rest = headers;
    let mut kept: Vec<HttpHeader> = Vec::new();
    let ghost mut done: int = 0;
    proof {
        reveal_with_fuel(Seq::filter, 2);
        assert(all.take(0).filter(pred) =~= Seq::<HttpHeaderView>::empty());
    }
    while rest.len() > 0
        invariant
            0 <= done <= all.len(),
            rest.deep_view() =~= all.skip(done),
            kept.deep_view() =~= all.take(done).filter(pred),
            host_name@ == spec_host_name(),
        decreases rest.len(),
    {
        let ghost remaining = rest.deep_view();
        let ghost prev_items = rest@;
        let header = rest.remove(0);
        proof {
            assert(remaining.len() == all.len() - done);
            assert(done < all.len());
            assert(remaining[0] == all[done]);
            assert(header.deep_view() == remaining[0]);
            assert(rest@ =~= prev_items.drop_first());
            assert forall|idx: int| 0 <= idx < rest.deep_view().len() implies rest.deep_view()[idx]
                == all.skip(done + 1)[idx] by {
                assert(rest@[idx] == prev_items[idx + 1]);
                assert(rest.deep_view()[idx] == rest@[idx].deep_view());
                assert(remaining[idx + 1] == prev_items[idx + 1].deep_view());
                assert(remaining[idx + 1] == all.skip(done)[idx + 1]);
            }
            assert(rest.deep_view() =~= all.skip(done + 1));
            assert(all.take(done + 1).drop_last() =~= all.take(done));
            assert(all.take(done + 1).last() == all[done]);
        }
        if header.name.eq(&host_name) {
            proof {
                reveal_with_fuel(Seq::filter, 2);
                assert(!pred(all[done]));
                assert(all.take(done + 1).filter(pred) =~= all.take(done).filter(pred));
            }
        } else {
            let ghost prev = kept.deep_view();
            kept.push(header);
            proof {
                reveal_with_fuel(Seq::filter, 2);
                assert(pred(all[done]));
                assert(kept.deep_view() =~= prev.push(all[done]));
                assert(all.take(done + 1).filter(pred) =~= all.take(done).filter(pred).push(
                    all[done],
                ));
            }
        }
        proof {
            done = done + 1;
        }
    }
    proof {
        assert(all.take(done) =~= all);
    }
    let ghost prev = kept.deep_view();
    let mut result = kept;
    result.push(HttpHeader { name: host_name, value: authority });
    proof {
        assert(result.deep_view() =~= spec_replace_host(all, authority@));
    }
    result
}

/// Rewrites one inbound request to target `endpoint`: the target becomes
/// the endpoint's scheme and authority over the original path and query,
/// the `Host` header is replaced by the endpoint authority's string form,
/// and the method, the body and every other header pass through unchanged.
/// Fails exactly when the endpoint carries no scheme, or no authority.
pub fn rewrite_request<B>(request: HttpRequest<B>, endpoint: &Uri) -> (r: Result<
    HttpRequest<B>,
    RewriteError,
>)
    ensures
        match r {
            Ok(rewritten) => {
                &&& endpoint.deep_view().scheme is Some
                &&& endpoint.deep_view().authority is Some
                &&& rewritten.method == request.method
                &&& rewritten.body == request.body
                &&& rewritten.uri.deep_view() == spec_rewrite_uri(
                    request.uri.deep_view(),
                    endpoint.deep_view(),
                )
                &&& rewritten.headers.deep_view() == spec_replace_host(
                    request.headers.deep_view(),
                    spec_authority_string(endpoint.deep_view().authority->Some_0),
                )
            },
            Err(RewriteError::MissingScheme) => endpoint.deep_view().scheme is None,
            Err(RewriteError::MissingAuthority) => {
                &&& endpoint.deep_view().scheme is Some
                &&& endpoint.deep_view().authority is None
            },
        },
{
    let scheme = match &endpoint.scheme {
        Some(s) => s.clone(),
        None => {
            return Err(RewriteError::MissingScheme);
        },
    };
    let authority = match &endpoint.authority {
        Some(a) => Authority { host: a.host.clone(), port: a.port },
        None => {
            return Err(RewriteError::MissingAuthority);
        },
    };
    let authority_value = authority.authority_string();
    let HttpRequest { method, uri, headers, body } = request;
    let Uri { scheme: _, authority: _, path_and_query } = uri;
    let new_uri = Uri { scheme: Some(scheme), authority: Some(authority), path_and_query };
    let new_headers = replace_host_header(headers, authority_value);
    let rewritten = HttpRequest { method, uri: new_uri, headers: new_headers, body };
    proof {
        assert(rewritten.uri.deep_view() =~= spec_rewrite_uri(
            request.uri.deep_view(),
            endpoint.deep_view(),
        ));
    }
    Ok(rewritten)
}

/// The application engine's per-request decision: pick the next endpoint
/// from the shared selector and rewrite the request to target it. The pool
/// advances by one pick whether or not the rewrite then succeeds, as the
/// engine's request path does.
pub fn select_and_rewrite<B, S: EndpointStrategy<Uri>>(
    selector: &mut EndpointSelector<Uri, S>,
    request: HttpRequest<B>,
) -> (r: Result<HttpRequest<B>, RewriteError>)
    requires
        old(selector).is_valid(),
    ensures
        final(selector).pool() == old(selector).spec_strategy().spec_next(old(selector).pool()),
        final(selector).spec_strategy() == old(selector).spec_strategy(),
        final(selector).is_valid(),
        ({
            let picked = old(selector).spec_strategy().spec_pick(old(selector).pool());
            match r {
                Ok(rewritten) => {
                    &&& picked.scheme is Some
                    &&& picked.authority is Some
                    &&& rewritten.method == request.method
                    &&& rewritten.body == request.body
                    &&& rewritten.uri.deep_view() == spec_rewrite_uri(
                        request.uri.deep_view(),
                        picked,
                    )
                    &&& rewritten.headers.deep_view() == spec_replace_host(
                        request.headers.deep_view(),
                        spec_authority_string(picked.authority->Some_0),
                    )
                },
                Err(RewriteError::MissingScheme) => picked.scheme is None,
                Err(RewriteError::MissingAuthority) => {
                    &&& picked.scheme is Some
                    &&& picked.authority is None
                },
            }
        }),
{
    let endpoint = selector.next();
    rewrite_request(request, &endpoint)
}

/// Law (round-robin forwarding): on a round-robin pool the `k`-th request
/// is forwarded to the pool's endpoint at index `k mod size` — its scheme
/// and authority become the request's target while the request's own path
/// and query survive — and one pool-sized cycle later the same endpoint is
/// targeted again.
pub proof fn lemma_round_robin_forwarding(pool: Seq<UriView>, uri: UriView, k: nat)
    requires
        pool.len() > 0,
    ensures
        spec_rewrite_uri(uri, round_robin_pick(pool, k)).scheme == round_robin_pick(
            pool,
            k,
        ).scheme,
        spec_rewrite_uri(uri, round_robin_pick(pool, k)).authority == round_robin_pick(
            pool,
            k,
        ).authority,
        spec_rewrite_uri(uri, round_robin_pick(pool, k)).path_and_query == uri.path_and_query,
        round_robin_pick(pool, k + pool.len()) == round_robin_pick(pool, k),
{
    crate::endpoint::lemma_round_robin_periodic(pool, k);
}

} // verus!
