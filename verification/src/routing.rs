//! The routing decision: where a request goes, from its host, its path,
//! its scheme and whether the intermediary has signed it.

use crate::message::header;
use crate::message::header_value;
use crate::message::header_views;
use crate::message::plain_response;
use crate::message::Header;
use crate::message::IncomingRequest;
use crate::message::RequestView;
use crate::message::Response;
use crate::text::eq_ignore_ascii_case;
use crate::text::last_segment;
use crate::text::last_segment_of;
use crate::text::str_ends_with;
use crate::text::str_eq;
use crate::text::str_eq_ignore_ascii_case;
use crate::text::str_starts_with;
use vstd::prelude::*;
use vstd::string::StrSliceExecFns;
use vstd::string::StringExecFns;

verus! {

/// The channel of the built-in test endpoint.
pub const TEST_CHANNEL: &'static str = "test";

/// The streaming manager that serves the Bayeux namespace.
pub const BAYEUX_HANDLER: &'static str = "bayeux-handler";

/// Where a request goes.
#[derive(Debug, Clone, PartialEq, Eq)]
pub enum RouteDecision {
    /// Serve the static file of this name.
    StaticAsset(String),
    /// Answer from the built-in test endpoint; the text is what follows
    /// `/test` in the path.
    BuiltinTest(String),
    /// Hand the request off to the backend or streaming manager of this
    /// name.
    ExternalHandoff(String),
    /// The request names no host.
    NotFound,
}

/// A routing decision as a mathematical value.
pub enum Route {
    StaticAsset(Seq<char>),
    BuiltinTest(Seq<char>),
    ExternalHandoff(Seq<char>),
    NotFound,
}

impl View for RouteDecision {
    type V = Route;

    open spec fn view(&self) -> Route {
        match self {
            RouteDecision::StaticAsset(name) => Route::StaticAsset(name@),
            RouteDecision::BuiltinTest(subpath) => Route::BuiltinTest(subpath@),
            RouteDecision::ExternalHandoff(destination) => Route::ExternalHandoff(destination@),
            RouteDecision::NotFound => Route::NotFound,
        }
    }
}

/// The scheme is HTTPS, in any case of letters.
pub open spec fn is_secure_scheme(scheme: Seq<char>) -> bool {
    eq_ignore_ascii_case(scheme, "https"@)
}

/// The host belongs to the gateway's own domain.
pub open spec fn is_managed_host(host: Seq<char>) -> bool {
    ".fanoutcdn.com"@.is_suffix_of(host)
}

/// The path is one of the two mounts of static assets, or lies under one.
pub open spec fn is_static_path(path: Seq<char>) -> bool {
    "/test/static/"@.is_prefix_of(path) || "/bayeux/static/"@.is_prefix_of(path)
}

/// The path is the test endpoint or lies under it.
pub open spec fn is_test_path(path: Seq<char>) -> bool {
    path == "/test"@ || "/test/"@.is_prefix_of(path)
}

/// The path is the Bayeux namespace or lies under it.
pub open spec fn is_bayeux_path(path: Seq<char>) -> bool {
    path == "/bayeux"@ || "/bayeux/"@.is_prefix_of(path)
}

/// The name of the backend that stands for `host`, with one prefix for
/// secure requests and another for the rest. It holds the host and no part
/// of the path.
pub open spec fn backend_name(secure: bool, host: Seq<char>) -> Seq<char> {
    if secure {
        "https_backend_"@ + host
    } else {
        "http_backend_"@ + host
    }
}

/// The name under which the streaming manager hands a request of `host`
/// back to this gateway.
pub open spec fn self_backend_name(host: Seq<char>) -> Seq<char> {
    "self_"@ + host
}

/// The routing rules, first match first. `trusted` says that the
/// intermediary has signed the request, `secure` that it came over HTTPS.
pub open spec fn route_for(
    host: Option<Seq<char>>,
    path: Seq<char>,
    trusted: bool,
    secure: bool,
) -> Route {
    match host {
        None => Route::NotFound,
        Some(h) => {
            if is_managed_host(h) && is_static_path(path) {
                Route::StaticAsset(last_segment(path))
            } else if is_managed_host(h) && is_test_path(path) {
                if trusted {
                    Route::BuiltinTest(path.skip(5))
                } else {
                    Route::ExternalHandoff(self_backend_name(h))
                }
            } else if is_managed_host(h) && is_bayeux_path(path) {
                Route::ExternalHandoff(BAYEUX_HANDLER@)
            } else {
                Route::ExternalHandoff(backend_name(secure, h))
            }
        },
    }
}

/// The intermediary has signed the request: the signature header is there,
/// whatever it holds.
pub open spec fn is_trusted(req: RequestView) -> bool {
    header_value(req.headers, "Grip-Sig"@).is_some()
}

/// The route of a request.
pub open spec fn route_of(req: RequestView) -> Route {
    route_for(req.host, req.path, is_trusted(req), is_secure_scheme(req.scheme))
}

/// The headers that every request gets before it goes on: the client's
/// address where it is known, and the protocol where it was secure.
pub open spec fn forwarded(client_ip: Option<Seq<char>>, secure: bool) -> Seq<
    (Seq<char>, Seq<char>),
> {
    let address = match client_ip {
        Some(ip) => seq![("X-Forwarded-For"@, ip)],
        None => Seq::empty(),
    };
    let protocol = if secure {
        seq![("X-Forwarded-Proto"@, "https"@)]
    } else {
        Seq::empty()
    };
    address + protocol
}

/// Routing looks at the host, the path, the scheme and the presence of the
/// signature header, and at nothing else: two requests that agree on these
/// four have the same route, with the same destination name, whatever
/// their other headers and their bodies hold.
pub proof fn lemma_route_is_a_function_of_four(a: RequestView, b: RequestView)
    requires
        a.host == b.host,
        a.path == b.path,
        a.scheme == b.scheme,
        is_trusted(a) == is_trusted(b),
    ensures
        route_of(a) == route_of(b),
{
}

/// The name of a backend depends on the scheme and the host alone, and the
/// host is all that follows its prefix.
pub proof fn lemma_backend_name_holds_the_host(secure: bool, host: Seq<char>)
    ensures
        host.is_suffix_of(backend_name(secure, host)),
        backend_name(secure, host).len() == host.len() + if secure {
            "https_backend_"@.len()
        } else {
            "http_backend_"@.len()
        },
{
    let name = backend_name(secure, host);
    assert(name.subrange(name.len() - host.len(), name.len() as int) =~= host);
}

/// Whether `scheme` is HTTPS, in any case of letters.
pub fn is_tls(scheme: &str) -> (r: bool)
    ensures
        r == is_secure_scheme(scheme@),
{
    str_eq_ignore_ascii_case(scheme, "https")
}

/// The name of the backend that stands for `host`.
pub fn backend_for(secure: bool, host: &str) -> (name: String)
    ensures
        name@ == backend_name(secure, host@),
{
    let prefix = if secure {
        "https_backend_"
    } else {
        "http_backend_"
    };
    String::from_str(prefix).concat(host)
}

/// Decides where `req` goes.
pub fn route(req: &IncomingRequest) -> (decision: RouteDecision)
    ensures
        decision@ == route_of(req@),
{
    let host = match &req.host {
        Some(h) => h.as_str(),
        None => {
            return RouteDecision::NotFound;
        },
    };
    let path = req.path.as_str();
    if str_ends_with(host, ".fanoutcdn.com") {
        if str_starts_with(path, "/test/static/") || str_starts_with(path, "/bayeux/static/") {
            return RouteDecision::StaticAsset(last_segment_of(path));
        }
        if str_eq(path, "/test") || str_starts_with(path, "/test/") {
            if req.has_header("Grip-Sig") {
                proof {
                    reveal_strlit("/test");
                    reveal_strlit("/test/");
                }
                let n: usize = path.unicode_len();
                return RouteDecision::BuiltinTest(path.substring_char(5, n).to_owned());
            } else {
                return RouteDecision::ExternalHandoff(String::from_str("self_").concat(host));
            }
        }
        if str_eq(path, "/bayeux") || str_starts_with(path, "/bayeux/") {
            return RouteDecision::ExternalHandoff(String::from_str(BAYEUX_HANDLER));
        }
    }
    RouteDecision::ExternalHandoff(backend_for(is_tls(req.scheme.as_str()), host))
}

/// The headers to set on a request before it goes on.
pub fn forwarded_headers(client_ip: Option<&str>, secure: bool) -> (headers: Vec<Header>)
    ensures
        header_views(headers@) == forwarded(
            match client_ip {
                Some(ip) => Some(ip@),
                None => None,
            },
            secure,
        ),
{
    let mut headers: Vec<Header> = Vec::new();
    match client_ip {
        Some(ip) => {
            headers.push(header("X-Forwarded-For", ip));
        },
        None => {},
    }
    if secure {
        headers.push(header("X-Forwarded-Proto", "https"));
    }
    assert(header_views(headers@) =~= forwarded(
        match client_ip {
            Some(ip) => Some(ip@),
            None => None,
        },
        secure,
    ));
    headers
}

/// The answer to a request that names no host.
pub fn unknown_host_response() -> (r: Response)
    ensures
        r@ == plain_response(404, "Unknown host\n"@),
{
    Response::plain(404, "Unknown host\n")
}

} // verus!
