//! The gateway's single entry point: a request is routed, and the route is
//! carried out as far as that takes no transport, up to the answer to send
//! or the name to hand the request off to.

use crate::assets::file_response;
use crate::assets::file_views;
use crate::assets::serve_file;
use crate::assets::StaticFile;
use crate::endpoint::handle_test;
use crate::endpoint::test_response;
use crate::message::plain_response;
use crate::message::IncomingRequest;
use crate::message::RequestView;
use crate::message::Response;
use crate::message::ResponseView;
use crate::routing::route;
use crate::routing::route_of;
use crate::routing::unknown_host_response;
use crate::routing::Route;
use crate::routing::RouteDecision;
use crate::routing::TEST_CHANNEL;
use vstd::prelude::*;

verus! {

/// What is to be done with a request.
#[derive(Debug, Clone, PartialEq, Eq)]
pub enum Action {
    /// Send this response to the client.
    Reply(Response),
    /// Hand the request off to the backend or streaming manager of this
    /// name.
    Handoff(String),
}

/// An action as a mathematical value.
pub enum ActionView {
    Reply(ResponseView),
    Handoff(Seq<char>),
}

impl View for Action {
    type V = ActionView;

    open spec fn view(&self) -> ActionView {
        match self {
            Action::Reply(response) => ActionView::Reply(response@),
            Action::Handoff(destination) => ActionView::Handoff(destination@),
        }
    }
}

/// What carrying out `route` for `req` comes to, with the static files
/// `files`.
pub open spec fn action_for(route: Route, req: RequestView, files: Seq<(Seq<char>, Seq<u8>)>) -> ActionView {
    match route {
        Route::NotFound => ActionView::Reply(plain_response(404, "Unknown host\n"@)),
        Route::StaticAsset(name) => ActionView::Reply(file_response(name, files)),
        Route::BuiltinTest(_) => ActionView::Reply(test_response(req, TEST_CHANNEL@)),
        Route::ExternalHandoff(destination) => ActionView::Handoff(destination),
    }
}

/// What is to be done with `req`.
pub open spec fn action_of(req: RequestView, files: Seq<(Seq<char>, Seq<u8>)>) -> ActionView {
    action_for(route_of(req), req, files)
}

/// The body of a request matters only where the built-in test endpoint
/// answers it: on every other route, two requests that differ in nothing
/// but their bodies get the same action.
pub proof fn lemma_body_is_read_by_the_test_endpoint_alone(
    a: RequestView,
    b: RequestView,
    files: Seq<(Seq<char>, Seq<u8>)>,
)
    requires
        a.scheme == b.scheme,
        a.host == b.host,
        a.path == b.path,
        a.headers == b.headers,
        !(route_of(a) is BuiltinTest),
    ensures
        action_of(a, files) == action_of(b, files),
{
}

/// A request without a host is answered with 404, and no request is both
/// answered and handed off: the route alone says which.
pub proof fn lemma_action_follows_the_route(req: RequestView, files: Seq<(Seq<char>, Seq<u8>)>)
    ensures
        req.host is None ==> action_of(req, files) == ActionView::Reply(
            plain_response(404, "Unknown host\n"@),
        ),
        action_of(req, files) is Handoff <==> route_of(req) is ExternalHandoff,
        route_of(req) matches Route::ExternalHandoff(destination) ==> action_of(req, files)
            == ActionView::Handoff(destination),
{
}

/// The gateway itself answers with one of three status codes: 200, 400 for
/// a test request that does not declare WebSocket events, and 404 for a
/// missing host, an unknown static file or an unknown test path.
pub proof fn lemma_reply_status(req: RequestView, files: Seq<(Seq<char>, Seq<u8>)>)
    ensures
        action_of(req, files) matches ActionView::Reply(r) ==> r.status == 200 || r.status == 400
            || r.status == 404,
{
}

impl RouteDecision {
    /// Whether carrying out this decision reads the request's body.
    pub fn reads_body(&self) -> (r: bool)
        ensures
            r == (self@ is BuiltinTest),
    {
        match self {
            RouteDecision::BuiltinTest(_) => true,
            _ => false,
        }
    }
}

/// Carries out `decision` for `req`.
pub fn respond(decision: RouteDecision, req: &IncomingRequest, files: &Vec<StaticFile>) -> (action:
    Action)
    ensures
        action@ == action_for(decision@, req@, file_views(files@)),
{
    match decision {
        RouteDecision::NotFound => Action::Reply(unknown_host_response()),
        RouteDecision::StaticAsset(name) => Action::Reply(serve_file(name.as_str(), files)),
        RouteDecision::BuiltinTest(_) => Action::Reply(handle_test(req, TEST_CHANNEL)),
        RouteDecision::ExternalHandoff(destination) => Action::Handoff(destination),
    }
}

/// Routes `req` and carries the route out.
pub fn serve(req: &IncomingRequest, files: &Vec<StaticFile>) -> (action: Action)
    ensures
        action@ == action_of(req@, file_views(files@)),
{
    respond(route(req), req, files)
}

} // verus!
