use fanout_gateway::message::header;
use fanout_gateway::respond;
use fanout_gateway::route;
use fanout_gateway::serve;
use fanout_gateway::Action;
use fanout_gateway::Header;
use fanout_gateway::IncomingRequest;
use fanout_gateway::Response;
use fanout_gateway::RouteDecision;
use fanout_gateway::StaticFile;

fn request(
    scheme: &str,
    host: Option<&str>,
    path: &str,
    headers: Vec<Header>,
    body: &[u8],
) -> IncomingRequest {
    IncomingRequest {
        scheme: String::from(scheme),
        host: host.map(String::from),
        path: String::from(path),
        headers,
        body: body.to_vec(),
    }
}

fn files() -> Vec<StaticFile> {
    vec![
        StaticFile { name: String::from("json2.js"), content: b"var JSON;".to_vec() },
        StaticFile { name: String::from("faye-browser.js.map"), content: b"{}".to_vec() },
    ]
}

fn reply(action: Action) -> Response {
    match action {
        Action::Reply(r) => r,
        Action::Handoff(d) => panic!("handed off to {}", d),
    }
}

#[test]
fn request_without_host_is_answered_with_404() {
    let r = reply(serve(&request("https", None, "/test", Vec::new(), b""), &files()));
    assert_eq!(r.status, 404);
    assert!(r.headers.is_empty());
    assert_eq!(r.body, b"Unknown host\n".to_vec());
}

#[test]
fn static_asset_is_served_from_the_table() {
    let req = request("https", Some("demo.fanoutcdn.com"), "/test/static/json2.js", Vec::new(), b"");
    let r = reply(serve(&req, &files()));
    assert_eq!(r.status, 200);
    assert_eq!(r.headers, vec![header("Content-Type", "application/javascript")]);
    assert_eq!(r.body, b"var JSON;".to_vec());
}

#[test]
fn unknown_static_asset_is_not_found() {
    let req = request("http", Some("demo.fanoutcdn.com"), "/bayeux/static/none.js", Vec::new(), b"");
    let r = reply(serve(&req, &files()));
    assert_eq!(r.status, 404);
    assert!(r.headers.is_empty());
    assert!(r.body.is_empty());
}

#[test]
fn signed_test_request_is_answered_on_channel_test() {
    let headers = vec![
        header("Grip-Sig", "sig"),
        header("Content-Type", "application/websocket-events"),
    ];
    let req = request("https", Some("demo.fanoutcdn.com"), "/test/ws", headers, b"OPEN\r\n");
    let r = reply(serve(&req, &files()));
    assert_eq!(r.status, 200);
    assert_eq!(
        r.body,
        b"OPEN\r\nTEXT 27\r\nc:{\"type\":\"subscribe\",\"channel\":\"test\"}\r\nTEXT 47\r\nc:{\"type\":\"keep-alive\",\"message-type\":\"ping\",\"content\":\"\",\"timeout\":20}\r\n"
            .to_vec()
    );
}

#[test]
fn signed_stream_request_is_held_on_channel_test() {
    let req =
        request("https", Some("demo.fanoutcdn.com"), "/test/sse", vec![header("Grip-Sig", "s")], b"");
    let r = reply(serve(&req, &files()));
    assert_eq!(r.status, 200);
    assert_eq!(r.header("Grip-Channel"), Some("test"));
    assert_eq!(r.header("Grip-Hold"), Some("stream"));
    assert_eq!(r.header("Content-Type"), Some("text/event-stream"));
    assert_eq!(r.body.len(), 2051);
}

#[test]
fn signed_request_to_an_unknown_test_path_is_not_found() {
    let req =
        request("https", Some("demo.fanoutcdn.com"), "/test/nope", vec![header("Grip-Sig", "s")], b"");
    let r = reply(serve(&req, &files()));
    assert_eq!(r.status, 404);
    assert_eq!(r.body, b"{\"error\": \"not found\"}\n".to_vec());
}

#[test]
fn handoffs_carry_the_destination() {
    let cases = [
        (request("https", Some("demo.fanoutcdn.com"), "/test/sse", Vec::new(), b""), "self_demo.fanoutcdn.com"),
        (request("https", Some("demo.fanoutcdn.com"), "/bayeux", Vec::new(), b""), "bayeux-handler"),
        (request("https", Some("example.com"), "/test", Vec::new(), b""), "https_backend_example.com"),
        (request("http", Some("example.com"), "/", Vec::new(), b""), "http_backend_example.com"),
    ];
    for (req, destination) in cases {
        assert_eq!(serve(&req, &files()), Action::Handoff(String::from(destination)));
    }
}

#[test]
fn serving_is_routing_and_then_responding() {
    let requests = vec![
        request("https", None, "/", Vec::new(), b""),
        request("https", Some("demo.fanoutcdn.com"), "/test/static/json2.js", Vec::new(), b""),
        request("https", Some("demo.fanoutcdn.com"), "/test", vec![header("Grip-Sig", "")], b""),
        request("https", Some("demo.fanoutcdn.com"), "/test", Vec::new(), b""),
        request("http", Some("example.com"), "/a", Vec::new(), b"x"),
    ];
    for req in &requests {
        assert_eq!(serve(req, &files()), respond(route(req), req, &files()));
    }
}

#[test]
fn only_the_test_endpoint_reads_the_body() {
    assert!(RouteDecision::BuiltinTest(String::from("/ws")).reads_body());
    assert!(!RouteDecision::StaticAsset(String::from("json2.js")).reads_body());
    assert!(!RouteDecision::ExternalHandoff(String::from("bayeux-handler")).reads_body());
    assert!(!RouteDecision::NotFound.reads_body());

    let quiet = request("https", Some("demo.fanoutcdn.com"), "/test/static/json2.js", Vec::new(), b"");
    let mut loud = quiet.clone();
    loud.body = b"OPEN\r\nCLOSE\r\n".to_vec();
    assert_eq!(serve(&quiet, &files()), serve(&loud, &files()));
}

#[test]
fn responding_uses_the_decided_file_name() {
    let req = request("https", Some("demo.fanoutcdn.com"), "/elsewhere", Vec::new(), b"");
    let r = reply(respond(RouteDecision::StaticAsset(String::from("faye-browser.js.map")), &req, &files()));
    assert_eq!(r.status, 200);
    assert_eq!(r.headers, vec![header("Content-Type", "application/octet-stream")]);
    assert_eq!(r.body, b"{}".to_vec());
}
