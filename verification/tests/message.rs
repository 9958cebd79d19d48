use fanout_gateway::message::find_header;
use fanout_gateway::message::header;
use fanout_gateway::Header;
use fanout_gateway::IncomingRequest;
use fanout_gateway::Response;

fn request_with(headers: Vec<Header>) -> IncomingRequest {
    IncomingRequest {
        scheme: String::from("https"),
        host: Some(String::from("example.com")),
        path: String::from("/"),
        headers,
        body: Vec::new(),
    }
}

#[test]
fn header_holds_name_and_value() {
    let h = header("Content-Type", "text/plain");
    assert_eq!(h.name, "Content-Type");
    assert_eq!(h.value, "text/plain");
}

#[test]
fn header_is_found_in_any_case() {
    let req = request_with(vec![header("Accept", "*/*"), header("content-type", "text/plain")]);
    assert_eq!(req.header("Content-Type"), Some("text/plain"));
    assert_eq!(req.header("CONTENT-TYPE"), Some("text/plain"));
    assert_eq!(req.header("content-type"), Some("text/plain"));
    assert_eq!(req.header("accept"), Some("*/*"));
}

#[test]
fn header_that_is_missing() {
    let req = request_with(vec![header("Accept", "*/*")]);
    assert_eq!(req.header("Content-Type"), None);
    assert_eq!(req.header("Accep"), None);
    assert_eq!(req.header("Accept "), None);
    assert_eq!(req.header(""), None);
    assert_eq!(request_with(Vec::new()).header("Accept"), None);
}

#[test]
fn first_header_of_a_name_is_the_one_found() {
    let headers = vec![header("X-A", "1"), header("x-a", "2"), header("X-B", "3")];
    assert_eq!(find_header(&headers, "x-A"), Some("1"));
    assert_eq!(find_header(&headers, "X-b"), Some("3"));
}

#[test]
fn presence_of_a_header_does_not_look_at_its_value() {
    let req = request_with(vec![header("Grip-Sig", "")]);
    assert!(req.has_header("Grip-Sig"));
    assert!(req.has_header("grip-sig"));
    assert!(!req.has_header("Grip-Si"));
    assert!(!request_with(Vec::new()).has_header("Grip-Sig"));
}

#[test]
fn plain_response_has_no_headers() {
    let r = Response::plain(404, "Unknown host\n");
    assert_eq!(r.status, 404);
    assert!(r.headers.is_empty());
    assert_eq!(r.body, b"Unknown host\n".to_vec());
    assert_eq!(r.header("Content-Type"), None);
}

#[test]
fn plain_response_body_is_utf8() {
    let r = Response::plain(200, "gr\u{fc}n");
    assert_eq!(r.body, vec![b'g', b'r', 0xc3, 0xbc, b'n']);
}
