use fanout_gateway::grip_response;
use fanout_gateway::message::header;
use fanout_gateway::HoldMode;
use fanout_gateway::HoldSpec;

#[test]
fn hold_response_for_a_stream() {
    let r = grip_response("text/event-stream", "stream", "test");
    assert_eq!(r.status, 200);
    assert_eq!(
        r.headers,
        vec![
            header("Content-Type", "text/event-stream"),
            header("Grip-Hold", "stream"),
            header("Grip-Channel", "test"),
        ]
    );
    assert!(r.body.is_empty());
}

#[test]
fn hold_response_for_a_long_poll() {
    let r = grip_response("application/json", HoldMode::Response.as_str(), "room-1");
    assert_eq!(r.status, 200);
    assert_eq!(r.header("content-type"), Some("application/json"));
    assert_eq!(r.header("grip-hold"), Some("response"));
    assert_eq!(r.header("grip-channel"), Some("room-1"));
    assert_eq!(r.headers.len(), 3);
    assert!(r.body.is_empty());
}

#[test]
fn hold_response_takes_its_arguments_as_they_are() {
    let r = grip_response("", "", "a, b");
    assert_eq!(
        r.headers,
        vec![header("Content-Type", ""), header("Grip-Hold", ""), header("Grip-Channel", "a, b")]
    );
}

#[test]
fn hold_modes_have_their_names() {
    assert_eq!(HoldMode::Stream.as_str(), "stream");
    assert_eq!(HoldMode::Response.as_str(), "response");
}

#[test]
fn hold_spec_builds_the_hold_response() {
    let spec = HoldSpec {
        content_type: String::from("text/event-stream"),
        hold_mode: HoldMode::Stream,
        channel: String::from("test"),
    };
    assert_eq!(spec.response(), grip_response("text/event-stream", "stream", "test"));
    let spec = HoldSpec {
        content_type: String::from("text/plain"),
        hold_mode: HoldMode::Response,
        channel: String::from("poll"),
    };
    let r = spec.response();
    assert_eq!(r.status, 200);
    assert_eq!(
        r.headers,
        vec![
            header("Content-Type", "text/plain"),
            header("Grip-Hold", "response"),
            header("Grip-Channel", "poll"),
        ]
    );
    assert!(r.body.is_empty());
}
