//! The built-in test endpoint: a greeting, a Server-Sent-Events stream and a
//! WebSocket-over-HTTP responder, each answered from the request alone.

use crate::codec::close_line;
use crate::codec::close_marker;
use crate::codec::contains_close;
use crate::codec::keep_alive_payload;
use crate::codec::occurs_in;
use crate::codec::open_line;
use crate::codec::starts_with_open;
use crate::codec::subscribe_payload;
use crate::codec::text_frame;
use crate::codec::ws_keep_alive;
use crate::codec::ws_sub;
use crate::codec::FramedEvent;
use crate::hold::grip_response;
use crate::hold::hold_response;
use crate::hold::HoldMode;
use crate::message::header;
use crate::message::header_value;
use crate::message::plain_response;
use crate::message::Header;
use crate::message::IncomingRequest;
use crate::message::RequestView;
use crate::message::Response;
use crate::message::ResponseView;
use crate::text::str_eq;
use vstd::prelude::*;
use vstd::string::StringSliceAdditionalSpecFns;
use vstd::utf8::encode_utf8;

verus! {

/// Seconds of silence after which the intermediary sends a keep-alive.
pub const KEEP_ALIVE_SECONDS: u32 = 20;

/// Number of filler spaces at the head of an event stream.
pub const SSE_PADDING_SPACES: usize = 2048;

/// The request declares a body of WebSocket events.
pub open spec fn declares_websocket_events(req: RequestView) -> bool {
    header_value(req.headers, "Content-Type"@) == Some("application/websocket-events"@)
}

/// The head of an event stream: a comment line of filler spaces and a blank
/// line, so that buffering proxies pass the response on at once.
pub open spec fn sse_padding() -> Seq<u8> {
    ":".spec_bytes() + Seq::new(SSE_PADDING_SPACES as nat, |i: int| 32u8) + "\n\n".spec_bytes()
}

/// The answer on the event-stream path: a hold in streaming mode on `chan`,
/// the keep-alive that the intermediary is to send, and the padding.
pub open spec fn sse_response(chan: Seq<char>) -> ResponseView {
    ResponseView {
        status: 200,
        headers: hold_response("text/event-stream"@, HoldMode::Stream.text(), chan).headers.push(
            ("Grip-Keep-Alive"@, ":\\n\\n; format=cstring; timeout=20"@),
        ),
        body: sse_padding(),
    }
}

/// What a body that begins with the `OPEN` line is answered with: `OPEN`,
/// one subscription to `chan`, and one keep-alive request. Nothing for any
/// other body.
pub open spec fn ws_opening(body: Seq<u8>, chan: Seq<char>) -> Seq<u8> {
    if open_line().is_prefix_of(body) {
        open_line() + text_frame(subscribe_payload(encode_utf8(chan))) + text_frame(
            keep_alive_payload(KEEP_ALIVE_SECONDS as nat),
        )
    } else {
        Seq::empty()
    }
}

/// What a body that holds the token `CLOSE` anywhere is answered with: the
/// `CLOSE` line. Nothing for any other body.
pub open spec fn ws_closing(body: Seq<u8>) -> Seq<u8> {
    if occurs_in(close_marker(), body) {
        close_line()
    } else {
        Seq::empty()
    }
}

/// The headers of an accepted WebSocket-over-HTTP request's answer; the
/// extension header is there only where the body opened a connection.
pub open spec fn ws_headers(body: Seq<u8>) -> Seq<(Seq<char>, Seq<char>)> {
    if open_line().is_prefix_of(body) {
        seq![
            ("Content-Type"@, "application/websocket-events"@),
            ("Sec-WebSocket-Extensions"@, "grip; message-prefix=\"\""@),
        ]
    } else {
        seq![("Content-Type"@, "application/websocket-events"@)]
    }
}

/// The answer on the WebSocket-over-HTTP path.
pub open spec fn ws_response(req: RequestView, chan: Seq<char>) -> ResponseView {
    if declares_websocket_events(req) {
        ResponseView {
            status: 200,
            headers: ws_headers(req.body),
            body: ws_opening(req.body, chan) + ws_closing(req.body),
        }
    } else {
        plain_response(400, "Not a WebSocket-over-HTTP request.\n"@)
    }
}

/// The answer of the test endpoint, by path.
pub open spec fn test_response(req: RequestView, chan: Seq<char>) -> ResponseView {
    if req.path == "/test"@ || req.path == "/test/"@ {
        plain_response(200, "Hello from the Fanout test handler!\n"@)
    } else if req.path == "/test/sse"@ {
        sse_response(chan)
    } else if req.path == "/test/ws"@ {
        ws_response(req, chan)
    } else {
        plain_response(404, "{\"error\": \"not found\"}\n"@)
    }
}

/// The paths that the endpoint knows are different texts.
proof fn lemma_paths_differ()
    ensures
        "/test"@ != "/test/sse"@,
        "/test/"@ != "/test/sse"@,
        "/test"@ != "/test/ws"@,
        "/test/"@ != "/test/ws"@,
        "/test/sse"@ != "/test/ws"@,
{
    reveal_strlit("/test");
    reveal_strlit("/test/");
    reveal_strlit("/test/sse");
    reveal_strlit("/test/ws");
    assert("/test"@.len() == 5);
    assert("/test/"@.len() == 6);
    assert("/test/sse"@.len() == 9);
    assert("/test/ws"@.len() == 8);
}

/// The root of the test endpoint greets with status 200, whatever the
/// request's headers and body hold.
pub proof fn lemma_root_greets(req: RequestView, chan: Seq<char>)
    requires
        req.path == "/test"@ || req.path == "/test/"@,
    ensures
        test_response(req, chan).status == 200,
        test_response(req, chan).body == "Hello from the Fanout test handler!\n".spec_bytes(),
{
}

/// The event-stream path answers every request with status 200, the
/// event-stream content type, a hold in streaming mode on the channel, and
/// a body that is one comment line of exactly 2048 spaces and a blank line.
pub proof fn lemma_sse_holds_a_stream(req: RequestView, chan: Seq<char>)
    requires
        req.path == "/test/sse"@,
    ensures
        test_response(req, chan).status == 200,
        test_response(req, chan).headers[0] == ("Content-Type"@, "text/event-stream"@),
        test_response(req, chan).headers[1] == ("Grip-Hold"@, "stream"@),
        test_response(req, chan).headers[2] == ("Grip-Channel"@, chan),
        test_response(req, chan).headers[3] == (
            "Grip-Keep-Alive"@,
            ":\\n\\n; format=cstring; timeout=20"@,
        ),
        test_response(req, chan).headers.len() == 4,
        ({
            let body = test_response(req, chan).body;
            &&& body.len() == 2051
            &&& body[0] == 58
            &&& forall|i: int| 1 <= i <= 2048 ==> body[i] == 32
            &&& body[2049] == 10
            &&& body[2050] == 10
        }),
{
    lemma_paths_differ();
    reveal_strlit(":");
    reveal_strlit("\n\n");
    vstd::string::is_ascii_spec_bytes(":");
    vstd::string::is_ascii_spec_bytes("\n\n");
    assert(":".spec_bytes() =~= seq![58u8]);
    assert("\n\n".spec_bytes() =~= seq![10u8, 10u8]);
}

/// A request on the WebSocket-over-HTTP path that does not declare its
/// body as WebSocket events gets status 400 and the same text, whatever its
/// body holds.
pub proof fn lemma_undeclared_is_rejected(req: RequestView, chan: Seq<char>)
    requires
        req.path == "/test/ws"@,
        !declares_websocket_events(req),
    ensures
        test_response(req, chan).status == 400,
        test_response(req, chan).body == "Not a WebSocket-over-HTTP request.\n".spec_bytes(),
{
    lemma_paths_differ();
}

/// A declared request whose body begins with the `OPEN` line is answered
/// with `OPEN`, then one subscription to the channel, then one keep-alive
/// request of 20 seconds, whatever follows the `OPEN` line in the body; and
/// nothing but the `CLOSE` line can follow these three.
pub proof fn lemma_open_is_answered(req: RequestView, chan: Seq<char>)
    requires
        req.path == "/test/ws"@,
        declares_websocket_events(req),
        open_line().is_prefix_of(req.body),
    ensures
        test_response(req, chan).status == 200,
        ({
            let answer = open_line() + text_frame(subscribe_payload(encode_utf8(chan)))
                + text_frame(keep_alive_payload(20));
            let body = test_response(req, chan).body;
            &&& answer.is_prefix_of(body)
            &&& body == answer || body == answer + close_line()
        }),
{
    lemma_paths_differ();
    let answer = open_line() + text_frame(subscribe_payload(encode_utf8(chan))) + text_frame(
        keep_alive_payload(20),
    );
    let body = test_response(req, chan).body;
    assert(body == answer + ws_closing(req.body));
    if occurs_in(close_marker(), req.body) {
        assert(body.subrange(0, answer.len() as int) =~= answer);
    } else {
        assert(body =~= answer);
    }
}

/// A declared request whose body holds the token `CLOSE` anywhere, be it
/// in the middle of other bytes, is answered with a body that ends with the
/// `CLOSE` line; one whose body does not hold it is answered without.
pub proof fn lemma_close_is_echoed(req: RequestView, chan: Seq<char>)
    requires
        req.path == "/test/ws"@,
        declares_websocket_events(req),
    ensures
        occurs_in(close_marker(), req.body) ==> test_response(req, chan).body == ws_opening(
            req.body,
            chan,
        ) + close_line() && close_line().is_suffix_of(test_response(req, chan).body),
        !occurs_in(close_marker(), req.body) ==> test_response(req, chan).body == ws_opening(
            req.body,
            chan,
        ),
{
    lemma_paths_differ();
    let opening = ws_opening(req.body, chan);
    let body = test_response(req, chan).body;
    if occurs_in(close_marker(), req.body) {
        assert(body == opening + close_line());
        assert(body.subrange(body.len() - close_line().len(), body.len() as int) =~= close_line());
    } else {
        assert(body =~= opening);
    }
}

/// A token that stands in a body at some index occurs in it.
pub proof fn lemma_close_anywhere(before: Seq<u8>, after: Seq<u8>)
    ensures
        occurs_in(close_marker(), before + close_marker() + after),
{
    let body = before + close_marker() + after;
    let i = before.len() as int;
    assert(body.subrange(i, i + close_marker().len()) =~= close_marker());
    assert(crate::codec::occurs_at(close_marker(), body, i));
}

/// Answers a WebSocket-over-HTTP request: 400 unless it declares its body
/// as WebSocket events; else what the body's `OPEN` line and `CLOSE` token
/// call for, each on its own.
pub fn handle_test_ws(req: &IncomingRequest, chan: &str) -> (r: Response)
    ensures
        r@ == ws_response(req@, chan@),
{
    let declared = match req.header("Content-Type") {
        Some(v) => str_eq(v, "application/websocket-events"),
        None => false,
    };
    if !declared {
        return Response::plain(400, "Not a WebSocket-over-HTTP request.\n");
    }
    let mut headers: Vec<Header> = Vec::new();
    headers.push(header("Content-Type", "application/websocket-events"));
    let mut body: Vec<u8> = Vec::new();
    if starts_with_open(req.body.as_slice()) {
        headers.push(header("Sec-WebSocket-Extensions", "grip; message-prefix=\"\""));
        let mut open = FramedEvent::Open.encode();
        body.append(&mut open);
        let mut sub = ws_sub(chan);
        body.append(&mut sub);
        let mut keep_alive = ws_keep_alive(KEEP_ALIVE_SECONDS);
        body.append(&mut keep_alive);
    }
    assert(body@ =~= ws_opening(req@.body, chan@));
    if contains_close(req.body.as_slice()) {
        let mut close = FramedEvent::Close.encode();
        body.append(&mut close);
    }
    let r = Response { status: 200, headers, body };
    assert(r@.headers =~= ws_headers(req@.body));
    assert(r@.body =~= ws_opening(req@.body, chan@) + ws_closing(req@.body));
    r
}

/// The event-stream answer for channel `chan`.
fn sse_hold(chan: &str) -> (r: Response)
    ensures
        r@ == sse_response(chan@),
{
    let mut r = grip_response("text/event-stream", HoldMode::Stream.as_str(), chan);
    r.headers.push(header("Grip-Keep-Alive", ":\\n\\n; format=cstring; timeout=20"));
    let mut padding: Vec<u8> = Vec::new();
    padding.extend_from_slice(":".as_bytes());
    let mut i: usize = 0;
    while i < SSE_PADDING_SPACES
        invariant
            i <= SSE_PADDING_SPACES,
            padding@ == ":".spec_bytes() + Seq::new(i as nat, |k: int| 32u8),
        decreases SSE_PADDING_SPACES - i,
    {
        padding.push(32u8);
        i += 1;
        assert(padding@ =~= ":".spec_bytes() + Seq::new(i as nat, |k: int| 32u8));
    }
    padding.extend_from_slice("\n\n".as_bytes());
    assert(padding@ =~= sse_padding());
    r.body = padding;
    assert(r@.headers =~= sse_response(chan@).headers);
    r
}

/// Answers a request to the test endpoint by its path; a path that the
/// endpoint does not know gets 404.
pub fn handle_test(req: &IncomingRequest, chan: &str) -> (r: Response)
    ensures
        r@ == test_response(req@, chan@),
{
    let path = req.path.as_str();
    if str_eq(path, "/test") || str_eq(path, "/test/") {
        Response::plain(200, "Hello from the Fanout test handler!\n")
    } else if str_eq(path, "/test/sse") {
        sse_hold(chan)
    } else if str_eq(path, "/test/ws") {
        handle_test_ws(req, chan)
    } else {
        Response::plain(404, "{\"error\": \"not found\"}\n")
    }
}

} // verus!
