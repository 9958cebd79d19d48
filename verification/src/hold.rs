//! The control response that tells the intermediary to keep a client
//! connection open and to bind it to a channel.

use crate::message::header;
use crate::message::Header;
use crate::message::Response;
use crate::message::ResponseView;
use vstd::prelude::*;

verus! {

/// How the intermediary is to hold a connection.
#[derive(Debug, Clone, Copy, PartialEq, Eq)]
pub enum HoldMode {
    /// Keep the connection open and stream what is published.
    Stream,
    /// Answer once, with the first thing published or at the timeout.
    Response,
}

impl HoldMode {
    /// The header value that names this mode.
    pub open spec fn text(self) -> Seq<char> {
        match self {
            HoldMode::Stream => "stream"@,
            HoldMode::Response => "response"@,
        }
    }

    /// The header value that names this mode.
    pub fn as_str(self) -> (s: &'static str)
        ensures
            s@ == self.text(),
    {
        match self {
            HoldMode::Stream => "stream",
            HoldMode::Response => "response",
        }
    }
}

/// The hold response for a content type, a hold mode and a channel: status
/// 200, the three headers in this order, and an empty body.
pub open spec fn hold_response(ctype: Seq<char>, ghold: Seq<char>, chan: Seq<char>) -> ResponseView {
    ResponseView {
        status: 200,
        headers: seq![
            ("Content-Type"@, ctype),
            ("Grip-Hold"@, ghold),
            ("Grip-Channel"@, chan),
        ],
        body: Seq::empty(),
    }
}

/// Builds the response that makes the intermediary hold the connection in
/// mode `ghold` and subscribe it to channel `chan`.
pub fn grip_response(ctype: &str, ghold: &str, chan: &str) -> (r: Response)
    ensures
        r@ == hold_response(ctype@, ghold@, chan@),
{
    let mut headers: Vec<Header> = Vec::new();
    headers.push(header("Content-Type", ctype));
    headers.push(header("Grip-Hold", ghold));
    headers.push(header("Grip-Channel", chan));
    let r = Response { status: 200, headers, body: Vec::new() };
    assert(r@.headers =~= hold_response(ctype@, ghold@, chan@).headers);
    assert(r@.body =~= Seq::empty());
    r
}

/// What a hold response is built from.
#[derive(Debug, Clone, PartialEq, Eq)]
pub struct HoldSpec {
    pub content_type: String,
    pub hold_mode: HoldMode,
    pub channel: String,
}

impl HoldSpec {
    /// The hold response that this describes.
    pub fn response(&self) -> (r: Response)
        ensures
            r@ == hold_response(self.content_type@, self.hold_mode.text(), self.channel@),
    {
        grip_response(self.content_type.as_str(), self.hold_mode.as_str(), self.channel.as_str())
    }
}

} // verus!
