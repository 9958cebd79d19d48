//! Requests and responses as plain values: what the gateway reads of an
//! incoming request, and what it asks to have sent back.

use crate::text::eq_ignore_ascii_case;
use crate::text::str_eq_ignore_ascii_case;
use vstd::prelude::*;

verus! {

/// One header line.
#[derive(Debug, Clone, PartialEq, Eq)]
pub struct Header {
    pub name: String,
    pub value: String,
}

impl View for Header {
    type V = (Seq<char>, Seq<char>);

    open spec fn view(&self) -> (Seq<char>, Seq<char>) {
        (self.name@, self.value@)
    }
}

/// The name and value of each header of a list, in order.
pub open spec fn header_views(headers: Seq<Header>) -> Seq<(Seq<char>, Seq<char>)> {
    headers.map_values(|h: Header| h@)
}

/// The value of the first header of `headers` whose name is `name` up to
/// the case of ASCII letters.
pub open spec fn header_value(headers: Seq<(Seq<char>, Seq<char>)>, name: Seq<char>) -> Option<
    Seq<char>,
>
    decreases headers.len(),
{
    if headers.len() == 0 {
        None
    } else if eq_ignore_ascii_case(headers[0].0, name) {
        Some(headers[0].1)
    } else {
        header_value(headers.drop_first(), name)
    }
}

/// A list whose first `i` headers are not named `name` has the value that
/// the rest of the list has.
pub proof fn lemma_header_value_skips(
    headers: Seq<(Seq<char>, Seq<char>)>,
    name: Seq<char>,
    i: int,
)
    requires
        0 <= i <= headers.len(),
        forall|k: int| 0 <= k < i ==> !eq_ignore_ascii_case((#[trigger] headers[k]).0, name),
    ensures
        header_value(headers, name) == header_value(headers.skip(i), name),
    decreases i,
{
    if i == 0 {
        assert(headers.skip(0) =~= headers);
    } else {
        let rest = headers.drop_first();
        assert(!eq_ignore_ascii_case(headers[0].0, name));
        assert forall|k: int| 0 <= k < i - 1 implies !eq_ignore_ascii_case(
            (#[trigger] rest[k]).0,
            name,
        ) by {
            assert(rest[k] == headers[k + 1]);
        }
        lemma_header_value_skips(rest, name, i - 1);
        assert(rest.skip(i - 1) =~= headers.skip(i));
    }
}

/// What is read of an incoming request.
pub struct RequestView {
    pub scheme: Seq<char>,
    pub host: Option<Seq<char>>,
    pub path: Seq<char>,
    pub headers: Seq<(Seq<char>, Seq<char>)>,
    pub body: Seq<u8>,
}

/// A response: status, headers in order, body.
pub struct ResponseView {
    pub status: int,
    pub headers: Seq<(Seq<char>, Seq<char>)>,
    pub body: Seq<u8>,
}

/// An incoming request, as one snapshot. `host` is `None` where the
/// request names none.
#[derive(Debug, Clone, PartialEq, Eq)]
pub struct IncomingRequest {
    pub scheme: String,
    pub host: Option<String>,
    pub path: String,
    pub headers: Vec<Header>,
    pub body: Vec<u8>,
}

impl View for IncomingRequest {
    type V = RequestView;

    open spec fn view(&self) -> RequestView {
        RequestView {
            scheme: self.scheme@,
            host: match self.host {
                Some(h) => Some(h@),
                None => None,
            },
            path: self.path@,
            headers: header_views(self.headers@),
            body: self.body@,
        }
    }
}

/// A response to send.
#[derive(Debug, Clone, PartialEq, Eq)]
pub struct Response {
    pub status: u16,
    pub headers: Vec<Header>,
    pub body: Vec<u8>,
}

impl View for Response {
    type V = ResponseView;

    open spec fn view(&self) -> ResponseView {
        ResponseView {
            status: self.status as int,
            headers: header_views(self.headers@),
            body: self.body@,
        }
    }
}

/// The header `name: value`.
pub fn header(name: &str, value: &str) -> (h: Header)
    ensures
        h@ == (name@, value@),
{
    Header { name: name.to_owned(), value: value.to_owned() }
}

/// The value of the first header of `headers` named `name`, in any case of
/// ASCII letters; `None` where no header has that name.
pub fn find_header<'a>(headers: &'a Vec<Header>, name: &str) -> (r: Option<&'a str>)
    ensures
        match r {
            Some(v) => header_value(header_views(headers@), name@) == Some(v@),
            None => header_value(header_views(headers@), name@).is_none(),
        },
{
    let ghost views = header_views(headers@);
    let mut i: usize = 0;
    while i < headers.len()
        invariant
            i <= headers.len(),
            views == header_views(headers@),
            forall|k: int| 0 <= k < i ==> !eq_ignore_ascii_case((#[trigger] views[k]).0, name@),
        decreases headers.len() - i,
    {
        if str_eq_ignore_ascii_case(headers[i].name.as_str(), name) {
            proof {
                lemma_header_value_skips(views, name@, i as int);
                assert(views.skip(i as int)[0] == views[i as int]);
            }
            return Some(headers[i].value.as_str());
        }
        i += 1;
    }
    proof {
        lemma_header_value_skips(views, name@, i as int);
        assert(views.skip(i as int) =~= Seq::empty());
    }
    None
}

impl IncomingRequest {
    /// The value of the request's first header named `name`, in any case
    /// of ASCII letters.
    pub fn header(&self, name: &str) -> (r: Option<&str>)
        ensures
            match r {
                Some(v) => header_value(self@.headers, name@) == Some(v@),
                None => header_value(self@.headers, name@).is_none(),
            },
    {
        find_header(&self.headers, name)
    }

    /// Whether the request carries a header named `name`, whatever its
    /// value.
    pub fn has_header(&self, name: &str) -> (r: bool)
        ensures
            r == header_value(self@.headers, name@).is_some(),
    {
        self.header(name).is_some()
    }
}

impl Response {
    /// A response with the given status and the text `body`, without
    /// headers.
    pub fn plain(status: u16, body: &str) -> (r: Response)
        ensures
            r@ == plain_response(status as int, body@),
    {
        let r = Response {
            status,
            headers: Vec::new(),
            body: vstd::slice::slice_to_vec(body.as_bytes()),
        };
        assert(r@.headers =~= Seq::empty());
        r
    }

    /// The value of the response's first header named `name`, in any case
    /// of ASCII letters.
    pub fn header(&self, name: &str) -> (r: Option<&str>)
        ensures
            match r {
                Some(v) => header_value(self@.headers, name@) == Some(v@),
                None => header_value(self@.headers, name@).is_none(),
            },
    {
        find_header(&self.headers, name)
    }
}

/// The response without headers whose body is the UTF-8 bytes of `body`.
pub open spec fn plain_response(status: int, body: Seq<char>) -> ResponseView {
    ResponseView { status, headers: Seq::empty(), body: vstd::utf8::encode_utf8(body) }
}

} // verus!
