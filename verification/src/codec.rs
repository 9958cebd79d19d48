//! The text framing of WebSocket events over HTTP: `OPEN`, `CLOSE` and
//! `TEXT <hex length>\r\n<payload>\r\n`, with the command payloads that
//! subscribe a connection to a channel and ask for keep-alive pings.

use vstd::prelude::*;
use vstd::string::StringSliceAdditionalSpecFns;

verus! {

/// The ASCII digit that stands for `d` in lower-case hexadecimal
/// (`'0'` is 48, `'a'` is 97).
pub open spec fn hex_digit(d: int) -> u8
    recommends
        0 <= d < 16,
{
    if d < 10 {
        (48 + d) as u8
    } else {
        (87 + d) as u8
    }
}

/// `n` in lower-case hexadecimal, with as many digits as its value needs.
pub open spec fn hex_digits(n: nat) -> Seq<u8>
    decreases n,
{
    if n < 16 {
        seq![hex_digit(n as int)]
    } else {
        hex_digits(n / 16).push(hex_digit((n % 16) as int))
    }
}

/// `n` in decimal, with as many digits as its value needs.
pub open spec fn decimal_digits(n: nat) -> Seq<u8>
    decreases n,
{
    if n < 10 {
        seq![(48 + n) as u8]
    } else {
        decimal_digits(n / 10).push((48 + n % 10) as u8)
    }
}

/// The control line that opens a connection.
pub open spec fn open_line() -> Seq<u8> {
    "OPEN\r\n".spec_bytes()
}

/// The control line that closes a connection.
pub open spec fn close_line() -> Seq<u8> {
    "CLOSE\r\n".spec_bytes()
}

/// The token whose presence anywhere in a body counts as a close.
pub open spec fn close_marker() -> Seq<u8> {
    "CLOSE".spec_bytes()
}

/// The frame that carries `payload`: the tag, the payload's length in
/// hexadecimal, and the payload between two line ends.
pub open spec fn text_frame(payload: Seq<u8>) -> Seq<u8> {
    "TEXT ".spec_bytes() + hex_digits(payload.len()) + "\r\n".spec_bytes() + payload
        + "\r\n".spec_bytes()
}

/// The command that subscribes to `channel`; the channel's bytes are
/// inserted as they are.
pub open spec fn subscribe_payload(channel: Seq<u8>) -> Seq<u8> {
    "c:{\"type\":\"subscribe\",\"channel\":\"".spec_bytes() + channel + "\"}".spec_bytes()
}

/// The command that asks for a ping after `timeout` idle seconds.
pub open spec fn keep_alive_payload(timeout: nat) -> Seq<u8> {
    "c:{\"type\":\"keep-alive\",\"message-type\":\"ping\",\"content\":\"\",\"timeout\":".spec_bytes()
        + decimal_digits(timeout) + "}".spec_bytes()
}

/// `needle` occurs in `hay` as a run of consecutive bytes.
pub open spec fn occurs_in(needle: Seq<u8>, hay: Seq<u8>) -> bool {
    exists|i: int| occurs_at(needle, hay, i)
}

/// `needle` occurs in `hay` at index `i`.
pub open spec fn occurs_at(needle: Seq<u8>, hay: Seq<u8>, i: int) -> bool {
    0 <= i && i + needle.len() <= hay.len() && hay.subrange(i, i + needle.len()) == needle
}

/// Whether `s` begins with `prefix`.
pub fn bytes_start_with(s: &[u8], prefix: &[u8]) -> (r: bool)
    ensures
        r == prefix@.is_prefix_of(s@),
{
    if prefix.len() > s.len() {
        return false;
    }
    let mut i: usize = 0;
    while i < prefix.len()
        invariant
            i <= prefix.len() <= s.len(),
            forall|j: int| 0 <= j < i ==> s@[j] == prefix@[j],
        decreases prefix.len() - i,
    {
        if s[i] != prefix[i] {
            assert(s@.subrange(0, prefix@.len() as int)[i as int] != prefix@[i as int]);
            return false;
        }
        i += 1;
    }
    assert(prefix@ =~= s@.subrange(0, prefix@.len() as int));
    true
}

/// Whether `needle` stands in `hay` at index `at`.
fn bytes_match_at(hay: &[u8], needle: &[u8], at: usize) -> (r: bool)
    requires
        at + needle.len() <= hay.len(),
    ensures
        r == occurs_at(needle@, hay@, at as int),
{
    let mut j: usize = 0;
    while j < needle.len()
        invariant
            j <= needle.len(),
            at + needle.len() <= hay.len(),
            forall|k: int| 0 <= k < j ==> hay@[at + k] == needle@[k],
        decreases needle.len() - j,
    {
        if hay[at + j] != needle[j] {
            assert(hay@.subrange(at as int, at + needle@.len())[j as int] != needle@[j as int]);
            return false;
        }
        j += 1;
    }
    assert(hay@.subrange(at as int, at + needle@.len()) =~= needle@);
    true
}

/// Whether `needle` occurs anywhere in `hay`.
pub fn bytes_contain(hay: &[u8], needle: &[u8]) -> (r: bool)
    ensures
        r == occurs_in(needle@, hay@),
{
    if needle.len() > hay.len() {
        return false;
    }
    let last: usize = hay.len() - needle.len();
    let mut i: usize = 0;
    loop
        invariant
            i <= last,
            last == hay.len() - needle.len(),
            forall|k: int| 0 <= k < i ==> !occurs_at(needle@, hay@, k),
        decreases last - i,
    {
        if bytes_match_at(hay, needle, i) {
            return true;
        }
        if i == last {
            return false;
        }
        i += 1;
    }
}

/// Appends `n` in lower-case hexadecimal to `out`.
pub fn push_hex(out: &mut Vec<u8>, n: usize)
    ensures
        final(out)@ == old(out)@ + hex_digits(n as nat),
{
    let mut low_first: Vec<u8> = Vec::new();
    let mut rest: usize = n;
    while rest >= 16
        invariant
            hex_digits(n as nat) == hex_digits(rest as nat) + low_first@.reverse(),
        decreases rest,
    {
        let d: u8 = (rest % 16) as u8;
        let digit: u8 = if d < 10 {
            48 + d
        } else {
            87 + d
        };
        proof {
            let before = low_first@;
            assert(before.push(digit).reverse() =~= seq![digit] + before.reverse());
            assert(hex_digits(rest as nat) =~= hex_digits((rest / 16) as nat) + seq![digit]);
        }
        low_first.push(digit);
        rest = rest / 16;
    }
    let d: u8 = rest as u8;
    let digit: u8 = if d < 10 {
        48 + d
    } else {
        87 + d
    };
    proof {
        let before = low_first@;
        assert(before.push(digit).reverse() =~= seq![digit] + before.reverse());
    }
    low_first.push(digit);
    let mut k: usize = low_first.len();
    while k > 0
        invariant
            k <= low_first.len(),
            out@ == old(out)@ + low_first@.reverse().take(low_first.len() - k),
        decreases k,
    {
        k -= 1;
        out.push(low_first[k]);
        assert(low_first@.reverse().take(low_first.len() - k) =~= low_first@.reverse().take(
            low_first.len() - k - 1,
        ).push(low_first@[k as int]));
    }
    assert(low_first@.reverse().take(low_first.len() as int) =~= low_first@.reverse());
}

/// Appends `n` in decimal to `out`.
pub fn push_decimal(out: &mut Vec<u8>, n: u32)
    ensures
        final(out)@ == old(out)@ + decimal_digits(n as nat),
{
    let mut low_first: Vec<u8> = Vec::new();
    let mut rest: u32 = n;
    while rest >= 10
        invariant
            decimal_digits(n as nat) == decimal_digits(rest as nat) + low_first@.reverse(),
        decreases rest,
    {
        let digit: u8 = 48 + (rest % 10) as u8;
        proof {
            let before = low_first@;
            assert(before.push(digit).reverse() =~= seq![digit] + before.reverse());
            assert(decimal_digits(rest as nat) =~= decimal_digits((rest / 10) as nat) + seq![digit]);
        }
        low_first.push(digit);
        rest = rest / 10;
    }
    let digit: u8 = 48 + rest as u8;
    proof {
        let before = low_first@;
        assert(before.push(digit).reverse() =~= seq![digit] + before.reverse());
    }
    low_first.push(digit);
    let mut k: usize = low_first.len();
    while k > 0
        invariant
            k <= low_first.len(),
            out@ == old(out)@ + low_first@.reverse().take(low_first.len() - k),
        decreases k,
    {
        k -= 1;
        out.push(low_first[k]);
        assert(low_first@.reverse().take(low_first.len() - k) =~= low_first@.reverse().take(
            low_first.len() - k - 1,
        ).push(low_first@[k as int]));
    }
    assert(low_first@.reverse().take(low_first.len() as int) =~= low_first@.reverse());
}

/// Frames `payload` as one TEXT event.
pub fn ws_text_bytes(payload: &[u8]) -> (frame: Vec<u8>)
    ensures
        frame@ == text_frame(payload@),
{
    let mut frame: Vec<u8> = Vec::new();
    frame.extend_from_slice("TEXT ".as_bytes());
    push_hex(&mut frame, payload.len());
    frame.extend_from_slice("\r\n".as_bytes());
    frame.extend_from_slice(payload);
    frame.extend_from_slice("\r\n".as_bytes());
    assert(frame@ =~= text_frame(payload@));
    frame
}

/// Frames the UTF-8 bytes of `msg` as one TEXT event. The length counts
/// bytes, not characters.
pub fn ws_text(msg: &str) -> (frame: Vec<u8>)
    ensures
        frame@ == text_frame(msg.spec_bytes()),
{
    ws_text_bytes(msg.as_bytes())
}

/// The TEXT event that subscribes the connection to channel `ch`.
pub fn ws_sub(ch: &str) -> (frame: Vec<u8>)
    ensures
        frame@ == text_frame(subscribe_payload(ch.spec_bytes())),
{
    let mut payload: Vec<u8> = Vec::new();
    payload.extend_from_slice("c:{\"type\":\"subscribe\",\"channel\":\"".as_bytes());
    payload.extend_from_slice(ch.as_bytes());
    payload.extend_from_slice("\"}".as_bytes());
    assert(payload@ =~= subscribe_payload(ch.spec_bytes()));
    ws_text_bytes(payload.as_slice())
}

/// The TEXT event that asks for a ping after `timeout` idle seconds.
pub fn ws_keep_alive(timeout: u32) -> (frame: Vec<u8>)
    ensures
        frame@ == text_frame(keep_alive_payload(timeout as nat)),
{
    let mut payload: Vec<u8> = Vec::new();
    payload.extend_from_slice(
        "c:{\"type\":\"keep-alive\",\"message-type\":\"ping\",\"content\":\"\",\"timeout\":".as_bytes(),
    );
    push_decimal(&mut payload, timeout);
    payload.extend_from_slice("}".as_bytes());
    assert(payload@ =~= keep_alive_payload(timeout as nat));
    ws_text_bytes(payload.as_slice())
}

/// One event of the protocol: a control line, or a TEXT frame with its
/// payload.
#[derive(Debug, Clone, PartialEq, Eq)]
pub enum FramedEvent {
    Open,
    Close,
    Text(Vec<u8>),
}

impl FramedEvent {
    /// The bytes that stand for this event on the wire.
    pub open spec fn wire(self) -> Seq<u8> {
        match self {
            FramedEvent::Open => open_line(),
            FramedEvent::Close => close_line(),
            FramedEvent::Text(payload) => text_frame(payload@),
        }
    }

    /// Writes this event as it goes over the wire.
    pub fn encode(&self) -> (bytes: Vec<u8>)
        ensures
            bytes@ == self.wire(),
    {
        match self {
            FramedEvent::Open => vstd::slice::slice_to_vec("OPEN\r\n".as_bytes()),
            FramedEvent::Close => vstd::slice::slice_to_vec("CLOSE\r\n".as_bytes()),
            FramedEvent::Text(payload) => ws_text_bytes(payload.as_slice()),
        }
    }
}

/// Whether `body` begins with the `OPEN` control line.
pub fn starts_with_open(body: &[u8]) -> (r: bool)
    ensures
        r == open_line().is_prefix_of(body@),
{
    bytes_start_with(body, "OPEN\r\n".as_bytes())
}

/// Whether the token `CLOSE` occurs anywhere in `body`, on a line of its own
/// or not.
pub fn contains_close(body: &[u8]) -> (r: bool)
    ensures
        r == occurs_in(close_marker(), body@),
{
    bytes_contain(body, "CLOSE".as_bytes())
}

} // verus!
