//! Reading a TEXT frame back: the payload of a frame, and the proof that
//! framing loses nothing.

use crate::codec::bytes_start_with;
use crate::codec::hex_digit;
use crate::codec::hex_digits;
use crate::codec::text_frame;
use vstd::prelude::*;
use vstd::slice::slice_subrange;
use vstd::slice::slice_to_vec;
use vstd::string::StringSliceAdditionalSpecFns;

verus! {

/// `b` is one of the ASCII digits `0-9` or `a-f`.
pub open spec fn is_lower_hex(b: u8) -> bool {
    (48 <= b && b <= 57) || (97 <= b && b <= 102)
}

/// The value of the hexadecimal digit `b`.
pub open spec fn hex_digit_value(b: u8) -> nat
    recommends
        is_lower_hex(b),
{
    if b <= 57 {
        (b - 48) as nat
    } else {
        (b - 87) as nat
    }
}

/// The number that `digits` writes in hexadecimal, most significant digit
/// first.
pub open spec fn hex_value(digits: Seq<u8>) -> nat
    decreases digits.len(),
{
    if digits.len() == 0 {
        0
    } else {
        hex_value(digits.drop_last()) * 16 + hex_digit_value(digits.last())
    }
}

/// The payload that `frame` carries: `Some(p)` where `frame` is the TEXT
/// frame of `p`, `None` where it is the frame of no payload.
pub open spec fn decode_text_frame(frame: Seq<u8>) -> Option<Seq<u8>> {
    if exists|p: Seq<u8>| frame == #[trigger] text_frame(p) {
        Some(choose|p: Seq<u8>| frame == #[trigger] text_frame(p))
    } else {
        None
    }
}

/// The bytes of the frame tag and of a line end.
pub proof fn lemma_frame_literals()
    ensures
        "TEXT ".spec_bytes() == seq![84u8, 69u8, 88u8, 84u8, 32u8],
        "\r\n".spec_bytes() == seq![13u8, 10u8],
{
    reveal_strlit("TEXT ");
    reveal_strlit("\r\n");
    vstd::string::is_ascii_spec_bytes("TEXT ");
    vstd::string::is_ascii_spec_bytes("\r\n");
    assert("TEXT ".spec_bytes() =~= seq![84u8, 69u8, 88u8, 84u8, 32u8]);
    assert("\r\n".spec_bytes() =~= seq![13u8, 10u8]);
}

/// A number written in hexadecimal has at least one digit, holds only the
/// digits `0-9a-f`, begins with `0` only where it is 0, and reads back as
/// itself.
pub proof fn lemma_hex_digits(n: nat)
    ensures
        hex_digits(n).len() >= 1,
        forall|i: int| 0 <= i < hex_digits(n).len() ==> is_lower_hex(#[trigger] hex_digits(n)[i]),
        hex_digits(n)[0] == 48 ==> n == 0,
        hex_digits(n).len() == 1 <==> n < 16,
        hex_value(hex_digits(n)) == n,
    decreases n,
{
    if n < 16 {
        let d = hex_digits(n);
        assert(d.drop_last() =~= Seq::<u8>::empty());
        assert(hex_value(d.drop_last()) == 0);
    } else {
        let front = hex_digits(n / 16);
        let d = hex_digits(n);
        lemma_hex_digits(n / 16);
        assert(d.drop_last() =~= front);
        assert(d[0] == front[0]);
        assert forall|i: int| 0 <= i < d.len() implies is_lower_hex(#[trigger] d[i]) by {
            if i < front.len() {
                assert(d[i] == front[i]);
            }
        }
    }
}

/// The number that the first `k` digits write is no more than the number
/// that all of them write.
pub proof fn lemma_hex_value_of_prefix(digits: Seq<u8>, k: int)
    requires
        0 <= k <= digits.len(),
    ensures
        hex_value(digits.take(k)) <= hex_value(digits),
    decreases digits.len() - k,
{
    if k < digits.len() {
        let front = digits.drop_last();
        assert(front.take(k) =~= digits.take(k));
        lemma_hex_value_of_prefix(front, k);
    } else {
        assert(digits.take(k) =~= digits);
    }
}

/// Where each part of a TEXT frame stands.
pub proof fn lemma_frame_parts(p: Seq<u8>)
    ensures
        ({
            let f = text_frame(p);
            let h = hex_digits(p.len());
            let hl = h.len() as int;
            &&& f.len() == hl + p.len() + 9
            &&& "TEXT ".spec_bytes().is_prefix_of(f)
            &&& f.subrange(5, 5 + hl) == h
            &&& f[5 + hl] == 13
            &&& f[6 + hl] == 10
            &&& f.subrange(7 + hl, 7 + hl + p.len()) == p
            &&& f[f.len() - 2] == 13
            &&& f[f.len() - 1] == 10
        }),
{
    lemma_frame_literals();
    let f = text_frame(p);
    let h = hex_digits(p.len());
    let hl = h.len() as int;
    assert("TEXT ".spec_bytes() =~= f.subrange(0, 5));
    assert(f.subrange(5, 5 + hl) =~= h);
    assert(f.subrange(7 + hl, 7 + hl + p.len()) =~= p);
}

/// In the frame of `p`, a run of hexadecimal digits that starts behind the
/// tag stays within the written length, and ends with it where the run
/// cannot go on.
proof fn lemma_frame_scan(frame: Seq<u8>, p: Seq<u8>, i: int)
    requires
        frame == text_frame(p),
        5 <= i <= frame.len(),
        forall|j: int| 5 <= j < i ==> is_lower_hex(#[trigger] frame[j]),
    ensures
        i <= 5 + hex_digits(p.len()).len(),
        frame.subrange(5, i) == hex_digits(p.len()).take(i - 5),
        hex_value(frame.subrange(5, i)) <= p.len(),
        i > 6 ==> frame[5] != 48,
        (i == frame.len() || !is_lower_hex(frame[i])) ==> i == 5 + hex_digits(p.len()).len()
            && hex_value(frame.subrange(5, i)) == p.len(),
{
    let h = hex_digits(p.len());
    let hl = h.len() as int;
    lemma_frame_parts(p);
    lemma_hex_digits(p.len());
    if i > 5 + hl {
        assert(is_lower_hex(frame[5 + hl]));
    }
    assert(frame.subrange(5, i) =~= h.take(i - 5)) by {
        assert forall|j: int| 0 <= j < i - 5 implies frame.subrange(5, i)[j] == h.take(i - 5)[j] by {
            assert(frame.subrange(5, 5 + hl)[j] == h[j]);
        }
    }
    lemma_hex_value_of_prefix(h, i - 5);
    if i > 6 {
        assert(frame.subrange(5, 5 + hl)[0] == h[0]);
    }
    if i < 5 + hl {
        assert(frame.subrange(5, 5 + hl)[i - 5] == h[i - 5]);
        assert(is_lower_hex(frame[i]));
    } else {
        assert(h.take(i - 5) =~= h);
    }
}

/// Two payloads with the same frame are the same payload.
pub proof fn lemma_text_frame_injective(p: Seq<u8>, q: Seq<u8>)
    requires
        text_frame(p) == text_frame(q),
    ensures
        p == q,
{
    let f = text_frame(p);
    let hp = hex_digits(p.len());
    lemma_frame_parts(p);
    lemma_frame_parts(q);
    lemma_hex_digits(p.len());
    let i = 5 + hp.len() as int;
    assert forall|j: int| 5 <= j < i implies is_lower_hex(#[trigger] f[j]) by {
        assert(f.subrange(5, i)[j - 5] == hp[j - 5]);
    }
    lemma_frame_scan(f, p, i);
    lemma_frame_scan(f, q, i);
    assert(p.len() == q.len());
    assert(p =~= q);
}

/// Framing a payload and reading the frame back gives the payload, whatever
/// bytes it holds.
pub proof fn lemma_decode_of_frame(p: Seq<u8>)
    ensures
        decode_text_frame(text_frame(p)) == Some(p),
{
    let f = text_frame(p);
    let q = choose|q: Seq<u8>| f == #[trigger] text_frame(q);
    lemma_text_frame_injective(p, q);
}

/// The length written in a frame is the number of bytes of its payload.
pub proof fn lemma_frame_length_prefix(p: Seq<u8>)
    ensures
        ({
            let f = text_frame(p);
            let h = hex_digits(p.len());
            let hl = h.len() as int;
            &&& f.subrange(5, 5 + hl) == h
            &&& hex_value(h) == p.len()
            &&& f[5 + hl] == 13
        }),
{
    lemma_frame_parts(p);
    lemma_hex_digits(p.len());
}

/// Whether `b` is one of the digits `0-9a-f`.
fn is_hex_byte(b: u8) -> (r: bool)
    ensures
        r == is_lower_hex(b),
{
    (48 <= b && b <= 57) || (97 <= b && b <= 102)
}

/// The payload of the TEXT frame `frame`, or `None` where `frame` is not
/// exactly one such frame with its length written in lower case and without
/// leading zeros.
pub fn ws_decode_text(frame: &[u8]) -> (r: Option<Vec<u8>>)
    ensures
        match r {
            Some(p) => decode_text_frame(frame@) == Some(p@),
            None => decode_text_frame(frame@).is_none(),
        },
{
    proof {
        lemma_frame_literals();
    }
    let tag = "TEXT ".as_bytes();
    if !bytes_start_with(frame, tag) {
        proof {
            assert forall|p: Seq<u8>| frame@ != #[trigger] text_frame(p) by {
                lemma_frame_parts(p);
            }
        }
        return None;
    }
    let mut i: usize = 5;
    let mut n: usize = 0;
    while i < frame.len() && is_hex_byte(frame[i])
        invariant
            5 <= i <= frame.len(),
            forall|j: int| 5 <= j < i ==> is_lower_hex(#[trigger] frame@[j]),
            n == hex_value(frame@.subrange(5, i as int)),
            i > 5 ==> frame@.subrange(5, i as int) == hex_digits(n as nat),
        decreases frame.len() - i,
    {
        let b: u8 = frame[i];
        let d: usize = if b <= 57 {
            (b - 48) as usize
        } else {
            (b - 87) as usize
        };
        proof {
            let seen = frame@.subrange(5, i as int);
            let next = frame@.subrange(5, i + 1);
            assert(next.drop_last() =~= seen);
            assert(next.last() == b);
            assert(hex_value(next) == n * 16 + d);
            assert(hex_digit(d as int) == b);
        }
        if i > 5 && n == 0 {
            proof {
                assert(frame@.subrange(5, i as int)[0] == frame@[5]);
                assert forall|p: Seq<u8>| frame@ != #[trigger] text_frame(p) by {
                    if frame@ == text_frame(p) {
                        lemma_frame_scan(frame@, p, i + 1);
                    }
                }
            }
            return None;
        }
        if n > (usize::MAX - d) / 16 {
            proof {
                assert forall|p: Seq<u8>| frame@ != #[trigger] text_frame(p) by {
                    if frame@ == text_frame(p) {
                        lemma_frame_scan(frame@, p, i + 1);
                        lemma_frame_parts(p);
                    }
                }
            }
            return None;
        }
        proof {
            let seen = frame@.subrange(5, i as int);
            let next = frame@.subrange(5, i + 1);
            if i > 5 {
                assert(next =~= seen.push(b));
                assert(hex_digits((n * 16 + d) as nat) =~= hex_digits(n as nat).push(b));
            } else {
                assert(next =~= seq![b]);
            }
        }
        n = n * 16 + d;
        i += 1;
    }
    let well_formed: bool = i > 5 && frame.len() - i >= 4 && frame[i] == 13 && frame[i + 1] == 10
        && frame.len() - i - 4 == n && frame[frame.len() - 2] == 13 && frame[frame.len() - 1]
        == 10;
    if !well_formed {
        proof {
            assert forall|p: Seq<u8>| frame@ != #[trigger] text_frame(p) by {
                if frame@ == text_frame(p) {
                    lemma_frame_scan(frame@, p, i as int);
                    lemma_frame_parts(p);
                    lemma_hex_digits(p.len());
                }
            }
        }
        return None;
    }
    let payload = slice_to_vec(slice_subrange(frame, i + 2, i + 2 + n));
    proof {
        assert(frame@ =~= text_frame(payload@));
        lemma_decode_of_frame(payload@);
    }
    Some(payload)
}

} // verus!
