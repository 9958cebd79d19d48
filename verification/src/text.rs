//! Predicates on text, stated over sequences of characters, and the
//! executable tests on `str` that decide them.

use vstd::prelude::*;
use vstd::string::StrSliceExecFns;
use vstd::string::StringSliceAdditionalSpecFns;

verus! {

/// The ASCII lower-case form of `c`: the letters `'A'..='Z'` move to
/// `'a'..='z'`, every other character stays as it is.
pub open spec fn ascii_lower(c: char) -> char {
    if 'A' <= c && c <= 'Z' {
        ((c as u8) + 32) as char
    } else {
        c
    }
}

/// `a` and `b` are the same text up to the case of their ASCII letters.
pub open spec fn eq_ignore_ascii_case(a: Seq<char>, b: Seq<char>) -> bool {
    &&& a.len() == b.len()
    &&& forall|i: int| 0 <= i < a.len() ==> ascii_lower(#[trigger] a[i]) == ascii_lower(b[i])
}

/// The index just behind the last `'/'` of `s`; 0 where `s` holds none.
pub open spec fn after_last_slash(s: Seq<char>) -> int
    decreases s.len(),
{
    if s.len() == 0 {
        0
    } else if s.last() == '/' {
        s.len() as int
    } else {
        after_last_slash(s.drop_last())
    }
}

/// What follows the last `'/'` of `s`; all of `s` where it holds none.
pub open spec fn last_segment(s: Seq<char>) -> Seq<char> {
    s.skip(after_last_slash(s))
}

/// `after_last_slash(s)` lies within `s`, directly behind a `'/'` unless it
/// is 0, and no `'/'` follows it.
pub proof fn lemma_after_last_slash(s: Seq<char>)
    ensures
        0 <= after_last_slash(s) <= s.len(),
        after_last_slash(s) > 0 ==> s[after_last_slash(s) - 1] == '/',
        forall|i: int| after_last_slash(s) <= i < s.len() ==> s[i] != '/',
    decreases s.len(),
{
    if s.len() > 0 && s.last() != '/' {
        let front = s.drop_last();
        lemma_after_last_slash(front);
        assert forall|i: int| after_last_slash(s) <= i < s.len() implies s[i] != '/' by {
            if i < front.len() {
                assert(front[i] == s[i]);
            }
        }
    }
}

/// A text whose last character is `'/'` has an empty last segment, and one
/// without any `'/'` is its own last segment.
pub proof fn lemma_last_segment_edges(s: Seq<char>)
    ensures
        s.len() > 0 && s.last() == '/' ==> last_segment(s) == Seq::<char>::empty(),
        (forall|i: int| 0 <= i < s.len() ==> s[i] != '/') ==> last_segment(s) == s,
{
    lemma_after_last_slash(s);
    if s.len() > 0 && s.last() == '/' {
        assert(last_segment(s) =~= Seq::<char>::empty());
    }
    if forall|i: int| 0 <= i < s.len() ==> s[i] != '/' {
        assert(after_last_slash(s) == 0);
        assert(last_segment(s) =~= s);
    }
}

/// Extending a text by one character moves the index behind its last `'/'`
/// to the new end if that character is `'/'`, and leaves it otherwise.
proof fn lemma_after_last_slash_step(s: Seq<char>, i: int)
    requires
        0 <= i < s.len(),
    ensures
        after_last_slash(s.take(i + 1)) == if s[i] == '/' {
            i + 1
        } else {
            after_last_slash(s.take(i))
        },
{
    assert(s.take(i + 1).drop_last() =~= s.take(i));
}

/// The characters of `s`, in order.
pub fn to_chars(s: &str) -> (v: Vec<char>)
    ensures
        v@ == s@,
{
    let mut v: Vec<char> = Vec::new();
    for c in it: s.chars()
        invariant
            it.seq() == s@,
            v@ == it.seq().take(it.index() as int),
    {
        v.push(c);
    }
    v
}

/// Lower-cases one character if it is an ASCII capital.
pub fn to_ascii_lower(c: char) -> (r: char)
    ensures
        r == ascii_lower(c),
{
    if c >= 'A' && c <= 'Z' {
        ((c as u8) + 32) as char
    } else {
        c
    }
}

/// Whether `a` and `b` hold the same characters.
pub fn str_eq(a: &str, b: &str) -> (r: bool)
    ensures
        r == (a@ == b@),
{
    let x = a.as_bytes();
    let y = b.as_bytes();
    proof {
        // Two texts with the same UTF-8 bytes decode to the same characters.
        vstd::utf8::encode_utf8_decode_utf8(a@);
        vstd::utf8::encode_utf8_decode_utf8(b@);
    }
    if x.len() != y.len() {
        return false;
    }
    let mut i: usize = 0;
    while i < x.len()
        invariant
            i <= x.len(),
            x.len() == y.len(),
            x@ == a.spec_bytes(),
            y@ == b.spec_bytes(),
            forall|j: int| 0 <= j < i ==> x@[j] == y@[j],
        decreases x.len() - i,
    {
        if x[i] != y[i] {
            return false;
        }
        i += 1;
    }
    assert(x@ =~= y@);
    true
}

/// Whether `s` begins with `prefix`.
pub fn str_starts_with(s: &str, prefix: &str) -> (r: bool)
    ensures
        r == prefix@.is_prefix_of(s@),
{
    let sv = to_chars(s);
    let pv = to_chars(prefix);
    if pv.len() > sv.len() {
        return false;
    }
    let mut i: usize = 0;
    while i < pv.len()
        invariant
            i <= pv.len() <= sv.len(),
            sv@ == s@,
            pv@ == prefix@,
            forall|j: int| 0 <= j < i ==> sv@[j] == pv@[j],
        decreases pv.len() - i,
    {
        if sv[i] != pv[i] {
            assert(sv@.subrange(0, pv@.len() as int)[i as int] != pv@[i as int]);
            return false;
        }
        i += 1;
    }
    assert(pv@ =~= sv@.subrange(0, pv@.len() as int));
    true
}

/// Whether `s` ends with `suffix`.
pub fn str_ends_with(s: &str, suffix: &str) -> (r: bool)
    ensures
        r == suffix@.is_suffix_of(s@),
{
    let sv = to_chars(s);
    let pv = to_chars(suffix);
    if pv.len() > sv.len() {
        return false;
    }
    let off: usize = sv.len() - pv.len();
    let mut i: usize = 0;
    while i < pv.len()
        invariant
            i <= pv.len() <= sv.len(),
            off == sv.len() - pv.len(),
            sv@ == s@,
            pv@ == suffix@,
            forall|j: int| 0 <= j < i ==> sv@[off + j] == pv@[j],
        decreases pv.len() - i,
    {
        if sv[off + i] != pv[i] {
            assert(sv@.subrange(off as int, sv@.len() as int)[i as int] != pv@[i as int]);
            return false;
        }
        i += 1;
    }
    assert(pv@ =~= sv@.subrange(off as int, sv@.len() as int));
    true
}

/// Whether `a` and `b` are equal up to the case of their ASCII letters.
pub fn str_eq_ignore_ascii_case(a: &str, b: &str) -> (r: bool)
    ensures
        r == eq_ignore_ascii_case(a@, b@),
{
    let av = to_chars(a);
    let bv = to_chars(b);
    if av.len() != bv.len() {
        return false;
    }
    let mut i: usize = 0;
    while i < av.len()
        invariant
            i <= av.len(),
            av.len() == bv.len(),
            av@ == a@,
            bv@ == b@,
            forall|j: int| 0 <= j < i ==> ascii_lower(#[trigger] av@[j]) == ascii_lower(bv@[j]),
        decreases av.len() - i,
    {
        if to_ascii_lower(av[i]) != to_ascii_lower(bv[i]) {
            assert(ascii_lower(av@[i as int]) != ascii_lower(bv@[i as int]));
            return false;
        }
        i += 1;
    }
    true
}

/// The part of `path` behind its last `'/'`.
pub fn last_segment_of(path: &str) -> (r: String)
    ensures
        r@ == last_segment(path@),
{
    let v = to_chars(path);
    let mut start: usize = 0;
    let mut i: usize = 0;
    while i < v.len()
        invariant
            i <= v.len(),
            start <= i,
            start == after_last_slash(v@.take(i as int)),
        decreases v.len() - i,
    {
        proof {
            lemma_after_last_slash_step(v@, i as int);
        }
        if v[i] == '/' {
            start = i + 1;
        }
        i += 1;
    }
    assert(v@.take(v@.len() as int) =~= v@);
    path.substring_char(start, v.len()).to_owned()
}

} // verus!
