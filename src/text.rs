//! Whitespace normalisation of received text.

use vstd::prelude::*;
use vstd::string::*;

verus! {

/// The characters with the Unicode `White_Space` property, which is what
/// `char::is_whitespace` tests.
pub open spec fn is_space(c: char) -> bool {
    let u = c as u32;
    ||| 0x09 <= u && u <= 0x0D
    ||| u == 0x20
    ||| u == 0x85
    ||| u == 0xA0
    ||| u == 0x1680
    ||| 0x2000 <= u && u <= 0x200A
    ||| u == 0x2028
    ||| u == 0x2029
    ||| u == 0x202F
    ||| u == 0x205F
    ||| u == 0x3000
}

/// Tests whether `c` is a Unicode whitespace character.
pub fn is_whitespace(c: char) -> (r: bool)
    ensures
        r == is_space(c),
{
    let u = c as u32;
    (0x09 <= u && u <= 0x0D) || u == 0x20 || u == 0x85 || u == 0xA0 || u == 0x1680 || (0x2000
        <= u && u <= 0x200A) || u == 0x2028 || u == 0x2029 || u == 0x202F || u == 0x205F || u
        == 0x3000
}

/// Scans `s` left to right. `started` tells whether a word was already
/// emitted, `gap` whether whitespace has been seen since the last word.
/// Whitespace before the first word and after the last one is dropped; a
/// run of whitespace between two words becomes a single space.
pub open spec fn collapse(s: Seq<char>, started: bool, gap: bool) -> Seq<char>
    decreases s.len(),
{
    if s.len() == 0 {
        seq![]
    } else if is_space(s[0]) {
        collapse(s.drop_first(), started, started)
    } else {
        let sep = if gap { seq![' '] } else { Seq::<char>::empty() };
        sep + seq![s[0]] + collapse(s.drop_first(), true, false)
    }
}

/// `s` trimmed at both ends, with every inner run of whitespace replaced by
/// one space: its whitespace-separated words joined by `' '`.
pub open spec fn normalize(s: Seq<char>) -> Seq<char> {
    collapse(s, false, false)
}

/// Already normalised text: every whitespace character in it is a space
/// that stands between two non-whitespace characters.
pub open spec fn is_normal(t: Seq<char>) -> bool {
    forall|i: int|
        0 <= i < t.len() && #[trigger] is_space(t[i]) ==> t[i] == ' ' && 0 < i && i + 1 < t.len()
            && !is_space(t[i + 1])
}

/// Every space of `t` is a single space followed by a non-whitespace
/// character (a leading space is allowed).
spec fn spaced(t: Seq<char>) -> bool {
    forall|i: int|
        0 <= i < t.len() && #[trigger] is_space(t[i]) ==> t[i] == ' ' && i + 1 < t.len()
            && !is_space(t[i + 1])
}

proof fn lemma_collapse_spaced(s: Seq<char>, started: bool, gap: bool)
    ensures
        spaced(collapse(s, started, gap)),
        collapse(s, started, gap).len() > 0 && is_space(collapse(s, started, gap)[0]) ==> started
            || gap,
    decreases s.len(),
{
    if s.len() == 0 {
    } else if is_space(s[0]) {
        lemma_collapse_spaced(s.drop_first(), started, started);
    } else {
        let rest = collapse(s.drop_first(), true, false);
        lemma_collapse_spaced(s.drop_first(), true, false);
        let sep = if gap { seq![' '] } else { Seq::<char>::empty() };
        let out = sep + seq![s[0]] + rest;
        assert(out == collapse(s, started, gap));
        assert forall|i: int| 0 <= i < out.len() && #[trigger] is_space(out[i]) implies out[i]
            == ' ' && i + 1 < out.len() && !is_space(out[i + 1]) by {
            if i < sep.len() {
                assert(out[i + 1] == s[0]);
            } else if i == sep.len() {
            } else {
                assert(out[i] == rest[i - sep.len() - 1]);
                assert(out[i + 1] == rest[i - sep.len()]);
            }
        }
    }
}

proof fn lemma_spaced_fixed(t: Seq<char>)
    requires
        spaced(t),
    ensures
        collapse(t, true, false) == t,
    decreases t.len(),
{
    if t.len() > 0 {
        let rest = t.drop_first();
        assert(spaced(rest)) by {
            assert forall|i: int| 0 <= i < rest.len() && #[trigger] is_space(rest[i]) implies rest[i]
                == ' ' && i + 1 < rest.len() && !is_space(rest[i + 1]) by {
                assert(rest[i] == t[i + 1]);
            }
        }
        if is_space(t[0]) {
            let tail = rest.drop_first();
            assert(spaced(tail)) by {
                assert forall|i: int| 0 <= i < tail.len() && #[trigger] is_space(tail[i]) implies tail[i]
                    == ' ' && i + 1 < tail.len() && !is_space(tail[i + 1]) by {
                    assert(tail[i] == t[i + 2]);
                }
            }
            lemma_spaced_fixed(tail);
            assert(t[0] == ' ' && rest.len() > 0 && rest[0] == t[1] && !is_space(rest[0]));
            assert(collapse(t, true, false) == collapse(rest, true, true));
            assert(collapse(rest, true, true) == seq![' '] + seq![rest[0]] + collapse(tail, true, false));
            assert(t =~= seq![' '] + seq![rest[0]] + tail);
        } else {
            lemma_spaced_fixed(rest);
            assert(t =~= seq![t[0]] + rest);
        }
    }
}

/// What `normalize` returns is normal text.
pub proof fn lemma_normalize_is_normal(s: Seq<char>)
    ensures
        is_normal(normalize(s)),
{
    let n = normalize(s);
    lemma_collapse_spaced(s, false, false);
    assert forall|i: int| 0 <= i < n.len() && #[trigger] is_space(n[i]) implies n[i] == ' ' && 0
        < i && i + 1 < n.len() && !is_space(n[i + 1]) by {}
}

/// Normalising twice gives what normalising once gives.
pub proof fn lemma_normalize_idempotent(s: Seq<char>)
    ensures
        normalize(normalize(s)) == normalize(s),
{
    let n = normalize(s);
    lemma_collapse_spaced(s, false, false);
    lemma_spaced_fixed(n);
    if n.len() > 0 {
        assert(collapse(n, false, false) == collapse(n, true, false));
    }
}

/// Normalises `s`: trims whitespace at both ends and collapses each inner run
/// of whitespace to a single space.
pub fn normalize_text(s: &str) -> (r: String)
    ensures
        r@ == normalize(s@),
        is_normal(r@),
{
    let mut out: Vec<char> = Vec::new();
    let mut started = false;
    let mut gap = false;
    assert(s@.skip(0) =~= s@);
    for c in it: s.chars()
        invariant
            it.seq() == s@,
            out@ + collapse(s@.skip(it.index() as int), started, gap) == normalize(s@),
    {
        let ghost k = it.index() as int;
        assert(s@.skip(k).drop_first() =~= s@.skip(k + 1));
        assert(s@.skip(k)[0] == c);
        if is_whitespace(c) {
            gap = started;
        } else {
            if gap {
                out.push(' ');
            }
            out.push(c);
            started = true;
            gap = false;
        }
    }
    proof {
        lemma_normalize_is_normal(s@);
    }
    string_from_chars(&out)
}

/// Relies on `String`'s `FromIterator<char>`: the string holds the
/// characters in order.
#[verifier::external_body]
fn string_from_chars(v: &Vec<char>) -> (r: String)
    ensures
        r@ == v@,
{
    v.iter().collect()
}

} // verus!
