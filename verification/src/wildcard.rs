//! Patterns with `*` and `?`.
use vstd::prelude::*;

verus! {

/// Whether the bytes of a text match a pattern, in which `*` stands for any bytes and
/// `?` for any one byte.
pub open spec fn matches_bytes(pattern: Seq<u8>, text: Seq<u8>) -> bool
    decreases pattern.len(), text.len(),
{
    if pattern.len() == 0 {
        text.len() == 0
    } else if pattern[0] == 0x2A {
        matches_bytes(pattern.skip(1), text) || (text.len() > 0 && matches_bytes(
            pattern,
            text.skip(1),
        ))
    } else {
        text.len() > 0 && (pattern[0] == 0x3F || pattern[0] == text[0]) && matches_bytes(
            pattern.skip(1),
            text.skip(1),
        )
    }
}

/// Whether a text matches a pattern.
pub open spec fn wild(pattern: Seq<char>, text: Seq<char>) -> bool {
    matches_bytes(vstd::utf8::encode_utf8(pattern), vstd::utf8::encode_utf8(text))
}

fn match_from(pattern: &[u8], p: usize, text: &[u8], t: usize) -> (r: bool)
    requires
        p <= pattern@.len(),
        t <= text@.len(),
    ensures
        r == matches_bytes(pattern@.skip(p as int), text@.skip(t as int)),
    decreases pattern@.len() - p, text@.len() - t,
{
    if p == pattern.len() {
        return t == text.len();
    }
    assert(pattern@.skip(p as int).skip(1) =~= pattern@.skip(p + 1));
    if t < text.len() {
        assert(text@.skip(t as int).skip(1) =~= text@.skip(t + 1));
    }
    if pattern[p] == 0x2A {
        return match_from(pattern, p + 1, text, t) || (t < text.len() && match_from(
            pattern,
            p,
            text,
            t + 1,
        ));
    }
    if t < text.len() && (pattern[p] == 0x3F || pattern[p] == text[t]) {
        return match_from(pattern, p + 1, text, t + 1);
    }
    false
}

/// Whether the text matches the pattern.
pub fn wildcard_match(pattern: &str, text: &str) -> (r: bool)
    ensures
        r == wild(pattern@, text@),
{
    let p = pattern.as_bytes();
    let t = text.as_bytes();
    assert(p@.skip(0) =~= p@);
    assert(t@.skip(0) =~= t@);
    match_from(p, 0, t, 0)
}

proof fn lemma_literal(pattern: Seq<u8>, text: Seq<u8>)
    requires
        !pattern.contains(0x2A),
        !pattern.contains(0x3F),
    ensures
        matches_bytes(pattern, text) == (pattern == text),
    decreases pattern.len(),
{
    if pattern.len() == 0 {
        assert(text.len() == 0 ==> text =~= pattern);
    } else {
        assert(pattern.contains(pattern[0]));
        assert forall|i: int| 0 <= i < pattern.skip(1).len() implies pattern.skip(1)[i] != 0x2A
            && pattern.skip(1)[i] != 0x3F by {
            assert(pattern.contains(pattern[i + 1]));
        }
        if text.len() > 0 {
            lemma_literal(pattern.skip(1), text.skip(1));
            assert(seq![pattern[0]] + pattern.skip(1) =~= pattern);
            assert(seq![text[0]] + text.skip(1) =~= text);
        }
    }
}

/// A pattern whose bytes hold neither `*` nor `?` matches the text that it is, and no
/// other.
pub proof fn a_plain_pattern_matches_itself_only(pattern: Seq<char>, text: Seq<char>)
    requires
        !vstd::utf8::encode_utf8(pattern).contains(0x2A),
        !vstd::utf8::encode_utf8(pattern).contains(0x3F),
    ensures
        wild(pattern, text) == (pattern == text),
{
    lemma_literal(vstd::utf8::encode_utf8(pattern), vstd::utf8::encode_utf8(text));
    vstd::utf8::encode_utf8_decode_utf8(pattern);
    vstd::utf8::encode_utf8_decode_utf8(text);
}

proof fn lemma_star(text: Seq<u8>)
    ensures
        matches_bytes(seq![0x2Au8], text),
    decreases text.len(),
{
    let p = seq![0x2Au8];
    assert(p.skip(1) =~= seq![]);
    if text.len() > 0 {
        lemma_star(text.skip(1));
    } else {
        assert(matches_bytes(p.skip(1), text));
    }
}

/// The pattern `*` matches every text.
pub proof fn a_star_matches_every_text(text: Seq<char>)
    ensures
        wild("*"@, text),
{
    reveal_strlit("*");
    let s = "*"@;
    reveal_with_fuel(vstd::utf8::encode_utf8, 2);
    assert(s.drop_first() =~= seq![]);
    assert(vstd::utf8::encode_scalar(0x2A) =~= seq![0x2Au8]) by {
        assert(0x2Au32 & 0x7F == 0x2A) by (bit_vector);
        assert((0x2Au32 & 0x7F) as u8 == 0x2Au8) by (bit_vector);
    }
    assert(vstd::utf8::encode_utf8(s) =~= seq![0x2Au8]);
    lemma_star(vstd::utf8::encode_utf8(text));
}

/// A text matches itself as a pattern: a `*` in it may stand for a `*`, and a `?` for a
/// `?`.
pub proof fn a_text_matches_itself(text: Seq<char>)
    ensures
        wild(text, text),
{
    lemma_itself(vstd::utf8::encode_utf8(text));
}

proof fn lemma_itself(text: Seq<u8>)
    ensures
        matches_bytes(text, text),
    decreases text.len(),
{
    if text.len() > 0 {
        lemma_itself(text.skip(1));
        if text[0] == 0x2A {
            let rest = text.skip(1);
            reveal_with_fuel(matches_bytes, 2);
            assert(matches_bytes(rest, rest));
            assert(matches_bytes(text, rest));
        }
    }
}

/// Whether a pattern has neither a star nor a question mark.
pub open spec fn plain(pattern: Seq<u8>) -> bool {
    forall|i: int| 0 <= i < pattern.len() ==> #[trigger] pattern[i] != 0x2A && pattern[i] != 0x3F
}

proof fn lemma_front(a: Seq<u8>, rest: Seq<u8>, text: Seq<u8>)
    requires
        plain(a),
    ensures
        matches_bytes(a + rest, text) <==> a.is_prefix_of(text) && matches_bytes(
            rest,
            text.skip(a.len() as int),
        ),
    decreases a.len(),
{
    if a.len() == 0 {
        assert(a + rest =~= rest);
        assert(text.skip(0) =~= text);
    } else {
        let b = a.skip(1);
        assert(a[0] != 0x2A && a[0] != 0x3F);
        assert forall|i: int| 0 <= i < b.len() implies #[trigger] b[i] != 0x2A && b[i] != 0x3F by {
            assert(a[i + 1] != 0x2A);
        }
        assert((a + rest).skip(1) =~= b + rest);
        if text.len() > 0 {
            lemma_front(b, rest, text.skip(1));
            if a.len() <= text.len() {
                assert(text.skip(1).skip(b.len() as int) =~= text.skip(a.len() as int));
            }
            if a.is_prefix_of(text) {
                assert(b.is_prefix_of(text.skip(1)));
            }
            if a[0] == text[0] && b.is_prefix_of(text.skip(1)) {
                assert forall|i: int| 0 <= i < a.len() implies a[i] == text[i] by {
                    if i > 0 {
                        assert(b[i - 1] == text.skip(1)[i - 1]);
                    }
                }
            }
        }
    }
}

proof fn lemma_star_then(b: Seq<u8>, text: Seq<u8>)
    requires
        plain(b),
    ensures
        matches_bytes(seq![0x2Au8] + b, text) <==> b.is_suffix_of(text),
    decreases text.len(),
{
    let pattern = seq![0x2Au8] + b;
    assert(pattern.skip(1) =~= b);
    lemma_front(b, seq![], text);
    assert(b + seq![] =~= b);
    if matches_bytes(b, text) {
        assert(text =~= b);
    }
    if text.len() == b.len() && b.is_suffix_of(text) {
        assert(text =~= b);
        assert(b.is_prefix_of(text));
        assert(text.skip(b.len() as int) =~= seq![]);
    }
    if text.len() > 0 {
        let rest = text.skip(1);
        lemma_star_then(b, rest);
        if b.is_suffix_of(rest) {
            assert forall|i: int| 0 <= i < b.len() implies b[i] == #[trigger] text[text.len()
                - b.len() + i] by {
                assert(b[i] == rest[rest.len() - b.len() + i]);
            }
        }
        if b.is_suffix_of(text) && b.len() < text.len() {
            assert forall|i: int| 0 <= i < b.len() implies b[i] == #[trigger] rest[rest.len()
                - b.len() + i] by {
                assert(b[i] == text[text.len() - b.len() + i]);
            }
        }
    }
}

/// A star stands for any run of bytes, the empty one too: a pattern with one star matches
/// exactly the texts that begin with what stands before it and end with what stands
/// behind it, without the two overlapping. A question mark stands for exactly one byte.
pub proof fn a_star_stands_for_any_run(a: Seq<u8>, b: Seq<u8>, text: Seq<u8>)
    requires
        plain(a),
        plain(b),
    ensures
        matches_bytes(a + (seq![0x2Au8] + b), text) <==> text.len() >= a.len() + b.len()
            && a.is_prefix_of(text) && b.is_suffix_of(text),
        matches_bytes(a + (seq![0x3Fu8] + b), text) <==> text.len() == a.len() + 1 + b.len()
            && a.is_prefix_of(text) && b.is_suffix_of(text),
{
    let rest = text.skip(a.len() as int);
    lemma_front(a, seq![0x2Au8] + b, text);
    lemma_front(a, seq![0x3Fu8] + b, text);
    if a.len() <= text.len() {
        lemma_star_then(b, rest);
        if text.len() >= a.len() + b.len() {
            assert forall|i: int| 0 <= i < b.len() implies #[trigger] rest[rest.len() - b.len()
                + i] == text[text.len() - b.len() + i] by {}
            if b.is_suffix_of(text) {
                assert forall|i: int| 0 <= i < b.len() implies b[i] == #[trigger] rest[rest.len()
                    - b.len() + i] by {
                    assert(b[i] == text[text.len() - b.len() + i]);
                }
            }
            if b.is_suffix_of(rest) {
                assert forall|i: int| 0 <= i < b.len() implies b[i] == #[trigger] text[text.len()
                    - b.len() + i] by {
                    assert(b[i] == rest[rest.len() - b.len() + i]);
                }
            }
        }
        let pattern = seq![0x3Fu8] + b;
        assert(pattern.skip(1) =~= b);
        if rest.len() > 0 {
            let more = rest.skip(1);
            lemma_front(b, seq![], more);
            assert(b + seq![] =~= b);
            assert(matches_bytes(b, more) <==> b =~= more) by {
                if matches_bytes(b, more) {
                    assert(more =~= b);
                }
                if b =~= more {
                    assert(b.is_prefix_of(more));
                    assert(more.skip(b.len() as int) =~= seq![]);
                }
            }
            if b =~= more {
                assert forall|i: int| 0 <= i < b.len() implies b[i] == #[trigger] text[text.len()
                    - b.len() + i] by {
                    assert(b[i] == more[i]);
                }
            }
            if text.len() == a.len() + 1 + b.len() && b.is_suffix_of(text) {
                assert forall|i: int| 0 <= i < b.len() implies b[i] == #[trigger] more[i] by {
                    assert(b[i] == text[text.len() - b.len() + i]);
                }
                assert(b =~= more);
            }
        }
    }
}

} // verus!
