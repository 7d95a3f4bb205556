//! The order of texts, and lists of texts in that order.
use vstd::prelude::*;

use crate::text;

verus! {

/// Whether `a` comes before `b` or equals it, by the code points of their characters.
pub open spec fn le(a: Seq<char>, b: Seq<char>) -> bool
    decreases a.len(),
{
    if a.len() == 0 {
        true
    } else if b.len() == 0 {
        false
    } else if a[0] == b[0] {
        le(a.skip(1), b.skip(1))
    } else {
        a[0] < b[0]
    }
}

/// A list in order with one more text at its place.
pub open spec fn inserted(s: Seq<Seq<char>>, x: Seq<char>) -> Seq<Seq<char>>
    decreases s.len(),
{
    if s.len() == 0 || le(s.last(), x) {
        s.push(x)
    } else {
        inserted(s.drop_last(), x).push(s.last())
    }
}

/// The texts in order.
pub open spec fn sorted(s: Seq<Seq<char>>) -> Seq<Seq<char>>
    decreases s.len(),
{
    if s.len() == 0 {
        s
    } else {
        inserted(sorted(s.drop_last()), s.last())
    }
}

pub open spec fn in_order(s: Seq<Seq<char>>) -> bool {
    forall|i: int, j: int| 0 <= i <= j < s.len() ==> le(#[trigger] s[i], #[trigger] s[j])
}

proof fn lemma_le_reflexive(a: Seq<char>)
    ensures
        le(a, a),
    decreases a.len(),
{
    if a.len() > 0 {
        lemma_le_reflexive(a.skip(1));
    }
}

proof fn lemma_le_total(a: Seq<char>, b: Seq<char>)
    ensures
        le(a, b) || le(b, a),
    decreases a.len(),
{
    if a.len() > 0 && b.len() > 0 && a[0] == b[0] {
        lemma_le_total(a.skip(1), b.skip(1));
    }
}

proof fn lemma_le_transitive(a: Seq<char>, b: Seq<char>, c: Seq<char>)
    requires
        le(a, b),
        le(b, c),
    ensures
        le(a, c),
    decreases a.len(),
{
    if a.len() > 0 && b.len() > 0 && c.len() > 0 && a[0] == b[0] && b[0] == c[0] {
        lemma_le_transitive(a.skip(1), b.skip(1), c.skip(1));
    }
}

proof fn lemma_inserted(s: Seq<Seq<char>>, x: Seq<char>)
    requires
        in_order(s),
    ensures
        in_order(inserted(s, x)),
        inserted(s, x).to_multiset() == s.to_multiset().insert(x),
        forall|y: Seq<char>|
            (forall|i: int| 0 <= i < s.len() ==> le(#[trigger] s[i], y)) && le(x, y) ==> (forall|
                i: int,
            |
                0 <= i < inserted(s, x).len() ==> le(#[trigger] inserted(s, x)[i], y)),
    decreases s.len(),
{
    broadcast use vstd::seq_lib::to_multiset_build;

    let t = inserted(s, x);
    lemma_le_reflexive(x);
    if s.len() == 0 || le(s.last(), x) {
        assert forall|i: int, j: int| 0 <= i <= j < t.len() implies le(
            #[trigger] t[i],
            #[trigger] t[j],
        ) by {
            if j == s.len() && i < s.len() {
                assert(le(s[i], s[s.len() - 1]));
                lemma_le_transitive(s[i], s.last(), x);
            } else if j < s.len() {
                assert(le(s[i], s[j]));
            }
        }
    } else {
        let shorter = s.drop_last();
        assert(shorter.push(s.last()) =~= s);
        assert(in_order(shorter)) by {
            assert forall|i: int, j: int| 0 <= i <= j < shorter.len() implies le(
                #[trigger] shorter[i],
                #[trigger] shorter[j],
            ) by {
                assert(le(s[i], s[j]));
            }
        }
        lemma_inserted(shorter, x);
        let before = inserted(shorter, x);
        lemma_le_total(s.last(), x);
        assert forall|i: int| 0 <= i < shorter.len() implies le(#[trigger] shorter[i], s.last()) by {
            assert(le(s[i], s[s.len() - 1]));
        }
        lemma_le_reflexive(s.last());
        assert forall|i: int, j: int| 0 <= i <= j < t.len() implies le(
            #[trigger] t[i],
            #[trigger] t[j],
        ) by {
            if j < before.len() {
                assert(le(before[i], before[j]));
            } else if i < before.len() {
                assert(le(before[i], s.last()));
            }
        }
        assert(t.to_multiset() =~= s.to_multiset().insert(x));
        assert forall|y: Seq<char>|
            (forall|i: int| 0 <= i < s.len() ==> le(#[trigger] s[i], y)) && le(x, y) implies (forall|
            i: int,
        |
            0 <= i < t.len() ==> le(#[trigger] t[i], y)) by {
            assert forall|i: int| 0 <= i < shorter.len() implies le(#[trigger] shorter[i], y) by {
                assert(le(s[i], y));
            }
            assert forall|i: int| 0 <= i < t.len() implies le(#[trigger] t[i], y) by {
                if i < before.len() {
                    assert(le(before[i], y));
                } else {
                    assert(le(s[s.len() - 1], y));
                }
            }
        }
    }
}

/// Sorting puts texts in order, and neither loses nor adds one.
pub proof fn sorting_orders_and_keeps(s: Seq<Seq<char>>)
    ensures
        in_order(sorted(s)),
        sorted(s).to_multiset() == s.to_multiset(),
    decreases s.len(),
{
    broadcast use vstd::seq_lib::to_multiset_build;

    if s.len() > 0 {
        sorting_orders_and_keeps(s.drop_last());
        lemma_inserted(sorted(s.drop_last()), s.last());
        assert(s.drop_last().push(s.last()) =~= s);
    }
}

fn not_behind(a: &String, b: &String) -> (r: bool)
    ensures
        r == le(a@, b@),
{
    let x = text::chars_of(a.as_str());
    let y = text::chars_of(b.as_str());
    let mut i: usize = 0;
    assert(x@.skip(0) =~= x@);
    assert(y@.skip(0) =~= y@);
    while i < x.len() && i < y.len()
        invariant
            i <= x@.len(),
            i <= y@.len(),
            le(a@, b@) == le(x@.skip(i as int), y@.skip(i as int)),
        decreases x@.len() - i,
    {
        assert(x@.skip(i as int).skip(1) =~= x@.skip(i + 1));
        assert(y@.skip(i as int).skip(1) =~= y@.skip(i + 1));
        if x[i] != y[i] {
            return x[i] < y[i];
        }
        i += 1;
    }
    i == x.len()
}

proof fn lemma_inserted_at(s: Seq<Seq<char>>, x: Seq<char>, k: int)
    requires
        0 <= k <= s.len(),
        k == 0 || le(s[k - 1], x),
        forall|j: int| k <= j < s.len() ==> !le(#[trigger] s[j], x),
    ensures
        inserted(s, x) == s.insert(k, x),
    decreases s.len(),
{
    if k == s.len() {
        assert(s.insert(k, x) =~= s.push(x));
    } else {
        assert(!le(s[s.len() - 1], x));
        assert forall|j: int| k <= j < s.drop_last().len() implies !le(
            #[trigger] s.drop_last()[j],
            x,
        ) by {
            assert(!le(s[j], x));
        }
        lemma_inserted_at(s.drop_last(), x, k);
        assert(s.drop_last().insert(k, x).push(s.last()) =~= s.insert(k, x));
    }
}

/// The texts in order.
pub fn sort(list: &[String]) -> (out: Vec<String>)
    ensures
        text::views(out@) == sorted(text::views(list@)),
{
    let ghost all = text::views(list@);
    let mut out: Vec<String> = Vec::new();
    let mut i: usize = 0;
    assert(text::views(out@) =~= sorted(all.take(0)));
    while i < list.len()
        invariant
            i <= list@.len(),
            all == text::views(list@),
            text::views(out@) == sorted(all.take(i as int)),
        decreases list@.len() - i,
    {
        assert(all.take(i + 1).drop_last() =~= all.take(i as int));
        let ghost x = list@[i as int]@;
        assert(all.take(i + 1).last() == x);
        let mut k: usize = out.len();
        while k > 0 && !not_behind(&out[k - 1], &list[i])
            invariant
                k <= out@.len(),
                i < list@.len(),
                x == list@[i as int]@,
                forall|j: int| k <= j < out@.len() ==> !le(#[trigger] text::views(out@)[j], x),
            decreases k,
        {
            k -= 1;
        }
        proof {
            lemma_inserted_at(text::views(out@), x, k as int);
        }
        let ghost before = text::views(out@);
        out.insert(k, list[i].clone());
        assert(text::views(out@) =~= before.insert(k as int, x));
        i += 1;
    }
    assert(all.take(i as int) =~= all);
    out
}

/// Texts are in the order of their characters: a text stands before another one if it
/// begins it, or if it has the smaller character where the two first differ.
pub proof fn texts_are_ordered_by_their_first_difference(a: Seq<char>, b: Seq<char>)
    ensures
        le(a, b) <==> a.is_prefix_of(b) || exists|i: int|
            0 <= i < a.len() && i < b.len() && a.take(i) == b.take(i) && (#[trigger] a[i]) < b[i],
    decreases a.len(),
{
    let differs = exists|i: int|
        0 <= i < a.len() && i < b.len() && a.take(i) == b.take(i) && (#[trigger] a[i]) < b[i];
    if a.len() == 0 {
        assert(a.is_prefix_of(b));
    } else if b.len() == 0 {
    } else if a[0] == b[0] {
        let x = a.skip(1);
        let y = b.skip(1);
        texts_are_ordered_by_their_first_difference(x, y);
        if x.is_prefix_of(y) {
            assert forall|i: int| 0 <= i < a.len() implies a[i] == b[i] by {
                if i > 0 {
                    assert(x[i - 1] == y[i - 1]);
                }
            }
        }
        if a.is_prefix_of(b) {
            assert(x.is_prefix_of(y));
        }
        if exists|i: int|
            0 <= i < x.len() && i < y.len() && x.take(i) == y.take(i) && (#[trigger] x[i]) < y[i] {
            let i = choose|i: int|
                0 <= i < x.len() && i < y.len() && x.take(i) == y.take(i) && (#[trigger] x[i]) < y[i];
            assert(a.take(i + 1) =~= seq![a[0]] + x.take(i));
            assert(b.take(i + 1) =~= seq![b[0]] + y.take(i));
            assert(a[i + 1] < b[i + 1]);
        }
        if differs {
            let i = choose|i: int|
                0 <= i < a.len() && i < b.len() && a.take(i) == b.take(i) && (#[trigger] a[i]) < b[i];
            assert(i > 0);
            assert(x.take(i - 1) =~= a.take(i).skip(1));
            assert(y.take(i - 1) =~= b.take(i).skip(1));
            assert(x[i - 1] < y[i - 1]);
        }
    } else {
        if a.is_prefix_of(b) {
            assert(a[0] == b[0]);
        }
        if differs {
            let i = choose|i: int|
                0 <= i < a.len() && i < b.len() && a.take(i) == b.take(i) && (#[trigger] a[i]) < b[i];
            if i > 0 {
                assert(a.take(i)[0] == b.take(i)[0]);
            }
        }
        if a[0] < b[0] {
            assert(a.take(0) =~= b.take(0));
            assert(a[0] < b[0]);
        }
    }
}

} // verus!
