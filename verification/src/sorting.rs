//! Stable sorting, stated as the insertion of one item after the other.
use crate::text::{chars_of, texts};
use vstd::prelude::*;

verus! {

/// `s`, which is in order, with `x` put behind everything that may stand before it.
pub open spec fn insert_by<A>(s: Seq<A>, x: A, le: spec_fn(A, A) -> bool) -> Seq<A>
    decreases s.len(),
{
    if s.len() == 0 || le(s.last(), x) {
        s.push(x)
    } else {
        insert_by(s.drop_last(), x, le).push(s.last())
    }
}

/// `s` in the order `le`; items of which each may stand before the other stay as they were.
pub open spec fn sorted_by<A>(s: Seq<A>, le: spec_fn(A, A) -> bool) -> Seq<A>
    decreases s.len(),
{
    if s.len() == 0 {
        Seq::empty()
    } else {
        insert_by(sorted_by(s.drop_last(), le), s.last(), le)
    }
}

/// Whether `s` is in the order `le`.
pub open spec fn in_order<A>(s: Seq<A>, le: spec_fn(A, A) -> bool) -> bool {
    forall|i: int, j: int| 0 <= i < j < s.len() ==> le(#[trigger] s[i], #[trigger] s[j])
}

/// Whether `le` compares any two items and is transitive.
pub open spec fn is_order<A>(le: spec_fn(A, A) -> bool) -> bool {
    &&& forall|a: A, b: A| #[trigger] le(a, b) || le(b, a)
    &&& forall|a: A, b: A, c: A| #[trigger] le(a, b) && #[trigger] le(b, c) ==> le(a, c)
}

/// Where an item goes: behind the last item that may stand before it.
pub proof fn lemma_insert_at<A>(s: Seq<A>, x: A, le: spec_fn(A, A) -> bool, k: int)
    requires
        0 <= k <= s.len(),
        k > 0 ==> le(s[k - 1], x),
        forall|i: int| k <= i < s.len() ==> !le(#[trigger] s[i], x),
    ensures
        insert_by(s, x, le) == s.insert(k, x),
    decreases s.len(),
{
    if k == s.len() {
        assert(s.insert(k, x) =~= s.push(x));
        if s.len() > 0 {
            assert(s.last() == s[k - 1]);
        }
    } else {
        let front = s.drop_last();
        assert(!le(s[s.len() - 1], x));
        assert forall|i: int| k <= i < front.len() implies !le(#[trigger] front[i], x) by {
            assert(front[i] == s[i]);
        }
        lemma_insert_at(front, x, le, k);
        assert(front.insert(k, x).push(s.last()) =~= s.insert(k, x));
    }
}

/// Inserting keeps the order and adds just the one item.
proof fn lemma_insert_keeps_order<A>(s: Seq<A>, x: A, le: spec_fn(A, A) -> bool)
    requires
        is_order(le),
        in_order(s, le),
    ensures
        in_order(insert_by(s, x, le), le),
        insert_by(s, x, le).to_multiset() == s.to_multiset().insert(x),
        insert_by(s, x, le).len() == s.len() + 1,
    decreases s.len(),
{
    broadcast use vstd::seq_lib::group_to_multiset_ensures;

    if s.len() == 0 || le(s.last(), x) {
        let t = s.push(x);
        assert forall|i: int, j: int| 0 <= i < j < t.len() implies le(#[trigger] t[i], #[trigger] t[j]) by {
            if j == s.len() && i < s.len() - 1 {
                assert(le(s[i], s[s.len() - 1]));
            }
        }
    } else {
        let front = s.drop_last();
        assert forall|i: int, j: int| 0 <= i < j < front.len() implies le(
            #[trigger] front[i],
            #[trigger] front[j],
        ) by {
            assert(front[i] == s[i] && front[j] == s[j]);
        }
        lemma_insert_keeps_order(front, x, le);
        let mid = insert_by(front, x, le);
        let t = mid.push(s.last());
        assert(s =~= front.push(s.last()));
        assert(mid.to_multiset() == front.to_multiset().insert(x));
        assert(t.to_multiset() =~= s.to_multiset().insert(x));
        assert forall|i: int, j: int| 0 <= i < j < t.len() implies le(#[trigger] t[i], #[trigger] t[j]) by {
            if j == mid.len() {
                assert(mid.to_multiset().contains(mid[i])) by {
                    assert(mid.contains(mid[i]));
                }
                if mid[i] != x {
                    assert(front.to_multiset().contains(mid[i]));
                    assert(front.contains(mid[i]));
                    let k = choose|k: int| 0 <= k < front.len() && front[k] == mid[i];
                    assert(le(s[k], s[s.len() - 1]));
                } else {
                    assert(le(x, s.last()));
                }
            }
        }
    }
}

/// Sorting puts the items in order and neither adds nor drops one.
pub proof fn law_sorting_orders<A>(s: Seq<A>, le: spec_fn(A, A) -> bool)
    requires
        is_order(le),
    ensures
        in_order(sorted_by(s, le), le),
        sorted_by(s, le).to_multiset() == s.to_multiset(),
        sorted_by(s, le).len() == s.len(),
    decreases s.len(),
{
    broadcast use vstd::seq_lib::group_to_multiset_ensures;

    if s.len() > 0 {
        law_sorting_orders(s.drop_last(), le);
        lemma_insert_keeps_order(sorted_by(s.drop_last(), le), s.last(), le);
        assert(s =~= s.drop_last().push(s.last()));
    }
}

/// Sorting leaves what is in order as it is.
pub proof fn law_sorted_stays<A>(s: Seq<A>, le: spec_fn(A, A) -> bool)
    requires
        in_order(s, le),
    ensures
        sorted_by(s, le) == s,
    decreases s.len(),
{
    if s.len() > 0 {
        let front = s.drop_last();
        assert forall|i: int, j: int| 0 <= i < j < front.len() implies le(
            #[trigger] front[i],
            #[trigger] front[j],
        ) by {
            assert(front[i] == s[i] && front[j] == s[j]);
        }
        law_sorted_stays(front, le);
        if front.len() > 0 {
            assert(le(s[s.len() - 2], s[s.len() - 1]));
        }
        assert(front.push(s.last()) =~= s);
    } else {
        assert(sorted_by(s, le) =~= s);
    }
}

/// The order of texts: by their characters, the shorter of two that begin alike first.
pub open spec fn text_le(a: Seq<char>, b: Seq<char>) -> bool
    decreases a.len(),
{
    if a.len() == 0 {
        true
    } else if b.len() == 0 {
        false
    } else if a[0] != b[0] {
        a[0] < b[0]
    } else {
        text_le(a.drop_first(), b.drop_first())
    }
}

/// Whether `a` may stand before `b`.
pub fn text_at_most(a: &str, b: &str) -> (r: bool)
    ensures
        r == text_le(a@, b@),
{
    let x = chars_of(a);
    let y = chars_of(b);
    let mut i: usize = 0;
    assert(x@.skip(0) =~= x@);
    assert(y@.skip(0) =~= y@);
    while i < x.len() && i < y.len()
        invariant
            i <= x@.len(),
            i <= y@.len(),
            x@ == a@,
            y@ == b@,
            text_le(x@.skip(i as int), y@.skip(i as int)) == text_le(x@, y@),
        decreases x@.len() - i,
    {
        if x[i] != y[i] {
            return x[i] < y[i];
        }
        assert(x@.skip(i as int).drop_first() =~= x@.skip(i + 1));
        assert(y@.skip(i as int).drop_first() =~= y@.skip(i + 1));
        i += 1;
    }
    i == x.len()
}

/// The texts in order.
pub fn sort_texts(v: Vec<String>) -> (r: Vec<String>)
    ensures
        texts(r@) == sorted_by(texts(v@), |a: Seq<char>, b: Seq<char>| text_le(a, b)),
{
    let ghost le = |a: Seq<char>, b: Seq<char>| text_le(a, b);
    let ghost all = texts(v@);
    let mut r: Vec<String> = Vec::new();
    let mut i: usize = 0;
    assert(all.take(0) =~= Seq::empty());
    assert(texts(r@) =~= Seq::empty());
    while i < v.len()
        invariant
            i <= v@.len(),
            all == texts(v@),
            le == (|a: Seq<char>, b: Seq<char>| text_le(a, b)),
            texts(r@) == sorted_by(all.take(i as int), le),
        decreases v@.len() - i,
    {
        let ghost s = texts(r@);
        let mut k: usize = r.len();
        while k > 0 && !text_at_most(r[k - 1].as_str(), v[i].as_str())
            invariant
                i < v@.len(),
                k <= r@.len(),
                s == texts(r@),
                le == (|a: Seq<char>, b: Seq<char>| text_le(a, b)),
                forall|j: int| k <= j < s.len() ==> !le(#[trigger] s[j], v@[i as int]@),
            decreases k,
        {
            k -= 1;
        }
        proof {
            assert(all.take(i + 1).drop_last() =~= all.take(i as int));
            lemma_insert_at(s, v@[i as int]@, le, k as int);
        }
        r.insert(k, v[i].clone());
        assert(texts(r@) =~= s.insert(k as int, v@[i as int]@));
        i += 1;
    }
    assert(all.take(i as int) =~= all);
    r
}

/// The order of texts compares any two and is transitive.
pub proof fn law_text_order()
    ensures
        is_order(|a: Seq<char>, b: Seq<char>| text_le(a, b)),
{
    let le = |a: Seq<char>, b: Seq<char>| text_le(a, b);
    assert forall|a: Seq<char>, b: Seq<char>| #[trigger] le(a, b) || le(b, a) by {
        lemma_text_total(a, b);
    }
    assert forall|a: Seq<char>, b: Seq<char>, c: Seq<char>| #[trigger] le(a, b) && #[trigger] le(
        b,
        c,
    ) implies le(a, c) by {
        lemma_text_transitive(a, b, c);
    }
}

proof fn lemma_text_total(a: Seq<char>, b: Seq<char>)
    ensures
        text_le(a, b) || text_le(b, a),
    decreases a.len(),
{
    if a.len() > 0 && b.len() > 0 && a[0] == b[0] {
        lemma_text_total(a.drop_first(), b.drop_first());
    }
}

proof fn lemma_text_transitive(a: Seq<char>, b: Seq<char>, c: Seq<char>)
    requires
        text_le(a, b),
        text_le(b, c),
    ensures
        text_le(a, c),
    decreases a.len(),
{
    if a.len() > 0 && b.len() > 0 && c.len() > 0 && a[0] == b[0] && b[0] == c[0] {
        lemma_text_transitive(a.drop_first(), b.drop_first(), c.drop_first());
    }
}

/// Whether two things stand at the same place of an order.
pub open spec fn tied<A>(le: spec_fn(A, A) -> bool, e: A) -> spec_fn(A) -> bool {
    |x: A| le(x, e) && le(e, x)
}

/// Sorting keeps the order of what is tied.
pub proof fn law_ties_keep_their_order<A>(s: Seq<A>, le: spec_fn(A, A) -> bool, e: A)
    requires
        is_order(le),
    ensures
        sorted_by(s, le).filter(tied(le, e)) == s.filter(tied(le, e)),
    decreases s.len(),
{
    reveal(Seq::filter);
    if s.len() > 0 {
        law_ties_keep_their_order(s.drop_last(), le, e);
        lemma_insert_keeps_ties(sorted_by(s.drop_last(), le), s.last(), le, e);
    }
}

proof fn lemma_insert_keeps_ties<A>(s: Seq<A>, x: A, le: spec_fn(A, A) -> bool, e: A)
    requires
        is_order(le),
    ensures
        insert_by(s, x, le).filter(tied(le, e)) == if tied(le, e)(x) {
            s.filter(tied(le, e)).push(x)
        } else {
            s.filter(tied(le, e))
        },
    decreases s.len(),
{
    reveal(Seq::filter);
    let r = insert_by(s, x, le);
    if s.len() == 0 || le(s.last(), x) {
        assert(r.drop_last() =~= s);
    } else {
        lemma_insert_keeps_ties(s.drop_last(), x, le, e);
        assert(r.drop_last() =~= insert_by(s.drop_last(), x, le));
        if tied(le, e)(x) && tied(le, e)(s.last()) {
            assert(le(s.last(), e) && le(e, x));
        }
    }
}

/// Texts are ordered as in a dictionary: where they first differ the lesser character comes first,
/// and a beginning of a text comes before it.
pub proof fn law_texts_are_ordered_by_character(
    front: Seq<char>,
    a: char,
    x: Seq<char>,
    b: char,
    y: Seq<char>,
)
    requires
        a < b,
    ensures
        text_le(front + seq![a] + x, front + seq![b] + y),
        !text_le(front + seq![b] + y, front + seq![a] + x),
        text_le(front, front + x),
        x.len() > 0 ==> !text_le(front + x, front),
    decreases front.len(),
{
    let p = front + seq![a] + x;
    let q = front + seq![b] + y;
    if front.len() > 0 {
        let rest = front.drop_first();
        assert(p.drop_first() =~= rest + seq![a] + x);
        assert(q.drop_first() =~= rest + seq![b] + y);
        assert((front + x).drop_first() =~= rest + x);
        law_texts_are_ordered_by_character(rest, a, x, b, y);
    }
}

} // verus!
