//! Rankings: the order that a stable sort gives to items that a strict
//! order compares.

use vstd::prelude::*;

verus! {

broadcast use vstd::seq_lib::group_to_multiset_ensures;

/// `before` orders every earlier item of `s` before every later one.
pub open spec fn ordered_by<A>(s: Seq<A>, before: spec_fn(A, A) -> bool) -> bool {
    forall|i: int, j: int| 0 <= i < j < s.len() ==> before(s[i], s[j])
}

/// No two items come each before the other.
pub open spec fn asymmetric<A>(before: spec_fn(A, A) -> bool) -> bool {
    forall|a: A, b: A| #[trigger] before(a, b) ==> !before(b, a)
}

/// `r` holds the items of `items`, each as often, ordered by `before`.
pub open spec fn is_ranking<A>(items: Seq<A>, r: Seq<A>, before: spec_fn(A, A) -> bool) -> bool {
    r.to_multiset() == items.to_multiset() && ordered_by(r, before)
}

/// Two rankings of the same items by an asymmetric order are the same
/// sequence: a ranking is determined by its items.
pub proof fn lemma_ranking_unique<A>(
    items: Seq<A>,
    r1: Seq<A>,
    r2: Seq<A>,
    before: spec_fn(A, A) -> bool,
)
    requires
        asymmetric(before),
        is_ranking(items, r1, before),
        is_ranking(items, r2, before),
    ensures
        r1 == r2,
    decreases r1.len(),
{
    lemma_same_items_same_order(r1, r2, before);
}

proof fn lemma_same_items_same_order<A>(r1: Seq<A>, r2: Seq<A>, before: spec_fn(A, A) -> bool)
    requires
        asymmetric(before),
        r1.to_multiset() == r2.to_multiset(),
        ordered_by(r1, before),
        ordered_by(r2, before),
    ensures
        r1 == r2,
    decreases r1.len(),
{
    vstd::seq_lib::to_multiset_len(r1);
    vstd::seq_lib::to_multiset_len(r2);
    assert(r1.len() == r2.len());
    if r1.len() > 0 {
        let a = r1[0];
        let b = r2[0];
        assert(r1.to_multiset().count(a) > 0);
        assert(r2.contains(a));
        assert(r1.contains(b)) by {
            assert(r2.to_multiset().count(b) > 0);
        }
        let k = choose|k: int| 0 <= k < r2.len() && r2[k] == a;
        let m = choose|m: int| 0 <= m < r1.len() && r1[m] == b;
        if k > 0 && m > 0 {
            assert(before(b, a));
            assert(before(a, b));
            assert(false);
        }
        assert(a == b);
        let t1 = r1.drop_first();
        let t2 = r2.drop_first();
        assert(r1 == seq![a] + t1);
        assert(r2 == seq![a] + t2);
        assert(t1.to_multiset() == r1.to_multiset().remove(a)) by {
            vstd::seq_lib::to_multiset_remove(r1, 0);
            assert(r1.remove(0) == t1);
        }
        assert(t2.to_multiset() == r2.to_multiset().remove(a)) by {
            vstd::seq_lib::to_multiset_remove(r2, 0);
            assert(r2.remove(0) == t2);
        }
        assert(ordered_by(t1, before)) by {
            assert forall|i: int, j: int| 0 <= i < j < t1.len() implies before(t1[i], t1[j]) by {
                assert(t1[i] == r1[i + 1] && t1[j] == r1[j + 1]);
            }
        }
        assert(ordered_by(t2, before)) by {
            assert forall|i: int, j: int| 0 <= i < j < t2.len() implies before(t2[i], t2[j]) by {
                assert(t2[i] == r2[i + 1] && t2[j] == r2[j + 1]);
            }
        }
        lemma_same_items_same_order(t1, t2, before);
    } else {
        assert(r1 =~= r2);
    }
}

} // verus!
