//! Sums of a measure over the items of a sequence.

use vstd::prelude::*;

verus! {

/// The sum of `f` over the items of `s`.
pub open spec fn seq_sum<A>(s: Seq<A>, f: spec_fn(A) -> nat) -> nat
    decreases s.len(),
{
    if s.len() == 0 {
        0
    } else {
        seq_sum(s.drop_last(), f) + f(s.last())
    }
}

/// The sum over two sequences one after the other.
pub proof fn lemma_seq_sum_concat<A>(a: Seq<A>, b: Seq<A>, f: spec_fn(A) -> nat)
    ensures
        seq_sum(a + b, f) == seq_sum(a, f) + seq_sum(b, f),
    decreases b.len(),
{
    if b.len() == 0 {
        assert(a + b == a);
    } else {
        lemma_seq_sum_concat(a, b.drop_last(), f);
        assert((a + b).drop_last() == a + b.drop_last());
        assert((a + b).last() == b.last());
    }
}

/// The sum over one item.
pub proof fn lemma_seq_sum_single<A>(x: A, f: spec_fn(A) -> nat)
    ensures
        seq_sum(seq![x], f) == f(x),
{
    assert(seq![x].drop_last() =~= Seq::<A>::empty());
    assert(seq_sum(Seq::<A>::empty(), f) == 0);
    assert(seq![x].last() == x);
}

/// The sum after replacing one item.
pub proof fn lemma_seq_sum_update<A>(s: Seq<A>, i: int, v: A, f: spec_fn(A) -> nat)
    requires
        0 <= i < s.len(),
    ensures
        seq_sum(s.update(i, v), f) + f(s[i]) == seq_sum(s, f) + f(v),
{
    let a = s.take(i);
    let b = s.skip(i + 1);
    assert(s == a + seq![s[i]] + b);
    assert(s.update(i, v) == a + seq![v] + b);
    lemma_seq_sum_concat(a + seq![s[i]], b, f);
    lemma_seq_sum_concat(a, seq![s[i]], f);
    lemma_seq_sum_concat(a + seq![v], b, f);
    lemma_seq_sum_concat(a, seq![v], f);
    assert(seq![s[i]].drop_last() =~= Seq::<A>::empty());
    assert(seq![v].drop_last() =~= Seq::<A>::empty());
}

/// The sum after taking out one item.
pub proof fn lemma_seq_sum_remove<A>(s: Seq<A>, i: int, f: spec_fn(A) -> nat)
    requires
        0 <= i < s.len(),
    ensures
        seq_sum(s.remove(i), f) + f(s[i]) == seq_sum(s, f),
{
    let a = s.take(i);
    let b = s.skip(i + 1);
    assert(s == a + seq![s[i]] + b);
    assert(s.remove(i) == a + b);
    lemma_seq_sum_concat(a + seq![s[i]], b, f);
    lemma_seq_sum_concat(a, seq![s[i]], f);
    lemma_seq_sum_concat(a, b, f);
    lemma_seq_sum_single(s[i], f);
}

/// The sum with one more item in front.
pub proof fn lemma_seq_sum_cons<A>(x: A, s: Seq<A>, f: spec_fn(A) -> nat)
    ensures
        seq_sum(seq![x] + s, f) == f(x) + seq_sum(s, f),
{
    lemma_seq_sum_concat(seq![x], s, f);
    lemma_seq_sum_single(x, f);
}

} // verus!
