//! General facts about `Seq::filter` that the scanning and matching
//! modules share: how a filter grows element by element, that it only
//! depends on how the predicate behaves on the sequence at hand, and
//! that its result is an order-preserving subsequence of its input.

use vstd::prelude::*;

verus! {

/// Filtering a sequence extended by one element keeps the old result and
/// appends the new element exactly when the predicate accepts it.
pub proof fn lemma_filter_push<A>(s: Seq<A>, x: A, pred: spec_fn(A) -> bool)
    ensures
        s.push(x).filter(pred) == if pred(x) {
            s.filter(pred).push(x)
        } else {
            s.filter(pred)
        },
{
    reveal(Seq::filter);
    assert(s.push(x).drop_last() =~= s);
}

/// Two predicates that agree on every element of `s` filter `s` alike.
pub proof fn lemma_filter_congruence<A>(s: Seq<A>, p: spec_fn(A) -> bool, q: spec_fn(A) -> bool)
    requires
        forall|i: int| 0 <= i < s.len() ==> p(s[i]) == q(s[i]),
    ensures
        s.filter(p) == s.filter(q),
    decreases s.len(),
{
    reveal(Seq::filter);
    if s.len() > 0 {
        lemma_filter_congruence(s.drop_last(), p, q);
    }
}

/// `sub` can be read out of `full` left to right: deleting elements of
/// `full`, never reordering, yields `sub`.
pub open spec fn subsequence_of<A>(sub: Seq<A>, full: Seq<A>) -> bool
    decreases full.len(), sub.len(),
{
    if sub.len() == 0 {
        true
    } else if full.len() == 0 {
        false
    } else if sub.last() == full.last() {
        subsequence_of(sub.drop_last(), full.drop_last())
    } else {
        subsequence_of(sub, full.drop_last())
    }
}

/// A subsequence of `full` is one of `full` with an element appended.
pub proof fn lemma_subsequence_extend<A>(sub: Seq<A>, full: Seq<A>, x: A)
    requires
        subsequence_of(sub, full),
    ensures
        subsequence_of(sub, full.push(x)),
    decreases full.len(), 1int,
{
    if sub.len() > 0 {
        assert(full.push(x).last() == x);
        assert(full.push(x).drop_last() =~= full);
        if sub.last() == x {
            lemma_subsequence_drop(sub, full);
        }
    }
}

/// Shortening a subsequence at its end keeps it a subsequence.
pub proof fn lemma_subsequence_drop<A>(sub: Seq<A>, full: Seq<A>)
    requires
        subsequence_of(sub, full),
        sub.len() > 0,
    ensures
        subsequence_of(sub.drop_last(), full),
    decreases full.len(), 0int,
{
    assert(full.len() > 0);
    if sub.last() == full.last() {
        lemma_subsequence_extend(sub.drop_last(), full.drop_last(), full.last());
        assert(full.drop_last().push(full.last()) =~= full);
    } else {
        lemma_subsequence_drop(sub, full.drop_last());
        lemma_subsequence_extend(sub.drop_last(), full.drop_last(), full.last());
        assert(full.drop_last().push(full.last()) =~= full);
    }
}

/// What a filter keeps is an order-preserving subsequence of its input.
pub proof fn lemma_filter_subsequence<A>(s: Seq<A>, pred: spec_fn(A) -> bool)
    ensures
        subsequence_of(s.filter(pred), s),
    decreases s.len(),
{
    reveal(Seq::filter);
    if s.len() == 0 {
    } else {
        let prev = s.drop_last();
        lemma_filter_subsequence(prev, pred);
        if pred(s.last()) {
            assert(s.filter(pred) == prev.filter(pred).push(s.last()));
            assert(s.filter(pred).last() == s.last());
            assert(s.filter(pred).drop_last() =~= prev.filter(pred));
        } else {
            lemma_subsequence_extend(prev.filter(pred), prev, s.last());
            assert(prev.push(s.last()) =~= s);
        }
    }
}

/// Filtering keeps a sequence whole when the predicate accepts every
/// element of it.
pub proof fn lemma_filter_all_true<A>(s: Seq<A>, pred: spec_fn(A) -> bool)
    requires
        forall|i: int| 0 <= i < s.len() ==> pred(#[trigger] s[i]),
    ensures
        s.filter(pred) == s,
    decreases s.len(),
{
    reveal(Seq::filter);
    if s.len() > 0 {
        let prev = s.drop_last();
        assert forall|i: int| 0 <= i < prev.len() implies pred(#[trigger] prev[i]) by {
            assert(prev[i] == s[i]);
        }
        lemma_filter_all_true(prev, pred);
        assert(pred(s[s.len() - 1]));
        assert(prev.push(s.last()) =~= s);
    }
}

/// Every element a filter keeps stands somewhere in its input.
pub proof fn lemma_filter_elements_from_source<A>(s: Seq<A>, pred: spec_fn(A) -> bool)
    ensures
        forall|i: int|
            0 <= i < s.filter(pred).len() ==> s.contains(#[trigger] s.filter(pred)[i]),
    decreases s.len(),
{
    reveal(Seq::filter);
    if s.len() > 0 {
        let prev = s.drop_last();
        lemma_filter_elements_from_source(prev, pred);
        assert forall|i: int|
            0 <= i < s.filter(pred).len() implies s.contains(#[trigger] s.filter(pred)[i]) by {
            if i < prev.filter(pred).len() {
                assert(prev.contains(prev.filter(pred)[i]));
                let j = choose|j: int| 0 <= j < prev.len() && prev[j] == prev.filter(pred)[i];
                assert(s[j] == s.filter(pred)[i]);
            } else {
                assert(s.filter(pred)[i] == s.last());
                assert(s[s.len() - 1] == s.last());
            }
        }
    }
}

} // verus!
