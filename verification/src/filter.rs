//! Order-preserving selection over sequences.
use vstd::prelude::*;

verus! {

/// The elements of `s` that satisfy `p`, in their order.
pub open spec fn kept<T>(s: Seq<T>, p: spec_fn(T) -> bool) -> Seq<T>
    decreases s.len(),
{
    if s.len() == 0 {
        Seq::empty()
    } else if p(s.last()) {
        kept(s.drop_last(), p).push(s.last())
    } else {
        kept(s.drop_last(), p)
    }
}

/// Everything kept satisfies the predicate and comes from the sequence.
pub proof fn lemma_kept_members<T>(s: Seq<T>, p: spec_fn(T) -> bool)
    ensures
        forall|i: int| 0 <= i < kept(s, p).len() ==> p(#[trigger] kept(s, p)[i]),
        forall|i: int| 0 <= i < kept(s, p).len() ==> s.contains(#[trigger] kept(s, p)[i]),
        kept(s, p).len() <= s.len(),
    decreases s.len(),
{
    if s.len() > 0 {
        lemma_kept_members(s.drop_last(), p);
        assert forall|i: int| 0 <= i < kept(s, p).len() implies s.contains(
            #[trigger] kept(s, p)[i],
        ) by {
            if i < kept(s.drop_last(), p).len() {
                let j = choose|j: int|
                    0 <= j < s.drop_last().len() && s.drop_last()[j] == kept(s.drop_last(), p)[i];
                assert(s[j] == kept(s, p)[i]);
            } else {
                assert(s[s.len() - 1] == kept(s, p)[i]);
            }
        }
    }
}

/// An element of the sequence that satisfies the predicate is kept.
pub proof fn lemma_kept_complete<T>(s: Seq<T>, p: spec_fn(T) -> bool, x: T)
    requires
        s.contains(x),
        p(x),
    ensures
        kept(s, p).contains(x),
    decreases s.len(),
{
    if s.last() == x {
        assert(kept(s, p).last() == x);
    } else {
        let j = choose|j: int| 0 <= j < s.len() && s[j] == x;
        assert(s.drop_last()[j] == x);
        lemma_kept_complete(s.drop_last(), p, x);
        let k = choose|k: int| 0 <= k < kept(s.drop_last(), p).len() && kept(s.drop_last(), p)[k] == x;
        if p(s.last()) {
            assert(kept(s, p)[k] == x);
        }
    }
}

/// When every element satisfies the predicate, everything is kept.
pub proof fn lemma_kept_everything<T>(s: Seq<T>, p: spec_fn(T) -> bool)
    requires
        forall|x: T| #[trigger] p(x),
    ensures
        kept(s, p) == s,
    decreases s.len(),
{
    if s.len() > 0 {
        lemma_kept_everything(s.drop_last(), p);
        assert(s.drop_last().push(s.last()) =~= s);
    }
}

/// When no element satisfies the predicate, nothing is kept.
pub proof fn lemma_kept_nothing<T>(s: Seq<T>, p: spec_fn(T) -> bool)
    requires
        forall|i: int| 0 <= i < s.len() ==> !p(#[trigger] s[i]),
    ensures
        kept(s, p).len() == 0,
    decreases s.len(),
{
    if s.len() > 0 {
        assert(!p(s[s.len() - 1]));
        lemma_kept_nothing(s.drop_last(), p);
    }
}

/// What is kept of a prefix is a prefix of what is kept of the whole.
pub proof fn lemma_kept_prefix<T>(s: Seq<T>, p: spec_fn(T) -> bool, i: int)
    requires
        0 <= i <= s.len(),
    ensures
        kept(s.take(i), p).len() <= kept(s, p).len(),
        forall|j: int|
            0 <= j < kept(s.take(i), p).len() ==> #[trigger] kept(s.take(i), p)[j] == kept(s, p)[j],
    decreases s.len(),
{
    if i == s.len() {
        assert(s.take(i) =~= s);
    } else {
        assert(s.drop_last().take(i) =~= s.take(i));
        lemma_kept_prefix(s.drop_last(), p, i);
    }
}

} // verus!
