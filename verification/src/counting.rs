//! Counting the elements of a sequence that satisfy a predicate.
//!
//! The pool's invariants are stated as equations between such counts (how
//! many terminate messages are queued, how many workers have exited), so the
//! lemmas here say how a count moves under each way the pool edits a
//! sequence: appending, removing the head, replacing one element.

use vstd::prelude::*;

verus! {

/// How many elements of `s` satisfy `p`.
pub open spec fn count<A>(s: Seq<A>, p: spec_fn(A) -> bool) -> nat
    decreases s.len(),
{
    if s.len() == 0 {
        0
    } else {
        count(s.drop_last(), p) + if p(s.last()) {
            1nat
        } else {
            0nat
        }
    }
}

/// One if `p` holds of `a`, zero otherwise.
pub open spec fn unit<A>(a: A, p: spec_fn(A) -> bool) -> nat {
    if p(a) {
        1
    } else {
        0
    }
}

/// Appending one element adds its unit to the count.
pub proof fn lemma_count_push<A>(s: Seq<A>, a: A, p: spec_fn(A) -> bool)
    ensures
        count(s.push(a), p) == count(s, p) + unit(a, p),
{
    assert(s.push(a).drop_last() =~= s);
}

/// A count never exceeds the length.
pub proof fn lemma_count_bounded<A>(s: Seq<A>, p: spec_fn(A) -> bool)
    ensures
        count(s, p) <= s.len(),
    decreases s.len(),
{
    if s.len() > 0 {
        lemma_count_bounded(s.drop_last(), p);
    }
}

/// Counts are additive over concatenation.
pub proof fn lemma_count_concat<A>(s: Seq<A>, t: Seq<A>, p: spec_fn(A) -> bool)
    ensures
        count(s + t, p) == count(s, p) + count(t, p),
    decreases t.len(),
{
    if t.len() == 0 {
        assert(s + t =~= s);
    } else {
        assert((s + t).drop_last() =~= s + t.drop_last());
        lemma_count_concat(s, t.drop_last(), p);
    }
}

/// Removing the head subtracts its unit from the count.
pub proof fn lemma_count_drop_first<A>(s: Seq<A>, p: spec_fn(A) -> bool)
    requires
        s.len() > 0,
    ensures
        count(s, p) == unit(s[0], p) + count(s.drop_first(), p),
{
    let head = Seq::<A>::empty().push(s[0]);
    assert(head + s.drop_first() =~= s);
    lemma_count_concat(head, s.drop_first(), p);
    lemma_count_push(Seq::<A>::empty(), s[0], p);
}

/// Two sequences of one length whose elements agree pointwise on two
/// predicates have equal counts.
pub proof fn lemma_count_pointwise<A, B>(
    s: Seq<A>,
    p: spec_fn(A) -> bool,
    t: Seq<B>,
    q: spec_fn(B) -> bool,
)
    requires
        s.len() == t.len(),
        forall|i: int| 0 <= i < s.len() ==> p(#[trigger] s[i]) == q(t[i]),
    ensures
        count(s, p) == count(t, q),
    decreases s.len(),
{
    if s.len() > 0 {
        assert(p(s[s.len() - 1]) == q(t[s.len() - 1]));
        lemma_count_pointwise(s.drop_last(), p, t.drop_last(), q);
    }
}

/// Replacing one element exchanges its unit for that of the new element.
pub proof fn lemma_count_update<A>(s: Seq<A>, i: int, a: A, p: spec_fn(A) -> bool)
    requires
        0 <= i < s.len(),
    ensures
        count(s.update(i, a), p) + unit(s[i], p) == count(s, p) + unit(a, p),
    decreases s.len(),
{
    if i == s.len() - 1 {
        assert(s.update(i, a).drop_last() =~= s.drop_last());
    } else {
        assert(s.update(i, a).drop_last() =~= s.drop_last().update(i, a));
        lemma_count_update(s.drop_last(), i, a, p);
    }
}

/// The count is zero exactly when no element satisfies the predicate.
pub proof fn lemma_count_zero<A>(s: Seq<A>, p: spec_fn(A) -> bool)
    ensures
        count(s, p) == 0 <==> forall|i: int| 0 <= i < s.len() ==> !p(#[trigger] s[i]),
    decreases s.len(),
{
    if s.len() > 0 {
        lemma_count_zero(s.drop_last(), p);
        if count(s, p) == 0 {
            assert forall|i: int| 0 <= i < s.len() implies !p(#[trigger] s[i]) by {
                if i < s.len() - 1 {
                    assert(s.drop_last()[i] == s[i]);
                }
            }
        } else if forall|i: int| 0 <= i < s.len() ==> !p(#[trigger] s[i]) {
            assert forall|i: int| 0 <= i < s.drop_last().len() implies !p(
                #[trigger] s.drop_last()[i],
            ) by {
                assert(s.drop_last()[i] == s[i]);
            }
            assert(!p(s[s.len() - 1]));
        }
    }
}

/// The count equals the length exactly when every element satisfies the
/// predicate.
pub proof fn lemma_count_full<A>(s: Seq<A>, p: spec_fn(A) -> bool)
    ensures
        count(s, p) == s.len() <==> forall|i: int| 0 <= i < s.len() ==> p(#[trigger] s[i]),
    decreases s.len(),
{
    if s.len() > 0 {
        lemma_count_full(s.drop_last(), p);
        lemma_count_bounded(s.drop_last(), p);
        if count(s, p) == s.len() {
            assert forall|i: int| 0 <= i < s.len() implies p(#[trigger] s[i]) by {
                if i < s.len() - 1 {
                    assert(s.drop_last()[i] == s[i]);
                }
            }
        } else if forall|i: int| 0 <= i < s.len() ==> p(#[trigger] s[i]) {
            assert forall|i: int| 0 <= i < s.drop_last().len() implies p(
                #[trigger] s.drop_last()[i],
            ) by {
                assert(s.drop_last()[i] == s[i]);
            }
            assert(p(s[s.len() - 1]));
        }
    }
}

} // verus!
