//! Picking elements out of sequences.

use vstd::prelude::*;

verus! {

/// The first element that satisfies a predicate.
pub open spec fn first_match<A>(s: Seq<A>, pred: spec_fn(A) -> bool) -> Option<A> {
    if s.filter(pred).len() > 0 {
        Some(s.filter(pred)[0])
    } else {
        None
    }
}

/// The references to the elements of a sequence.
pub open spec fn refs<'a, A>(s: Seq<A>) -> Seq<&'a A> {
    Seq::new(s.len(), |i: int| &s[i])
}

/// One more element of a sequence is filtered.
pub proof fn lemma_filter_step<A>(s: Seq<A>, pred: spec_fn(A) -> bool, i: int)
    requires
        0 <= i < s.len(),
    ensures
        s.take(i + 1).filter(pred) == if pred(s[i]) {
            s.take(i).filter(pred).push(s[i])
        } else {
            s.take(i).filter(pred)
        },
{
    reveal(Seq::filter);
    assert(s.take(i + 1).drop_last() =~= s.take(i));
}

/// The first steps of filtering.
pub proof fn lemma_filter_start<A>(s: Seq<A>, pred: spec_fn(A) -> bool)
    ensures
        s.take(0).filter(pred) == Seq::<A>::empty(),
{
    reveal(Seq::filter);
    assert(s.take(0) =~= Seq::<A>::empty());
}

/// Filtering leaves nothing of a sequence where nothing satisfies the predicate.
pub proof fn lemma_no_match<A>(s: Seq<A>, pred: spec_fn(A) -> bool)
    requires
        forall|j: int| 0 <= j < s.len() ==> !pred(s[j]),
    ensures
        s.filter(pred) == Seq::<A>::empty(),
        first_match(s, pred) == None::<A>,
    decreases s.len(),
{
    reveal(Seq::filter);
    if s.len() > 0 {
        lemma_no_match(s.drop_last(), pred);
        assert(!pred(s[s.len() - 1]));
    }
}

/// An element that satisfies the predicate, with none that does before it, is
/// the first match.
pub proof fn lemma_first_match<A>(s: Seq<A>, pred: spec_fn(A) -> bool, i: int)
    requires
        0 <= i < s.len(),
        pred(s[i]),
        forall|j: int| 0 <= j < i ==> !pred(s[j]),
    ensures
        first_match(s, pred) == Some(s[i]),
    decreases s.len(),
{
    reveal(Seq::filter);
    if i == s.len() - 1 {
        lemma_no_match(s.drop_last(), pred);
    } else {
        lemma_first_match(s.drop_last(), pred, i);
    }
}

/// What is known of a first match: it is an element, and satisfies the predicate.
pub proof fn lemma_match_holds<A>(s: Seq<A>, pred: spec_fn(A) -> bool)
    ensures
        first_match(s, pred) is None <==> forall|j: int| 0 <= j < s.len() ==> !pred(s[j]),
        first_match(s, pred) matches Some(x) ==> s.contains(x) && pred(x),
    decreases s.len(),
{
    reveal(Seq::filter);
    if s.len() > 0 {
        let front = s.drop_last();
        lemma_match_holds(front, pred);
        assert(s[s.len() - 1] == s.last());
        if front.filter(pred).len() > 0 {
            let x = front.filter(pred)[0];
            let k = choose|k: int| 0 <= k < front.len() && front[k] == x;
            assert(s[k] == x);
            let j = choose|j: int| 0 <= j < front.len() && pred(front[j]);
            assert(pred(s[j]));
        } else {
            assert forall|j: int| 0 <= j < front.len() implies !pred(s[j]) by {
                assert(s[j] == front[j]);
            }
        }
    }
}

/// What filtering keeps: exactly the elements that satisfy the predicate.
pub proof fn lemma_filter_members<A>(s: Seq<A>, pred: spec_fn(A) -> bool)
    ensures
        forall|x: A| #[trigger] s.filter(pred).contains(x) <==> s.contains(x) && pred(x),
    decreases s.len(),
{
    reveal(Seq::filter);
    if s.len() > 0 {
        let front = s.drop_last();
        lemma_filter_members(front, pred);
        let f = front.filter(pred);
        assert(s =~= front.push(s.last()));
        assert(s.filter(pred) == if pred(s.last()) {
            f.push(s.last())
        } else {
            f
        });
        assert forall|x: A| #[trigger] s.filter(pred).contains(x) <==> s.contains(x) && pred(x) by {
            if s.contains(x) && pred(x) {
                let k = choose|k: int| 0 <= k < s.len() && s[k] == x;
                if k < front.len() {
                    assert(front[k] == x);
                    assert(f.contains(x));
                    let m = choose|m: int| 0 <= m < f.len() && f[m] == x;
                    assert(s.filter(pred)[m] == x);
                } else {
                    assert(s.filter(pred)[f.len() as int] == x);
                }
            }
            if s.filter(pred).contains(x) {
                let m = choose|m: int| 0 <= m < s.filter(pred).len() && s.filter(pred)[m] == x;
                if m < f.len() {
                    assert(f[m] == x);
                    assert(f.contains(x));
                    assert(front.contains(x));
                    let k = choose|k: int| 0 <= k < front.len() && front[k] == x;
                    assert(s[k] == x);
                } else {
                    assert(s[s.len() - 1] == x);
                }
            }
        }
    }
}

/// Filtering leaves a sequence as it is where everything satisfies the predicate.
pub proof fn lemma_filter_all<A>(s: Seq<A>, pred: spec_fn(A) -> bool)
    requires
        forall|j: int| 0 <= j < s.len() ==> pred(s[j]),
    ensures
        s.filter(pred) == s,
    decreases s.len(),
{
    reveal(Seq::filter);
    if s.len() > 0 {
        lemma_filter_all(s.drop_last(), pred);
        assert(pred(s[s.len() - 1]));
        assert(s.drop_last().push(s.last()) =~= s);
    }
}

/// Whether positions in a sequence of some length are in ascending order.
pub open spec fn ascending(at: Seq<int>, len: nat) -> bool {
    &&& forall|k: int| 0 <= k < at.len() ==> 0 <= #[trigger] at[k] < len
    &&& forall|j: int, k: int| 0 <= j < k < at.len() ==> #[trigger] at[j] < #[trigger] at[k]
}

/// Filtering keeps each element that satisfies the predicate once for each of
/// its positions, and keeps their order.
pub proof fn law_filter_positions<A>(s: Seq<A>, pred: spec_fn(A) -> bool) -> (at: Seq<int>)
    ensures
        ascending(at, s.len()),
        at.len() == s.filter(pred).len(),
        forall|k: int| 0 <= k < at.len() ==> s.filter(pred)[k] == s[#[trigger] at[k]],
        forall|i: int| 0 <= i < s.len() ==> (#[trigger] at.contains(i) <==> pred(s[i])),
    decreases s.len(),
{
    reveal(Seq::filter);
    if s.len() == 0 {
        Seq::empty()
    } else {
        let front = s.drop_last();
        let n = s.len() - 1;
        let before = law_filter_positions(front, pred);
        if pred(s.last()) {
            let at = before.push(n);
            assert(s.filter(pred) == front.filter(pred).push(s.last()));
            assert forall|k: int| 0 <= k < at.len() implies s.filter(pred)[k] == s[#[trigger] at[k]] by {
                if k < before.len() {
                    assert(front[before[k]] == s[at[k]]);
                }
            }
            assert forall|i: int| 0 <= i < s.len() implies (#[trigger] at.contains(i) <==> pred(
                s[i],
            )) by {
                if i < n {
                    assert(front[i] == s[i]);
                    assert(before.contains(i) <==> pred(front[i]));
                    if before.contains(i) {
                        let k = choose|k: int| 0 <= k < before.len() && before[k] == i;
                        assert(at[k] == i);
                    }
                    if at.contains(i) {
                        let k = choose|k: int| 0 <= k < at.len() && at[k] == i;
                        assert(before[k] == i);
                    }
                } else {
                    assert(at[before.len() as int] == i);
                }
            }
            at
        } else {
            assert forall|k: int| 0 <= k < before.len() implies s.filter(pred)[k]
                == s[#[trigger] before[k]] by {
                assert(front[before[k]] == s[before[k]]);
            }
            assert forall|i: int| 0 <= i < s.len() implies (#[trigger] before.contains(i) <==> pred(
                s[i],
            )) by {
                if i < n {
                    assert(front[i] == s[i]);
                }
            }
            before
        }
    }
}

/// The first match is the element that satisfies the predicate with none that
/// does before it; there is none exactly if no element satisfies it.
pub proof fn law_first_match<A>(s: Seq<A>, pred: spec_fn(A) -> bool) -> (i: int)
    ensures
        match first_match(s, pred) {
            Some(x) => {
                &&& 0 <= i < s.len()
                &&& s[i] == x
                &&& pred(s[i])
                &&& forall|j: int| 0 <= j < i ==> !pred(#[trigger] s[j])
            },
            None => forall|j: int| 0 <= j < s.len() ==> !pred(#[trigger] s[j]),
        },
{
    let at = law_filter_positions(s, pred);
    if at.len() > 0 {
        let i = at[0];
        assert(at.contains(i));
        assert forall|j: int| 0 <= j < i implies !pred(#[trigger] s[j]) by {
            assert(at.contains(j) <==> pred(s[j]));
        }
        i
    } else {
        assert forall|j: int| 0 <= j < s.len() implies !pred(#[trigger] s[j]) by {
            assert(at.contains(j) <==> pred(s[j]));
        }
        0
    }
}

/// References stand for the elements of a sequence one by one.
pub proof fn law_refs<A>(s: Seq<A>)
    ensures
        refs::<A>(s).len() == s.len(),
        forall|i: int| 0 <= i < s.len() ==> *(#[trigger] refs::<A>(s)[i]) == s[i],
{
}

} // verus!
