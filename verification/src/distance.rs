//! The edit distance between two strings.

use crate::text::chars_of;
use vstd::prelude::*;

verus! {

pub open spec fn min2(a: nat, b: nat) -> nat {
    if a <= b {
        a
    } else {
        b
    }
}

/// The Levenshtein distance: the least number of characters to insert, delete
/// or replace that turns one text into the other.
pub open spec fn edit_distance(a: Seq<char>, b: Seq<char>) -> nat
    decreases a.len() + b.len(),
{
    if a.len() == 0 {
        b.len()
    } else if b.len() == 0 {
        a.len()
    } else if a.last() == b.last() {
        edit_distance(a.drop_last(), b.drop_last())
    } else {
        1 + min2(
            edit_distance(a.drop_last(), b.drop_last()),
            min2(edit_distance(a.drop_last(), b), edit_distance(a, b.drop_last())),
        )
    }
}

/// No two texts are further apart than the longer of them is long.
pub proof fn lemma_distance_bound(a: Seq<char>, b: Seq<char>)
    ensures
        edit_distance(a, b) <= a.len() || edit_distance(a, b) <= b.len(),
    decreases a.len() + b.len(),
{
    if a.len() > 0 && b.len() > 0 {
        lemma_distance_bound(a.drop_last(), b.drop_last());
    }
}

/// The edit distance between two strings.
pub fn lev_distance(me: &str, t: &str) -> (distance: usize)
    ensures
        distance == edit_distance(me@, t@),
{
    let a = chars_of(me);
    let b = chars_of(t);
    if b.len() == 0 {
        return a.len();
    }
    // `row[j]` is the distance between the first `i` characters of `a` and the
    // first `j + 1` of `b`.
    let mut row: Vec<usize> = Vec::new();
    let mut k: usize = 0;
    while k < b.len()
        invariant
            k <= b.len(),
            row.len() == k,
            forall|j: int| 0 <= j < k ==> row@[j] == j + 1,
        decreases b.len() - k,
    {
        row.push(k + 1);
        k += 1;
    }
    let mut i: usize = 0;
    while i < a.len()
        invariant
            i <= a.len(),
            b.len() > 0,
            row.len() == b.len(),
            forall|j: int|
                0 <= j < row.len() ==> #[trigger] row@[j] == edit_distance(
                    a@.take(i as int),
                    b@.take(j + 1),
                ),
        decreases a.len() - i,
    {
        // The distances to one character less of `b`, for `i` and for `i + 1`
        // characters of `a`.
        let mut corner: usize = i;
        let mut left: usize = i + 1;
        let ghost above = row@;
        let mut j: usize = 0;
        while j < b.len()
            invariant
                i < a.len(),
                j <= b.len(),
                row.len() == b.len(),
                above.len() == b.len(),
                corner == edit_distance(a@.take(i as int), b@.take(j as int)),
                left == edit_distance(a@.take(i + 1), b@.take(j as int)),
                forall|m: int|
                    0 <= m < row.len() ==> #[trigger] above[m] == edit_distance(
                        a@.take(i as int),
                        b@.take(m + 1),
                    ),
                forall|m: int|
                    0 <= m < j ==> #[trigger] row@[m] == edit_distance(
                        a@.take(i + 1),
                        b@.take(m + 1),
                    ),
                forall|m: int| j <= m < row.len() ==> #[trigger] row@[m] == above[m],
            decreases b.len() - j,
        {
            let up: usize = row[j];
            proof {
                let x = a@.take(i + 1);
                let y = b@.take(j + 1);
                assert(x.drop_last() =~= a@.take(i as int));
                assert(y.drop_last() =~= b@.take(j as int));
                assert(above[j as int] == up);
                lemma_distance_bound(x, y);
            }
            let here: usize = if a[i] == b[j] {
                corner
            } else {
                let least: usize = if up <= left {
                    up
                } else {
                    left
                };
                if corner <= least {
                    corner + 1
                } else {
                    least + 1
                }
            };
            row.set(j, here);
            corner = up;
            left = here;
            j += 1;
        }
        i += 1;
    }
    assert(a@.take(a@.len() as int) =~= a@);
    assert(b@.take(b@.len() as int) =~= b@);
    let last: usize = row[b.len() - 1];
    last
}

/// Two texts are at distance zero exactly if they are equal.
pub proof fn law_distance_zero(a: Seq<char>, b: Seq<char>)
    ensures
        edit_distance(a, b) == 0 <==> a == b,
    decreases a.len() + b.len(),
{
    if a.len() == 0 || b.len() == 0 {
        if edit_distance(a, b) == 0 {
            assert(a =~= b);
        }
    } else {
        law_distance_zero(a.drop_last(), b.drop_last());
        assert(a =~= a.drop_last().push(a.last()));
        assert(b =~= b.drop_last().push(b.last()));
    }
}

/// The distance between two texts does not depend on their order.
pub proof fn law_distance_symmetric(a: Seq<char>, b: Seq<char>)
    ensures
        edit_distance(a, b) == edit_distance(b, a),
    decreases a.len() + b.len(),
{
    if a.len() > 0 && b.len() > 0 {
        law_distance_symmetric(a.drop_last(), b.drop_last());
        law_distance_symmetric(a.drop_last(), b);
        law_distance_symmetric(a, b.drop_last());
    }
}

/// Whether one text is another with one character inserted, deleted or replaced.
pub open spec fn one_edit(a: Seq<char>, c: Seq<char>) -> bool {
    ||| exists|i: int, x: char| 0 <= i <= a.len() && c == #[trigger] a.insert(i, x)
    ||| exists|i: int| 0 <= i < a.len() && c == #[trigger] a.remove(i)
    ||| exists|i: int, x: char| 0 <= i < a.len() && c == #[trigger] a.update(i, x)
}

/// A character at the end changes a distance by one at most.
proof fn lemma_push(a: Seq<char>, b: Seq<char>, x: char)
    ensures
        edit_distance(a.push(x), b) <= edit_distance(a, b) + 1,
        edit_distance(a, b) <= edit_distance(a.push(x), b) + 1,
    decreases a.len() + b.len(),
{
    let ax = a.push(x);
    assert(ax.drop_last() =~= a);
    if b.len() > 0 {
        let front = b.drop_last();
        let z = b.last();
        assert(front.push(z) =~= b);
        lemma_push(front, a, z);
        law_distance_symmetric(a, b);
        law_distance_symmetric(a, front);
        lemma_push(a, front, x);
        if a.len() == 0 {
            assert(edit_distance(a, b) == b.len());
            assert(edit_distance(a, front) == front.len());
        }
    }
}

/// A character anywhere changes a distance by one at most.
proof fn lemma_insert(a: Seq<char>, b: Seq<char>, i: int, x: char)
    requires
        0 <= i <= a.len(),
    ensures
        edit_distance(a.insert(i, x), b) <= edit_distance(a, b) + 1,
        edit_distance(a, b) <= edit_distance(a.insert(i, x), b) + 1,
    decreases a.len() + b.len(),
{
    let c = a.insert(i, x);
    if i == a.len() {
        assert(c =~= a.push(x));
        lemma_push(a, b, x);
    } else if b.len() > 0 {
        let front = a.drop_last();
        assert(c.drop_last() =~= front.insert(i, x));
        assert(c.last() == a.last());
        lemma_insert(front, b.drop_last(), i, x);
        lemma_insert(front, b, i, x);
        lemma_insert(a, b.drop_last(), i, x);
    }
}

/// Another character anywhere changes a distance by one at most.
proof fn lemma_update(a: Seq<char>, b: Seq<char>, i: int, x: char)
    requires
        0 <= i < a.len(),
    ensures
        edit_distance(a.update(i, x), b) <= edit_distance(a, b) + 1,
        edit_distance(a, b) <= edit_distance(a.update(i, x), b) + 1,
    decreases a.len() + b.len(),
{
    let c = a.update(i, x);
    if b.len() > 0 {
        let front = a.drop_last();
        let less = b.drop_last();
        lemma_update(a, less, i, x);
        if i == a.len() - 1 {
            assert(c.drop_last() =~= front);
            assert(front.push(a.last()) =~= a);
            assert(front.push(x) =~= c);
            assert(less.push(b.last()) =~= b);
            lemma_push(front, less, a.last());
            lemma_push(front, less, x);
            lemma_push(less, front, b.last());
            law_distance_symmetric(front, less);
            law_distance_symmetric(front, b);
        } else {
            assert(c.drop_last() =~= front.update(i, x));
            assert(c.last() == a.last());
            lemma_update(front, less, i, x);
            lemma_update(front, b, i, x);
        }
    }
}

/// One edit of a text changes its distance to any other by one at most, so that
/// no number of edits below the distance turns one text into the other.
pub proof fn law_one_edit_costs_one(a: Seq<char>, c: Seq<char>, b: Seq<char>)
    requires
        one_edit(a, c),
    ensures
        edit_distance(c, b) <= edit_distance(a, b) + 1,
        edit_distance(a, b) <= edit_distance(c, b) + 1,
{
    if exists|i: int, x: char| 0 <= i <= a.len() && c == #[trigger] a.insert(i, x) {
        let (i, x) = choose|i: int, x: char| 0 <= i <= a.len() && c == #[trigger] a.insert(i, x);
        lemma_insert(a, b, i, x);
    } else if exists|i: int| 0 <= i < a.len() && c == #[trigger] a.remove(i) {
        let i = choose|i: int| 0 <= i < a.len() && c == #[trigger] a.remove(i);
        assert(c.insert(i, a[i]) =~= a);
        lemma_insert(c, b, i, a[i]);
    } else {
        let (i, x) = choose|i: int, x: char| 0 <= i < a.len() && c == #[trigger] a.update(i, x);
        lemma_update(a, b, i, x);
    }
}

/// From a text at a distance there is one edit to a text that is closer, so that
/// as many edits as the distance turn one text into the other.
pub proof fn law_distance_is_reached(a: Seq<char>, b: Seq<char>) -> (c: Seq<char>)
    requires
        edit_distance(a, b) > 0,
    ensures
        one_edit(a, c),
        edit_distance(c, b) + 1 == edit_distance(a, b),
    decreases a.len() + b.len(),
{
    if a.len() == 0 {
        let c = seq![b.last()];
        assert(c =~= a.insert(0, b.last()));
        assert(c.drop_last() =~= a);
        assert(edit_distance(c.drop_last(), b.drop_last()) == b.len() - 1);
        c
    } else if b.len() == 0 {
        let c = a.drop_last();
        assert(c =~= a.remove(a.len() - 1));
        assert(edit_distance(c, b) == c.len());
        c
    } else {
        let front = a.drop_last();
        let less = b.drop_last();
        let n = a.len() - 1;
        if a.last() == b.last() {
            let f = law_distance_is_reached(front, less);
            let c = f.push(a.last());
            assert(c.drop_last() =~= f);
            if exists|i: int, x: char| 0 <= i <= front.len() && f == #[trigger] front.insert(i, x) {
                let (i, x) = choose|i: int, x: char|
                    0 <= i <= front.len() && f == #[trigger] front.insert(i, x);
                assert(c =~= a.insert(i, x));
            } else if exists|i: int| 0 <= i < front.len() && f == #[trigger] front.remove(i) {
                let i = choose|i: int| 0 <= i < front.len() && f == #[trigger] front.remove(i);
                assert(c =~= a.remove(i));
            } else {
                let (i, x) = choose|i: int, x: char|
                    0 <= i < front.len() && f == #[trigger] front.update(i, x);
                assert(c =~= a.update(i, x));
            }
            c
        } else if edit_distance(a, b) == 1 + edit_distance(front, less) {
            let c = a.update(n, b.last());
            assert(c.drop_last() =~= front);
            c
        } else if edit_distance(a, b) == 1 + edit_distance(front, b) {
            assert(front =~= a.remove(n));
            front
        } else {
            let c = a.insert(a.len() as int, b.last());
            assert(c.drop_last() =~= a);
            assert(c.last() == b.last());
            c
        }
    }
}

} // verus!
