//! Facts about sequences that the proofs on layout trees share.

use vstd::prelude::*;

verus! {

/// An element is in a concatenation exactly if it is in one of the parts.
pub proof fn lemma_contains_concat<A>(a: Seq<A>, b: Seq<A>, x: A)
    ensures
        (a + b).contains(x) <==> a.contains(x) || b.contains(x),
{
    if a.contains(x) {
        let i = choose|i: int| 0 <= i < a.len() && a[i] == x;
        assert((a + b)[i] == x);
    }
    if b.contains(x) {
        let i = choose|i: int| 0 <= i < b.len() && b[i] == x;
        assert((a + b)[a.len() + i] == x);
    }
    if (a + b).contains(x) {
        let i = choose|i: int| 0 <= i < (a + b).len() && (a + b)[i] == x;
        if i < a.len() {
            assert(a[i] == x);
        } else {
            assert(b[i - a.len()] == x);
        }
    }
}

/// Inserting into the left part of a concatenation.
pub proof fn lemma_insert_left<A>(a: Seq<A>, b: Seq<A>, i: int, x: A)
    requires
        0 <= i <= a.len(),
    ensures
        (a + b).insert(i, x) == a.insert(i, x) + b,
{
    assert((a + b).insert(i, x) =~= a.insert(i, x) + b);
}

/// Inserting into the right part of a concatenation.
pub proof fn lemma_insert_right<A>(a: Seq<A>, b: Seq<A>, i: int, x: A)
    requires
        0 <= i <= b.len(),
    ensures
        (a + b).insert(a.len() + i, x) == a + b.insert(i, x),
{
    assert((a + b).insert(a.len() + i, x) =~= a + b.insert(i, x));
}

/// Removing from the left part of a concatenation.
pub proof fn lemma_remove_left<A>(a: Seq<A>, b: Seq<A>, i: int)
    requires
        0 <= i < a.len(),
    ensures
        (a + b).remove(i) == a.remove(i) + b,
{
    assert((a + b).remove(i) =~= a.remove(i) + b);
}

/// Removing from the right part of a concatenation.
pub proof fn lemma_remove_right<A>(a: Seq<A>, b: Seq<A>, i: int)
    requires
        0 <= i < b.len(),
    ensures
        (a + b).remove(a.len() + i) == a + b.remove(i),
{
    assert((a + b).remove(a.len() + i) =~= a + b.remove(i));
}

/// A pair of elements, with one more set before or after the first.
pub proof fn lemma_insert_single<A>(x: A, y: A)
    ensures
        seq![x].insert(0, y) == seq![y] + seq![x],
        seq![x].insert(1, y) == seq![x] + seq![y],
        (seq![x] + seq![y]).remove(1) == seq![x],
        (seq![y] + seq![x]).remove(0) == seq![x],
{
    assert(seq![x].insert(0, y) =~= seq![y] + seq![x]);
    assert(seq![x].insert(1, y) =~= seq![x] + seq![y]);
    assert((seq![x] + seq![y]).remove(1) =~= seq![x]);
    assert((seq![y] + seq![x]).remove(0) =~= seq![x]);
}

/// Removing the head of a concatenation whose left part is one element.
pub proof fn lemma_remove_head<A>(x: A, b: Seq<A>)
    ensures
        (seq![x] + b).remove(0) == b,
{
    assert((seq![x] + b).remove(0) =~= b);
}

/// Removing the last of a concatenation whose right part is one element.
pub proof fn lemma_remove_last<A>(a: Seq<A>, x: A)
    ensures
        (a + seq![x]).remove(a.len() as int) == a,
{
    assert((a + seq![x]).remove(a.len() as int) =~= a);
}

/// What a sequence holds after an insertion: what it held, and the new
/// element. Where nothing occurred twice and the element is new, nothing
/// occurs twice afterwards.
pub proof fn lemma_insert_contents<A>(s: Seq<A>, i: int, x: A)
    requires
        0 <= i <= s.len(),
    ensures
        forall|y: A| #[trigger] s.insert(i, x).contains(y) <==> s.contains(y) || y == x,
        s.insert(i, x).contains(x),
        s.no_duplicates() && !s.contains(x) ==> s.insert(i, x).no_duplicates(),
        s.insert(i, x).to_multiset() == s.to_multiset().insert(x),
{
    let t = s.insert(i, x);
    assert(t[i] == x);
    assert forall|y: A| t.contains(y) <==> s.contains(y) || y == x by {
        if t.contains(y) {
            let k = choose|k: int| 0 <= k < t.len() && t[k] == y;
            if k < i {
                assert(s[k] == y);
            } else if k > i {
                assert(s[k - 1] == y);
            }
        }
        if s.contains(y) {
            let k = choose|k: int| 0 <= k < s.len() && s[k] == y;
            if k < i {
                assert(t[k] == y);
            } else {
                assert(t[k + 1] == y);
            }
        }
        if y == x {
            assert(t[i] == y);
        }
    }
    if s.no_duplicates() && !s.contains(x) {
        assert forall|a: int, b: int| 0 <= a < t.len() && 0 <= b < t.len() && a != b implies t[a]
            != t[b] by {
            let sa = if a < i {
                a
            } else {
                a - 1
            };
            let sb = if b < i {
                b
            } else {
                b - 1
            };
            if a != i && b != i {
                assert(t[a] == s[sa] && t[b] == s[sb]);
            } else if a == i {
                assert(t[b] == s[sb]);
                assert(s.contains(s[sb]));
            } else {
                assert(t[a] == s[sa]);
                assert(s.contains(s[sa]));
            }
        }
    }
    vstd::seq_lib::to_multiset_insert(s, i, x);
}

/// What a sequence without duplicates holds after a removal: what it held,
/// but for the element removed. Nothing occurs twice afterwards.
pub proof fn lemma_remove_contents<A>(s: Seq<A>, i: int)
    requires
        0 <= i < s.len(),
        s.no_duplicates(),
    ensures
        forall|y: A| #[trigger] s.remove(i).contains(y) <==> s.contains(y) && y != s[i],
        s.remove(i).no_duplicates(),
        s.remove(i).to_multiset() == s.to_multiset().remove(s[i]),
{
    let t = s.remove(i);
    assert forall|y: A| t.contains(y) <==> s.contains(y) && y != s[i] by {
        if t.contains(y) {
            let k = choose|k: int| 0 <= k < t.len() && t[k] == y;
            if k < i {
                assert(s[k] == y);
            } else {
                assert(s[k + 1] == y);
            }
        }
        if s.contains(y) && y != s[i] {
            let k = choose|k: int| 0 <= k < s.len() && s[k] == y;
            if k < i {
                assert(t[k] == y);
            } else {
                assert(t[k - 1] == y);
            }
        }
    }
    assert forall|a: int, b: int| 0 <= a < t.len() && 0 <= b < t.len() && a != b implies t[a]
        != t[b] by {
        let sa = if a < i {
            a
        } else {
            a + 1
        };
        let sb = if b < i {
            b
        } else {
            b + 1
        };
        assert(t[a] == s[sa] && t[b] == s[sb]);
    }
    vstd::seq_lib::to_multiset_remove(s, i);
}

} // verus!
