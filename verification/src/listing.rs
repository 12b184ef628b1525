//! The order of a directory listing: by path for a scan, directories first
//! and then by name for the children of a directory in the sidebar.

use crate::scanner::DirItem;
use crate::text::{lemma_lex_asymmetric, lemma_lex_chain, lex_less, str_less};
use vstd::multiset::Multiset;
use vstd::prelude::*;
use vstd::utf8::encode_utf8;

verus! {

/// The orders in which a listing is shown.
#[derive(Debug, Clone, Copy, PartialEq, Eq, Structural)]
pub enum ListingOrder {
    /// By the bytes of the path.
    ByPath,
    /// Directories before files, each kind by the bytes of the name.
    DirectoriesFirst,
}

/// Whether item `a` has its place after item `b` in the given order.
pub open spec fn sorts_after(order: ListingOrder, a: DirItem, b: DirItem) -> bool {
    match order {
        ListingOrder::ByPath => lex_less(encode_utf8(b.path@), encode_utf8(a.path@)),
        ListingOrder::DirectoriesFirst => (!a.is_dir && b.is_dir) || (a.is_dir == b.is_dir
            && lex_less(encode_utf8(b.name@), encode_utf8(a.name@))),
    }
}

/// No item of the list has its place after a later one.
pub open spec fn ordered(items: Seq<DirItem>, order: ListingOrder) -> bool {
    forall|i: int, j: int|
        0 <= i < j < items.len() ==> !sorts_after(order, #[trigger] items[i], #[trigger] items[j])
}

/// Two ordered lists as one: the items of both, each list in its own
/// order, an item of `b` after the items of `a` that it ties with.
pub open spec fn merged(a: Seq<DirItem>, b: Seq<DirItem>, order: ListingOrder) -> Seq<DirItem>
    decreases a.len() + b.len(),
{
    if a.len() == 0 {
        b
    } else if b.len() == 0 {
        a
    } else if sorts_after(order, a.last(), b.last()) {
        merged(a.drop_last(), b, order).push(a.last())
    } else {
        merged(a, b.drop_last(), order).push(b.last())
    }
}

/// A listing in the given order, items that tie staying in the order in
/// which they came: the two halves of the listing, each sorted, as one.
pub open spec fn sorted_listing(items: Seq<DirItem>, order: ListingOrder) -> Seq<DirItem>
    decreases items.len(),
{
    if items.len() <= 1 {
        items
    } else {
        let mid = items.len() as int / 2;
        merged(
            sorted_listing(items.subrange(0, mid), order),
            sorted_listing(items.subrange(mid, items.len() as int), order),
            order,
        )
    }
}

/// Of two items at most one has its place after the other; and where `a`
/// has not its place after `b`, nor `b` after `c`, `a` has not its place
/// after `c`.
pub proof fn lemma_order(order: ListingOrder, a: DirItem, b: DirItem, c: DirItem)
    ensures
        !(sorts_after(order, a, b) && sorts_after(order, b, a)),
        !sorts_after(order, a, b) && !sorts_after(order, b, c) ==> !sorts_after(order, a, c),
{
    let (ka, kb, kc) = match order {
        ListingOrder::ByPath => (encode_utf8(a.path@), encode_utf8(b.path@), encode_utf8(c.path@)),
        ListingOrder::DirectoriesFirst => (
            encode_utf8(a.name@),
            encode_utf8(b.name@),
            encode_utf8(c.name@),
        ),
    };
    lemma_lex_asymmetric(ka, kb);
    if !lex_less(kb, ka) && !lex_less(kc, kb) {
        lemma_lex_chain(ka, kb, kc);
    }
}

/// Two lists as one hold the items of both, each as often as the two
/// together; where both were ordered, so are they as one.
pub proof fn lemma_merged(a: Seq<DirItem>, b: Seq<DirItem>, order: ListingOrder)
    ensures
        merged(a, b, order).len() == a.len() + b.len(),
        merged(a, b, order).to_multiset() == a.to_multiset().add(b.to_multiset()),
        forall|k: int|
            0 <= k < merged(a, b, order).len() ==> a.contains(#[trigger] merged(a, b, order)[k])
                || b.contains(merged(a, b, order)[k]),
        ordered(a, order) && ordered(b, order) ==> ordered(merged(a, b, order), order),
    decreases a.len() + b.len(),
{
    let m = merged(a, b, order);
    broadcast use vstd::multiset::group_multiset_axioms;

    if a.len() == 0 {
        assert(a.to_multiset() =~= Multiset::<DirItem>::empty()) by {
            a.to_multiset_ensures();
        }
        assert(m.to_multiset() =~= a.to_multiset().add(b.to_multiset()));
        assert forall|k: int| 0 <= k < m.len() implies b.contains(#[trigger] m[k]) by {}
    } else if b.len() == 0 {
        assert(b.to_multiset() =~= Multiset::<DirItem>::empty()) by {
            b.to_multiset_ensures();
        }
        assert(m.to_multiset() =~= a.to_multiset().add(b.to_multiset()));
        assert forall|k: int| 0 <= k < m.len() implies a.contains(#[trigger] m[k]) by {}
    } else {
        let from_a = sorts_after(order, a.last(), b.last());
        let (a1, b1, top) = if from_a {
            (a.drop_last(), b, a.last())
        } else {
            (a, b.drop_last(), b.last())
        };
        let rest = merged(a1, b1, order);
        lemma_merged(a1, b1, order);
        assert(m == rest.push(top));
        vstd::seq_lib::to_multiset_build(rest, top);
        if from_a {
            assert(a =~= a1.push(top));
            vstd::seq_lib::to_multiset_build(a1, top);
        } else {
            assert(b =~= b1.push(top));
            vstd::seq_lib::to_multiset_build(b1, top);
        }
        assert(m.to_multiset() =~= a.to_multiset().add(b.to_multiset()));
        assert forall|k: int| 0 <= k < m.len() implies a.contains(#[trigger] m[k]) || b.contains(
            m[k],
        ) by {
            if k < rest.len() {
                assert(m[k] == rest[k]);
                if a1.contains(rest[k]) {
                    let i = choose|i: int| 0 <= i < a1.len() && a1[i] == rest[k];
                    assert(a[i] == rest[k]);
                } else {
                    let i = choose|i: int| 0 <= i < b1.len() && b1[i] == rest[k];
                    assert(b[i] == rest[k]);
                }
            } else if from_a {
                assert(a[a.len() - 1] == top);
            } else {
                assert(b[b.len() - 1] == top);
            }
        }
        if ordered(a, order) && ordered(b, order) {
            assert(ordered(a1, order));
            assert(ordered(b1, order));
            assert forall|i: int, j: int| 0 <= i < j < m.len() implies !sorts_after(
                order,
                #[trigger] m[i],
                #[trigger] m[j],
            ) by {
                if j < rest.len() {
                    assert(m[i] == rest[i] && m[j] == rest[j]);
                } else {
                    let e = rest[i];
                    assert(m[i] == e && m[j] == top);
                    lemma_order(order, a.last(), b.last(), a.last());
                    lemma_order(order, b.last(), a.last(), b.last());
                    if a1.contains(e) {
                        let k = choose|k: int| 0 <= k < a1.len() && a1[k] == e;
                        assert(a[k] == e);
                        if from_a {
                            assert(!sorts_after(order, a[k], a[a.len() - 1]));
                        } else {
                            lemma_order(order, e, a.last(), a.last());
                            if k < a.len() - 1 {
                                assert(!sorts_after(order, a[k], a[a.len() - 1]));
                            }
                            lemma_order(order, e, a.last(), b.last());
                        }
                    } else {
                        let k = choose|k: int| 0 <= k < b1.len() && b1[k] == e;
                        assert(b[k] == e);
                        if from_a {
                            lemma_order(order, e, b.last(), b.last());
                            if k < b.len() - 1 {
                                assert(!sorts_after(order, b[k], b[b.len() - 1]));
                            }
                            lemma_order(order, e, b.last(), a.last());
                        } else {
                            assert(!sorts_after(order, b[k], b[b.len() - 1]));
                        }
                    }
                }
            }
        }
    }
}

/// A sorted listing holds the items of the listing, each as often, and is
/// in order.
pub proof fn lemma_sorted_listing(items: Seq<DirItem>, order: ListingOrder)
    ensures
        sorted_listing(items, order).len() == items.len(),
        sorted_listing(items, order).to_multiset() == items.to_multiset(),
        ordered(sorted_listing(items, order), order),
    decreases items.len(),
{
    if items.len() > 1 {
        let mid = items.len() as int / 2;
        let left = items.subrange(0, mid);
        let right = items.subrange(mid, items.len() as int);
        lemma_sorted_listing(left, order);
        lemma_sorted_listing(right, order);
        lemma_merged(sorted_listing(left, order), sorted_listing(right, order), order);
        assert(items =~= left + right);
        vstd::seq_lib::lemma_multiset_commutative(left, right);
    }
}

/// Whether item `a` has its place after item `b` in the given order.
pub fn goes_after(order: ListingOrder, a: &DirItem, b: &DirItem) -> (after: bool)
    ensures
        after == sorts_after(order, *a, *b),
{
    match order {
        ListingOrder::ByPath => str_less(b.path.as_str(), a.path.as_str()),
        ListingOrder::DirectoriesFirst => (!a.is_dir && b.is_dir) || (a.is_dir == b.is_dir
            && str_less(b.name.as_str(), a.name.as_str())),
    }
}

/// Makes one list of two.
fn merge(a: Vec<DirItem>, b: Vec<DirItem>, order: ListingOrder) -> (out: Vec<DirItem>)
    ensures
        out@ == merged(a@, b@, order),
{
    let ghost whole = merged(a@, b@, order);
    let mut a = a;
    let mut b = b;
    let mut taken: Vec<DirItem> = Vec::new();
    assert(whole =~= merged(a@, b@, order) + taken@.reverse());
    while a.len() > 0 && b.len() > 0
        invariant
            whole == merged(a@, b@, order) + taken@.reverse(),
        decreases a@.len() + b@.len(),
    {
        let ghost held = taken@;
        let ghost before = merged(a@, b@, order);
        let item = if goes_after(order, &a[a.len() - 1], &b[b.len() - 1]) {
            a.pop().unwrap()
        } else {
            b.pop().unwrap()
        };
        taken.push(item);
        proof {
            assert(before == merged(a@, b@, order).push(item));
            assert(taken@.reverse() =~= seq![item] + held.reverse());
            assert(whole =~= merged(a@, b@, order) + taken@.reverse());
        }
    }
    let mut out = if a.len() > 0 {
        a
    } else {
        b
    };
    while taken.len() > 0
        invariant
            whole == out@ + taken@.reverse(),
        decreases taken@.len(),
    {
        let ghost held = taken@;
        let item = taken.pop().unwrap();
        proof {
            assert(held.reverse() =~= seq![item] + taken@.reverse());
        }
        out.push(item);
        proof {
            assert(whole =~= out@ + taken@.reverse());
        }
    }
    assert(whole =~= out@);
    out
}

/// Put a listing in the given order. Items that tie stay in the order in
/// which they came.
pub fn sort_listing(items: Vec<DirItem>, order: ListingOrder) -> (sorted: Vec<DirItem>)
    ensures
        sorted@ == sorted_listing(items@, order),
        sorted@.to_multiset() == items@.to_multiset(),
        ordered(sorted@, order),
    decreases items@.len(),
{
    proof {
        lemma_sorted_listing(items@, order);
    }
    if items.len() <= 1 {
        return items;
    }
    let mut left = items;
    let mid = left.len() / 2;
    let right = left.split_off(mid);
    let left = sort_listing(left, order);
    let right = sort_listing(right, order);
    merge(left, right, order)
}

} // verus!
