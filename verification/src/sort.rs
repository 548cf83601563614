//! Stable sorting by a key, as `slice::sort_by` does with a comparator
//! that compares keys (and reverses the comparison for descending order).
use vstd::prelude::*;

use crate::text::{lex_le, lemma_lex_le_total, lemma_lex_le_trans, str_le};

verus! {

/// A sort key with a total preorder.
pub trait OrderKey: Sized {
    /// `a` sorts no later than `b`.
    spec fn key_le(a: Self, b: Self) -> bool;

    /// Executable comparison.
    fn le(&self, other: &Self) -> (r: bool)
        ensures
            r == Self::key_le(*self, *other),
    ;

    proof fn lemma_total(a: Self, b: Self)
        ensures
            Self::key_le(a, b) || Self::key_le(b, a),
    ;

    proof fn lemma_trans(a: Self, b: Self, c: Self)
        requires
            Self::key_le(a, b),
            Self::key_le(b, c),
        ensures
            Self::key_le(a, c),
    ;
}

impl OrderKey for i128 {
    open spec fn key_le(a: i128, b: i128) -> bool {
        a <= b
    }

    fn le(&self, other: &i128) -> (r: bool) {
        *self <= *other
    }

    proof fn lemma_total(a: i128, b: i128) {
    }

    proof fn lemma_trans(a: i128, b: i128, c: i128) {
    }
}

impl OrderKey for u64 {
    open spec fn key_le(a: u64, b: u64) -> bool {
        a <= b
    }

    fn le(&self, other: &u64) -> (r: bool) {
        *self <= *other
    }

    proof fn lemma_total(a: u64, b: u64) {
    }

    proof fn lemma_trans(a: u64, b: u64, c: u64) {
    }
}

impl OrderKey for String {
    open spec fn key_le(a: String, b: String) -> bool {
        lex_le(a@, b@)
    }

    fn le(&self, other: &String) -> (r: bool) {
        str_le(self.as_str(), other.as_str())
    }

    proof fn lemma_total(a: String, b: String) {
        lemma_lex_le_total(a@, b@);
    }

    proof fn lemma_trans(a: String, b: String, c: String) {
        lemma_lex_le_trans(a@, b@, c@);
    }
}

/// `e` must come after an element with key `k` inserted now: its key is
/// strictly greater (ascending) or strictly smaller (descending).
pub open spec fn goes_after<K: OrderKey, T>(e: (K, T), k: K, descending: bool) -> bool {
    if descending {
        !K::key_le(k, e.0)
    } else {
        !K::key_le(e.0, k)
    }
}

/// The position where an element with key `k` is inserted into `sorted`:
/// after every element that does not go after it.
pub open spec fn insert_pos<K: OrderKey, T>(sorted: Seq<(K, T)>, k: K, descending: bool) -> nat
    decreases sorted.len(),
{
    if sorted.len() == 0 {
        0
    } else if goes_after(sorted[0], k, descending) {
        0
    } else {
        1 + insert_pos(sorted.drop_first(), k, descending)
    }
}

/// Stable insertion sort by key.
pub open spec fn sort_spec<K: OrderKey, T>(s: Seq<(K, T)>, descending: bool) -> Seq<(K, T)>
    decreases s.len(),
{
    if s.len() == 0 {
        Seq::empty()
    } else {
        let sorted = sort_spec(s.drop_last(), descending);
        sorted.insert(insert_pos(sorted, s.last().0, descending) as int, s.last())
    }
}

proof fn lemma_insert_pos_bound<K: OrderKey, T>(sorted: Seq<(K, T)>, k: K, descending: bool)
    ensures
        insert_pos(sorted, k, descending) <= sorted.len(),
        forall|j: int|
            0 <= j < insert_pos(sorted, k, descending) ==> !goes_after(
                #[trigger] sorted[j],
                k,
                descending,
            ),
        insert_pos(sorted, k, descending) < sorted.len() ==> goes_after(
            sorted[insert_pos(sorted, k, descending) as int],
            k,
            descending,
        ),
    decreases sorted.len(),
{
    if sorted.len() > 0 && !goes_after(sorted[0], k, descending) {
        lemma_insert_pos_bound(sorted.drop_first(), k, descending);
        assert forall|j: int| 0 <= j < insert_pos(sorted, k, descending) implies !goes_after(
            #[trigger] sorted[j],
            k,
            descending,
        ) by {
            if j > 0 {
                assert(sorted[j] == sorted.drop_first()[j - 1]);
            }
        }
    }
}

proof fn lemma_sort_len<K: OrderKey, T>(s: Seq<(K, T)>, descending: bool)
    ensures
        sort_spec(s, descending).len() == s.len(),
    decreases s.len(),
{
    if s.len() > 0 {
        lemma_sort_len(s.drop_last(), descending);
        lemma_insert_pos_bound(sort_spec(s.drop_last(), descending), s.last().0, descending);
    }
}

/// Sorts `items` by key, stably, ascending or descending.
pub fn stable_sort<K: OrderKey, T>(items: Vec<(K, T)>, descending: bool) -> (r: Vec<(K, T)>)
    ensures
        r@ == sort_spec(items@, descending),
{
    let mut items = items;
    let mut rev: Vec<(K, T)> = Vec::new();
    // Take the items out from the back, then insert them front to back.
    let ghost orig = items@;
    while items.len() > 0
        invariant
            items@ == orig.take(items@.len() as int),
            items@.len() <= orig.len(),
            rev@.len() == orig.len() - items@.len(),
            forall|j: int|
                0 <= j < rev@.len() ==> #[trigger] rev@[j] == orig[orig.len() - 1 - j],
        decreases items@.len(),
    {
        let ghost n = items@.len();
        let x = items.pop().unwrap();
        assert(x == orig[n - 1]);
        rev.push(x);
        assert(items@ =~= orig.take(items@.len() as int));
    }
    let mut out: Vec<(K, T)> = Vec::new();
    let total = rev.len();
    let mut done: usize = 0;
    while rev.len() > 0
        invariant
            total == orig.len(),
            rev@.len() + done == total,
            forall|j: int|
                0 <= j < rev@.len() ==> #[trigger] rev@[j] == orig[orig.len() - 1 - j],
            out@ == sort_spec(orig.take(done as int), descending),
            out@.len() == done,
        decreases rev@.len(),
    {
        let ghost m = rev@.len();
        let x = rev.pop().unwrap();
        assert(x == orig[done as int]);
        let mut p: usize = 0;
        let ghost sorted = out@;
        proof {
            lemma_insert_pos_bound(sorted, x.0, descending);
        }
        while p < out.len()
            invariant
                out@ == sorted,
                p <= out@.len(),
                p <= insert_pos(sorted, x.0, descending),
                insert_pos(sorted, x.0, descending) <= sorted.len(),
                forall|j: int|
                    0 <= j < insert_pos(sorted, x.0, descending) ==> !goes_after(
                        #[trigger] sorted[j],
                        x.0,
                        descending,
                    ),
                insert_pos(sorted, x.0, descending) < sorted.len() ==> goes_after(
                    sorted[insert_pos(sorted, x.0, descending) as int],
                    x.0,
                    descending,
                ),
            ensures
                p == insert_pos(sorted, x.0, descending),
                out@ == sorted,
            decreases out@.len() - p,
        {
            let after = if descending {
                !x.0.le(&out[p].0)
            } else {
                !out[p].0.le(&x.0)
            };
            if after {
                assert(goes_after(sorted[p as int], x.0, descending));
                break;
            }
            p = p + 1;
        }
        assert(p == insert_pos(sorted, x.0, descending));
        out.insert(p, x);
        proof {
            assert(orig.take(done + 1).drop_last() =~= orig.take(done as int));
            assert(orig.take(done + 1).last() == x);
            lemma_sort_len(orig.take(done + 1), descending);
        }
        done = done + 1;
    }
    assert(orig.take(done as int) =~= orig);
    out
}

/// Keys of a sequence of pairs are sorted.
pub open spec fn is_sorted_by_key<K: OrderKey, T>(s: Seq<(K, T)>, descending: bool) -> bool {
    forall|i: int, j: int|
        0 <= i < j < s.len() ==> if descending {
            K::key_le(#[trigger] s[j].0, #[trigger] s[i].0)
        } else {
            K::key_le(s[i].0, s[j].0)
        }
}

/// The sort orders its result by key and keeps every element.
pub proof fn law_sort_orders_and_permutes<K: OrderKey, T>(s: Seq<(K, T)>, descending: bool)
    ensures
        is_sorted_by_key(sort_spec(s, descending), descending),
        sort_spec(s, descending).to_multiset() == s.to_multiset(),
    decreases s.len(),
{
    if s.len() > 0 {
        law_sort_orders_and_permutes(s.drop_last(), descending);
        let sorted = sort_spec(s.drop_last(), descending);
        let x = s.last();
        let p = insert_pos(sorted, x.0, descending) as int;
        lemma_insert_pos_bound(sorted, x.0, descending);
        let r = sorted.insert(p, x);
        assert(r == sort_spec(s, descending));
        assert forall|i: int, j: int| 0 <= i < j < r.len() implies if descending {
            K::key_le(#[trigger] r[j].0, #[trigger] r[i].0)
        } else {
            K::key_le(r[i].0, r[j].0)
        } by {
            if i < p && j < p {
                assert(r[i] == sorted[i] && r[j] == sorted[j]);
            } else if i < p && j == p {
                assert(r[i] == sorted[i]);
                assert(!goes_after(sorted[i], x.0, descending));
            } else if i < p && j > p {
                assert(r[i] == sorted[i] && r[j] == sorted[j - 1]);
            } else if i == p {
                assert(r[j] == sorted[j - 1]);
                if p < sorted.len() {
                    assert(goes_after(sorted[p], x.0, descending));
                    K::lemma_total(sorted[p].0, x.0);
                    if j - 1 > p {
                        assert(r[p + 1] == sorted[p]);
                        if descending {
                            K::lemma_trans(sorted[j - 1].0, sorted[p].0, x.0);
                        } else {
                            K::lemma_trans(x.0, sorted[p].0, sorted[j - 1].0);
                        }
                    }
                }
            } else {
                assert(r[i] == sorted[i - 1] && r[j] == sorted[j - 1]);
            }
        }
        assert(s =~= s.drop_last().push(x));
        vstd::seq_lib::to_multiset_insert(sorted, p, x);
        vstd::seq_lib::to_multiset_build(s.drop_last(), x);
    } else {
        assert(s =~= Seq::<(K, T)>::empty());
    }
}

/// Applying `f` to two sequences with the same elements, as many times
/// each, gives two sequences with the same elements.
pub proof fn lemma_map_multiset<A, B>(a: Seq<A>, b: Seq<A>, f: spec_fn(A) -> B)
    requires
        a.to_multiset() == b.to_multiset(),
    ensures
        a.map_values(f).to_multiset() == b.map_values(f).to_multiset(),
    decreases a.len(),
{
    broadcast use vstd::seq_lib::group_to_multiset_ensures;

    if a.len() == 0 {
        vstd::seq_lib::to_multiset_len(a);
        vstd::seq_lib::to_multiset_len(b);
        assert(b.len() == 0);
        assert(a.map_values(f) =~= Seq::<B>::empty());
        assert(b.map_values(f) =~= Seq::<B>::empty());
    } else {
        let x = a.last();
        let a0 = a.drop_last();
        assert(a =~= a0.push(x));
        vstd::seq_lib::to_multiset_build(a0, x);
        assert(a.to_multiset().count(x) > 0);
        assert(b.contains(x));
        let i = choose|i: int| 0 <= i < b.len() && b[i] == x;
        let b0 = b.remove(i);
        vstd::seq_lib::to_multiset_remove(b, i);
        assert(a0.to_multiset() =~= b0.to_multiset());
        lemma_map_multiset(a0, b0, f);
        let fa = a.map_values(f);
        let fb = b.map_values(f);
        assert(fa =~= a0.map_values(f).push(f(x)));
        vstd::seq_lib::to_multiset_build(a0.map_values(f), f(x));
        assert(fb.remove(i) =~= b0.map_values(f));
        vstd::seq_lib::to_multiset_remove(fb, i);
        assert(fb[i] == f(x));
        assert(fb.to_multiset() =~= fb.remove(i).to_multiset().insert(f(x)));
    }
}

/// Sorting keeps the values: the sorted pairs are pairs of the input, and
/// their values are the input's values, as many times each.
pub proof fn law_sort_keeps_values<K: OrderKey, T>(s: Seq<(K, T)>, descending: bool)
    ensures
        sort_spec(s, descending).len() == s.len(),
        sort_spec(s, descending).map_values(|p: (K, T)| p.1).to_multiset() == s.map_values(
            |p: (K, T)| p.1,
        ).to_multiset(),
        forall|i: int|
            0 <= i < s.len() ==> s.contains(#[trigger] sort_spec(s, descending)[i]),
{
    broadcast use vstd::seq_lib::group_to_multiset_ensures;

    law_sort_orders_and_permutes(s, descending);
    lemma_sort_len(s, descending);
    let r = sort_spec(s, descending);
    lemma_map_multiset(r, s, |p: (K, T)| p.1);
    assert forall|i: int| 0 <= i < s.len() implies s.contains(#[trigger] sort_spec(s, descending)[i]) by {
        assert(r.contains(r[i]));
        vstd::seq_lib::to_multiset_contains(r, r[i]);
        vstd::seq_lib::to_multiset_contains(s, r[i]);
    }
}

} // verus!
