//! An insertion-ordered table of records with unique keys: the in-memory
//! store behind the services' maps.
use vstd::prelude::*;

verus! {

/// A record that carries its own key.
pub trait Keyed {
    /// The type of keys (`str` or `[u8]`).
    type K: View + ?Sized;

    /// The key's mathematical value.
    spec fn key_view(&self) -> <Self::K as View>::V;

    /// The key.
    fn key_str(&self) -> (r: &Self::K)
        ensures
            r@ == self.key_view(),
    ;

    /// Key equality.
    fn same_key(a: &Self::K, b: &Self::K) -> (r: bool)
        ensures
            r == (a@ == b@),
    ;
}

/// Position of the record with key `k` in `s`, if any (the last one).
pub open spec fn index_of_key<V: Keyed>(s: Seq<V>, k: <V::K as View>::V) -> Option<int>
    decreases s.len(),
{
    if s.len() == 0 {
        None
    } else if s.last().key_view() == k {
        Some(s.len() - 1)
    } else {
        index_of_key(s.drop_last(), k)
    }
}

/// No two records of `s` share a key.
pub open spec fn keys_unique<V: Keyed>(s: Seq<V>) -> bool {
    forall|i: int, j: int|
        0 <= i < s.len() && 0 <= j < s.len() && i != j ==> #[trigger] s[i].key_view()
            != #[trigger] s[j].key_view()
}

/// The map from keys to records that `s` represents.
pub open spec fn map_of<V: Keyed>(s: Seq<V>) -> Map<<V::K as View>::V, V> {
    Map::new(
        |k: <V::K as View>::V| index_of_key(s, k) is Some,
        |k: <V::K as View>::V| s[index_of_key(s, k)->0],
    )
}

pub proof fn lemma_index_of_key<V: Keyed>(s: Seq<V>, k: <V::K as View>::V)
    ensures
        match index_of_key(s, k) {
            Some(i) => 0 <= i < s.len() && s[i].key_view() == k,
            None => forall|j: int| 0 <= j < s.len() ==> #[trigger] s[j].key_view() != k,
        },
    decreases s.len(),
{
    if s.len() > 0 && s.last().key_view() != k {
        lemma_index_of_key(s.drop_last(), k);
        assert forall|j: int| 0 <= j < s.len() - 1 implies #[trigger] s[j] == s.drop_last()[j] by {}
    }
}

pub proof fn lemma_index_unique<V: Keyed>(s: Seq<V>, i: int)
    requires
        keys_unique(s),
        0 <= i < s.len(),
    ensures
        index_of_key(s, s[i].key_view()) == Some(i),
{
    lemma_index_of_key(s, s[i].key_view());
}

/// Records with unique keys, kept in insertion order.
#[derive(Clone, Debug)]
pub struct Table<V> {
    items: Vec<V>,
}

impl<V: Keyed> Table<V> {
    /// Keys are unique.
    pub open spec fn wf(&self) -> bool {
        keys_unique(self.entries())
    }

    /// The records in insertion order.
    pub closed spec fn entries(&self) -> Seq<V> {
        self.items@
    }

    /// The key-to-record map.
    pub open spec fn view(&self) -> Map<<V::K as View>::V, V> {
        map_of(self.entries())
    }

    pub proof fn lemma_view(&self)
        requires
            self.wf(),
        ensures
            keys_unique(self.entries()),
            forall|i: int|
                0 <= i < self.entries().len() ==> #[trigger] self.view().dom().contains(
                    self.entries()[i].key_view(),
                ) && self.view()[self.entries()[i].key_view()] == self.entries()[i],
            forall|k: <V::K as View>::V|
                #[trigger] self.view().dom().contains(k) ==> exists|i: int|
                    0 <= i < self.entries().len() && self.entries()[i].key_view() == k,
    {
        assert forall|i: int| 0 <= i < self.entries().len() implies #[trigger] self.view().dom().contains(
            self.entries()[i].key_view(),
        ) && self.view()[self.entries()[i].key_view()] == self.entries()[i] by {
            lemma_index_unique(self.items@, i);
        }
        assert forall|k: <V::K as View>::V| #[trigger] self.view().dom().contains(k) implies exists|i: int|
            0 <= i < self.entries().len() && self.entries()[i].key_view() == k by {
            lemma_index_of_key(self.items@, k);
        }
    }

    /// An empty table.
    pub fn new() -> (t: Self)
        ensures
            t.wf(),
            t.entries() == Seq::<V>::empty(),
            t.view() == Map::<<V::K as View>::V, V>::empty(),
    {
        let t = Table { items: Vec::new() };
        assert(t.view() =~= Map::<<V::K as View>::V, V>::empty());
        t
    }

    /// Number of records.
    pub fn len(&self) -> (n: usize)
        ensures
            n == self.entries().len(),
    {
        self.items.len()
    }

    /// The `i`-th record in insertion order.
    pub fn at(&self, i: usize) -> (r: &V)
        requires
            i < self.entries().len(),
        ensures
            *r == self.entries()[i as int],
    {
        &self.items[i]
    }

    /// Position of the record with key `key`.
    pub fn find(&self, key: &V::K) -> (r: Option<usize>)
        requires
            self.wf(),
        ensures
            match r {
                Some(i) => i < self.entries().len() && self.entries()[i as int].key_view() == key@,
                None => !self.view().dom().contains(key@),
            },
            r is Some <==> self.view().dom().contains(key@),
    {
        proof {
            self.lemma_view();
        }
        let mut i: usize = 0;
        while i < self.items.len()
            invariant
                self.wf(),
                i <= self.items.len(),
                forall|j: int| 0 <= j < i ==> #[trigger] self.items@[j].key_view() != key@,
            decreases self.items.len() - i,
        {
            if V::same_key(self.items[i].key_str(), key) {
                proof {
                    self.lemma_view();
                }
                return Some(i);
            }
            i = i + 1;
        }
        proof {
            lemma_index_of_key(self.items@, key@);
        }
        None
    }

    /// The record with key `key`.
    pub fn get(&self, key: &V::K) -> (r: Option<&V>)
        requires
            self.wf(),
        ensures
            match r {
                Some(v) => self.view().dom().contains(key@) && *v == self.view()[key@],
                None => !self.view().dom().contains(key@),
            },
    {
        proof {
            self.lemma_view();
        }
        match self.find(key) {
            Some(i) => Some(&self.items[i]),
            None => None,
        }
    }

    /// Whether a record with key `key` is present.
    pub fn contains(&self, key: &V::K) -> (r: bool)
        requires
            self.wf(),
        ensures
            r == self.view().dom().contains(key@),
    {
        self.find(key).is_some()
    }

    /// Inserts `v`, replacing (in place) the record with the same key.
    pub fn upsert(&mut self, v: V)
        requires
            old(self).wf(),
        ensures
            final(self).wf(),
            final(self).view() == old(self).view().insert(v.key_view(), v),
            old(self).view().dom().contains(v.key_view()) ==> final(self).entries().len()
                == old(self).entries().len(),
            old(self).view().dom().contains(v.key_view()) ==> final(self).entries() == old(
                self,
            ).entries().update(index_of_key(old(self).entries(), v.key_view())->0, v),
            !old(self).view().dom().contains(v.key_view()) ==> final(self).entries()
                == old(self).entries().push(v),
    {
        proof {
            self.lemma_view();
        }
        let ghost k = v.key_view();
        let ghost old_items = self.items@;
        let found = self.find(v.key_str());
        match found {
            Some(i) => {
                self.items.set(i, v);
                proof {
                    assert(self.items@ == old_items.update(i as int, v));
                    lemma_index_unique(old_items, i as int);
                    assert(keys_unique(self.items@)) by {
                        assert forall|a: int, b: int|
                            0 <= a < self.items@.len() && 0 <= b < self.items@.len() && a != b
                                implies #[trigger] self.items@[a].key_view()
                            != #[trigger] self.items@[b].key_view() by {
                            if a != i && b != i {
                                assert(old_items[a].key_view() != old_items[b].key_view());
                            } else if a == i {
                                assert(old_items[i as int].key_view() != old_items[b].key_view());
                            } else {
                                assert(old_items[i as int].key_view() != old_items[a].key_view());
                            }
                        }
                    }
                    self.lemma_view();
                    assert(self.view() =~= map_of(old_items).insert(k, v)) by {
                        assert forall|key: <V::K as View>::V| #[trigger] self.view().dom().contains(key)
                            <==> map_of(old_items).insert(k, v).dom().contains(key) by {
                            if self.view().dom().contains(key) {
                                let j = choose|j: int|
                                    0 <= j < self.entries().len() && self.entries()[j].key_view()
                                        == key;
                                if j != i {
                                    assert(map_of(old_items).dom().contains(old_items[j].key_view()));
                                }
                            }
                            if map_of(old_items).dom().contains(key) && key != k {
                                let j = choose|j: int|
                                    0 <= j < old_items.len() && old_items[j].key_view() == key;
                                assert(self.items@[j].key_view() == key);
                            }
                            if key == k {
                                assert(self.items@[i as int].key_view() == key);
                            }
                        }
                        assert forall|key: <V::K as View>::V| #[trigger] self.view().dom().contains(key)
                            implies self.view()[key] == map_of(old_items).insert(k, v)[key] by {
                            let j = choose|j: int|
                                0 <= j < self.entries().len() && self.entries()[j].key_view()
                                    == key;
                            if j != i {
                                assert(old_items[j] == self.items@[j]);
                                assert(map_of(old_items)[old_items[j].key_view()] == old_items[j]);
                            }
                        }
                    }
                }
            },
            None => {
                self.items.push(v);
                proof {
                    assert(self.items@ == old_items.push(v));
                    assert(keys_unique(self.items@)) by {
                        assert forall|a: int, b: int|
                            0 <= a < self.items@.len() && 0 <= b < self.items@.len() && a != b
                                implies #[trigger] self.items@[a].key_view()
                            != #[trigger] self.items@[b].key_view() by {
                            if a < old_items.len() && b < old_items.len() {
                                assert(old_items[a].key_view() != old_items[b].key_view());
                            } else if a < old_items.len() {
                                assert(map_of(old_items).dom().contains(old_items[a].key_view()));
                            } else {
                                assert(map_of(old_items).dom().contains(old_items[b].key_view()));
                            }
                        }
                    }
                    self.lemma_view();
                    assert(self.view() =~= map_of(old_items).insert(k, v)) by {
                        assert forall|key: <V::K as View>::V| #[trigger] self.view().dom().contains(key)
                            <==> map_of(old_items).insert(k, v).dom().contains(key) by {
                            if map_of(old_items).dom().contains(key) && key != k {
                                let j = choose|j: int|
                                    0 <= j < old_items.len() && old_items[j].key_view() == key;
                                assert(self.items@[j].key_view() == key);
                            }
                            if key == k {
                                assert(self.items@[old_items.len() as int].key_view() == key);
                            }
                        }
                        assert forall|key: <V::K as View>::V| #[trigger] self.view().dom().contains(key)
                            implies self.view()[key] == map_of(old_items).insert(k, v)[key] by {
                            let j = choose|j: int|
                                0 <= j < self.entries().len() && self.entries()[j].key_view()
                                    == key;
                            if j < old_items.len() {
                                assert(old_items[j] == self.items@[j]);
                                assert(map_of(old_items)[old_items[j].key_view()] == old_items[j]);
                            }
                        }
                    }
                }
            },
        }
    }


    /// Removes and returns the record with key `key`.
    pub fn take(&mut self, key: &V::K) -> (r: Option<V>)
        requires
            old(self).wf(),
        ensures
            final(self).wf(),
            match r {
                Some(v) => old(self).view().dom().contains(key@) && v == old(self).view()[key@]
                    && v.key_view() == key@ && final(self).view() == old(self).view().remove(key@),
                None => !old(self).view().dom().contains(key@) && *final(self) == *old(self),
            },
    {
        proof {
            self.lemma_view();
        }
        let ghost old_items = self.items@;
        match self.find(key) {
            None => None,
            Some(i) => {
                let v = self.items.remove(i);
                proof {
                    assert(self.items@ == old_items.remove(i as int));
                    assert(forall|a: int|
                        0 <= a < self.items@.len() ==> #[trigger] self.items@[a] == if a < i {
                            old_items[a]
                        } else {
                            old_items[a + 1]
                        });
                    assert(keys_unique(self.items@)) by {
                        assert forall|a: int, b: int|
                            0 <= a < self.items@.len() && 0 <= b < self.items@.len() && a != b
                                implies #[trigger] self.items@[a].key_view()
                            != #[trigger] self.items@[b].key_view() by {
                            let a0 = if a < i { a } else { a + 1 };
                            let b0 = if b < i { b } else { b + 1 };
                            assert(old_items[a0].key_view() != old_items[b0].key_view());
                        }
                    }
                    self.lemma_view();
                    assert(map_of(old_items)[key@] == old_items[i as int]);
                    assert(self.view() =~= map_of(old_items).remove(key@)) by {
                        assert forall|k: <V::K as View>::V| #[trigger] self.view().dom().contains(k)
                            <==> map_of(old_items).remove(key@).dom().contains(k) by {
                            if self.view().dom().contains(k) {
                                let j = choose|j: int|
                                    0 <= j < self.entries().len() && self.entries()[j].key_view()
                                        == k;
                                let j0 = if j < i { j } else { j + 1 };
                                assert(old_items[j0].key_view() == k);
                                assert(map_of(old_items).dom().contains(old_items[j0].key_view()));
                                assert(j0 != i);
                            }
                            if map_of(old_items).remove(key@).dom().contains(k) {
                                let j = choose|j: int|
                                    0 <= j < old_items.len() && old_items[j].key_view() == k;
                                assert(j != i);
                                let j1 = if j < i { j } else { j - 1 };
                                assert(self.items@[j1].key_view() == k);
                            }
                        }
                        assert forall|k: <V::K as View>::V| #[trigger] self.view().dom().contains(k)
                            implies self.view()[k] == map_of(old_items).remove(key@)[k] by {
                            let j = choose|j: int|
                                0 <= j < self.entries().len() && self.entries()[j].key_view()
                                    == k;
                            let j0 = if j < i { j } else { j + 1 };
                            assert(self.items@[j] == old_items[j0]);
                            assert(map_of(old_items)[old_items[j0].key_view()] == old_items[j0]);
                        }
                    }
                }
                Some(v)
            },
        }
    }
}

/// String equality (`str`'s `==`).
pub fn str_eq(a: &str, b: &str) -> (r: bool)
    ensures
        r == (a@ == b@),
{
    let av = crate::text::chars_of(a);
    let bv = crate::text::chars_of(b);
    if av.len() != bv.len() {
        return false;
    }
    let mut i: usize = 0;
    while i < av.len()
        invariant
            av@ == a@,
            bv@ == b@,
            av.len() == bv.len(),
            i <= av.len(),
            forall|j: int| 0 <= j < i ==> a@[j] == b@[j],
        decreases av.len() - i,
    {
        if av[i] != bv[i] {
            return false;
        }
        i = i + 1;
    }
    assert(a@ =~= b@);
    true
}

} // verus!
