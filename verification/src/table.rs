//! An association table: a finite map kept in order of insertion.

use vstd::prelude::*;

verus! {

/// A key that can be told apart by its view.
pub trait Key: View + Sized {
    fn same_key(&self, other: &Self) -> (r: bool)
        ensures
            r == (self@ == other@),
    ;
}

impl Key for String {
    fn same_key(&self, other: &Self) -> (r: bool) {
        *self == *other
    }
}

impl Key for u32 {
    fn same_key(&self, other: &Self) -> (r: bool) {
        *self == *other
    }
}

impl Key for i32 {
    fn same_key(&self, other: &Self) -> (r: bool) {
        *self == *other
    }
}

pub struct Entry<K, V> {
    key: K,
    value: V,
}

/// A map from the views of its keys to the views of its values.
pub struct Table<K: Key, V: View> {
    entries: Vec<Entry<K, V>>,
}

/// Two entries at different places have different keys.
spec fn distinct_keys<K: Key, V: View>(s: Seq<Entry<K, V>>) -> bool {
    forall|i: int, j: int|
        0 <= i < j < s.len() ==> (#[trigger] s[i]).key@ != (#[trigger] s[j]).key@
}

/// The map that a sequence of entries holds: for a key, what stands at its
/// last entry.
spec fn entries_map<K: Key, V: View>(s: Seq<Entry<K, V>>) -> Map<K::V, V::V>
    decreases s.len(),
{
    if s.len() == 0 {
        Map::empty()
    } else {
        entries_map(s.drop_last()).insert(s.last().key@, s.last().value@)
    }
}

proof fn lemma_entries_map<K: Key, V: View>(s: Seq<Entry<K, V>>)
    requires
        distinct_keys(s),
    ensures
        entries_map(s).dom().finite(),
        forall|i: int|
            0 <= i < s.len() ==> entries_map(s).contains_key((#[trigger] s[i]).key@) && entries_map(
                s,
            )[s[i].key@] == s[i].value@,
        forall|k: K::V| #[trigger]
            entries_map(s).contains_key(k) ==> exists|i: int|
                0 <= i < s.len() && (#[trigger] s[i]).key@ == k,
    decreases s.len(),
{
    if s.len() > 0 {
        let t = s.drop_last();
        assert forall|i: int, j: int| 0 <= i < j < t.len() implies (#[trigger] t[i]).key@ != (
        #[trigger] t[j]).key@ by {
            assert(t[i] == s[i] && t[j] == s[j]);
        }
        lemma_entries_map(t);
        assert forall|i: int| 0 <= i < s.len() implies entries_map(s).contains_key(
            (#[trigger] s[i]).key@,
        ) && entries_map(s)[s[i].key@] == s[i].value@ by {
            if i < t.len() {
                assert(s[i] == t[i]);
                assert(s[i].key@ != s[s.len() - 1].key@);
            }
        }
        assert forall|k: K::V| #[trigger] entries_map(s).contains_key(k) implies exists|i: int|
            0 <= i < s.len() && (#[trigger] s[i]).key@ == k by {
            if k == s.last().key@ {
                assert(s[s.len() - 1].key@ == k);
            } else {
                assert(entries_map(t).contains_key(k));
                let i = choose|i: int| 0 <= i < t.len() && (#[trigger] t[i]).key@ == k;
                assert(s[i].key@ == k);
            }
        }
    }
}

impl<K: Key, V: View> View for Table<K, V> {
    type V = Map<K::V, V::V>;

    closed spec fn view(&self) -> Map<K::V, V::V> {
        entries_map(self.entries@)
    }
}

impl<K: Key, V: View> Table<K, V> {
    /// No key stands in the table twice.
    pub closed spec fn wf(&self) -> bool {
        distinct_keys(self.entries@)
    }

    /// The keys, in the order in which they came.
    pub closed spec fn order(&self) -> Seq<K::V> {
        self.entries@.map_values(|e: Entry<K, V>| e.key@)
    }

    pub fn new() -> (r: Self)
        ensures
            r.wf(),
            r@ == Map::<K::V, V::V>::empty(),
            r.order().len() == 0,
    {
        Table { entries: Vec::new() }
    }

    /// The number of keys.
    pub fn len(&self) -> (r: usize)
        requires
            self.wf(),
        ensures
            r == self.order().len(),
            r == self@.len(),
            self@.dom().finite(),
            forall|i: int| 0 <= i < r ==> self@.contains_key(#[trigger] self.order()[i]),
            forall|k: K::V| #[trigger] self@.contains_key(k) ==> self.order().contains(k),
            self.order().no_duplicates(),
    {
        proof {
            self.lemma_order();
        }
        self.entries.len()
    }

    proof fn lemma_order(&self)
        requires
            distinct_keys(self.entries@),
        ensures
            self.order().len() == self.entries@.len(),
            self@.len() == self.order().len(),
            self@.dom().finite(),
            forall|i: int| 0 <= i < self.order().len() ==> self@.contains_key(#[trigger] self.order()[i]),
            forall|k: K::V| #[trigger] self@.contains_key(k) ==> self.order().contains(k),
            self.order().no_duplicates(),
    {
        let s = self.entries@;
        lemma_entries_map(s);
        let o = self.order();
        assert forall|i: int| 0 <= i < o.len() implies self@.contains_key(#[trigger] o[i]) by {
            assert(o[i] == s[i].key@);
        }
        assert forall|k: K::V| #[trigger] self@.contains_key(k) implies o.contains(k) by {
            let i = choose|i: int| 0 <= i < s.len() && (#[trigger] s[i]).key@ == k;
            assert(o[i] == k);
        }
        assert forall|i: int, j: int| 0 <= i < o.len() && 0 <= j < o.len() && i != j implies o[i]
            != o[j] by {
            if i < j {
                assert(s[i].key@ != s[j].key@);
            } else {
                assert(s[j].key@ != s[i].key@);
            }
        }
        assert(self@.dom() =~= o.to_set());
        o.unique_seq_to_set();
    }

    /// A table holds finitely many keys.
    pub proof fn lemma_finite(&self)
        requires
            self.wf(),
        ensures
            self@.dom().finite(),
    {
        lemma_entries_map(self.entries@);
    }

    /// The key at place `i`.
    pub fn key_at(&self, i: usize) -> (r: &K)
        requires
            self.wf(),
            i < self.order().len(),
        ensures
            r@ == self.order()[i as int],
            self@.contains_key(r@),
    {
        proof {
            self.lemma_order();
        }
        &self.entries[i].key
    }

    /// The value at place `i`.
    pub fn value_at(&self, i: usize) -> (r: &V)
        requires
            self.wf(),
            i < self.order().len(),
        ensures
            self@.contains_key(self.order()[i as int]),
            r@ == self@[self.order()[i as int]],
    {
        proof {
            self.lemma_order();
            lemma_entries_map(self.entries@);
        }
        &self.entries[i].value
    }

    fn find(&self, k: &K) -> (r: Option<usize>)
        requires
            self.wf(),
        ensures
            match r {
                Some(i) => {
                    &&& i < self.entries@.len()
                    &&& self.entries@[i as int].key@ == k@
                    &&& self@.contains_key(k@)
                    &&& self@[k@] == self.entries@[i as int].value@
                },
                None => {
                    &&& !self@.contains_key(k@)
                    &&& forall|j: int| 0 <= j < self.entries@.len() ==> (#[trigger] self.entries@[j]).key@ != k@
                },
            },
    {
        proof {
            lemma_entries_map(self.entries@);
        }
        let mut i: usize = 0;
        while i < self.entries.len()
            invariant
                i <= self.entries.len(),
                self.wf(),
                forall|j: int| 0 <= j < i ==> (#[trigger] self.entries@[j]).key@ != k@,
            decreases self.entries.len() - i,
        {
            if self.entries[i].key.same_key(k) {
                proof {
                    lemma_entries_map(self.entries@);
                }
                return Some(i);
            }
            i = i + 1;
        }
        None
    }

    /// What the table holds for `k`.
    pub fn get(&self, k: &K) -> (r: Option<&V>)
        requires
            self.wf(),
        ensures
            match r {
                Some(v) => self@.contains_key(k@) && v@ == self@[k@],
                None => !self@.contains_key(k@),
            },
    {
        match self.find(k) {
            Some(i) => Some(&self.entries[i].value),
            None => None,
        }
    }

    /// Whether the table holds something for `k`.
    pub fn contains(&self, k: &K) -> (r: bool)
        requires
            self.wf(),
        ensures
            r == self@.contains_key(k@),
    {
        self.find(k).is_some()
    }

    /// Makes the table hold `v` for `k`. A new key comes last.
    pub fn insert(&mut self, k: K, v: V)
        requires
            old(self).wf(),
        ensures
            final(self).wf(),
            final(self)@ == old(self)@.insert(k@, v@),
            final(self).order() == (if old(self)@.contains_key(k@) { old(self).order() } else {
                old(self).order().push(k@)
            }),
    {
        proof {
            lemma_entries_map(self.entries@);
        }
        let ghost s = self.entries@;
        match self.find(&k) {
            Some(i) => {
                self.entries.set(i, Entry { key: k, value: v });
                proof {
                    let t = self.entries@;
                    lemma_entries_map(t);
                    assert(entries_map(t) =~= entries_map(s).insert(k@, v@)) by {
                        assert forall|x: K::V| entries_map(t).contains_key(x) == entries_map(s).insert(
                            k@,
                            v@,
                        ).contains_key(x) && (entries_map(t).contains_key(x) ==> entries_map(t)[x]
                            == entries_map(s).insert(k@, v@)[x]) by {
                            if entries_map(t).contains_key(x) {
                                let j = choose|j: int| 0 <= j < t.len() && (#[trigger] t[j]).key@ == x;
                                assert(s[j].key@ == x);
                            }
                            if entries_map(s).contains_key(x) {
                                let j = choose|j: int| 0 <= j < s.len() && (#[trigger] s[j]).key@ == x;
                                assert(t[j].key@ == x);
                            }
                            assert(t[i as int].key@ == k@);
                        }
                    }
                    assert(self.order() =~= old(self).order());
                }
            },
            None => {
                self.entries.push(Entry { key: k, value: v });
                proof {
                    assert(self.entries@.drop_last() =~= s);
                    assert(self.order() =~= old(self).order().push(k@));
                }
            },
        }
    }

    /// Takes out what the table holds for `k`.
    pub fn remove(&mut self, k: &K) -> (r: Option<V>)
        requires
            old(self).wf(),
        ensures
            final(self).wf(),
            final(self)@ == old(self)@.remove(k@),
            match r {
                Some(v) => old(self)@.contains_key(k@) && v@ == old(self)@[k@],
                None => !old(self)@.contains_key(k@),
            },
    {
        proof {
            lemma_entries_map(self.entries@);
        }
        let ghost s = self.entries@;
        match self.find(k) {
            Some(i) => {
                let e: Entry<K, V> = self.entries.remove(i);
                proof {
                    let t = self.entries@;
                    assert forall|a: int, b: int| 0 <= a < b < t.len() implies (#[trigger] t[a]).key@
                        != (#[trigger] t[b]).key@ by {
                        let a1 = if a < i { a } else { a + 1 };
                        let b1 = if b < i { b } else { b + 1 };
                        assert(t[a] == s[a1] && t[b] == s[b1]);
                    }
                    lemma_entries_map(t);
                    assert(entries_map(t) =~= entries_map(s).remove(k@)) by {
                        assert forall|x: K::V| entries_map(t).contains_key(x) == entries_map(s).remove(
                            k@,
                        ).contains_key(x) && (entries_map(t).contains_key(x) ==> entries_map(t)[x]
                            == entries_map(s)[x]) by {
                            if entries_map(t).contains_key(x) {
                                let j = choose|j: int| 0 <= j < t.len() && (#[trigger] t[j]).key@ == x;
                                let j1 = if j < i { j } else { j + 1 };
                                assert(t[j] == s[j1]);
                                assert(s[j1].key@ == x);
                                assert(s[i as int].key@ == k@);
                            }
                            if entries_map(s).contains_key(x) && x != k@ {
                                let j = choose|j: int| 0 <= j < s.len() && (#[trigger] s[j]).key@ == x;
                                let j1 = if j < i { j } else { j - 1 };
                                assert(j != i);
                                assert(t[j1] == s[j]);
                                assert(t[j1].key@ == x);
                            }
                        }
                    }
                }
                Some(e.value)
            },
            None => {
                assert(self@.remove(k@) =~= self@);
                None
            },
        }
    }
}

}
