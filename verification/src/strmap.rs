//! A map from `String` keys to values, stored as a vector of entries with
//! unique keys and abstracted as a `Map<Seq<char>, V>`.

use vstd::prelude::*;

verus! {

/// The map denoted by a sequence of key/value entries; later entries shadow
/// earlier ones (irrelevant under `keys_unique`).
pub open spec fn entries_map<V>(s: Seq<(String, V)>) -> Map<Seq<char>, V>
    decreases s.len(),
{
    if s.len() == 0 {
        Map::empty()
    } else {
        entries_map(s.drop_last()).insert(s.last().0@, s.last().1)
    }
}

/// No two entries share a key.
pub open spec fn keys_unique<V>(s: Seq<(String, V)>) -> bool {
    forall|i: int, j: int| 0 <= i < j < s.len() ==> s[i].0@ != s[j].0@
}

proof fn lemma_entries_map_contains<V>(s: Seq<(String, V)>, k: Seq<char>)
    ensures
        entries_map(s).contains_key(k) <==> exists|i: int| 0 <= i < s.len() && s[i].0@ == k,
    decreases s.len(),
{
    if s.len() > 0 {
        lemma_entries_map_contains(s.drop_last(), k);
        if s.last().0@ == k {
            assert(s[s.len() - 1].0@ == k);
        } else if entries_map(s).contains_key(k) {
            let i = choose|i: int| 0 <= i < s.drop_last().len() && s.drop_last()[i].0@ == k;
            assert(s[i].0@ == k);
        } else if exists|i: int| 0 <= i < s.len() && s[i].0@ == k {
            let i = choose|i: int| 0 <= i < s.len() && s[i].0@ == k;
            assert(s.drop_last()[i].0@ == k);
        }
    }
}

proof fn lemma_entries_map_index<V>(s: Seq<(String, V)>, i: int)
    requires
        keys_unique(s),
        0 <= i < s.len(),
    ensures
        entries_map(s).contains_key(s[i].0@),
        entries_map(s)[s[i].0@] == s[i].1,
    decreases s.len(),
{
    lemma_entries_map_contains(s, s[i].0@);
    if i < s.len() - 1 {
        assert(s[i].0@ != s.last().0@);
        assert(s.drop_last()[i] == s[i]);
        lemma_entries_map_index(s.drop_last(), i);
    }
}

proof fn lemma_keys_unique_remove<V>(s: Seq<(String, V)>, i: int)
    requires
        keys_unique(s),
        0 <= i < s.len(),
    ensures
        keys_unique(s.remove(i)),
{
    let t = s.remove(i);
    assert forall|a: int, b: int| 0 <= a < b < t.len() implies t[a].0@ != t[b].0@ by {
        let a0 = if a < i { a } else { a + 1 };
        let b0 = if b < i { b } else { b + 1 };
        assert(t[a] == s[a0]);
        assert(t[b] == s[b0]);
    }
}

proof fn lemma_entries_map_remove<V>(s: Seq<(String, V)>, i: int)
    requires
        keys_unique(s),
        0 <= i < s.len(),
    ensures
        entries_map(s.remove(i)) =~= entries_map(s).remove(s[i].0@),
    decreases s.len(),
{
    let k = s[i].0@;
    if i == s.len() - 1 {
        assert(s.remove(i) =~= s.drop_last());
        lemma_entries_map_contains(s.drop_last(), k);
        assert forall|j: int| 0 <= j < s.drop_last().len() implies s.drop_last()[j].0@ != k by {
            assert(s[j].0@ != s[i].0@);
        }
        assert(!entries_map(s.drop_last()).contains_key(k));
    } else {
        let dl = s.drop_last();
        let t = s.remove(i);
        assert(t.last() == s.last());
        assert(t.drop_last() =~= dl.remove(i));
        lemma_keys_unique_remove(s, s.len() - 1);
        assert(keys_unique(dl)) by {
            assert(s.remove(s.len() - 1) =~= dl);
        }
        lemma_entries_map_remove(dl, i);
        assert(dl[i] == s[i]);
        assert(s.last().0@ != k);
    }
}

proof fn lemma_entries_map_dom_len<V>(s: Seq<(String, V)>)
    requires
        keys_unique(s),
    ensures
        entries_map(s).dom().finite(),
        entries_map(s).dom().len() == s.len(),
    decreases s.len(),
{
    if s.len() > 0 {
        let dl = s.drop_last();
        assert(keys_unique(dl)) by {
            lemma_keys_unique_remove(s, s.len() - 1);
            assert(s.remove(s.len() - 1) =~= dl);
        }
        lemma_entries_map_dom_len(dl);
        lemma_entries_map_contains(dl, s.last().0@);
        assert forall|j: int| 0 <= j < dl.len() implies dl[j].0@ != s.last().0@ by {
            assert(s[j].0@ != s[s.len() - 1].0@);
        }
        assert(!entries_map(dl).contains_key(s.last().0@));
        assert(entries_map(s).dom() =~= entries_map(dl).dom().insert(s.last().0@));
    } else {
        assert(entries_map(s).dom() =~= Set::<Seq<char>>::empty());
    }
}

/// Compare two string slices for equality of their character sequences.
pub fn str_eq(a: &str, b: &str) -> (r: bool)
    ensures
        r == (a@ == b@),
{
    let sa: String = a.to_owned();
    let sb: String = b.to_owned();
    sa == sb
}

#[derive(Debug)]
pub struct StrMap<V> {
    entries: Vec<(String, V)>,
}

impl<V> View for StrMap<V> {
    type V = Map<Seq<char>, V>;

    closed spec fn view(&self) -> Map<Seq<char>, V> {
        entries_map(self.entries@)
    }
}

impl<V> StrMap<V> {
    /// Well-formed: the stored keys are pairwise distinct.
    pub closed spec fn wf(&self) -> bool {
        keys_unique(self.entries@)
    }

    /// The stored values, in insertion order.
    pub closed spec fn val_seq(&self) -> Seq<V> {
        self.entries@.map_values(|e: (String, V)| e.1)
    }

    pub fn new() -> (r: Self)
        ensures
            r.wf(),
            r@ =~= Map::<Seq<char>, V>::empty(),
            r.val_seq() =~= Seq::<V>::empty(),
    {
        StrMap { entries: Vec::new() }
    }

    fn index_of(&self, k: &str) -> (r: Option<usize>)
        ensures
            match r {
                Some(i) => i < self.entries@.len() && self.entries@[i as int].0@ == k@,
                None => forall|i: int| 0 <= i < self.entries@.len() ==> self.entries@[i].0@ != k@,
            },
    {
        let n = self.entries.len();
        for i in 0..n
            invariant
                n == self.entries@.len(),
                forall|j: int| 0 <= j < i ==> self.entries@[j].0@ != k@,
        {
            if str_eq(self.entries[i].0.as_str(), k) {
                return Some(i);
            }
        }
        None
    }

    pub fn contains_key(&self, k: &str) -> (r: bool)
        ensures
            r == self@.contains_key(k@),
    {
        proof {
            lemma_entries_map_contains(self.entries@, k@);
        }
        self.index_of(k).is_some()
    }

    pub fn get(&self, k: &str) -> (r: Option<&V>)
        requires
            self.wf(),
        ensures
            match r {
                Some(v) => self@.contains_key(k@) && *v == self@[k@],
                None => !self@.contains_key(k@),
            },
    {
        proof {
            lemma_entries_map_contains(self.entries@, k@);
        }
        match self.index_of(k) {
            Some(i) => {
                proof {
                    lemma_entries_map_index(self.entries@, i as int);
                }
                Some(&self.entries[i].1)
            },
            None => None,
        }
    }

    pub fn remove(&mut self, k: &str) -> (r: Option<V>)
        requires
            old(self).wf(),
        ensures
            final(self).wf(),
            final(self)@ =~= old(self)@.remove(k@),
            match r {
                Some(v) => old(self)@.contains_key(k@) && v == old(self)@[k@],
                None => !old(self)@.contains_key(k@),
            },
            match r {
                Some(v) => exists|i: int|
                    0 <= i < old(self).val_seq().len() && #[trigger] old(self).val_seq()[i] == v
                        && final(self).val_seq() =~= old(self).val_seq().remove(i),
                None => final(self).val_seq() == old(self).val_seq(),
            },
    {
        proof {
            lemma_entries_map_contains(self.entries@, k@);
        }
        match self.index_of(k) {
            Some(i) => {
                proof {
                    lemma_entries_map_index(self.entries@, i as int);
                    lemma_entries_map_remove(self.entries@, i as int);
                    lemma_keys_unique_remove(self.entries@, i as int);
                }
                let e = self.entries.remove(i);
                proof {
                    assert(old(self).val_seq()[i as int] == e.1);
                    assert(self.val_seq() =~= old(self).val_seq().remove(i as int));
                }
                Some(e.1)
            },
            None => {
                proof {
                    assert(old(self)@.remove(k@) =~= old(self)@);
                    assert(self.val_seq() == old(self).val_seq());
                }
                None
            },
        }
    }

    pub fn insert(&mut self, k: String, v: V)
        requires
            old(self).wf(),
        ensures
            final(self).wf(),
            final(self)@ =~= old(self)@.insert(k@, v),
            !old(self)@.contains_key(k@) ==> final(self).val_seq() =~= old(self).val_seq().push(v),
            old(self)@.contains_key(k@) ==> exists|i: int|
                0 <= i < old(self).val_seq().len() && #[trigger] old(self).val_seq()[i] == old(
                    self,
                )@[k@] && final(self).val_seq() =~= old(self).val_seq().remove(i).push(v),
    {
        let removed = self.remove(k.as_str());
        let ghost mid_vals = self.val_seq();
        let ghost mid = self.entries@;
        proof {
            lemma_entries_map_contains(mid, k@);
        }
        self.entries.push((k, v));
        proof {
            assert(self.entries@.drop_last() =~= mid);
            assert forall|i: int, j: int| 0 <= i < j < self.entries@.len() implies self.entries@[i].0@
                != self.entries@[j].0@ by {
                if j == self.entries@.len() - 1 {
                    assert(mid[i].0@ != k@);
                }
            }
            assert(self.val_seq() =~= mid_vals.push(v));
            if old(self)@.contains_key(k@) {
                let i = choose|i: int|
                    0 <= i < old(self).val_seq().len() && #[trigger] old(self).val_seq()[i]
                        == old(self)@[k@] && mid_vals =~= old(self).val_seq().remove(i);
                assert(self.val_seq() =~= old(self).val_seq().remove(i).push(v));
            }
        }
    }

    pub fn len(&self) -> (n: usize)
        requires
            self.wf(),
        ensures
            self@.dom().finite(),
            n == self@.dom().len(),
    {
        proof {
            lemma_entries_map_dom_len(self.entries@);
        }
        self.entries.len()
    }

    pub fn is_empty(&self) -> (r: bool)
        requires
            self.wf(),
        ensures
            self@.dom().finite(),
            r == (self@.dom().len() == 0),
    {
        self.len() == 0
    }

    pub fn clear(&mut self)
        ensures
            final(self).wf(),
            final(self)@ =~= Map::<Seq<char>, V>::empty(),
            final(self).val_seq() =~= Seq::<V>::empty(),
    {
        self.entries = Vec::new();
    }

    /// The keys, in insertion order.
    pub fn keys(&self) -> (r: Vec<String>)
        requires
            self.wf(),
        ensures
            self@.dom().finite(),
            r@.len() == self@.dom().len(),
            forall|i: int| 0 <= i < r@.len() ==> self@.contains_key(#[trigger] r@[i]@),
            forall|k: Seq<char>| self@.contains_key(k) ==> exists|i: int|
                0 <= i < r@.len() && #[trigger] r@[i]@ == k,
    {
        proof {
            lemma_entries_map_dom_len(self.entries@);
        }
        let n = self.entries.len();
        let mut r: Vec<String> = Vec::new();
        for i in 0..n
            invariant
                n == self.entries@.len(),
                r@.len() == i,
                forall|j: int| 0 <= j < i ==> #[trigger] r@[j]@ == self.entries@[j].0@,
        {
            r.push(self.entries[i].0.clone());
        }
        proof {
            assert forall|i: int| 0 <= i < r@.len() implies self@.contains_key(
                #[trigger] r@[i]@,
            ) by {
                lemma_entries_map_contains(self.entries@, r@[i]@);
            }
            assert forall|k: Seq<char>| self@.contains_key(k) implies exists|i: int|
                0 <= i < r@.len() && #[trigger] r@[i]@ == k by {
                lemma_entries_map_contains(self.entries@, k);
                let i = choose|i: int|
                    0 <= i < self.entries@.len() && self.entries@[i].0@ == k;
                assert(r@[i]@ == k);
            }
        }
        r
    }
}

impl<V: Clone> StrMap<V> {
    /// The values, cloned, in insertion order.
    pub fn values(&self) -> (r: Vec<V>)
        requires
            self.wf(),
        ensures
            self@.dom().finite(),
            r@.len() == self@.dom().len(),
            r@.len() == self.val_seq().len(),
            forall|i: int| 0 <= i < r@.len() ==> cloned::<V>(self.val_seq()[i], #[trigger] r@[i]),
            forall|i: int| 0 <= i < r@.len() ==> self@.contains_key(#[trigger] self.key_at(i))
                && self@[self.key_at(i)] == self.val_seq()[i],
            forall|k: Seq<char>| self@.contains_key(k) ==> exists|i: int|
                0 <= i < r@.len() && #[trigger] self.key_at(i) == k,
    {
        proof {
            lemma_entries_map_dom_len(self.entries@);
        }
        let n = self.entries.len();
        let mut r: Vec<V> = Vec::new();
        for i in 0..n
            invariant
                n == self.entries@.len(),
                r@.len() == i,
                forall|j: int| 0 <= j < i ==> cloned::<V>(self.entries@[j].1, #[trigger] r@[j]),
        {
            let v = self.entries[i].1.clone();
            r.push(v);
        }
        proof {
            assert forall|i: int| 0 <= i < r@.len() implies self@.contains_key(
                #[trigger] self.key_at(i),
            ) && self@[self.key_at(i)] == self.val_seq()[i] by {
                lemma_entries_map_index(self.entries@, i);
            }
            assert forall|k: Seq<char>| self@.contains_key(k) implies exists|i: int|
                0 <= i < r@.len() && #[trigger] self.key_at(i) == k by {
                lemma_entries_map_contains(self.entries@, k);
                let i = choose|i: int|
                    0 <= i < self.entries@.len() && self.entries@[i].0@ == k;
                assert(self.key_at(i) == k);
            }
        }
        r
    }
}

impl<V> StrMap<V> {
    /// The key of the `i`-th entry, in insertion order.
    pub closed spec fn key_at(&self, i: int) -> Seq<char> {
        self.entries@[i].0@
    }
}

impl<V: Clone> StrMap<V> {
    /// A copy of the map: the same keys, each value cloned.
    pub fn duplicate(&self) -> (r: Self)
        requires
            self.wf(),
        ensures
            r.wf(),
            r@.dom() =~= self@.dom(),
            forall|k: Seq<char>| self@.contains_key(k) ==> cloned::<V>(self@[k], #[trigger] r@[k]),
    {
        let n = self.entries.len();
        let mut entries: Vec<(String, V)> = Vec::new();
        for i in 0..n
            invariant
                n == self.entries@.len(),
                entries@.len() == i,
                forall|j: int| 0 <= j < i ==> (#[trigger] entries@[j]).0@ == self.entries@[j].0@
                    && cloned::<V>(self.entries@[j].1, entries@[j].1),
        {
            let k = self.entries[i].0.clone();
            let v = self.entries[i].1.clone();
            entries.push((k, v));
        }
        let r = StrMap { entries };
        proof {
            assert forall|k: Seq<char>| r@.contains_key(k) implies self@.contains_key(k) by {
                lemma_entries_map_contains(r.entries@, k);
                lemma_entries_map_contains(self.entries@, k);
                let i = choose|i: int| 0 <= i < r.entries@.len() && r.entries@[i].0@ == k;
                assert(self.entries@[i].0@ == k);
            }
            assert forall|k: Seq<char>| self@.contains_key(k) implies r@.contains_key(k) by {
                lemma_entries_map_contains(r.entries@, k);
                lemma_entries_map_contains(self.entries@, k);
                let i = choose|i: int|
                    0 <= i < self.entries@.len() && self.entries@[i].0@ == k;
                assert(r.entries@[i].0@ == k);
            }
            assert forall|k: Seq<char>| self@.contains_key(k) implies cloned::<V>(
                self@[k],
                #[trigger] r@[k],
            ) by {
                lemma_entries_map_contains(self.entries@, k);
                let i = choose|i: int|
                    0 <= i < self.entries@.len() && self.entries@[i].0@ == k;
                lemma_entries_map_index(self.entries@, i);
                lemma_entries_map_index(r.entries@, i);
            }
        }
        r
    }
}

impl Clone for StrMap<String> {
    /// Cloning a map of strings preserves the abstract map exactly.
    fn clone(&self) -> (res: Self)
        ensures
            res@ == self@,
            res.wf() == self.wf(),
            res.val_seq() == self.val_seq(),
    {
        let n = self.entries.len();
        let mut entries: Vec<(String, String)> = Vec::new();
        for i in 0..n
            invariant
                n == self.entries@.len(),
                entries@.len() == i,
                forall|j: int| 0 <= j < i ==> #[trigger] entries@[j] == self.entries@[j],
        {
            let k = self.entries[i].0.clone();
            let v = self.entries[i].1.clone();
            entries.push((k, v));
        }
        proof {
            assert(entries@ =~= self.entries@);
        }
        StrMap { entries }
    }
}

impl<V> StrMap<V> {
    /// The number of stored values equals the number of keys.
    pub proof fn lemma_dom_len_eq_val_len(&self)
        requires
            self.wf(),
        ensures
            self@.dom().finite(),
            self@.dom().len() == self.val_seq().len(),
    {
        lemma_entries_map_dom_len(self.entries@);
    }
}

/// Filtering a sequence extended by one element keeps the old filtered
/// prefix and appends the element exactly when it satisfies the predicate.
pub proof fn lemma_filter_push<A>(s: Seq<A>, e: A, pred: spec_fn(A) -> bool)
    ensures
        s.push(e).filter(pred) == if pred(e) {
            s.filter(pred).push(e)
        } else {
            s.filter(pred)
        },
{
    reveal(Seq::filter);
    assert(s.push(e).drop_last() =~= s);
    assert(s.push(e).last() == e);
}

} // verus!
