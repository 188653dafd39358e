//! A small map from string keys to values, kept as a vector of pairs in
//! insertion order with no key repeated.

use vstd::prelude::*;

verus! {

/// A map from string keys to values; each key occurs at most once.
#[derive(Debug)]
pub struct StrMap<V> {
    entries: Vec<(String, V)>,
}

/// Over the first `i` keys: the values that satisfy `p` are as many as the
/// keys whose value in `m` satisfies it.
proof fn lemma_prefix_count<V>(ks: Seq<Seq<char>>, vs: Seq<V>, m: Map<Seq<char>, V>, p: spec_fn(V) -> bool, i: int)
    requires
        0 <= i <= ks.len(),
        vs.len() == ks.len(),
        ks.no_duplicates(),
        forall|j: int| 0 <= j < ks.len() ==> m[#[trigger] ks[j]] == vs[j],
    ensures
        ks.take(i).to_set().finite(),
        vs.take(i).filter(p).len() == ks.take(i).to_set().filter(|k: Seq<char>| p(m[k])).len(),
    decreases i,
{
    let q = |k: Seq<char>| p(m[k]);
    vstd::seq_lib::seq_to_set_is_finite(ks.take(i));
    if i == 0 {
        assert(vs.take(0).filter(p) =~= Seq::<V>::empty()) by { reveal_with_fuel(Seq::filter, 1); }
        assert(ks.take(0).to_set() =~= Set::<Seq<char>>::empty());
        assert(ks.take(0).to_set().filter(q) =~= Set::<Seq<char>>::empty());
    } else {
        let h = i - 1;
        lemma_prefix_count(ks, vs, m, p, h);
        let k = ks[h];
        assert(vs.take(i).drop_last() =~= vs.take(h));
        assert(vs.take(i).last() == vs[h]);
        reveal_with_fuel(Seq::filter, 1);
        assert(ks.take(i) =~= ks.take(h).push(k));
        ks.take(h).lemma_push_to_set_commute(k);
        let before = ks.take(h).to_set();
        assert(!before.contains(k)) by {
            if before.contains(k) {
                let j = choose|j: int| 0 <= j < h && #[trigger] ks.take(h)[j] == k;
                assert(ks[j] == ks[h]);
            }
        }
        if q(k) {
            assert(before.insert(k).filter(q) =~= before.filter(q).insert(k));
            assert(!before.filter(q).contains(k));
        } else {
            assert(before.insert(k).filter(q) =~= before.filter(q));
        }
    }
}

impl<V> StrMap<V> {
    #[verifier::type_invariant]
    pub closed spec fn keys_unique(self) -> bool {
        forall|i: int, j: int|
            0 <= i < j < self.entries@.len() ==> self.entries@[i].0@ != self.entries@[j].0@
    }

    /// The keys in the order in which they were first inserted.
    pub closed spec fn key_seq(self) -> Seq<Seq<char>> {
        self.entries@.map_values(|e: (String, V)| e.0@)
    }

    /// The values in the same order as `key_seq`.
    pub closed spec fn value_seq(self) -> Seq<V> {
        self.entries@.map_values(|e: (String, V)| e.1)
    }

    pub closed spec fn index_of(self, k: Seq<char>) -> int {
        choose|i: int| 0 <= i < self.entries@.len() && self.entries@[i].0@ == k
    }

    pub closed spec fn has(self, k: Seq<char>) -> bool {
        exists|i: int| 0 <= i < self.entries@.len() && self.entries@[i].0@ == k
    }

    /// The map as a mathematical map.
    pub closed spec fn view(self) -> Map<Seq<char>, V> {
        Map::new(|k: Seq<char>| self.has(k), |k: Seq<char>| self.entries@[self.index_of(k)].1)
    }

    pub closed spec fn spec_len(self) -> nat {
        self.entries@.len()
    }

    /// What the view is, given that no key repeats: a finite map with one
    /// entry per key of `key_seq`, valued as `value_seq`.
    pub proof fn lemma_view_facts(self)
        requires
            self.keys_unique(),
        ensures
            self.key_seq().len() == self.spec_len(),
            self.value_seq().len() == self.spec_len(),
            self.view().dom().finite(),
            self.view().dom().len() == self.spec_len(),
            forall|i: int| 0 <= i < self.spec_len() ==> #[trigger] self.view().dom().contains(self.key_seq()[i]),
            forall|i: int| 0 <= i < self.spec_len() ==> self.view()[#[trigger] self.key_seq()[i]] == self.value_seq()[i],
            forall|k: Seq<char>| #[trigger] self.view().dom().contains(k) ==> self.key_seq().contains(k),
            self.key_seq().no_duplicates(),
    {
        let ks = self.key_seq();
        assert forall|i: int| 0 <= i < self.spec_len() implies #[trigger] self.view().dom().contains(ks[i]) && self.view()[ks[i]] == self.value_seq()[i] by {
            assert(self.entries@[i].0@ == ks[i]);
            let j = self.index_of(ks[i]);
            assert(self.has(ks[i]));
            if j != i {
                if j < i {} else {}
            }
        }
        assert forall|k: Seq<char>| #[trigger] self.view().dom().contains(k) implies ks.contains(k) by {
            let j = self.index_of(k);
            assert(ks[j] == k);
        }
        assert(ks.no_duplicates());
        assert(self.view().dom() =~= ks.to_set());
        ks.unique_seq_to_set();
    }

    /// Counting the values in key order that satisfy `p` counts the keys of
    /// the view whose value satisfies it.
    pub proof fn lemma_value_count(self, p: spec_fn(V) -> bool)
        requires
            self.keys_unique(),
        ensures
            self.value_seq().filter(p).len() == self.view().dom().filter(|k: Seq<char>| p(self.view()[k])).len(),
    {
        self.lemma_view_facts();
        let ks = self.key_seq();
        let vs = self.value_seq();
        let m = self.view();
        let n = ks.len() as int;
        lemma_prefix_count(ks, vs, m, p, n);
        assert(vs.take(n) =~= vs);
        assert(ks.take(n) =~= ks);
        assert(ks.to_set() =~= m.dom()) by {
            assert forall|k: Seq<char>| m.dom().contains(k) implies ks.to_set().contains(k) by {
                assert(ks.contains(k));
            }
        }
        assert(m.dom().filter(|k: Seq<char>| p(m[k])) =~= m.dom().filter(|k: Seq<char>| p(self.view()[k])));
    }

    /// Creates an empty map.
    pub fn new() -> (m: Self)
        ensures
            m@ == Map::<Seq<char>, V>::empty(),
            m.spec_len() == 0,
    {
        let m = StrMap { entries: Vec::new() };
        assert(m@ =~= Map::<Seq<char>, V>::empty());
        m
    }

    /// Number of keys; also relates the map to its keys and values in insertion order.
    pub fn len(&self) -> (n: usize)
        ensures
            n == self.spec_len(),
            n == self@.dom().len(),
            self.key_seq().len() == n,
            self.value_seq().len() == n,
            self@.dom().finite(),
            forall|i: int| 0 <= i < n ==> #[trigger] self@.dom().contains(self.key_seq()[i]),
            forall|i: int| 0 <= i < n ==> self@[#[trigger] self.key_seq()[i]] == self.value_seq()[i],
            forall|k: Seq<char>| #[trigger] self@.dom().contains(k) ==> self.key_seq().contains(k),
            self.key_seq().no_duplicates(),
    {
        proof {
            use_type_invariant(self);
            self.lemma_view_facts();
        }
        self.entries.len()
    }

    fn find(&self, key: &str) -> (r: Option<usize>)
        ensures
            match r {
                Some(i) => i < self.entries@.len() && self.entries@[i as int].0@ == key@,
                None => !self.has(key@),
            },
    {
        let k = key.to_string();
        let mut i: usize = 0;
        while i < self.entries.len()
            invariant
                i <= self.entries@.len(),
                k@ == key@,
                forall|j: int| 0 <= j < i ==> self.entries@[j].0@ != key@,
            decreases self.entries@.len() - i,
        {
            if self.entries[i].0 == k {
                return Some(i);
            }
            i += 1;
        }
        None
    }

    /// Whether the key is present.
    pub fn contains_key(&self, key: &str) -> (b: bool)
        ensures
            b == self@.dom().contains(key@),
    {
        self.find(key).is_some()
    }

    /// The value stored under the key, if any.
    pub fn get(&self, key: &str) -> (r: Option<&V>)
        ensures
            match r {
                Some(v) => self@.dom().contains(key@) && *v == self@[key@],
                None => !self@.dom().contains(key@),
            },
    {
        proof { use_type_invariant(self); }
        match self.find(key) {
            Some(i) => {
                proof {
                    let j = self.index_of(key@);
                    assert(self.has(key@));
                    assert(j == i);
                }
                Some(&self.entries[i].1)
            },
            None => None,
        }
    }

    /// Stores `value` under `key`, returning the value it replaces.
    pub fn insert(&mut self, key: String, value: V) -> (old_value: Option<V>)
        ensures
            final(self)@ == old(self)@.insert(key@, value),
            match old_value {
                Some(v) => old(self)@.dom().contains(key@) && v == old(self)@[key@],
                None => !old(self)@.dom().contains(key@),
            },
            old(self)@.dom().contains(key@) ==> final(self).key_seq() == old(self).key_seq(),
            !old(self)@.dom().contains(key@) ==> final(self).key_seq() == old(self).key_seq().push(key@),
    {
        proof { use_type_invariant(&*self); }
        match self.find(key.as_str()) {
            Some(i) => {
                let ghost old_self = *self;
                let mut entries: Vec<(String, V)> = Vec::new();
                std::mem::swap(&mut entries, &mut self.entries);
                let (k, old_v) = entries.remove(i);
                entries.insert(i, (k, value));
                self.entries = entries;
                proof {
                    assert(old_self.has(key@));
                    assert(old_self.index_of(key@) == i as int);
                    assert(self.entries@ == old_self.entries@.update(i as int, (k, value)));
                    assert forall|k2: Seq<char>| #![auto] self.has(k2) == old_self.has(k2) by {
                        if old_self.has(k2) {
                            let j = old_self.index_of(k2);
                            assert(self.entries@[j].0@ == k2);
                        }
                        if self.has(k2) {
                            let j = self.index_of(k2);
                            assert(old_self.entries@[j].0@ == k2);
                        }
                    }
                    assert forall|k2: Seq<char>| #![auto] self.has(k2) && k2 != key@ implies
                        self.entries@[self.index_of(k2)].1 == old_self.entries@[old_self.index_of(k2)].1 by {
                        let j1 = self.index_of(k2);
                        let j2 = old_self.index_of(k2);
                        assert(self.entries@[j1].0@ == k2);
                        assert(old_self.entries@[j2].0@ == k2);
                        assert(self.entries@[j2].0@ == k2);
                        assert(j1 == j2);
                    }
                    assert(self.has(key@));
                    assert(self.index_of(key@) == i as int);
                    assert(self@ =~= old_self@.insert(key@, value));
                    assert(self.key_seq() =~= old_self.key_seq());
                }
                Some(old_v)
            },
            None => {
                let ghost old_self = *self;
                let ghost kv = key@;
                let mut entries: Vec<(String, V)> = Vec::new();
                std::mem::swap(&mut entries, &mut self.entries);
                entries.push((key, value));
                self.entries = entries;
                proof {
                    let n = old_self.entries@.len() as int;
                    assert(self.entries@[n].0@ == kv);
                    assert forall|k2: Seq<char>| #![auto] self.has(k2) == (old_self.has(k2) || k2 == kv) by {
                        if old_self.has(k2) {
                            let j = old_self.index_of(k2);
                            assert(self.entries@[j].0@ == k2);
                        }
                        if self.has(k2) && k2 != kv {
                            let j = self.index_of(k2);
                            assert(old_self.entries@[j].0@ == k2);
                        }
                    }
                    assert forall|k2: Seq<char>| #![auto] self.has(k2) implies
                        self.entries@[self.index_of(k2)].1 == (if k2 == kv { value } else { old_self.entries@[old_self.index_of(k2)].1 }) by {
                        let j1 = self.index_of(k2);
                        if k2 == kv {
                            assert(j1 == n);
                        } else {
                            let j2 = old_self.index_of(k2);
                            assert(old_self.entries@[j2].0@ == k2);
                            assert(self.entries@[j2].0@ == k2);
                            assert(j1 == j2);
                        }
                    }
                    assert(self@ =~= old_self@.insert(kv, value));
                    assert(self.key_seq() =~= old_self.key_seq().push(kv));
                }
                None
            },
        }
    }

    /// Removes the key, returning its value if it was present.
    pub fn remove(&mut self, key: &str) -> (removed: Option<V>)
        ensures
            final(self)@ == old(self)@.remove(key@),
            match removed {
                Some(v) => old(self)@.dom().contains(key@) && v == old(self)@[key@],
                None => !old(self)@.dom().contains(key@),
            },
    {
        proof { use_type_invariant(&*self); }
        match self.find(key) {
            Some(i) => {
                let ghost old_self = *self;
                let mut entries: Vec<(String, V)> = Vec::new();
                std::mem::swap(&mut entries, &mut self.entries);
                let (_k, v) = entries.remove(i);
                self.entries = entries;
                proof {
                    assert(old_self.has(key@));
                    assert(old_self.index_of(key@) == i as int);
                    assert(self.entries@ == old_self.entries@.remove(i as int));
                    assert forall|k2: Seq<char>| #![auto] self.has(k2) == (old_self.has(k2) && k2 != key@) by {
                        if old_self.has(k2) && k2 != key@ {
                            let j = old_self.index_of(k2);
                            if j < i { assert(self.entries@[j].0@ == k2); }
                            else { assert(j != i); assert(self.entries@[j - 1].0@ == k2); }
                        }
                        if self.has(k2) {
                            let j = self.index_of(k2);
                            if j < i { assert(old_self.entries@[j].0@ == k2); }
                            else { assert(old_self.entries@[j + 1].0@ == k2); }
                        }
                    }
                    assert forall|k2: Seq<char>| #![auto] self.has(k2) implies
                        self.entries@[self.index_of(k2)].1 == old_self.entries@[old_self.index_of(k2)].1 by {
                        let j1 = self.index_of(k2);
                        let j2 = old_self.index_of(k2);
                        if j1 < i {
                            assert(old_self.entries@[j1].0@ == k2);
                            assert(j1 == j2);
                        } else {
                            assert(old_self.entries@[j1 + 1].0@ == k2);
                            assert(j1 + 1 == j2);
                        }
                    }
                    assert(self@ =~= old_self@.remove(key@));
                }
                Some(v)
            },
            None => {
                proof { assert(self@ =~= self@.remove(key@)); }
                None
            },
        }
    }

    /// The key and value at position `i` in insertion order.
    pub fn entry_at(&self, i: usize) -> (r: (&String, &V))
        requires
            i < self.spec_len(),
        ensures
            r.0@ == self.key_seq()[i as int],
            *r.1 == self.value_seq()[i as int],
    {
        let e = &self.entries[i];
        (&e.0, &e.1)
    }

    /// Replaces the value at position `i` in insertion order, returning the
    /// value it held; the keys and their order stay.
    pub fn replace_value_at(&mut self, i: usize, value: V) -> (old_value: V)
        requires
            i < old(self).spec_len(),
        ensures
            final(self).key_seq() == old(self).key_seq(),
            final(self).spec_len() == old(self).spec_len(),
            final(self).value_seq() == old(self).value_seq().update(i as int, value),
            final(self)@ == old(self)@.insert(old(self).key_seq()[i as int], value),
            old_value == old(self).value_seq()[i as int],
    {
        proof { use_type_invariant(&*self); }
        let ghost old_self = *self;
        let mut entries: Vec<(String, V)> = Vec::new();
        std::mem::swap(&mut entries, &mut self.entries);
        let (k, old_value) = entries.remove(i);
        entries.insert(i, (k, value));
        proof {
            assert forall|a: int, b: int| 0 <= a < b < entries@.len() implies entries@[a].0@ != entries@[b].0@ by {
                assert(entries@[a].0@ == old_self.entries@[a].0@);
                assert(entries@[b].0@ == old_self.entries@[b].0@);
            }
        }
        self.entries = entries;
        proof {
            assert(self.key_seq() =~= old_self.key_seq());
            assert(self.value_seq() =~= old_self.value_seq().update(i as int, value));
            old_self.lemma_view_facts();
            self.lemma_view_facts();
            let key = old_self.key_seq()[i as int];
            assert forall|k: Seq<char>| #[trigger] self@.dom().contains(k) <==> old_self@.dom().insert(key).contains(k) by {
                if self@.dom().contains(k) {
                    let j = self.key_seq().index_of(k);
                    assert(self.key_seq()[j] == k);
                }
                if old_self@.dom().contains(k) {
                    let j = old_self.key_seq().index_of(k);
                    assert(old_self.key_seq()[j] == k);
                }
            }
            assert forall|k: Seq<char>| #[trigger] self@.dom().contains(k) implies self@[k] == old_self@.insert(key, value)[k] by {
                let j = self.key_seq().index_of(k);
                assert(self.key_seq()[j] == k);
                if j != i {
                    assert(old_self.key_seq()[j] == k);
                }
            }
            assert(self@ =~= old_self@.insert(key, value));
        }
        old_value
    }

    /// Keeps exactly the entries whose flag (by position in insertion order) is set.
    pub fn retain_flags(&mut self, keep: &Vec<bool>)
        requires
            keep@.len() == old(self).spec_len(),
        ensures
            forall|i: int| 0 <= i < keep@.len() ==>
                (#[trigger] final(self)@.dom().contains(old(self).key_seq()[i]) <==> keep@[i]),
            forall|k: Seq<char>| #[trigger] final(self)@.dom().contains(k) ==>
                old(self)@.dom().contains(k) && final(self)@[k] == old(self)@[k],
    {
        proof { use_type_invariant(&*self); }
        let ghost orig = self.entries@;
        let ghost old_self = *self;
        let mut rest: Vec<(String, V)> = Vec::new();
        std::mem::swap(&mut rest, &mut self.entries);
        let mut kept: Vec<(String, V)> = Vec::new();
        let ghost mut src: Seq<int> = Seq::empty();
        let mut idx: usize = 0;
        let n = rest.len();
        while idx < n
            invariant
                n == orig.len(),
                keep@.len() == n,
                idx <= n,
                rest@ == orig.skip(idx as int),
                src.len() == kept@.len(),
                forall|j: int| 0 <= j < src.len() ==> 0 <= #[trigger] src[j] < idx && keep@[src[j]] && kept@[j] == orig[src[j]],
                forall|j1: int, j2: int| 0 <= j1 < j2 < src.len() ==> src[j1] < src[j2],
                forall|i: int| 0 <= i < idx && keep@[i] ==> exists|j: int| 0 <= j < src.len() && #[trigger] src[j] == i,
                forall|i: int, j: int| 0 <= i < j < orig.len() ==> orig[i].0@ != orig[j].0@,
            decreases n - idx,
        {
            let e = rest.remove(0);
            let ghost old_src = src;
            proof { assert(e == orig[idx as int]); }
            if keep[idx] {
                kept.push(e);
                proof {
                    src = src.push(idx as int);
                    assert(src[src.len() - 1] == idx as int);
                }
            }
            proof {
                assert(rest@ =~= orig.skip(idx + 1));
                assert forall|i: int| 0 <= i < idx + 1 && keep@[i] implies exists|j: int| 0 <= j < src.len() && #[trigger] src[j] == i by {
                    if i == idx {
                        assert(src[src.len() - 1] == i);
                    } else {
                        let j = choose|j: int| 0 <= j < old_src.len() && #[trigger] old_src[j] == i;
                        assert(src[j] == old_src[j]);
                    }
                }
            }
            idx += 1;
        }
        proof {
            assert forall|j1: int, j2: int| 0 <= j1 < j2 < kept@.len() implies kept@[j1].0@ != kept@[j2].0@ by {
                assert(src[j1] < src[j2]);
            }
        }
        self.entries = kept;
        proof {
            let ks = old_self.key_seq();
            assert forall|i: int| 0 <= i < keep@.len() implies
                (#[trigger] self@.dom().contains(ks[i]) <==> keep@[i]) by {
                assert(ks[i] == orig[i].0@);
                if keep@[i] {
                    let j = choose|j: int| 0 <= j < src.len() && #[trigger] src[j] == i;
                    assert(self.entries@[j].0@ == ks[i]);
                    assert(self.has(ks[i]));
                } else {
                    if self.has(ks[i]) {
                        let j = self.index_of(ks[i]);
                        assert(orig[src[j]].0@ == ks[i]);
                        assert(src[j] == i);
                    }
                }
            }
            assert forall|k: Seq<char>| #[trigger] self@.dom().contains(k) implies
                old_self@.dom().contains(k) && self@[k] == old_self@[k] by {
                let j = self.index_of(k);
                assert(orig[src[j]].0@ == k);
                assert(old_self.has(k));
                let j2 = old_self.index_of(k);
                assert(j2 == src[j]);
            }
        }
    }
}

impl<V: Clone> Clone for StrMap<V> {
    /// A copy with the same keys in the same order, each value cloned.
    fn clone(&self) -> (r: Self)
        ensures
            r.key_seq() == self.key_seq(),
    {
        proof { use_type_invariant(self); }
        let mut entries: Vec<(String, V)> = Vec::new();
        let mut i: usize = 0;
        while i < self.entries.len()
            invariant
                i <= self.entries@.len(),
                entries@.len() == i,
                forall|j: int| 0 <= j < i ==> #[trigger] entries@[j].0@ == self.entries@[j].0@,
                forall|a: int, b: int| 0 <= a < b < self.entries@.len() ==> self.entries@[a].0@ != self.entries@[b].0@,
            decreases self.entries@.len() - i,
        {
            let k = self.entries[i].0.clone();
            let v = self.entries[i].1.clone();
            entries.push((k, v));
            i += 1;
        }
        let r = StrMap { entries };
        assert(r.key_seq() =~= self.key_seq());
        r
    }
}

} // verus!
