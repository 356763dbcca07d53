//! A key-value store in the manner of contract storage: `get` reads a key,
//! `set` writes it. Entries live in a vector with distinct keys.
use vstd::prelude::*;

verus! {

/// Keys that can be compared for equality in executable code.
pub trait KeyEq: Sized + Copy {
    fn key_eq(&self, other: &Self) -> (r: bool)
        ensures
            r == (*self == *other);
}

pub open spec fn keys_unique<K, V>(s: Seq<(K, V)>) -> bool {
    forall|i: int, j: int| 0 <= i < s.len() && 0 <= j < s.len() && i != j ==> s[i].0 != s[j].0
}

/// The map a list of entries stands for; of two entries with one key, the
/// later one counts.
pub open spec fn entries_to_map<K, V>(s: Seq<(K, V)>) -> Map<K, V>
    decreases s.len(),
{
    if s.len() == 0 {
        Map::empty()
    } else {
        entries_to_map(s.drop_last()).insert(s.last().0, s.last().1)
    }
}

pub proof fn lemma_entries_dom<K, V>(s: Seq<(K, V)>, k: K)
    ensures
        entries_to_map(s).dom().contains(k) <==> exists|i: int| 0 <= i < s.len() && s[i].0 == k,
    decreases s.len(),
{
    if s.len() > 0 {
        lemma_entries_dom(s.drop_last(), k);
        if entries_to_map(s).dom().contains(k) && s.last().0 != k {
            let i = choose|i: int| 0 <= i < s.drop_last().len() && s.drop_last()[i].0 == k;
            assert(s[i].0 == k);
        }
        if exists|i: int| 0 <= i < s.len() && s[i].0 == k {
            let i = choose|i: int| 0 <= i < s.len() && s[i].0 == k;
            if i < s.len() - 1 {
                assert(s.drop_last()[i].0 == k);
            }
        }
    }
}

pub proof fn lemma_entries_value<K, V>(s: Seq<(K, V)>, i: int)
    requires
        keys_unique(s),
        0 <= i < s.len(),
    ensures
        entries_to_map(s).dom().contains(s[i].0),
        entries_to_map(s)[s[i].0] == s[i].1,
    decreases s.len(),
{
    lemma_entries_dom(s, s[i].0);
    if i < s.len() - 1 {
        assert(s.drop_last()[i] == s[i]);
        lemma_entries_value(s.drop_last(), i);
        assert(s.last().0 != s[i].0);
    }
}

pub proof fn lemma_entries_update<K, V>(s: Seq<(K, V)>, i: int, v: V)
    requires
        keys_unique(s),
        0 <= i < s.len(),
    ensures
        keys_unique(s.update(i, (s[i].0, v))),
        entries_to_map(s.update(i, (s[i].0, v))) == entries_to_map(s).insert(s[i].0, v),
    decreases s.len(),
{
    let t = s.update(i, (s[i].0, v));
    if i == s.len() - 1 {
        assert(t.drop_last() =~= s.drop_last());
    } else {
        assert(t.drop_last() =~= s.drop_last().update(i, (s[i].0, v)));
        assert(s.drop_last()[i] == s[i]);
        lemma_entries_update(s.drop_last(), i, v);
        assert(s.last().0 != s[i].0);
        assert(entries_to_map(t) =~= entries_to_map(s).insert(s[i].0, v));
    }
}

pub proof fn lemma_entries_push<K, V>(s: Seq<(K, V)>, k: K, v: V)
    requires
        keys_unique(s),
        !entries_to_map(s).dom().contains(k),
    ensures
        keys_unique(s.push((k, v))),
        entries_to_map(s.push((k, v))) == entries_to_map(s).insert(k, v),
{
    lemma_entries_dom(s, k);
    assert(s.push((k, v)).drop_last() =~= s);
}

pub struct Mapping<K, V> {
    pub entries: Vec<(K, V)>,
}

impl<K: KeyEq, V: Copy> Mapping<K, V> {
    pub open spec fn view(&self) -> Map<K, V> {
        entries_to_map(self.entries@)
    }

    pub open spec fn wf(&self) -> bool {
        keys_unique(self.entries@)
    }

    /// An empty store.
    pub fn new() -> (r: Self)
        ensures
            r.wf(),
            r@ == Map::<K, V>::empty(),
            r.entries@ == Seq::<(K, V)>::empty(),
    {
        Mapping { entries: Vec::new() }
    }

    /// The position of `key` among the entries.
    fn find(&self, key: &K) -> (r: Option<usize>)
        requires
            self.wf(),
        ensures
            r is None <==> !self@.dom().contains(*key),
            r matches Some(i) ==> i < self.entries@.len() && self.entries@[i as int].0 == *key,
    {
        let mut i: usize = 0;
        while i < self.entries.len()
            invariant
                i <= self.entries@.len(),
                forall|j: int| 0 <= j < i ==> self.entries@[j].0 != *key,
            decreases self.entries@.len() - i,
        {
            if self.entries[i].0.key_eq(key) {
                proof { lemma_entries_dom(self.entries@, *key); }
                return Some(i);
            }
            i = i + 1;
        }
        proof { lemma_entries_dom(self.entries@, *key); }
        None
    }

    /// The value stored under `key`, if any.
    pub fn get(&self, key: &K) -> (r: Option<V>)
        requires
            self.wf(),
        ensures
            r == (if self@.dom().contains(*key) { Some(self@[*key]) } else { None::<V> }),
    {
        match self.find(key) {
            Some(i) => {
                proof { lemma_entries_value(self.entries@, i as int); }
                Some(self.entries[i].1)
            }
            None => None,
        }
    }

    /// Stores `value` under `key`, replacing what was there.
    pub fn set(&mut self, key: &K, value: V)
        requires
            old(self).wf(),
        ensures
            final(self).wf(),
            final(self)@ == old(self)@.insert(*key, value),
            old(self)@.dom().contains(*key) ==> exists|i: int| 0 <= i < old(self).entries@.len()
                && old(self).entries@[i].0 == *key
                && final(self).entries@ == old(self).entries@.update(i, (*key, value)),
            !old(self)@.dom().contains(*key) ==> final(self).entries@ == old(self).entries@.push((*key, value)),
    {
        match self.find(key) {
            Some(i) => {
                proof { lemma_entries_update(self.entries@, i as int, value); }
                self.entries.set(i, (*key, value));
                assert(self.entries@ == old(self).entries@.update(i as int, (*key, value)));
            }
            None => {
                proof { lemma_entries_push(self.entries@, *key, value); }
                self.entries.push((*key, value));
            }
        }
    }
}

} // verus!
