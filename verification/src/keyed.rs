//! Maps kept as vectors of entries whose keys are distinct.
use vstd::prelude::*;
use crate::text::str_eq;

verus! {

/// The index of the last entry of `s` whose key is `k`, or -1 when there is none.
pub open spec fn find_index<K: View, V>(s: Seq<(K, V)>, k: K::V) -> int
    decreases s.len(),
{
    if s.len() == 0 {
        -1
    } else if s.last().0@ == k {
        s.len() - 1
    } else {
        find_index(s.drop_last(), k)
    }
}

/// No two entries of `s` have the same key.
pub open spec fn keys_distinct<K: View, V>(s: Seq<(K, V)>) -> bool {
    forall|i: int, j: int| 0 <= i < j < s.len() ==> #[trigger] s[i].0@ != #[trigger] s[j].0@
}

/// The map that a sequence of entries stands for.
pub open spec fn entries_map<K: View, V>(s: Seq<(K, V)>) -> Map<K::V, V> {
    Map::new(|k: K::V| find_index(s, k) >= 0, |k: K::V| s[find_index(s, k)].1)
}

pub proof fn lemma_find_index<K: View, V>(s: Seq<(K, V)>, k: K::V)
    ensures
        -1 <= find_index(s, k) < s.len(),
        find_index(s, k) >= 0 ==> s[find_index(s, k)].0@ == k,
        find_index(s, k) == -1 <==> (forall|i: int| 0 <= i < s.len() ==> #[trigger] s[i].0@ != k),
    decreases s.len(),
{
    if s.len() > 0 {
        lemma_find_index(s.drop_last(), k);
        if s.last().0@ != k {
            assert forall|i: int| 0 <= i < s.len() - 1 implies #[trigger] s[i].0@ == s.drop_last()[i].0@ by {}
        }
    }
}

pub proof fn lemma_find_index_unique<K: View, V>(s: Seq<(K, V)>, k: K::V, i: int)
    requires
        keys_distinct(s),
        0 <= i < s.len(),
        s[i].0@ == k,
    ensures
        find_index(s, k) == i,
    decreases s.len(),
{
    if i < s.len() - 1 {
        assert(s.last().0@ != k);
        assert(s.drop_last()[i] == s[i]);
        lemma_find_index_unique(s.drop_last(), k, i);
    }
}

proof fn lemma_replace_entry<K: View, V>(
    old_entries: Seq<(K, V)>,
    i: int,
    k: K::V,
    value: V,
    s: Seq<(K, V)>,
)
    requires
        keys_distinct(old_entries),
        0 <= i < old_entries.len(),
        old_entries[i].0@ == k,
        s.len() == old_entries.len(),
        s[i].0@ == k,
        s[i].1 == value,
        forall|j: int| 0 <= j < s.len() && j != i ==> s[j] == old_entries[j],
    ensures
        keys_distinct(s),
        entries_map(s) == entries_map(old_entries).insert(k, value),
{
    assert forall|a: int, b: int| 0 <= a < b < s.len() implies #[trigger] s[a].0@
        != #[trigger] s[b].0@ by {
        assert(old_entries[a].0@ != old_entries[b].0@);
        if a != i && b != i {
            assert(s[a] == old_entries[a] && s[b] == old_entries[b]);
        } else if a == i {
            assert(s[b] == old_entries[b]);
        } else {
            assert(s[a] == old_entries[a]);
        }
    }
    let m1 = entries_map(s);
    let m2 = entries_map(old_entries).insert(k, value);
    assert forall|q: K::V| m1.contains_key(q) == m2.contains_key(q) by {
        lemma_find_index(s, q);
        lemma_find_index(old_entries, q);
        if q == k {
            lemma_find_index_unique(s, q, i);
        } else if find_index(old_entries, q) >= 0 {
            let j = find_index(old_entries, q);
            assert(s[j] == old_entries[j]);
            lemma_find_index_unique(s, q, j);
        } else {
            assert forall|t: int| 0 <= t < s.len() implies #[trigger] s[t].0@ != q by {
                if t != i {
                    assert(s[t] == old_entries[t]);
                }
            }
        }
    }
    assert forall|q: K::V| m1.contains_key(q) implies m1[q] == m2[q] by {
        lemma_find_index(s, q);
        lemma_find_index(old_entries, q);
        if q == k {
            lemma_find_index_unique(s, q, i);
        } else {
            let j = find_index(s, q);
            assert(j != i);
            assert(s[j] == old_entries[j]);
            lemma_find_index_unique(old_entries, q, j);
        }
    }
    assert(m1 =~= m2);
}

proof fn lemma_push_entry<K: View, V>(
    old_entries: Seq<(K, V)>,
    k: K::V,
    value: V,
    s: Seq<(K, V)>,
)
    requires
        keys_distinct(old_entries),
        forall|j: int| 0 <= j < old_entries.len() ==> #[trigger] old_entries[j].0@ != k,
        s.len() == old_entries.len() + 1,
        s[old_entries.len() as int].0@ == k,
        s[old_entries.len() as int].1 == value,
        forall|j: int| 0 <= j < old_entries.len() ==> s[j] == old_entries[j],
    ensures
        keys_distinct(s),
        entries_map(s) == entries_map(old_entries).insert(k, value),
{
    let n = old_entries.len() as int;
    assert forall|a: int, b: int| 0 <= a < b < s.len() implies #[trigger] s[a].0@
        != #[trigger] s[b].0@ by {
        assert(s[a] == old_entries[a]);
        if b < n {
            assert(s[b] == old_entries[b]);
            assert(old_entries[a].0@ != old_entries[b].0@);
        } else {
            assert(old_entries[a].0@ != k);
        }
    }
    let m1 = entries_map(s);
    let m2 = entries_map(old_entries).insert(k, value);
    assert forall|q: K::V| m1.contains_key(q) == m2.contains_key(q) by {
        lemma_find_index(s, q);
        lemma_find_index(old_entries, q);
        if q == k {
            lemma_find_index_unique(s, q, n);
        } else if find_index(old_entries, q) >= 0 {
            let j = find_index(old_entries, q);
            assert(s[j] == old_entries[j]);
            lemma_find_index_unique(s, q, j);
        } else {
            assert forall|t: int| 0 <= t < s.len() implies #[trigger] s[t].0@ != q by {
                if t < n {
                    assert(s[t] == old_entries[t]);
                }
            }
        }
    }
    assert forall|q: K::V| m1.contains_key(q) implies m1[q] == m2[q] by {
        lemma_find_index(s, q);
        lemma_find_index(old_entries, q);
        if q == k {
            lemma_find_index_unique(s, q, n);
        } else {
            let j = find_index(s, q);
            assert(j != n);
            assert(s[j] == old_entries[j]);
            lemma_find_index_unique(old_entries, q, j);
        }
    }
    assert(m1 =~= m2);
}

proof fn lemma_remove_entry<K: View, V>(old_entries: Seq<(K, V)>, i: int, k: K::V, s: Seq<(K, V)>)
    requires
        keys_distinct(old_entries),
        0 <= i < old_entries.len(),
        old_entries[i].0@ == k,
        s == old_entries.remove(i),
    ensures
        keys_distinct(s),
        entries_map(s) == entries_map(old_entries).remove(k),
{
    assert forall|a: int, b: int| 0 <= a < b < s.len() implies #[trigger] s[a].0@
        != #[trigger] s[b].0@ by {
        let a2 = if a < i { a } else { a + 1 };
        let b2 = if b < i { b } else { b + 1 };
        assert(s[a] == old_entries[a2] && s[b] == old_entries[b2]);
        assert(old_entries[a2].0@ != old_entries[b2].0@);
    }
    let m1 = entries_map(s);
    let m2 = entries_map(old_entries).remove(k);
    assert forall|q: K::V| m1.contains_key(q) == m2.contains_key(q) by {
        lemma_find_index(s, q);
        lemma_find_index(old_entries, q);
        if find_index(s, q) >= 0 {
            let j = find_index(s, q);
            let j2 = if j < i { j } else { j + 1 };
            assert(s[j] == old_entries[j2]);
            assert(q != k);
        }
        if q != k && find_index(old_entries, q) >= 0 {
            let j = find_index(old_entries, q);
            assert(j != i);
            let j2 = if j < i { j } else { j - 1 };
            assert(s[j2] == old_entries[j]);
        }
    }
    assert forall|q: K::V| m1.contains_key(q) implies m1[q] == m2[q] by {
        lemma_find_index(s, q);
        lemma_find_index(old_entries, q);
        let j = find_index(s, q);
        let j2 = if j < i { j } else { j + 1 };
        assert(s[j] == old_entries[j2]);
        lemma_find_index_unique(old_entries, q, j2);
    }
    assert(m1 =~= m2);
}

/// A map from strings to values. Looking a key up compares it by its characters.
pub struct StrMap<V> {
    entries: Vec<(String, V)>,
}

impl<V> View for StrMap<V> {
    type V = Map<Seq<char>, V>;

    closed spec fn view(&self) -> Map<Seq<char>, V> {
        entries_map(self.entries@)
    }
}

impl<V> StrMap<V> {
    #[verifier::type_invariant]
    closed spec fn distinct(&self) -> bool {
        keys_distinct(self.entries@)
    }

    /// The empty map.
    pub fn new() -> (m: Self)
        ensures
            m@ == Map::<Seq<char>, V>::empty(),
    {
        let m = StrMap { entries: Vec::new() };
        assert(m@ =~= Map::<Seq<char>, V>::empty());
        m
    }

    fn index_of(&self, key: &str) -> (r: Option<usize>)
        ensures
            match r {
                Some(i) => i < self.entries@.len() && self.entries@[i as int].0@ == key@,
                None => forall|i: int|
                    0 <= i < self.entries@.len() ==> #[trigger] self.entries@[i].0@ != key@,
            },
    {
        let mut i: usize = 0;
        while i < self.entries.len()
            invariant
                i <= self.entries@.len(),
                forall|j: int| 0 <= j < i ==> #[trigger] self.entries@[j].0@ != key@,
            decreases self.entries@.len() - i,
        {
            if str_eq(self.entries[i].0.as_str(), key) {
                return Some(i);
            }
            i = i + 1;
        }
        None
    }

    /// Whether `key` has an entry.
    pub fn contains_key(&self, key: &str) -> (r: bool)
        ensures
            r == self@.contains_key(key@),
    {
        proof {
            lemma_find_index(self.entries@, key@);
        }
        self.index_of(key).is_some()
    }

    /// The value stored under `key`, if any.
    pub fn get(&self, key: &str) -> (r: Option<&V>)
        ensures
            r is Some <==> self@.contains_key(key@),
            r matches Some(v) ==> *v == self@[key@],
    {
        proof {
            use_type_invariant(self);
            lemma_find_index(self.entries@, key@);
        }
        match self.index_of(key) {
            Some(i) => {
                proof {
                    lemma_find_index_unique(self.entries@, key@, i as int);
                }
                Some(&self.entries[i].1)
            },
            None => None,
        }
    }

    /// Stores `value` under `key`, replacing what was stored there before.
    pub fn insert(&mut self, key: String, value: V)
        ensures
            final(self)@ == old(self)@.insert(key@, value),
    {
        proof {
            use_type_invariant(&*self);
        }
        let ghost old_entries = self.entries@;
        let ghost k = key@;
        let found = self.index_of(key.as_str());
        let mut entries = Vec::new();
        std::mem::swap(&mut entries, &mut self.entries);
        assert(entries@ == old_entries);
        match found {
            Some(i) => {
                entries.set(i, (key, value));
                proof {
                    lemma_replace_entry(old_entries, i as int, k, value, entries@);
                }
            },
            None => {
                entries.push((key, value));
                proof {
                    lemma_push_entry(old_entries, k, value, entries@);
                }
            },
        }
        self.entries = entries;
    }
}


/// Keys that can be compared for equality of their views.
pub trait KeyEq: View + Sized {
    fn key_eq(&self, other: &Self) -> (r: bool)
        ensures
            r == (self@ == other@),
    ;
}

impl<A: KeyEq, B: KeyEq> KeyEq for (A, B) {
    fn key_eq(&self, other: &Self) -> (r: bool) {
        self.0.key_eq(&other.0) && self.1.key_eq(&other.1)
    }
}

/// A map whose keys are compared by [`KeyEq`].
pub struct KeyedVec<K: KeyEq, V> {
    entries: Vec<(K, V)>,
}

impl<K: KeyEq, V> View for KeyedVec<K, V> {
    type V = Map<K::V, V>;

    closed spec fn view(&self) -> Map<K::V, V> {
        entries_map(self.entries@)
    }
}

impl<K: KeyEq, V> KeyedVec<K, V> {
    #[verifier::type_invariant]
    closed spec fn distinct(&self) -> bool {
        keys_distinct(self.entries@)
    }

    /// The empty map.
    pub fn new() -> (m: Self)
        ensures
            m@ == Map::<K::V, V>::empty(),
    {
        let m = KeyedVec { entries: Vec::new() };
        assert(m@ =~= Map::<K::V, V>::empty());
        m
    }

    fn index_of(&self, key: &K) -> (r: Option<usize>)
        ensures
            match r {
                Some(i) => i < self.entries@.len() && self.entries@[i as int].0@ == key@,
                None => forall|i: int|
                    0 <= i < self.entries@.len() ==> #[trigger] self.entries@[i].0@ != key@,
            },
    {
        let mut i: usize = 0;
        while i < self.entries.len()
            invariant
                i <= self.entries@.len(),
                forall|j: int| 0 <= j < i ==> #[trigger] self.entries@[j].0@ != key@,
            decreases self.entries@.len() - i,
        {
            if self.entries[i].0.key_eq(key) {
                return Some(i);
            }
            i = i + 1;
        }
        None
    }

    /// Whether `key` has an entry.
    pub fn contains_key(&self, key: &K) -> (r: bool)
        ensures
            r == self@.contains_key(key@),
    {
        proof {
            lemma_find_index(self.entries@, key@);
        }
        self.index_of(key).is_some()
    }

    /// The value stored under `key`, if any.
    pub fn get(&self, key: &K) -> (r: Option<&V>)
        ensures
            r is Some <==> self@.contains_key(key@),
            r matches Some(v) ==> *v == self@[key@],
    {
        proof {
            use_type_invariant(self);
            lemma_find_index(self.entries@, key@);
        }
        match self.index_of(key) {
            Some(i) => {
                proof {
                    lemma_find_index_unique(self.entries@, key@, i as int);
                }
                Some(&self.entries[i].1)
            },
            None => None,
        }
    }

    /// Removes the entry of `key` and gives back its value, if there was one.
    pub fn remove(&mut self, key: &K) -> (r: Option<V>)
        ensures
            r is Some <==> old(self)@.contains_key(key@),
            r matches Some(v) ==> v == old(self)@[key@],
            final(self)@ == old(self)@.remove(key@),
    {
        proof {
            use_type_invariant(&*self);
            lemma_find_index(self.entries@, key@);
        }
        let ghost old_entries = self.entries@;
        match self.index_of(key) {
            Some(i) => {
                proof {
                    lemma_find_index_unique(self.entries@, key@, i as int);
                }
                let mut entries = Vec::new();
                std::mem::swap(&mut entries, &mut self.entries);
                let (_k, v) = entries.remove(i);
                proof {
                    lemma_remove_entry(old_entries, i as int, key@, entries@);
                }
                self.entries = entries;
                Some(v)
            },
            None => {
                assert(entries_map(old_entries).remove(key@) =~= entries_map(old_entries));
                None
            },
        }
    }

    /// Stores `value` under `key`, replacing what was stored there before.
    pub fn insert(&mut self, key: K, value: V)
        ensures
            final(self)@ == old(self)@.insert(key@, value),
    {
        proof {
            use_type_invariant(&*self);
        }
        let ghost old_entries = self.entries@;
        let ghost k = key@;
        let found = self.index_of(&key);
        let mut entries = Vec::new();
        std::mem::swap(&mut entries, &mut self.entries);
        assert(entries@ == old_entries);
        match found {
            Some(i) => {
                entries.set(i, (key, value));
                proof {
                    lemma_replace_entry(old_entries, i as int, k, value, entries@);
                }
            },
            None => {
                entries.push((key, value));
                proof {
                    lemma_push_entry(old_entries, k, value, entries@);
                }
            },
        }
        self.entries = entries;
    }
}

} // verus!
