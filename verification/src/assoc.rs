use vstd::prelude::*;

verus! {

/// Some entry of `s` has the key `k`.
pub open spec fn has_key<V>(s: Seq<(String, V)>, k: Seq<char>) -> bool {
    exists|i: int| 0 <= i < s.len() && (#[trigger] s[i]).0@ == k
}

/// No two entries of `s` have the same key.
pub open spec fn distinct_keys<V>(s: Seq<(String, V)>) -> bool {
    forall|i: int, j: int|
        0 <= i < s.len() && 0 <= j < s.len() && i != j ==> (#[trigger] s[i]).0@ != (#[trigger] s[j]).0@
}

/// The index of an entry of `s` with key `k`.
pub open spec fn index_of<V>(s: Seq<(String, V)>, k: Seq<char>) -> int {
    choose|i: int| 0 <= i < s.len() && (#[trigger] s[i]).0@ == k
}

/// The map from key text to value that the entries `s` hold.
pub open spec fn entries_map<V>(s: Seq<(String, V)>) -> Map<Seq<char>, V> {
    Map::new(|k: Seq<char>| has_key(s, k), |k: Seq<char>| s[index_of(s, k)].1)
}

/// In entries with distinct keys, an entry is found again by its key.
pub proof fn lemma_index_of<V>(s: Seq<(String, V)>, i: int)
    requires
        distinct_keys(s),
        0 <= i < s.len(),
    ensures
        has_key(s, s[i].0@),
        index_of(s, s[i].0@) == i,
        entries_map(s).contains_key(s[i].0@),
        entries_map(s)[s[i].0@] == s[i].1,
{
    let k = s[i].0@;
    assert(has_key(s, k));
    let j = index_of(s, k);
    assert(0 <= j < s.len() && s[j].0@ == k);
}

proof fn lemma_push_map<V>(s: Seq<(String, V)>, key: String, v: V)
    requires
        distinct_keys(s),
        !has_key(s, key@),
    ensures
        distinct_keys(s.push((key, v))),
        entries_map(s.push((key, v))) == entries_map(s).insert(key@, v),
{
    let t = s.push((key, v));
    assert forall|i: int, j: int|
        0 <= i < t.len() && 0 <= j < t.len() && i != j implies (#[trigger] t[i]).0@ != (#[trigger] t[j]).0@ by {
        if i < s.len() && j < s.len() {
            assert(t[i] == s[i] && t[j] == s[j]);
        } else if i < s.len() {
            assert(t[i] == s[i]);
        } else {
            assert(t[j] == s[j]);
        }
    }
    let m = entries_map(s).insert(key@, v);
    assert forall|k: Seq<char>| #[trigger] entries_map(t).contains_key(k) <==> m.contains_key(k) by {
        if has_key(t, k) {
            let i = choose|i: int| 0 <= i < t.len() && (#[trigger] t[i]).0@ == k;
            if i < s.len() {
                assert(t[i] == s[i]);
                assert(has_key(s, k));
            }
        }
        if has_key(s, k) {
            let i = choose|i: int| 0 <= i < s.len() && (#[trigger] s[i]).0@ == k;
            assert(t[i] == s[i]);
            assert(has_key(t, k));
        }
        if k == key@ {
            assert(t[s.len() as int].0@ == k);
            assert(has_key(t, k));
        }
    }
    assert forall|k: Seq<char>| #[trigger] entries_map(t).contains_key(k) implies entries_map(t)[k] == m[k] by {
        let i = index_of(t, k);
        lemma_index_of(t, i);
        if i < s.len() {
            assert(t[i] == s[i]);
            lemma_index_of(s, i);
        }
    }
    assert(entries_map(t) =~= m);
}

proof fn lemma_remove_map<V>(s: Seq<(String, V)>, i: int)
    requires
        distinct_keys(s),
        0 <= i < s.len(),
    ensures
        distinct_keys(s.remove(i)),
        entries_map(s.remove(i)) == entries_map(s).remove(s[i].0@),
{
    let t = s.remove(i);
    let key = s[i].0@;
    assert forall|a: int| 0 <= a < t.len() implies #[trigger] t[a] == s[if a < i { a } else { a + 1 }] by {
    }
    assert forall|a: int, b: int|
        0 <= a < t.len() && 0 <= b < t.len() && a != b implies (#[trigger] t[a]).0@ != (#[trigger] t[b]).0@ by {
        assert(t[a] == s[if a < i { a } else { a + 1 }]);
        assert(t[b] == s[if b < i { b } else { b + 1 }]);
    }
    let m = entries_map(s).remove(key);
    assert forall|k: Seq<char>| #[trigger] entries_map(t).contains_key(k) <==> m.contains_key(k) by {
        if has_key(t, k) {
            let a = choose|a: int| 0 <= a < t.len() && (#[trigger] t[a]).0@ == k;
            let b = if a < i { a } else { a + 1 };
            assert(t[a] == s[b]);
            assert(has_key(s, k));
            assert(b != i);
            assert(k != key);
        }
        if has_key(s, k) && k != key {
            let b = choose|b: int| 0 <= b < s.len() && (#[trigger] s[b]).0@ == k;
            assert(b != i);
            let a = if b < i { b } else { b - 1 };
            assert(t[a] == s[b]);
            assert(has_key(t, k));
        }
    }
    assert forall|k: Seq<char>| #[trigger] entries_map(t).contains_key(k) implies entries_map(t)[k] == m[k] by {
        let a = index_of(t, k);
        lemma_index_of(t, a);
        let b = if a < i { a } else { a + 1 };
        assert(t[a] == s[b]);
        lemma_index_of(s, b);
    }
    assert(entries_map(t) =~= m);
}

/// The position of the entry with key `key`, if there is one.
fn find_key<V>(entries: &Vec<(String, V)>, key: &str) -> (r: Option<usize>)
    ensures
        match r {
            Some(i) => i < entries@.len() && entries@[i as int].0@ == key@,
            None => !has_key(entries@, key@),
        },
{
    let mut i: usize = 0;
    while i < entries.len()
        invariant
            i <= entries@.len(),
            forall|j: int| 0 <= j < i ==> (#[trigger] entries@[j]).0@ != key@,
        decreases entries@.len() - i,
    {
        if crate::text::str_equal(entries[i].0.as_str(), key) {
            return Some(i);
        }
        i += 1;
    }
    None
}

fn entries_insert<V>(entries: &mut Vec<(String, V)>, key: String, value: V) -> (old_value: Option<V>)
    requires
        distinct_keys(old(entries)@),
    ensures
        distinct_keys(final(entries)@),
        entries_map(final(entries)@) == entries_map(old(entries)@).insert(key@, value),
        old_value == (if entries_map(old(entries)@).contains_key(key@) {
            Some(entries_map(old(entries)@)[key@])
        } else {
            None
        }),
{
    let found = find_key(entries, key.as_str());
    match found {
        Some(i) => {
            proof {
                lemma_index_of(entries@, i as int);
                lemma_remove_map(entries@, i as int);
            }
            let ghost before = entries@;
            let (_, old_v) = entries.remove(i);
            proof {
                assert(!has_key(entries@, key@)) by {
                    if has_key(entries@, key@) {
                        assert(entries_map(entries@).contains_key(key@));
                    }
                }
                lemma_push_map(entries@, key, value);
                assert(entries_map(before).remove(key@).insert(key@, value) =~= entries_map(before).insert(
                    key@,
                    value,
                ));
            }
            entries.push((key, value));
            Some(old_v)
        },
        None => {
            proof {
                lemma_push_map(entries@, key, value);
            }
            entries.push((key, value));
            None
        },
    }
}

fn entries_remove<V>(entries: &mut Vec<(String, V)>, key: &str) -> (old_value: Option<V>)
    requires
        distinct_keys(old(entries)@),
    ensures
        distinct_keys(final(entries)@),
        entries_map(final(entries)@) == entries_map(old(entries)@).remove(key@),
        old_value == (if entries_map(old(entries)@).contains_key(key@) {
            Some(entries_map(old(entries)@)[key@])
        } else {
            None
        }),
{
    let found = find_key(entries, key);
    match found {
        Some(i) => {
            proof {
                lemma_index_of(entries@, i as int);
                lemma_remove_map(entries@, i as int);
            }
            let (_, old_v) = entries.remove(i);
            Some(old_v)
        },
        None => {
            assert(entries_map(entries@).remove(key@) =~= entries_map(entries@));
            None
        },
    }
}

/// A map from text keys to values, held as a list of entries in which no
/// key occurs twice.
pub struct Assoc<V> {
    entries: Vec<(String, V)>,
}

impl<V> Assoc<V> {
    /// Each key occurs in one entry at most.
    #[verifier::type_invariant]
    spec fn keys_distinct(&self) -> bool {
        distinct_keys(self.entries@)
    }

    /// The map that the entries hold.
    pub closed spec fn view(&self) -> Map<Seq<char>, V> {
        entries_map(self.entries@)
    }

    /// An empty map.
    pub fn new() -> (a: Self)
        ensures
            a.view() == Map::<Seq<char>, V>::empty(),
    {
        let a = Assoc { entries: Vec::new() };
        assert(a.view() =~= Map::<Seq<char>, V>::empty());
        a
    }

    /// The number of keys.
    pub fn len(&self) -> (n: usize)
        ensures
            n == self.view().len(),
            self.view().dom().finite(),
    {
        proof {
            use_type_invariant(self);
            lemma_dom_len(self.entries@);
        }
        self.entries.len()
    }

    /// The map has finitely many keys.
    pub proof fn lemma_finite(&self)
        ensures
            self.view().dom().finite(),
    {
        let s = self.entries@;
        let keys = s.map_values(|e: (String, V)| e.0@);
        assert forall|k: Seq<char>| self.view().dom().contains(k) <==> #[trigger] keys.to_set().contains(k) by {
            if has_key(s, k) {
                let i = choose|i: int| 0 <= i < s.len() && (#[trigger] s[i]).0@ == k;
                assert(keys[i] == k);
            }
            if keys.contains(k) {
                let i = choose|i: int| 0 <= i < keys.len() && keys[i] == k;
                assert(s[i].0@ == k);
            }
        }
        assert(self.view().dom() =~= keys.to_set());
        vstd::seq_lib::seq_to_set_is_finite(keys);
    }

    /// Sets the value of `key` to `value`; gives back the value it replaced.
    pub fn insert(&mut self, key: String, value: V) -> (old_value: Option<V>)
        ensures
            final(self).view() == old(self).view().insert(key@, value),
            old_value == (if old(self).view().contains_key(key@) {
                Some(old(self).view()[key@])
            } else {
                None
            }),
    {
        proof {
            use_type_invariant(&*self);
        }
        let mut entries: Vec<(String, V)> = Vec::new();
        std::mem::swap(&mut entries, &mut self.entries);
        let r = entries_insert(&mut entries, key, value);
        self.entries = entries;
        r
    }

    /// Removes `key`; gives back its value, if it had one.
    pub fn remove(&mut self, key: &str) -> (old_value: Option<V>)
        ensures
            final(self).view() == old(self).view().remove(key@),
            old_value == (if old(self).view().contains_key(key@) {
                Some(old(self).view()[key@])
            } else {
                None
            }),
    {
        proof {
            use_type_invariant(&*self);
        }
        let mut entries: Vec<(String, V)> = Vec::new();
        std::mem::swap(&mut entries, &mut self.entries);
        let r = entries_remove(&mut entries, key);
        self.entries = entries;
        r
    }

    /// Whether `key` has a value.
    pub fn contains_key(&self, key: &str) -> (b: bool)
        ensures
            b == self.view().contains_key(key@),
    {
        proof {
            use_type_invariant(self);
        }
        match find_key(&self.entries, key) {
            Some(i) => {
                proof {
                    lemma_index_of(self.entries@, i as int);
                }
                true
            },
            None => false,
        }
    }

    /// Takes all entries out, leaving the map empty.
    pub fn drain(&mut self) -> (taken: Vec<(String, V)>)
        ensures
            final(self).view() == Map::<Seq<char>, V>::empty(),
            distinct_keys(taken@),
            entries_map(taken@) == old(self).view(),
    {
        proof {
            use_type_invariant(&*self);
        }
        let mut taken: Vec<(String, V)> = Vec::new();
        std::mem::swap(&mut taken, &mut self.entries);
        assert(self.view() =~= Map::<Seq<char>, V>::empty());
        taken
    }
}

impl Assoc<i32> {
    /// A copy of the entries, each key once.
    pub fn snapshot(&self) -> (copy: Vec<(String, i32)>)
        ensures
            distinct_keys(copy@),
            entries_map(copy@) == self.view(),
    {
        proof {
            use_type_invariant(self);
        }
        let mut copy: Vec<(String, i32)> = Vec::new();
        let mut i: usize = 0;
        while i < self.entries.len()
            invariant
                i <= self.entries@.len(),
                copy@.len() == i,
                forall|j: int| 0 <= j < i ==> (#[trigger] copy@[j]).0@ == self.entries@[j].0@
                    && copy@[j].1 == self.entries@[j].1,
            decreases self.entries@.len() - i,
        {
            let k = self.entries[i].0.clone();
            copy.push((k, self.entries[i].1));
            i += 1;
        }
        assert forall|a: int, b: int|
            0 <= a < copy@.len() && 0 <= b < copy@.len() && a != b implies (#[trigger] copy@[a]).0@
            != (#[trigger] copy@[b]).0@ by {
            assert(self.entries@[a].0@ != self.entries@[b].0@);
        }
        assert forall|k: Seq<char>| #[trigger] entries_map(copy@).contains_key(k) <==> self.view().contains_key(k) by {
            if has_key(copy@, k) {
                let a = choose|a: int| 0 <= a < copy@.len() && (#[trigger] copy@[a]).0@ == k;
                assert(self.entries@[a].0@ == k);
            }
            if has_key(self.entries@, k) {
                let a = choose|a: int| 0 <= a < self.entries@.len() && (#[trigger] self.entries@[a]).0@ == k;
                assert(copy@[a].0@ == k);
            }
        }
        assert forall|k: Seq<char>| #[trigger] entries_map(copy@).contains_key(k) implies entries_map(copy@)[k]
            == self.view()[k] by {
            let a = index_of(copy@, k);
            lemma_index_of(copy@, a);
            assert(self.entries@[a].0@ == k);
            lemma_index_of(self.entries@, a);
        }
        assert(entries_map(copy@) =~= self.view());
        copy
    }

    /// The value of `key`, if it has one.
    pub fn get(&self, key: &str) -> (r: Option<i32>)
        ensures
            r == (if self.view().contains_key(key@) { Some(self.view()[key@]) } else { None }),
    {
        proof {
            use_type_invariant(self);
        }
        match find_key(&self.entries, key) {
            Some(i) => {
                proof {
                    lemma_index_of(self.entries@, i as int);
                }
                Some(self.entries[i].1)
            },
            None => None,
        }
    }
}

/// The keys of distinct entries are as many as the entries.
proof fn lemma_dom_len<V>(s: Seq<(String, V)>)
    requires
        distinct_keys(s),
    ensures
        entries_map(s).dom().finite(),
        entries_map(s).len() == s.len(),
    decreases s.len(),
{
    if s.len() == 0 {
        assert(entries_map(s).dom() =~= Set::<Seq<char>>::empty());
    } else {
        let t = s.drop_last();
        assert forall|i: int, j: int|
            0 <= i < t.len() && 0 <= j < t.len() && i != j implies (#[trigger] t[i]).0@ != (#[trigger] t[j]).0@ by {
            assert(t[i] == s[i] && t[j] == s[j]);
        }
        lemma_dom_len(t);
        let last = s.last();
        assert(!has_key(t, last.0@)) by {
            if has_key(t, last.0@) {
                let i = choose|i: int| 0 <= i < t.len() && (#[trigger] t[i]).0@ == last.0@;
                assert(t[i] == s[i]);
            }
        }
        lemma_push_map(t, last.0, last.1);
        assert(t.push(last) =~= s);
    }
}

} // verus!
