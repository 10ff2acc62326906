//! A map keyed by strings, kept as a list of entries with distinct keys.

use vstd::prelude::*;

verus! {

broadcast use vstd::string::group_string_axioms;

pub open spec fn key_of<V>(e: (String, V)) -> Seq<char> {
    e.0@
}

pub open spec fn keys_distinct<V>(s: Seq<(String, V)>) -> bool {
    forall|i: int, j: int| 0 <= i < j < s.len() ==> key_of(s[i]) != key_of(s[j])
}

/// The map that a list of entries stands for.
pub open spec fn entries_map<V>(s: Seq<(String, V)>) -> Map<Seq<char>, V>
    decreases s.len(),
{
    if s.len() == 0 {
        Map::empty()
    } else {
        entries_map(s.drop_last()).insert(key_of(s.last()), s.last().1)
    }
}

pub proof fn lemma_entries_map<V>(s: Seq<(String, V)>)
    requires
        keys_distinct(s),
    ensures
        forall|k: Seq<char>|
            #[trigger] entries_map(s).contains_key(k) <==> exists|i: int|
                0 <= i < s.len() && key_of(s[i]) == k,
        forall|i: int| 0 <= i < s.len() ==> #[trigger] entries_map(s)[key_of(s[i])] == s[i].1,
        entries_map(s).dom().finite(),
        entries_map(s).dom().len() == s.len(),
    decreases s.len(),
{
    if s.len() > 0 {
        let t = s.drop_last();
        assert(keys_distinct(t));
        lemma_entries_map(t);
        let last = s.last();
        assert(!entries_map(t).contains_key(key_of(last))) by {
            if entries_map(t).contains_key(key_of(last)) {
                let i = choose|i: int| 0 <= i < t.len() && key_of(t[i]) == key_of(last);
                assert(key_of(s[i]) == key_of(s[s.len() - 1]));
            }
        }
        assert forall|k: Seq<char>|
            #[trigger] entries_map(s).contains_key(k) <==> exists|i: int|
                0 <= i < s.len() && key_of(s[i]) == k by {
            if entries_map(s).contains_key(k) {
                if k == key_of(last) {
                    assert(key_of(s[s.len() - 1]) == k);
                } else {
                    let i = choose|i: int| 0 <= i < t.len() && key_of(t[i]) == k;
                    assert(key_of(s[i]) == k);
                }
            }
            if exists|i: int| 0 <= i < s.len() && key_of(s[i]) == k {
                let i = choose|i: int| 0 <= i < s.len() && key_of(s[i]) == k;
                if i < s.len() - 1 {
                    assert(key_of(t[i]) == k);
                }
            }
        }
        assert forall|i: int| 0 <= i < s.len() implies #[trigger] entries_map(s)[key_of(s[i])]
            == s[i].1 by {
            if i < s.len() - 1 {
                assert(key_of(s[i]) != key_of(last));
                assert(t[i] == s[i]);
            }
        }
    }
}

pub struct StrMap<V> {
    entries: Vec<(String, V)>,
}

impl<V> View for StrMap<V> {
    type V = Map<Seq<char>, V>;

    closed spec fn view(&self) -> Map<Seq<char>, V> {
        entries_map(self.entries@)
    }
}

impl<V> StrMap<V> {
    #[verifier::type_invariant]
    closed spec fn wf(&self) -> bool {
        keys_distinct(self.entries@)
    }

    /// The entries, in their stored order.
    pub closed spec fn entry_seq(&self) -> Seq<(String, V)> {
        self.entries@
    }

    pub fn new() -> (r: Self)
        ensures
            r@ == Map::<Seq<char>, V>::empty(),
    {
        StrMap { entries: Vec::new() }
    }

    /// The number of keys.
    pub fn len(&self) -> (r: usize)
        ensures
            r == self@.dom().len(),
    {
        proof {
            use_type_invariant(self);
            lemma_entries_map(self.entries@);
        }
        self.entries.len()
    }

    /// The entries, in their stored order.
    pub fn entries(&self) -> (r: &Vec<(String, V)>)
        ensures
            r@ == self.entry_seq(),
            keys_distinct(r@),
            entries_map(r@) == self@,
    {
        proof {
            use_type_invariant(self);
        }
        &self.entries
    }

    fn index_of(&self, key: &str) -> (r: Option<usize>)
        ensures
            match r {
                Some(i) => i < self.entries@.len() && key_of(self.entries@[i as int]) == key@,
                None => !self@.contains_key(key@),
            },
    {
        proof {
            use_type_invariant(self);
            lemma_entries_map(self.entries@);
        }
        let wanted: String = key.to_string();
        let mut i: usize = 0;
        while i < self.entries.len()
            invariant
                wanted@ == key@,
                i <= self.entries@.len(),
                forall|j: int| 0 <= j < i ==> key_of(self.entries@[j]) != key@,
            decreases self.entries.len() - i,
        {
            if self.entries[i].0 == wanted {
                return Some(i);
            }
            i += 1;
        }
        None
    }

    pub fn contains_key(&self, key: &str) -> (r: bool)
        ensures
            r == self@.contains_key(key@),
    {
        proof {
            use_type_invariant(self);
            lemma_entries_map(self.entries@);
        }
        self.index_of(key).is_some()
    }

    pub fn get(&self, key: &str) -> (r: Option<&V>)
        ensures
            match r {
                Some(v) => self@.contains_key(key@) && *v == self@[key@],
                None => !self@.contains_key(key@),
            },
    {
        proof {
            use_type_invariant(self);
            lemma_entries_map(self.entries@);
        }
        match self.index_of(key) {
            Some(i) => {
                let e = &self.entries[i];
                assert(*e == self.entries@[i as int]);
                Some(&e.1)
            },
            None => None,
        }
    }

    pub fn insert(&mut self, key: String, value: V)
        ensures
            final(self)@ == old(self)@.insert(key@, value),
    {
        proof {
            use_type_invariant(&*self);
            lemma_entries_map(self.entries@);
        }
        let ghost old_entries = self.entries@;
        match self.index_of(key.as_str()) {
            Some(i) => {
                let ghost k = key@;
                let mut entries = Vec::new();
                std::mem::swap(&mut entries, &mut self.entries);
                entries.set(i, (key, value));
                proof {
                    let s = entries@;
                    assert(s =~= old_entries.update(i as int, (s[i as int].0, value)));
                    assert(keys_distinct(s)) by {
                        assert forall|a: int, b: int| 0 <= a < b < s.len() implies key_of(s[a])
                            != key_of(s[b]) by {
                            assert(key_of(s[a]) == key_of(old_entries[a]));
                            assert(key_of(s[b]) == key_of(old_entries[b]));
                        }
                    }
                    lemma_entries_map(s);
                    assert(entries_map(s) =~= entries_map(old_entries).insert(k, value)) by {
                        assert forall|q: Seq<char>| #[trigger]
                            entries_map(s).contains_key(q) == entries_map(
                                old_entries,
                            ).insert(k, value).contains_key(q) by {
                            if entries_map(s).contains_key(q) {
                                let j = choose|j: int| 0 <= j < s.len() && key_of(s[j]) == q;
                                assert(key_of(old_entries[j]) == q);
                            }
                            if entries_map(old_entries).contains_key(q) {
                                let j = choose|j: int|
                                    0 <= j < old_entries.len() && key_of(old_entries[j]) == q;
                                assert(key_of(s[j]) == q);
                            }
                        }
                        assert forall|q: Seq<char>| #[trigger]
                            entries_map(s).contains_key(q) implies entries_map(s)[q]
                            == entries_map(old_entries).insert(k, value)[q] by {
                            let j = choose|j: int| 0 <= j < s.len() && key_of(s[j]) == q;
                            if j != i {
                                assert(s[j] == old_entries[j]);
                            }
                        }
                    }
                }
                self.entries = entries;
            },
            None => {
                let ghost k = key@;
                let mut entries = Vec::new();
                std::mem::swap(&mut entries, &mut self.entries);
                entries.push((key, value));
                proof {
                    let s = entries@;
                    assert(s.drop_last() =~= old_entries);
                    assert(keys_distinct(s)) by {
                        assert forall|a: int, b: int| 0 <= a < b < s.len() implies key_of(s[a])
                            != key_of(s[b]) by {
                            if b == s.len() - 1 {
                                assert(key_of(old_entries[a]) == key_of(s[a]));
                            } else {
                                assert(s[a] == old_entries[a] && s[b] == old_entries[b]);
                            }
                        }
                    }
                }
                self.entries = entries;
            },
        }
    }

    pub fn remove(&mut self, key: &str) -> (r: Option<V>)
        ensures
            final(self)@ == old(self)@.remove(key@),
            match r {
                Some(v) => old(self)@.contains_key(key@) && v == old(self)@[key@],
                None => !old(self)@.contains_key(key@),
            },
    {
        proof {
            use_type_invariant(&*self);
            lemma_entries_map(self.entries@);
        }
        let ghost old_entries = self.entries@;
        match self.index_of(key) {
            Some(i) => {
                let mut entries = Vec::new();
                std::mem::swap(&mut entries, &mut self.entries);
                let removed = entries.remove(i);
                proof {
                    let s = entries@;
                    let k = key@;
                    assert(s =~= old_entries.remove(i as int));
                    assert(keys_distinct(s)) by {
                        assert forall|a: int, b: int| 0 <= a < b < s.len() implies key_of(s[a])
                            != key_of(s[b]) by {
                            let a0 = if a < i {
                                a
                            } else {
                                a + 1
                            };
                            let b0 = if b < i {
                                b
                            } else {
                                b + 1
                            };
                            assert(s[a] == old_entries[a0] && s[b] == old_entries[b0]);
                        }
                    }
                    lemma_entries_map(s);
                    assert(entries_map(s) =~= entries_map(old_entries).remove(k)) by {
                        assert forall|q: Seq<char>| #[trigger]
                            entries_map(s).contains_key(q) == entries_map(
                                old_entries,
                            ).remove(k).contains_key(q) by {
                            if entries_map(s).contains_key(q) {
                                let j = choose|j: int| 0 <= j < s.len() && key_of(s[j]) == q;
                                let j0 = if j < i {
                                    j
                                } else {
                                    j + 1
                                };
                                assert(s[j] == old_entries[j0]);
                                assert(j0 != i);
                            }
                            if entries_map(old_entries).remove(k).contains_key(q) {
                                let j = choose|j: int|
                                    0 <= j < old_entries.len() && key_of(old_entries[j]) == q;
                                assert(j != i);
                                let j1 = if j < i {
                                    j
                                } else {
                                    j - 1
                                };
                                assert(s[j1] == old_entries[j]);
                            }
                        }
                        assert forall|q: Seq<char>| #[trigger]
                            entries_map(s).contains_key(q) implies entries_map(s)[q]
                            == entries_map(old_entries).remove(k)[q] by {
                            let j = choose|j: int| 0 <= j < s.len() && key_of(s[j]) == q;
                            let j0 = if j < i {
                                j
                            } else {
                                j + 1
                            };
                            assert(s[j] == old_entries[j0]);
                        }
                    }
                }
                self.entries = entries;
                Some(removed.1)
            },
            None => {
                assert(old(self)@.remove(key@) =~= old(self)@);
                None
            },
        }
    }

    pub fn clear(&mut self)
        ensures
            final(self)@ == Map::<Seq<char>, V>::empty(),
    {
        self.entries = Vec::new();
    }
}

} // verus!
