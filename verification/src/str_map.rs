//! Maps and sets keyed by strings, kept as association lists whose keys are
//! pairwise distinct. They stand where the clients keep `HashMap<String, _>`
//! and `HashSet<String>`.
use vstd::prelude::*;
use crate::text::str_eq;

verus! {

/// The keys of an association list are pairwise distinct.
pub open spec fn unique_keys<V>(s: Seq<(String, V)>) -> bool {
    forall|i: int, j: int| 0 <= i < s.len() && 0 <= j < s.len() && i != j ==> s[i].0@ != s[j].0@
}

/// The map that an association list stands for; a later entry wins over an
/// earlier one with the same key.
pub open spec fn assoc_map<V>(s: Seq<(String, V)>) -> Map<Seq<char>, V>
    decreases s.len(),
{
    if s.len() == 0 {
        Map::empty()
    } else {
        assoc_map(s.drop_last()).insert(s.last().0@, s.last().1)
    }
}

/// The keys of `assoc_map(s)` are those of the entries.
pub proof fn lemma_assoc_dom<V>(s: Seq<(String, V)>, k: Seq<char>)
    ensures
        assoc_map(s).contains_key(k) <==> exists|i: int| 0 <= i < s.len() && s[i].0@ == k,
    decreases s.len(),
{
    if s.len() > 0 {
        lemma_assoc_dom(s.drop_last(), k);
        if assoc_map(s).contains_key(k) && k != s.last().0@ {
            let i = choose|i: int| 0 <= i < s.len() - 1 && s.drop_last()[i].0@ == k;
            assert(s[i].0@ == k);
        }
        if exists|i: int| 0 <= i < s.len() && s[i].0@ == k {
            let i = choose|i: int| 0 <= i < s.len() && s[i].0@ == k;
            if i < s.len() - 1 {
                assert(s.drop_last()[i].0@ == k);
            }
        }
    }
}

/// With distinct keys, the value of an entry's key is that entry's value.
pub proof fn lemma_assoc_index<V>(s: Seq<(String, V)>, i: int)
    requires
        unique_keys(s),
        0 <= i < s.len(),
    ensures
        assoc_map(s).contains_key(s[i].0@),
        assoc_map(s)[s[i].0@] == s[i].1,
    decreases s.len(),
{
    if i < s.len() - 1 {
        assert(unique_keys(s.drop_last()));
        lemma_assoc_index(s.drop_last(), i);
        assert(s.drop_last()[i] == s[i]);
    }
}

/// With distinct keys, the map has as many keys as the list has entries.
pub proof fn lemma_assoc_len<V>(s: Seq<(String, V)>)
    requires
        unique_keys(s),
    ensures
        assoc_map(s).dom().finite(),
        assoc_map(s).dom().len() == s.len(),
    decreases s.len(),
{
    if s.len() > 0 {
        let t = s.drop_last();
        assert(unique_keys(t));
        lemma_assoc_len(t);
        lemma_assoc_dom(t, s.last().0@);
        if assoc_map(t).contains_key(s.last().0@) {
            let i = choose|i: int| 0 <= i < t.len() && t[i].0@ == s.last().0@;
            assert(s[i].0@ == s[s.len() - 1].0@);
        }
        assert(assoc_map(s).dom() =~= assoc_map(t).dom().insert(s.last().0@));
    }
}

/// `assoc_map` over a list with one more entry at the end.
pub proof fn lemma_assoc_push<V>(s: Seq<(String, V)>, e: (String, V))
    ensures
        assoc_map(s.push(e)) == assoc_map(s).insert(e.0@, e.1),
{
    assert(s.push(e).drop_last() =~= s);
}

/// A string-keyed map with distinct keys, kept in insertion order.
#[derive(Debug)]
pub struct StrMap<V> {
    entries: Vec<(String, V)>,
}

impl<V> StrMap<V> {
    #[verifier::type_invariant]
    spec fn keys_distinct(self) -> bool {
        unique_keys(self.entries@)
    }

    /// The entries, in the order in which their keys were first inserted.
    pub closed spec fn entry_seq(&self) -> Seq<(String, V)> {
        self.entries@
    }

    /// The map of keys to values.
    pub open spec fn view(&self) -> Map<Seq<char>, V> {
        assoc_map(self.entry_seq())
    }

    /// An empty map.
    pub fn new() -> (r: Self)
        ensures
            r@ == Map::<Seq<char>, V>::empty(),
            r.entry_seq().len() == 0,
    {
        StrMap { entries: Vec::new() }
    }

    /// The entries, with their keys distinct and standing for the map.
    pub fn entries(&self) -> (r: &Vec<(String, V)>)
        ensures
            r@ == self.entry_seq(),
            unique_keys(r@),
            assoc_map(r@) == self@,
    {
        proof {
            use_type_invariant(self);
        }
        &self.entries
    }

    /// The number of keys.
    pub fn len(&self) -> (r: usize)
        ensures
            r == self.entry_seq().len(),
            r == self@.dom().len(),
    {
        proof {
            use_type_invariant(self);
            lemma_assoc_len(self.entries@);
        }
        self.entries.len()
    }

    fn find(&self, key: &str) -> (r: Option<usize>)
        ensures
            match r {
                Some(i) => i < self.entries@.len() && self.entries@[i as int].0@ == key@,
                None => forall|i: int| 0 <= i < self.entries@.len() ==> self.entries@[i].0@ != key@,
            },
    {
        let mut i: usize = 0;
        while i < self.entries.len()
            invariant
                i <= self.entries@.len(),
                forall|j: int| 0 <= j < i ==> self.entries@[j].0@ != key@,
            decreases self.entries@.len() - i,
        {
            if str_eq(self.entries[i].0.as_str(), key) {
                return Some(i);
            }
            i = i + 1;
        }
        None
    }

    /// Whether `key` has a value.
    pub fn contains_key(&self, key: &str) -> (r: bool)
        ensures
            r == self@.contains_key(key@),
    {
        proof {
            lemma_assoc_dom(self.entries@, key@);
        }
        self.find(key).is_some()
    }

    /// The value of `key`, if any.
    pub fn get(&self, key: &str) -> (r: Option<&V>)
        ensures
            match r {
                Some(v) => self@.contains_key(key@) && *v == self@[key@],
                None => !self@.contains_key(key@),
            },
    {
        proof {
            use_type_invariant(self);
            lemma_assoc_dom(self.entries@, key@);
        }
        match self.find(key) {
            Some(i) => {
                proof {
                    lemma_assoc_index(self.entries@, i as int);
                }
                Some(&self.entries[i].1)
            },
            None => None,
        }
    }

    /// Sets the value of `key`, replacing an earlier one.
    pub fn insert(&mut self, key: String, value: V)
        ensures
            final(self)@ == old(self)@.insert(key@, value),
    {
        proof {
            use_type_invariant(&*self);
        }
        let ghost old_entries = self.entries@;
        match self.find(key.as_str()) {
            Some(i) => {
                let mut entries = Vec::new();
                std::mem::swap(&mut entries, &mut self.entries);
                entries.set(i, (key, value));
                let ghost k = entries@[i as int].0@;
                proof {
                    assert(unique_keys(entries@));
                    assert forall|k2: Seq<char>|
                        #![trigger assoc_map(entries@).contains_key(k2)]
                        assoc_map(entries@).contains_key(k2) == assoc_map(old_entries).insert(
                            k,
                            value,
                        ).contains_key(k2) && (assoc_map(entries@).contains_key(k2) ==> assoc_map(
                            entries@,
                        )[k2] == assoc_map(old_entries).insert(k, value)[k2]) by {
                        lemma_assoc_dom(entries@, k2);
                        lemma_assoc_dom(old_entries, k2);
                        if k2 == k {
                            lemma_assoc_index(entries@, i as int);
                        } else if assoc_map(entries@).contains_key(k2) {
                            let j = choose|j: int| 0 <= j < entries@.len() && entries@[j].0@ == k2;
                            assert(j != i);
                            assert(old_entries[j] == entries@[j]);
                            lemma_assoc_index(entries@, j);
                            lemma_assoc_index(old_entries, j);
                        } else {
                            if assoc_map(old_entries).contains_key(k2) {
                                let j = choose|j: int|
                                    0 <= j < old_entries.len() && old_entries[j].0@ == k2;
                                assert(entries@[j].0@ == k2);
                            }
                        }
                    }
                    assert(assoc_map(entries@) =~= assoc_map(old_entries).insert(k, value));
                }
                self.entries = entries;
            },
            None => {
                let mut entries = Vec::new();
                std::mem::swap(&mut entries, &mut self.entries);
                entries.push((key, value));
                proof {
                    lemma_assoc_push(old_entries, entries@.last());
                    assert(entries@.drop_last() =~= old_entries);
                    assert(unique_keys(entries@));
                }
                self.entries = entries;
            },
        }
    }

    /// Removes `key` and its value, if present.
    pub fn remove(&mut self, key: &str)
        ensures
            final(self)@ == old(self)@.remove(key@),
    {
        proof {
            use_type_invariant(&*self);
        }
        let ghost old_entries = self.entries@;
        match self.find(key) {
            Some(i) => {
                let mut entries = Vec::new();
                std::mem::swap(&mut entries, &mut self.entries);
                entries.remove(i);
                proof {
                    assert(entries@ =~= old_entries.remove(i as int));
                    assert forall|a: int, b: int|
                        0 <= a < entries@.len() && 0 <= b < entries@.len() && a != b implies entries@[a].0@
                        != entries@[b].0@ by {
                        let a0 = if a < i { a } else { a + 1 };
                        let b0 = if b < i { b } else { b + 1 };
                        assert(entries@[a] == old_entries[a0]);
                        assert(entries@[b] == old_entries[b0]);
                    }
                    assert forall|k2: Seq<char>|
                        #![trigger assoc_map(entries@).contains_key(k2)]
                        assoc_map(entries@).contains_key(k2) == assoc_map(old_entries).remove(
                            key@,
                        ).contains_key(k2) && (assoc_map(entries@).contains_key(k2) ==> assoc_map(
                            entries@,
                        )[k2] == assoc_map(old_entries).remove(key@)[k2]) by {
                        lemma_assoc_dom(entries@, k2);
                        lemma_assoc_dom(old_entries, k2);
                        if assoc_map(entries@).contains_key(k2) {
                            let j = choose|j: int| 0 <= j < entries@.len() && entries@[j].0@ == k2;
                            let j0 = if j < i { j } else { j + 1 };
                            assert(entries@[j] == old_entries[j0]);
                            assert(j0 != i);
                            lemma_assoc_index(entries@, j);
                            lemma_assoc_index(old_entries, j0);
                        } else if assoc_map(old_entries).contains_key(k2) && k2 != key@ {
                            let j0 = choose|j: int|
                                0 <= j < old_entries.len() && old_entries[j].0@ == k2;
                            let j = if j0 < i { j0 } else { j0 - 1 };
                            assert(j0 != i);
                            assert(entries@[j] == old_entries[j0]);
                        }
                    }
                    assert(assoc_map(entries@) =~= assoc_map(old_entries).remove(key@));
                }
                self.entries = entries;
            },
            None => {
                proof {
                    lemma_assoc_dom(old_entries, key@);
                    assert(assoc_map(old_entries) =~= assoc_map(old_entries).remove(key@));
                }
            },
        }
    }
}

/// A set of strings, kept in insertion order.
#[derive(Debug)]
pub struct StrSet {
    map: StrMap<()>,
}

impl StrSet {
    /// The strings in the set.
    pub open spec fn view(&self) -> Set<Seq<char>> {
        self.members().dom()
    }

    /// The underlying map, each member mapped to `()`.
    pub closed spec fn members(&self) -> Map<Seq<char>, ()> {
        self.map@
    }

    /// The empty set.
    pub fn new() -> (r: Self)
        ensures
            r@ == Set::<Seq<char>>::empty(),
    {
        let r = StrSet { map: StrMap::new() };
        assert(r@ =~= Set::<Seq<char>>::empty());
        r
    }

    /// Whether `s` is a member.
    pub fn contains(&self, s: &str) -> (r: bool)
        ensures
            r == self@.contains(s@),
    {
        self.map.contains_key(s)
    }

    /// Adds `s`.
    pub fn insert(&mut self, s: String)
        ensures
            final(self)@ == old(self)@.insert(s@),
    {
        let ghost k = s@;
        self.map.insert(s, ());
        assert(self@ =~= old(self)@.insert(k));
    }

    /// Removes `s`.
    pub fn remove(&mut self, s: &str)
        ensures
            final(self)@ == old(self)@.remove(s@),
    {
        self.map.remove(s);
        assert(self@ =~= old(self)@.remove(s@));
    }

    /// The members, each once, in insertion order.
    pub fn to_vec(&self) -> (r: Vec<String>)
        ensures
            forall|i: int, j: int| 0 <= i < r@.len() && 0 <= j < r@.len() && i != j ==> r@[i]@ != r@[j]@,
            forall|s: Seq<char>| self@.contains(s) <==> exists|i: int| 0 <= i < r@.len() && r@[i]@ == s,
    {
        let entries = self.map.entries();
        let mut out: Vec<String> = Vec::new();
        let mut i: usize = 0;
        while i < entries.len()
            invariant
                i <= entries@.len(),
                unique_keys(entries@),
                assoc_map(entries@) == self.map@,
                out@.len() == i,
                forall|j: int| 0 <= j < i ==> out@[j]@ == entries@[j].0@,
            decreases entries@.len() - i,
        {
            out.push(entries[i].0.clone());
            i = i + 1;
        }
        proof {
            assert forall|s: Seq<char>| self@.contains(s) <==> exists|i: int|
                0 <= i < out@.len() && out@[i]@ == s by {
                lemma_assoc_dom(entries@, s);
                if self@.contains(s) {
                    let k = choose|k: int| 0 <= k < entries@.len() && entries@[k].0@ == s;
                    assert(out@[k]@ == s);
                }
            }
        }
        out
    }
}

} // verus!
