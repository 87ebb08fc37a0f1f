//! A string-keyed map kept as an ordered list of entries in which no key
//! occurs twice.
use vstd::prelude::*;

verus! {

/// The map obtained by inserting `entries` one after another into an empty map.
pub open spec fn map_of<V>(entries: Seq<(String, V)>) -> Map<Seq<char>, V>
    decreases entries.len(),
{
    if entries.len() == 0 {
        Map::empty()
    } else {
        map_of(entries.drop_last()).insert(entries.last().0@, entries.last().1)
    }
}

/// `i` is the last entry of `entries` whose key is `k`.
pub open spec fn last_entry_for<V>(entries: Seq<(String, V)>, k: Seq<char>, i: int) -> bool {
    &&& 0 <= i < entries.len()
    &&& entries[i].0@ == k
    &&& forall|j: int| i < j < entries.len() ==> entries[j].0@ != k
}

/// The keys of `map_of(entries)` are those of the entries, and each key maps
/// to the value of its last entry.
pub proof fn lemma_map_of<V>(entries: Seq<(String, V)>)
    ensures
        forall|k: Seq<char>|
            #![trigger map_of(entries).dom().contains(k)]
            map_of(entries).dom().contains(k) <==> exists|i: int|
                0 <= i < entries.len() && entries[i].0@ == k,
        forall|k: Seq<char>, i: int|
            #![trigger map_of(entries)[k], entries[i]]
            last_entry_for(entries, k, i) ==> map_of(entries)[k] == entries[i].1,
    decreases entries.len(),
{
    if entries.len() > 0 {
        let init = entries.drop_last();
        lemma_map_of(init);
        assert forall|k: Seq<char>|
            #![trigger map_of(entries).dom().contains(k)]
            map_of(entries).dom().contains(k) <==> exists|i: int|
                0 <= i < entries.len() && entries[i].0@ == k by {
            if map_of(entries).dom().contains(k) {
                if k == entries.last().0@ {
                    assert(entries[entries.len() - 1].0@ == k);
                } else {
                    assert(map_of(init).dom().contains(k));
                    let i = choose|i: int| 0 <= i < init.len() && init[i].0@ == k;
                    assert(entries[i] == init[i]);
                }
            }
            if exists|i: int| 0 <= i < entries.len() && entries[i].0@ == k {
                let i = choose|i: int| 0 <= i < entries.len() && entries[i].0@ == k;
                if i < entries.len() - 1 {
                    assert(init[i] == entries[i]);
                    assert(map_of(init).dom().contains(k));
                }
            }
        }
        assert forall|k: Seq<char>, i: int|
            #![trigger map_of(entries)[k], entries[i]]
            last_entry_for(entries, k, i) implies map_of(entries)[k] == entries[i].1 by {
            if i < entries.len() - 1 {
                assert(entries[entries.len() - 1].0@ != k);
                assert(init[i] == entries[i]);
                assert forall|j: int| i < j < init.len() implies init[j].0@ != k by {
                    assert(init[j] == entries[j]);
                }
                assert(last_entry_for(init, k, i));
                assert(map_of(init)[k] == init[i].1);
            } else {
                assert(entries[i] == entries.last());
            }
        }
    }
}

/// The map of `entries` has finitely many keys, no more than there are entries.
pub proof fn lemma_map_of_size<V>(entries: Seq<(String, V)>)
    ensures
        map_of(entries).dom().finite(),
        map_of(entries).dom().len() <= entries.len(),
    decreases entries.len(),
{
    if entries.len() > 0 {
        let init = entries.drop_last();
        lemma_map_of_size(init);
        assert(map_of(entries).dom() =~= map_of(init).dom().insert(entries.last().0@));
    }
}

/// A map from strings to `V`, as an ordered list of entries.
#[derive(Debug)]
pub struct StrMap<V> {
    entries: Vec<(String, V)>,
}

impl<V> View for StrMap<V> {
    type V = Map<Seq<char>, V>;

    closed spec fn view(&self) -> Map<Seq<char>, V> {
        map_of(self.entries@)
    }
}

/// No key occurs in two entries.
pub open spec fn keys_unique<V>(entries: Seq<(String, V)>) -> bool {
    forall|i: int, j: int|
        0 <= i < entries.len() && 0 <= j < entries.len() && i != j ==> entries[i].0@
            != entries[j].0@
}

/// With unique keys, the value of an entry is its key's value in the map.
pub proof fn lemma_unique_entry<V>(entries: Seq<(String, V)>, i: int)
    requires
        keys_unique(entries),
        0 <= i < entries.len(),
    ensures
        map_of(entries).dom().contains(entries[i].0@),
        map_of(entries)[entries[i].0@] == entries[i].1,
{
    lemma_map_of(entries);
    assert(last_entry_for(entries, entries[i].0@, i));
}

proof fn lemma_map_of_update<V>(entries: Seq<(String, V)>, i: int, e: (String, V))
    requires
        keys_unique(entries),
        0 <= i < entries.len(),
        entries[i].0@ == e.0@,
    ensures
        map_of(entries.update(i, e)) == map_of(entries).insert(e.0@, e.1),
    decreases entries.len(),
{
    let u = entries.update(i, e);
    let init = entries.drop_last();
    if i == entries.len() - 1 {
        assert(u.drop_last() =~= init);
        assert(map_of(u) =~= map_of(entries).insert(e.0@, e.1));
    } else {
        assert(u.drop_last() =~= init.update(i, e));
        assert forall|a: int, b: int|
            0 <= a < init.len() && 0 <= b < init.len() && a != b implies init[a].0@ != init[b].0@ by {
            assert(init[a] == entries[a]);
            assert(init[b] == entries[b]);
        }
        lemma_map_of_update(init, i, e);
        assert(entries.last().0@ != e.0@) by {
            assert(entries[entries.len() - 1].0@ != entries[i].0@);
        }
        assert(u.last() == entries.last());
        assert(map_of(u) =~= map_of(entries).insert(e.0@, e.1));
    }
}

impl<V> StrMap<V> {
    #[verifier::type_invariant]
    spec fn unique(&self) -> bool {
        keys_unique(self.entries@)
    }

    /// The entries, in order.
    pub closed spec fn entries(&self) -> Seq<(String, V)> {
        self.entries@
    }

    /// The view is the map of the entries.
    pub proof fn lemma_view(&self)
        ensures
            self@ == map_of(self.entries()),
    {
    }

    /// An empty map.
    pub fn new() -> (r: Self)
        ensures
            r@ == Map::<Seq<char>, V>::empty(),
            r.entries().len() == 0,
    {
        let r = StrMap { entries: Vec::new() };
        assert(map_of(r.entries@) =~= Map::<Seq<char>, V>::empty());
        r
    }

    /// A map holding the given entries, whose keys are all different.
    pub fn from_entries(entries: Vec<(String, V)>) -> (r: Self)
        requires
            keys_unique(entries@),
        ensures
            r.entries() == entries@,
            r@ == map_of(entries@),
    {
        StrMap { entries }
    }

    /// Number of entries; no key occurs in two of them.
    pub fn len(&self) -> (r: usize)
        ensures
            r == self.entries().len(),
            keys_unique(self.entries()),
    {
        proof {
            use_type_invariant(self);
        }
        self.entries.len()
    }

    /// Key of the `i`-th entry.
    pub fn key_at(&self, i: usize) -> (r: &String)
        requires
            i < self.entries().len(),
        ensures
            *r == self.entries()[i as int].0,
    {
        &self.entries[i].0
    }

    /// Value of the `i`-th entry.
    pub fn value_at(&self, i: usize) -> (r: &V)
        requires
            i < self.entries().len(),
        ensures
            *r == self.entries()[i as int].1,
    {
        &self.entries[i].1
    }

    fn last_index_of(&self, key: &str) -> (r: Option<usize>)
        ensures
            match r {
                Some(i) => last_entry_for(self.entries@, key@, i as int),
                None => forall|j: int|
                    0 <= j < self.entries@.len() ==> self.entries@[j].0@ != key@,
            },
    {
        let mut i = self.entries.len();
        while i > 0
            invariant
                i <= self.entries@.len(),
                forall|j: int| i <= j < self.entries@.len() ==> self.entries@[j].0@ != key@,
            decreases i,
        {
            i = i - 1;
            if string_is(&self.entries[i].0, key) {
                return Some(i);
            }
        }
        None
    }

    /// The value for `key`.
    pub fn get(&self, key: &str) -> (r: Option<&V>)
        ensures
            match r {
                Some(v) => self@.dom().contains(key@) && *v == self@[key@],
                None => !self@.dom().contains(key@),
            },
    {
        proof {
            lemma_map_of(self.entries@);
        }
        match self.last_index_of(key) {
            Some(i) => Some(&self.entries[i].1),
            None => None,
        }
    }

    /// Whether `key` has a value.
    pub fn contains_key(&self, key: &str) -> (r: bool)
        ensures
            r == self@.dom().contains(key@),
    {
        proof {
            lemma_map_of(self.entries@);
        }
        self.last_index_of(key).is_some()
    }

    /// Sets the value for `key`.
    pub fn insert(&mut self, key: String, value: V)
        ensures
            final(self)@ == old(self)@.insert(key@, value),
    {
        proof {
            use_type_invariant(&*self);
        }
        let found = self.last_index_of(key.as_str());
        let mut entries: Vec<(String, V)> = Vec::new();
        std::mem::swap(&mut entries, &mut self.entries);
        let ghost before = entries@;
        match found {
            Some(i) => {
                proof {
                    lemma_map_of_update(before, i as int, (key, value));
                }
                entries.set(i, (key, value));
                assert forall|a: int, b: int|
                    0 <= a < entries@.len() && 0 <= b < entries@.len() && a != b implies entries@[a].0@
                    != entries@[b].0@ by {
                    if a != i && b != i {
                        assert(entries@[a] == before[a]);
                        assert(entries@[b] == before[b]);
                    } else if a == i {
                        assert(entries@[b] == before[b]);
                        assert(before[i as int].0@ == key@);
                    } else {
                        assert(entries@[a] == before[a]);
                        assert(before[i as int].0@ == key@);
                    }
                }
            },
            None => {
                entries.push((key, value));
                assert(entries@.drop_last() =~= before);
                assert forall|a: int, b: int|
                    0 <= a < entries@.len() && 0 <= b < entries@.len() && a != b implies entries@[a].0@
                    != entries@[b].0@ by {
                    if a < before.len() && b < before.len() {
                        assert(entries@[a] == before[a]);
                        assert(entries@[b] == before[b]);
                    } else if a < before.len() {
                        assert(entries@[a] == before[a]);
                    } else {
                        assert(entries@[b] == before[b]);
                    }
                }
            },
        }
        self.entries = entries;
    }

    /// Drops the value for `key`.
    pub fn remove(&mut self, key: &str)
        ensures
            final(self)@ == old(self)@.remove(key@),
    {
        proof {
            use_type_invariant(&*self);
        }
        let mut kept: Vec<(String, V)> = Vec::new();
        let ghost all = self.entries@;
        let mut rest: Vec<(String, V)> = Vec::new();
        std::mem::swap(&mut rest, &mut self.entries);
        let ghost mut done: int = 0;
        assert(map_of(all.take(0)) =~= Map::<Seq<char>, V>::empty());
        assert(map_of(kept@) =~= map_of(all.take(0)).remove(key@));
        assert(rest@ =~= all.skip(0));
        while rest.len() > 0
            invariant
                0 <= done <= all.len(),
                rest@ == all.skip(done),
                map_of(kept@) == map_of(all.take(done)).remove(key@),
                keys_unique(all),
                keys_unique(kept@),
                forall|a: int|
                    0 <= a < kept@.len() ==> exists|b: int|
                        0 <= b < done && (#[trigger] kept@[a]).0@ == all[b].0@,
            decreases rest@.len(),
        {
            let e = rest.remove(0);
            assert(e == all[done]);
            assert(all.take(done + 1).drop_last() =~= all.take(done));
            assert(all.take(done + 1).last() == all[done]);
            if string_is(&e.0, key) {
                assert(map_of(all.take(done + 1)).remove(key@) =~= map_of(all.take(done)).remove(
                    key@,
                ));
            } else {
                let ghost before = kept@;
                kept.push(e);
                assert(kept@.drop_last() =~= before);
                assert(map_of(kept@) =~= map_of(all.take(done + 1)).remove(key@));
                assert forall|a: int| 0 <= a < before.len() implies kept@[a].0@ != all[done].0@ by {
                    assert(kept@[a] == before[a]);
                    let b = choose|b: int| 0 <= b < done && before[a].0@ == all[b].0@;
                }
                assert forall|a: int|
                    0 <= a < kept@.len() implies exists|b: int|
                        0 <= b < done + 1 && (#[trigger] kept@[a]).0@ == all[b].0@ by {
                    if a < before.len() {
                        assert(kept@[a] == before[a]);
                        let b = choose|b: int| 0 <= b < done && before[a].0@ == all[b].0@;
                    } else {
                        assert(kept@[a].0@ == all[done].0@);
                    }
                }
            }
            proof {
                done = done + 1;
            }
            assert(rest@ =~= all.skip(done));
        }
        assert(all.take(done) =~= all);
        self.entries = kept;
    }
}

impl<V: Clone> Clone for StrMap<V> {
    /// A copy with the same keys, in the same order, and each value cloned.
    fn clone(&self) -> (r: Self)
        ensures
            r.entries().len() == self.entries().len(),
            forall|i: int|
                0 <= i < self.entries().len() ==> (#[trigger] r.entries()[i]).0 == self.entries()[i].0
                    && cloned(self.entries()[i].1, r.entries()[i].1),
    {
        proof {
            use_type_invariant(self);
        }
        let mut entries: Vec<(String, V)> = Vec::new();
        let mut i: usize = 0;
        while i < self.entries.len()
            invariant
                i <= self.entries@.len(),
                keys_unique(self.entries@),
                entries@.len() == i,
                forall|k: int|
                    0 <= k < i ==> (#[trigger] entries@[k]).0 == self.entries@[k].0 && cloned(
                        self.entries@[k].1,
                        entries@[k].1,
                    ),
            decreases self.entries@.len() - i,
        {
            let k = self.entries[i].0.clone();
            let v = self.entries[i].1.clone();
            entries.push((k, v));
            i = i + 1;
        }
        assert forall|a: int, b: int|
            0 <= a < entries@.len() && 0 <= b < entries@.len() && a != b implies entries@[a].0@
            != entries@[b].0@ by {
            assert(entries@[a].0 == self.entries@[a].0);
            assert(entries@[b].0 == self.entries@[b].0);
        }
        StrMap { entries }
    }
}

/// Whether the text of `s` is `key`.
pub fn string_is(s: &String, key: &str) -> (r: bool)
    ensures
        r == (s@ == key@),
{
    let n = key.unicode_len();
    let t = s.as_str();
    if t.unicode_len() != n {
        return false;
    }
    let mut i: usize = 0;
    while i < n
        invariant
            n == key@.len(),
            n == t@.len(),
            t@ == s@,
            i <= n,
            forall|j: int| 0 <= j < i ==> t@[j] == key@[j],
        decreases n - i,
    {
        if t.get_char(i) != key.get_char(i) {
            return false;
        }
        i = i + 1;
    }
    assert(t@ =~= key@);
    true
}

} // verus!
