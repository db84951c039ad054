//! Small maps from names to texts.
//!
//! Records carry such maps: from a source's name to the identifier
//! that source gave them, or from an option's name to its setting. A map
//! holds at most one entry per name.

use vstd::prelude::*;

verus! {

/// A finite map from names to texts, kept as a list of entries whose names
/// are pairwise distinct.
#[derive(Debug)]
pub struct StringMap {
    entries: Vec<(String, String)>,
}

/// Whether some entry of the list has the given name.
pub open spec fn has_key(entries: Seq<(String, String)>, key: Seq<char>) -> bool {
    exists|i: int| 0 <= i < entries.len() && (#[trigger] entries[i]).0@ == key
}

/// The position of an entry with the given name.
pub open spec fn key_index(entries: Seq<(String, String)>, key: Seq<char>) -> int {
    choose|i: int| 0 <= i < entries.len() && (#[trigger] entries[i]).0@ == key
}

/// Whether no name occurs twice in the list.
pub open spec fn distinct_keys(entries: Seq<(String, String)>) -> bool {
    forall|i: int, j: int|
        0 <= i < j < entries.len() ==> (#[trigger] entries[i]).0@ != (#[trigger] entries[j]).0@
}

/// The map that a list of entries stands for.
pub open spec fn entries_map(entries: Seq<(String, String)>) -> Map<Seq<char>, Seq<char>> {
    Map::new(
        |k: Seq<char>| has_key(entries, k),
        |k: Seq<char>| entries[key_index(entries, k)].1@,
    )
}

/// The map made by storing the pairs of a list one after the other; of two
/// pairs with one name the later one stays.
pub open spec fn stored_in_order(pairs: Seq<(String, String)>) -> Map<Seq<char>, Seq<char>>
    decreases pairs.len(),
{
    if pairs.len() == 0 {
        Map::empty()
    } else {
        stored_in_order(pairs.drop_last()).insert(pairs.last().0@, pairs.last().1@)
    }
}

/// In a list of distinct names, the entry at `i` is the one its name maps to.
pub proof fn lemma_entry_lookup(entries: Seq<(String, String)>, i: int)
    requires
        distinct_keys(entries),
        0 <= i < entries.len(),
    ensures
        entries_map(entries).contains_key(entries[i].0@),
        entries_map(entries)[entries[i].0@] == entries[i].1@,
{
    let k = entries[i].0@;
    assert(has_key(entries, k));
    let j = key_index(entries, k);
    assert(0 <= j < entries.len() && entries[j].0@ == k);
    if j < i {
        assert(entries[j].0@ != entries[i].0@);
    } else if i < j {
        assert(entries[i].0@ != entries[j].0@);
    }
}

impl View for StringMap {
    type V = Map<Seq<char>, Seq<char>>;

    closed spec fn view(&self) -> Map<Seq<char>, Seq<char>> {
        entries_map(self.entries@)
    }
}

impl Clone for StringMap {
    fn clone(&self) -> (r: StringMap)
        ensures
            r@ == self@,
    {
        self.duplicate()
    }
}

impl StringMap {
    #[verifier::type_invariant]
    spec fn well_formed(self) -> bool {
        distinct_keys(self.entries@)
    }

    /// The empty map.
    pub fn new() -> (r: StringMap)
        ensures
            r@ == Map::<Seq<char>, Seq<char>>::empty(),
    {
        let r = StringMap { entries: Vec::new() };
        assert(r@ =~= Map::<Seq<char>, Seq<char>>::empty());
        r
    }

    /// The position of the entry named `key`, if there is one.
    fn position(&self, key: &String) -> (r: Option<usize>)
        ensures
            match r {
                Some(i) => i < self.entries@.len() && self.entries@[i as int].0@ == key@,
                None => !has_key(self.entries@, key@),
            },
    {
        let mut i: usize = 0;
        while i < self.entries.len()
            invariant
                i <= self.entries@.len(),
                forall|j: int| 0 <= j < i ==> (#[trigger] self.entries@[j]).0@ != key@,
            decreases self.entries@.len() - i,
        {
            if self.entries[i].0 == *key {
                return Some(i);
            }
            i += 1;
        }
        None
    }

    /// The text stored under `key`.
    pub fn get(&self, key: &str) -> (r: Option<&String>)
        ensures
            match r {
                Some(v) => self@.contains_key(key@) && v@ == self@[key@],
                None => !self@.contains_key(key@),
            },
    {
        proof {
            use_type_invariant(self);
        }
        let k = key.to_owned();
        match self.position(&k) {
            Some(i) => {
                proof {
                    lemma_entry_lookup(self.entries@, i as int);
                }
                Some(&self.entries[i].1)
            },
            None => None,
        }
    }

    /// Whether an entry is stored under `key`.
    pub fn contains_key(&self, key: &str) -> (r: bool)
        ensures
            r == self@.contains_key(key@),
    {
        self.get(key).is_some()
    }

    /// Stores `value` under `key`, in place of what was stored there.
    pub fn insert(&mut self, key: String, value: String)
        ensures
            final(self)@ == old(self)@.insert(key@, value@),
    {
        proof {
            use_type_invariant(&*self);
        }
        let ghost before = self.entries@;
        let ghost k = key@;
        let ghost v = value@;
        let found = self.position(&key);
        let mut entries = self.take_entries();
        match found {
            Some(i) => {
                entries.set(i, (key, value));
                proof {
                    let after = entries@;
                    assert forall|a: int, b: int| 0 <= a < b < after.len() implies (
                    #[trigger] after[a]).0@ != (#[trigger] after[b]).0@ by {
                        assert(after[a].0@ == before[a].0@);
                        assert(after[b].0@ == before[b].0@);
                    }
                    assert forall|q: Seq<char>| #[trigger]
                        entries_map(after).contains_key(q) == entries_map(before).insert(
                            k,
                            v,
                        ).contains_key(q) by {
                        if has_key(after, q) {
                            let j = key_index(after, q);
                            assert(before[j].0@ == q);
                        }
                        if has_key(before, q) {
                            let j = key_index(before, q);
                            assert(after[j].0@ == q);
                        }
                        if q == k {
                            assert(after[i as int].0@ == q);
                        }
                    }
                    assert forall|q: Seq<char>| #[trigger]
                        entries_map(after).contains_key(q) implies entries_map(after)[q]
                        == entries_map(before).insert(k, v)[q] by {
                        let j = key_index(after, q);
                        lemma_entry_lookup(after, j);
                        if j != i {
                            assert(before[j] == after[j]);
                            lemma_entry_lookup(before, j);
                        }
                    }
                    assert(entries_map(after) =~= entries_map(before).insert(k, v));
                }
            },
            None => {
                entries.push((key, value));
                proof {
                    let after = entries@;
                    let n = before.len() as int;
                    assert forall|a: int, b: int| 0 <= a < b < after.len() implies (
                    #[trigger] after[a]).0@ != (#[trigger] after[b]).0@ by {
                        assert(after[a] == before[a]);
                        if b < n {
                            assert(after[b] == before[b]);
                        }
                    }
                    assert forall|q: Seq<char>| #[trigger]
                        entries_map(after).contains_key(q) == entries_map(before).insert(
                            k,
                            v,
                        ).contains_key(q) by {
                        if has_key(after, q) {
                            let j = key_index(after, q);
                            if j < n {
                                assert(before[j].0@ == q);
                            }
                        }
                        if has_key(before, q) {
                            let j = key_index(before, q);
                            assert(after[j].0@ == q);
                        }
                        if q == k {
                            assert(after[n].0@ == q);
                        }
                    }
                    assert forall|q: Seq<char>| #[trigger]
                        entries_map(after).contains_key(q) implies entries_map(after)[q]
                        == entries_map(before).insert(k, v)[q] by {
                        let j = key_index(after, q);
                        lemma_entry_lookup(after, j);
                        if j < n {
                            assert(before[j] == after[j]);
                            lemma_entry_lookup(before, j);
                        }
                    }
                    assert(entries_map(after) =~= entries_map(before).insert(k, v));
                }
            },
        }
        *self = StringMap { entries };
    }

    /// Drops the entry stored under `key`, if there is one.
    pub fn remove(&mut self, key: &str)
        ensures
            final(self)@ == old(self)@.remove(key@),
    {
        proof {
            use_type_invariant(&*self);
        }
        let ghost before = self.entries@;
        let ghost k = key@;
        let owned = key.to_owned();
        let found = self.position(&owned);
        let mut entries = self.take_entries();
        match found {
            Some(i) => {
                entries.remove(i);
                proof {
                    let after = entries@;
                    assert forall|a: int| 0 <= a < after.len() implies #[trigger] after[a] == (
                    if a < i {
                        before[a]
                    } else {
                        before[a + 1]
                    }) by {}
                    assert forall|a: int, b: int| 0 <= a < b < after.len() implies (
                    #[trigger] after[a]).0@ != (#[trigger] after[b]).0@ by {
                        let a0 = if a < i { a } else { a + 1 };
                        let b0 = if b < i { b } else { b + 1 };
                        assert(before[a0].0@ != before[b0].0@);
                    }
                    assert forall|q: Seq<char>| #[trigger]
                        entries_map(after).contains_key(q) == entries_map(before).remove(
                            k,
                        ).contains_key(q) by {
                        if has_key(after, q) {
                            let j = key_index(after, q);
                            let j0 = if j < i { j } else { j + 1 };
                            assert(before[j0].0@ == q);
                            if q == k {
                                if j0 < i {
                                    assert(before[j0].0@ != before[i as int].0@);
                                } else {
                                    assert(before[i as int].0@ != before[j0].0@);
                                }
                            }
                        }
                        if has_key(before, q) && q != k {
                            let j = key_index(before, q);
                            let j1 = if j < i { j } else { j - 1 };
                            assert(after[j1].0@ == q);
                        }
                    }
                    assert forall|q: Seq<char>| #[trigger]
                        entries_map(after).contains_key(q) implies entries_map(after)[q]
                        == entries_map(before).remove(k)[q] by {
                        let j = key_index(after, q);
                        lemma_entry_lookup(after, j);
                        let j0 = if j < i { j } else { j + 1 };
                        assert(before[j0] == after[j]);
                        lemma_entry_lookup(before, j0);
                    }
                    assert(entries_map(after) =~= entries_map(before).remove(k));
                }
            },
            None => {
                assert(entries_map(before) =~= entries_map(before).remove(k));
            },
        }
        *self = StringMap { entries };
    }

    /// Moves the entries out and leaves the map empty.
    fn take_entries(&mut self) -> (r: Vec<(String, String)>)
        ensures
            r@ == old(self).entries@,
            distinct_keys(r@),
    {
        proof {
            use_type_invariant(&*self);
        }
        let mut taken = StringMap { entries: Vec::new() };
        core::mem::swap(self, &mut taken);
        taken.entries
    }

    /// The entries as pairs of name and text, in the order they were stored.
    pub fn to_pairs(&self) -> (r: Vec<(String, String)>)
        ensures
            entries_map(r@) == self@,
            distinct_keys(r@),
    {
        proof {
            use_type_invariant(self);
        }
        let mut out: Vec<(String, String)> = Vec::new();
        let mut i: usize = 0;
        while i < self.entries.len()
            invariant
                i <= self.entries@.len(),
                out@.len() == i,
                forall|j: int|
                    0 <= j < i ==> (#[trigger] out@[j]).0@ == self.entries@[j].0@ && out@[j].1@
                        == self.entries@[j].1@,
            decreases self.entries@.len() - i,
        {
            out.push((self.entries[i].0.clone(), self.entries[i].1.clone()));
            i += 1;
        }
        proof {
            lemma_same_texts_same_map(out@, self.entries@);
        }
        out
    }

    /// A copy of the map.
    pub fn duplicate(&self) -> (r: StringMap)
        ensures
            r@ == self@,
    {
        let pairs = self.to_pairs();
        StringMap { entries: pairs }
    }

    /// The map holding the given pairs; of two pairs with one name the later
    /// one stays.
    pub fn from_pairs(pairs: Vec<(String, String)>) -> (r: StringMap)
        ensures
            r@ == stored_in_order(pairs@),
    {
        let mut out = StringMap::new();
        let mut i: usize = 0;
        assert(pairs@.take(0) =~= Seq::<(String, String)>::empty());
        while i < pairs.len()
            invariant
                i <= pairs@.len(),
                out@ == stored_in_order(pairs@.take(i as int)),
            decreases pairs@.len() - i,
        {
            proof {
                assert(pairs@.take(i + 1).drop_last() =~= pairs@.take(i as int));
                assert(pairs@.take(i + 1).last() == pairs@[i as int]);
            }
            out.insert(pairs[i].0.clone(), pairs[i].1.clone());
            i += 1;
        }
        assert(pairs@.take(pairs@.len() as int) =~= pairs@);
        out
    }
}

/// Two lists with the same names and texts, position by position, stand for
/// the same map.
pub proof fn lemma_same_texts_same_map(a: Seq<(String, String)>, b: Seq<(String, String)>)
    requires
        a.len() == b.len(),
        forall|j: int|
            0 <= j < a.len() ==> (#[trigger] a[j]).0@ == b[j].0@ && a[j].1@ == b[j].1@,
        distinct_keys(b),
    ensures
        distinct_keys(a),
        entries_map(a) == entries_map(b),
{
    assert forall|i: int, j: int| 0 <= i < j < a.len() implies (#[trigger] a[i]).0@ != (
    #[trigger] a[j]).0@ by {
        assert(b[i].0@ != b[j].0@);
    }
    assert forall|q: Seq<char>| #[trigger]
        entries_map(a).contains_key(q) == entries_map(b).contains_key(q) by {
        if has_key(a, q) {
            let j = key_index(a, q);
            assert(b[j].0@ == q);
        }
        if has_key(b, q) {
            let j = key_index(b, q);
            assert(a[j].0@ == q);
        }
    }
    assert forall|q: Seq<char>| #[trigger] entries_map(a).contains_key(q) implies entries_map(
        a,
    )[q] == entries_map(b)[q] by {
        let j = key_index(a, q);
        lemma_entry_lookup(a, j);
        lemma_entry_lookup(b, j);
    }
    assert(entries_map(a) =~= entries_map(b));
}

} // verus!
