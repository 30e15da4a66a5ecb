//! A small map with text keys.

use vstd::prelude::*;

use crate::text::same_text;

verus! {

/// No two entries have the same key.
pub open spec fn distinct_keys<V>(entries: Seq<(String, V)>) -> bool {
    forall|i: int, j: int|
        0 <= i < j < entries.len() ==> #[trigger] entries[i].0@ != #[trigger] entries[j].0@
}

/// Some entry has the key `key`.
pub open spec fn has_key<V>(entries: Seq<(String, V)>, key: Seq<char>) -> bool {
    exists|i: int| 0 <= i < entries.len() && #[trigger] entries[i].0@ == key
}

/// The map from keys to values that a list of entries with distinct keys stands for.
pub open spec fn entry_map<V>(entries: Seq<(String, V)>) -> Map<Seq<char>, V> {
    Map::new(
        |key: Seq<char>| has_key(entries, key),
        |key: Seq<char>|
            entries[choose|i: int| 0 <= i < entries.len() && #[trigger] entries[i].0@ == key].1,
    )
}

/// A map from texts to values, kept as a list of entries: it is made for a handful of keys.
pub struct StringMap<V> {
    entries: Vec<(String, V)>,
}

/// The value under the key of an entry is the value of that entry.
pub(crate) proof fn lemma_entry<V>(entries: Seq<(String, V)>, at: int)
    requires
        distinct_keys(entries),
        0 <= at < entries.len(),
    ensures
        entry_map(entries).contains_key(entries[at].0@),
        entry_map(entries)[entries[at].0@] == entries[at].1,
{
    let key = entries[at].0@;
    assert(has_key(entries, key));
    let found = choose|i: int| 0 <= i < entries.len() && #[trigger] entries[i].0@ == key;
    if found < at {
        assert(entries[found].0@ != entries[at].0@);
    } else if at < found {
        assert(entries[at].0@ != entries[found].0@);
    }
}

impl<V> View for StringMap<V> {
    type V = Map<Seq<char>, V>;

    closed spec fn view(&self) -> Map<Seq<char>, V> {
        entry_map(self.entries@)
    }
}

impl<V> StringMap<V> {
    #[verifier::type_invariant]
    spec fn well_formed(self) -> bool {
        distinct_keys(self.entries@)
    }

    /// A map without entries.
    pub fn new() -> (map: StringMap<V>)
        ensures
            map@ == Map::<Seq<char>, V>::empty(),
    {
        let map = StringMap { entries: Vec::new() };
        proof {
            assert(map@ =~= Map::<Seq<char>, V>::empty());
        }
        map
    }

    /// The place of the entry with the key `key`.
    fn position(&self, key: &str) -> (at: Option<usize>)
        ensures
            match at {
                Some(at) => at < self.entries@.len() && self.entries@[at as int].0@ == key@,
                None => !has_key(self.entries@, key@),
            },
    {
        let mut i: usize = 0;
        while i < self.entries.len()
            invariant
                i <= self.entries@.len(),
                forall|j: int| 0 <= j < i ==> #[trigger] self.entries@[j].0@ != key@,
            decreases self.entries@.len() - i,
        {
            if same_text(self.entries[i].0.as_str(), key) {
                return Some(i);
            }
            i += 1;
        }
        None
    }

    /// The value under `key`.
    pub fn get(&self, key: &str) -> (value: Option<&V>)
        ensures
            match value {
                Some(value) => self@.contains_key(key@) && self@[key@] == *value,
                None => !self@.contains_key(key@),
            },
    {
        proof {
            use_type_invariant(self);
        }
        match self.position(key) {
            Some(at) => {
                proof {
                    lemma_entry(self.entries@, at as int);
                }
                Some(&self.entries[at].1)
            },
            None => None,
        }
    }

    /// Puts `value` under `key`, in place of what was there.
    pub fn insert(&mut self, key: String, value: V)
        ensures
            final(self)@ == old(self)@.insert(key@, value),
    {
        proof {
            use_type_invariant(&*self);
        }
        let ghost before = self.entries@;
        let found = self.position(key.as_str());
        let mut entries: Vec<(String, V)> = Vec::new();
        std::mem::swap(&mut entries, &mut self.entries);
        match found {
            Some(at) => {
                let ghost key_text = key@;
                entries.set(at, (key, value));
                proof {
                    assert(distinct_keys(entries@)) by {
                        assert forall|i: int, j: int| 0 <= i < j < entries@.len() implies
                            #[trigger] entries@[i].0@ != #[trigger] entries@[j].0@ by {
                            assert(before[i].0@ != before[j].0@);
                        }
                    }
                    lemma_same_keys(before, entries@, at as int, key_text, value);
                }
            },
            None => {
                let ghost key_text = key@;
                entries.push((key, value));
                proof {
                    assert(distinct_keys(entries@)) by {
                        assert forall|i: int, j: int| 0 <= i < j < entries@.len() implies
                            #[trigger] entries@[i].0@ != #[trigger] entries@[j].0@ by {
                            assert(before[i] == entries@[i]);
                            if j < before.len() {
                                assert(before[j] == entries@[j]);
                            }
                        }
                    }
                    lemma_same_keys(before, entries@, before.len() as int, key_text, value);
                }
            },
        }
        self.entries = entries;
    }

    /// Takes away what is under `key`.
    pub fn remove(&mut self, key: &str)
        ensures
            final(self)@ == old(self)@.remove(key@),
    {
        proof {
            use_type_invariant(&*self);
        }
        let ghost before = self.entries@;
        match self.position(key) {
            Some(at) => {
                let mut entries: Vec<(String, V)> = Vec::new();
                std::mem::swap(&mut entries, &mut self.entries);
                let _ = entries.remove(at);
                proof {
                    lemma_removed(before, entries@, at as int);
                }
                self.entries = entries;
            },
            None => {
                proof {
                    assert(self@ =~= old(self)@.remove(key@));
                }
            },
        }
    }

    /// All entries, each key once.
    pub fn entries(&self) -> (entries: &Vec<(String, V)>)
        ensures
            distinct_keys(entries@),
            self@ == entry_map(entries@),
    {
        proof {
            use_type_invariant(self);
        }
        &self.entries
    }
}

/// Writing one entry changes the map at its key alone.
proof fn lemma_same_keys<V>(
    before: Seq<(String, V)>,
    after: Seq<(String, V)>,
    at: int,
    key: Seq<char>,
    value: V,
)
    requires
        distinct_keys(before),
        distinct_keys(after),
        0 <= at < after.len(),
        after[at].0@ == key,
        after[at].1 == value,
        at < before.len() ==> after.len() == before.len() && before[at].0@ == key,
        at >= before.len() ==> after.len() == before.len() + 1 && at == before.len() && !has_key(
            before,
            key,
        ),
        forall|i: int| 0 <= i < before.len() && i != at ==> after[i] == before[i],
    ensures
        entry_map(after) == entry_map(before).insert(key, value),
{
    let left = entry_map(after);
    let right = entry_map(before).insert(key, value);
    assert forall|k: Seq<char>| left.contains_key(k) == right.contains_key(k) by {
        if has_key(after, k) {
            let i = choose|i: int| 0 <= i < after.len() && #[trigger] after[i].0@ == k;
            if i != at {
                assert(before[i].0@ == k);
            }
        }
        if has_key(before, k) {
            let i = choose|i: int| 0 <= i < before.len() && #[trigger] before[i].0@ == k;
            assert(after[i].0@ == k);
        }
        assert(after[at].0@ == key);
    }
    assert forall|k: Seq<char>| left.contains_key(k) implies left[k] == right[k] by {
        let i = choose|i: int| 0 <= i < after.len() && #[trigger] after[i].0@ == k;
        lemma_entry(after, i);
        if i != at {
            lemma_entry(before, i);
            lemma_entry(after, at);
            assert(after[i].0@ != after[at].0@);
        }
    }
    assert(left =~= right);
}

/// Taking one entry out takes its key out of the map.
proof fn lemma_removed<V>(before: Seq<(String, V)>, after: Seq<(String, V)>, at: int)
    requires
        distinct_keys(before),
        0 <= at < before.len(),
        after == before.remove(at),
    ensures
        distinct_keys(after),
        entry_map(after) == entry_map(before).remove(before[at].0@),
{
    let key = before[at].0@;
    assert forall|i: int| 0 <= i < after.len() implies #[trigger] after[i] == before[if i < at {
        i
    } else {
        i + 1
    }] by {}
    assert(distinct_keys(after)) by {
        assert forall|i: int, j: int| 0 <= i < j < after.len() implies #[trigger] after[i].0@
            != #[trigger] after[j].0@ by {
            let a = if i < at {
                i
            } else {
                i + 1
            };
            let b = if j < at {
                j
            } else {
                j + 1
            };
            assert(before[a].0@ != before[b].0@);
        }
    }
    let left = entry_map(after);
    let right = entry_map(before).remove(key);
    assert forall|k: Seq<char>| left.contains_key(k) == right.contains_key(k) by {
        if has_key(after, k) {
            let i = choose|i: int| 0 <= i < after.len() && #[trigger] after[i].0@ == k;
            let a = if i < at {
                i
            } else {
                i + 1
            };
            assert(before[a].0@ == k);
            assert(before[at].0@ != before[a].0@);
        }
        if has_key(before, k) && k != key {
            let a = choose|i: int| 0 <= i < before.len() && #[trigger] before[i].0@ == k;
            let i = if a < at {
                a
            } else {
                a - 1
            };
            assert(after[i].0@ == k);
        }
    }
    assert forall|k: Seq<char>| left.contains_key(k) implies left[k] == right[k] by {
        let i = choose|i: int| 0 <= i < after.len() && #[trigger] after[i].0@ == k;
        lemma_entry(after, i);
        let a = if i < at {
            i
        } else {
            i + 1
        };
        lemma_entry(before, a);
    }
    assert(left =~= right);
}

} // verus!
