//! A small map from texts to values.

use vstd::prelude::*;

use crate::text;
use crate::text::{list_contains, text_eq};

verus! {

/// A map keyed by text, kept as a list in which no key occurs twice.
#[derive(Debug, PartialEq, Eq)]
pub struct Table<V> {
    entries: Vec<(String, V)>,
}

/// Whether no two entries of a list have the same key.
pub open spec fn distinct_keys<V>(entries: Seq<(String, V)>) -> bool {
    forall|i: int, j: int|
        0 <= i < j < entries.len() ==> (#[trigger] entries[i]).0@ != (#[trigger] entries[j]).0@
}

/// Whether some entry of a list has the given key.
pub open spec fn has_key<V>(entries: Seq<(String, V)>, key: Seq<char>) -> bool {
    exists|i: int| 0 <= i < entries.len() && (#[trigger] entries[i]).0@ == key
}

/// The map that a list of entries stands for; of two entries with one key the later counts.
pub open spec fn entry_map<V: View>(entries: Seq<(String, V)>) -> Map<Seq<char>, V::V>
    decreases entries.len(),
{
    if entries.len() == 0 {
        Map::empty()
    } else {
        entry_map(entries.drop_last()).insert(entries.last().0@, entries.last().1@)
    }
}

proof fn lemma_entry_map<V: View>(entries: Seq<(String, V)>)
    ensures
        forall|key: Seq<char>| #[trigger]
            entry_map(entries).contains_key(key) <==> has_key(entries, key),
        distinct_keys(entries) ==> forall|i: int|
            0 <= i < entries.len() ==> entry_map(entries)[(#[trigger] entries[i]).0@]
                == entries[i].1@,
    decreases entries.len(),
{
    if entries.len() > 0 {
        let shorter = entries.drop_last();
        lemma_entry_map(shorter);
        assert forall|key: Seq<char>| #[trigger]
            entry_map(entries).contains_key(key) <==> has_key(entries, key) by {
            assert(entries[entries.len() - 1] == entries.last());
            assert(entry_map(shorter).contains_key(key) <==> has_key(shorter, key));
            if has_key(entries, key) && key != entries.last().0@ {
                let i = choose|i: int| 0 <= i < entries.len() && (#[trigger] entries[i]).0@ == key;
                assert(shorter[i] == entries[i]);
                assert(has_key(shorter, key));
            }
            if has_key(shorter, key) {
                let i = choose|i: int| 0 <= i < shorter.len() && (#[trigger] shorter[i]).0@ == key;
                assert(entries[i] == shorter[i]);
            }
        }
        if distinct_keys(entries) {
            assert(distinct_keys(shorter)) by {
                assert forall|i: int, j: int| 0 <= i < j < shorter.len() implies (
                #[trigger] shorter[i]).0@ != (#[trigger] shorter[j]).0@ by {
                    assert(entries[i] == shorter[i] && entries[j] == shorter[j]);
                }
            }
            assert forall|i: int| 0 <= i < entries.len() implies entry_map(entries)[(
            #[trigger] entries[i]).0@] == entries[i].1@ by {
                if i < shorter.len() {
                    assert(shorter[i] == entries[i]);
                    assert(entries[entries.len() - 1] == entries.last());
                }
            }
        }
    }
}

impl<V: View> View for Table<V> {
    type V = Map<Seq<char>, V::V>;

    closed spec fn view(&self) -> Map<Seq<char>, V::V> {
        entry_map(self.entries@)
    }
}

impl<V> Table<V> {
    #[verifier::type_invariant]
    spec fn well_formed(self) -> bool {
        distinct_keys(self.entries@)
    }
}

impl<V: View> Table<V> {
    /// The empty map.
    pub fn new() -> (table: Self)
        ensures
            table@ == Map::<Seq<char>, V::V>::empty(),
    {
        Table { entries: Vec::new() }
    }

    fn position(&self, key: &str) -> (found: Option<usize>)
        ensures
            match found {
                Some(index) => index < self.entries@.len() && self.entries@[index as int].0@
                    == key@,
                None => !has_key(self.entries@, key@),
            },
    {
        let mut index: usize = 0;
        while index < self.entries.len()
            invariant
                index <= self.entries@.len(),
                forall|i: int|
                    0 <= i < index ==> (#[trigger] self.entries@[i]).0@ != key@,
            decreases self.entries@.len() - index,
        {
            if text_eq(self.entries[index].0.as_str(), key) {
                return Some(index);
            }
            index = index + 1;
        }
        None
    }

    /// The value of a key.
    pub fn get(&self, key: &str) -> (value: Option<&V>)
        ensures
            match value {
                Some(value) => self@.contains_key(key@) && self@[key@] == value@,
                None => !self@.contains_key(key@),
            },
    {
        proof {
            use_type_invariant(self);
            lemma_entry_map(self.entries@);
        }
        match self.position(key) {
            Some(index) => Some(&self.entries[index].1),
            None => None,
        }
    }

    /// Whether a key has a value.
    pub fn contains_key(&self, key: &str) -> (found: bool)
        ensures
            found == self@.contains_key(key@),
    {
        self.get(key).is_some()
    }

    /// Gives a key a value and returns the value it had.
    pub fn insert(&mut self, key: String, value: V) -> (previous: Option<V>)
        ensures
            final(self)@ == old(self)@.insert(key@, value@),
            match previous {
                Some(previous) => old(self)@.contains_key(key@) && old(self)@[key@] == previous@,
                None => !old(self)@.contains_key(key@),
            },
    {
        let previous = self.remove(key.as_str());
        let mut entries: Vec<(String, V)> = Vec::new();
        proof {
            use_type_invariant(&*self);
            lemma_entry_map(self.entries@);
            assert(!self@.contains_key(key@));
        }
        std::mem::swap(&mut entries, &mut self.entries);
        let ghost before = entries@;
        entries.push((key, value));
        proof {
            assert(entries@.drop_last() == before);
            assert forall|i: int, j: int| 0 <= i < j < entries@.len() implies (
            #[trigger] entries@[i]).0@ != (#[trigger] entries@[j]).0@ by {
                assert(entries@[i] == before[i]);
                if j < before.len() {
                    assert(entries@[j] == before[j]);
                } else {
                    assert(!has_key(before, key@));
                }
            }
        }
        self.entries = entries;
        assert(self@ =~= old(self)@.insert(key@, value@));
        previous
    }

    /// Takes a key out of the map and returns the value it had.
    pub fn remove(&mut self, key: &str) -> (previous: Option<V>)
        ensures
            final(self)@ == old(self)@.remove(key@),
            match previous {
                Some(previous) => old(self)@.contains_key(key@) && old(self)@[key@] == previous@,
                None => !old(self)@.contains_key(key@),
            },
    {
        proof {
            use_type_invariant(&*self);
            lemma_entry_map(self.entries@);
        }
        match self.position(key) {
            Some(index) => Some(self.remove_at(index)),
            None => {
                assert(self@ =~= old(self)@.remove(key@));
                None
            },
        }
    }

    fn remove_at(&mut self, index: usize) -> (value: V)
        requires
            index < old(self).entries@.len(),
        ensures
            final(self).entries@ == old(self).entries@.remove(index as int),
            final(self)@ == old(self)@.remove(old(self).entries@[index as int].0@),
            value@ == old(self)@[old(self).entries@[index as int].0@],
            old(self)@.contains_key(old(self).entries@[index as int].0@),
    {
        proof {
            use_type_invariant(&*self);
            lemma_entry_map(self.entries@);
        }
        let mut entries: Vec<(String, V)> = Vec::new();
        std::mem::swap(&mut entries, &mut self.entries);
        let ghost before = entries@;
        let (_, value) = entries.remove(index);
        proof {
            assert forall|i: int, j: int| 0 <= i < j < entries@.len() implies (
            #[trigger] entries@[i]).0@ != (#[trigger] entries@[j]).0@ by {
                let k = if i < index { i } else { i + 1 };
                let l = if j < index { j } else { j + 1 };
                assert(entries@[i] == before[k] && entries@[j] == before[l]);
            }
            lemma_removed(before, index as int);
        }
        self.entries = entries;
        value
    }

    /// Builds the map of a list; of two entries with one key the later counts.
    pub fn from_entries(entries: Vec<(String, V)>) -> (table: Self)
        ensures
            table@ == entry_map(entries@),
    {
        let mut rest = entries;
        let mut table = Table::new();
        assert(entry_map(rest@).union_prefer_right(table@) =~= entry_map(entries@));
        while rest.len() > 0
            invariant
                entry_map(rest@).union_prefer_right(table@) == entry_map(entries@),
            decreases rest@.len(),
        {
            let ghost before = rest@;
            let ghost built = table@;
            if let Some((key, value)) = rest.pop() {
                assert(rest@ == before.drop_last());
                if !table.contains_key(key.as_str()) {
                    table.insert(key, value);
                }
                assert(entry_map(rest@).union_prefer_right(table@) =~= entry_map(
                    before,
                ).union_prefer_right(built));
            }
        }
        assert(entry_map(rest@).union_prefer_right(table@) =~= table@);
        table
    }

    /// Drops every key that is not in a list.
    pub fn retain_keys(&mut self, keys: &Vec<String>)
        ensures
            final(self)@ == old(self)@.restrict(text::text_set(keys@)),
    {
        let mut index: usize = 0;
        while index < self.entries.len()
            invariant
                index <= self.entries@.len(),
                forall|i: int|
                    0 <= i < index ==> text::text_set(keys@).contains(
                        (#[trigger] self.entries@[i]).0@,
                    ),
                self@.submap_of(old(self)@),
                old(self)@.restrict(text::text_set(keys@)).submap_of(self@),
            decreases self.entries@.len() - index,
        {
            proof {
                use_type_invariant(&*self);
                lemma_entry_map(self.entries@);
            }
            if list_contains(keys, self.entries[index].0.as_str()) {
                index = index + 1;
            } else {
                let ghost before = self.entries@;
                self.remove_at(index);
                assert forall|i: int| 0 <= i < index implies text::text_set(keys@).contains(
                    (#[trigger] self.entries@[i]).0@,
                ) by {
                    assert(self.entries@[i] == before[i]);
                }
            }
        }
        proof {
            use_type_invariant(&*self);
            lemma_entry_map(self.entries@);
            assert forall|key: Seq<char>| self@.contains_key(key) implies text::text_set(
                keys@,
            ).contains(key) by {
                let i = choose|i: int|
                    0 <= i < self.entries@.len() && (#[trigger] self.entries@[i]).0@ == key;
                assert(text::text_set(keys@).contains(self.entries@[i].0@));
            }
            assert(self@ =~= old(self)@.restrict(text::text_set(keys@)));
        }
    }

    /// The entries of the map, each key once.
    pub fn entries(&self) -> (entries: &Vec<(String, V)>)
        ensures
            distinct_keys(entries@),
            entry_map(entries@) == self@,
    {
        proof {
            use_type_invariant(self);
        }
        &self.entries
    }
}

impl Clone for Table<String> {
    fn clone(&self) -> (copy: Self)
        ensures
            copy@ == self@,
    {
        let mut entries: Vec<(String, String)> = Vec::new();
        let mut index: usize = 0;
        while index < self.entries.len()
            invariant
                index <= self.entries@.len(),
                entries@ == self.entries@.take(index as int),
            decreases self.entries@.len() - index,
        {
            entries.push((self.entries[index].0.clone(), self.entries[index].1.clone()));
            assert(self.entries@.take(index + 1) == self.entries@.take(index as int).push(
                self.entries@[index as int],
            ));
            index = index + 1;
        }
        assert(self.entries@.take(index as int) == self.entries@);
        proof {
            use_type_invariant(self);
        }
        Table { entries }
    }
}

impl Table<String> {
    /// Drops every key whose value is not in a list.
    pub fn retain_values(&mut self, values: &Vec<String>)
        ensures
            final(self)@ == with_values_in(old(self)@, text::text_set(values@)),
    {
        let mut index: usize = 0;
        while index < self.entries.len()
            invariant
                index <= self.entries@.len(),
                forall|i: int|
                    0 <= i < index ==> text::text_set(values@).contains(
                        (#[trigger] self.entries@[i]).1@,
                    ),
                self@.submap_of(old(self)@),
                with_values_in(old(self)@, text::text_set(values@)).submap_of(self@),
            decreases self.entries@.len() - index,
        {
            proof {
                use_type_invariant(&*self);
                lemma_entry_map(self.entries@);
            }
            if list_contains(values, self.entries[index].1.as_str()) {
                index = index + 1;
            } else {
                let ghost before = self.entries@;
                self.remove_at(index);
                assert forall|i: int| 0 <= i < index implies text::text_set(values@).contains(
                    (#[trigger] self.entries@[i]).1@,
                ) by {
                    assert(self.entries@[i] == before[i]);
                }
            }
        }
        proof {
            use_type_invariant(&*self);
            lemma_entry_map(self.entries@);
            assert forall|key: Seq<char>| self@.contains_key(key) implies text::text_set(
                values@,
            ).contains(self@[key]) by {
                let i = choose|i: int|
                    0 <= i < self.entries@.len() && (#[trigger] self.entries@[i]).0@ == key;
                assert(text::text_set(values@).contains(self.entries@[i].1@));
            }
            assert(self@ =~= with_values_in(old(self)@, text::text_set(values@)));
        }
    }
}

/// The part of a map whose values lie in a set.
pub open spec fn with_values_in(
    map: Map<Seq<char>, Seq<char>>,
    values: Set<Seq<char>>,
) -> Map<Seq<char>, Seq<char>> {
    map.restrict(map.dom().filter(|key: Seq<char>| values.contains(map[key])))
}

proof fn lemma_removed<V: View>(entries: Seq<(String, V)>, index: int)
    requires
        distinct_keys(entries),
        0 <= index < entries.len(),
    ensures
        entry_map(entries.remove(index)) == entry_map(entries).remove(entries[index].0@),
{
    let shorter = entries.remove(index);
    let key = entries[index].0@;
    assert(distinct_keys(shorter)) by {
        assert forall|i: int, j: int| 0 <= i < j < shorter.len() implies (#[trigger] shorter[i]).0@
            != (#[trigger] shorter[j]).0@ by {
            let k = if i < index { i } else { i + 1 };
            let l = if j < index { j } else { j + 1 };
            assert(shorter[i] == entries[k] && shorter[j] == entries[l]);
        }
    }
    lemma_entry_map(entries);
    lemma_entry_map(shorter);
    assert forall|other: Seq<char>| has_key(shorter, other) <==> (has_key(entries, other) && other
        != key) by {
        if has_key(shorter, other) {
            let i = choose|i: int| 0 <= i < shorter.len() && (#[trigger] shorter[i]).0@ == other;
            let k = if i < index { i } else { i + 1 };
            assert(shorter[i] == entries[k]);
        }
        if has_key(entries, other) && other != key {
            let k = choose|k: int| 0 <= k < entries.len() && (#[trigger] entries[k]).0@ == other;
            let i = if k < index { k } else { k - 1 };
            assert(shorter[i] == entries[k]);
        }
    }
    assert forall|other: Seq<char>| #[trigger]
        entry_map(shorter).contains_key(other) implies entry_map(shorter)[other] == entry_map(
        entries,
    )[other] by {
        let i = choose|i: int| 0 <= i < shorter.len() && (#[trigger] shorter[i]).0@ == other;
        let k = if i < index { i } else { i + 1 };
        assert(shorter[i] == entries[k]);
    }
    assert(entry_map(shorter) =~= entry_map(entries).remove(key));
}

} // verus!
