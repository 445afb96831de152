//! A map from texts to values that keeps its keys in the order in which they first came.

use crate::text::same_text;
use vstd::prelude::*;

verus! {

/// A map from texts to values.
#[derive(Debug)]
pub struct TextMap<V> {
    entries: Vec<(String, V)>,
}

/// The place of the first entry, from `index` on, that has this key; the length where none has.
spec fn place_of<V>(entries: Seq<(String, V)>, key: Seq<char>, index: int) -> int
    decreases entries.len() - index,
{
    if index < 0 || index >= entries.len() {
        entries.len() as int
    } else if entries[index].0@ == key {
        index
    } else {
        place_of(entries, key, index + 1)
    }
}

proof fn place_of_is_first<V>(entries: Seq<(String, V)>, key: Seq<char>, index: int)
    requires
        0 <= index <= entries.len(),
    ensures
        index <= place_of(entries, key, index) <= entries.len(),
        place_of(entries, key, index) < entries.len() ==> entries[place_of(
            entries,
            key,
            index,
        )].0@ == key,
        forall|earlier: int|
            index <= earlier < place_of(entries, key, index) ==> (
            #[trigger] entries[earlier]).0@ != key,
    decreases entries.len() - index,
{
    if index < entries.len() && entries[index].0@ != key {
        place_of_is_first(entries, key, index + 1);
    }
}

proof fn place_after_removal<V>(entries: Seq<(String, V)>, removed: int, key: Seq<char>)
    requires
        0 <= removed < entries.len(),
        keys_differ(entries),
    ensures
        ({
            let before = place_of(entries, key, 0);
            let after = place_of(entries.remove(removed), key, 0);
            &&& before < removed ==> after == before
            &&& before == removed ==> after == entries.len() - 1
            &&& before > removed ==> after == before - 1
        }),
{
    let shorter = entries.remove(removed);
    place_of_is_first(entries, key, 0);
    place_of_is_first(shorter, key, 0);
    let before = place_of(entries, key, 0);
    let after = place_of(shorter, key, 0);
    if after < shorter.len() {
        assert(shorter[after] == if after < removed {
            entries[after]
        } else {
            entries[after + 1]
        });
    }
    if before < entries.len() {
        if before < removed {
            assert(shorter[before] == entries[before]);
        } else if before > removed {
            assert(shorter[before - 1] == entries[before]);
            if after < before - 1 {
                assert(entries[if after < removed {
                    after
                } else {
                    after + 1
                }].0@ == key);
            }
        }
    }
}

spec fn keys_differ<V>(entries: Seq<(String, V)>) -> bool {
    forall|left: int, right: int|
        0 <= left < right < entries.len() ==> (#[trigger] entries[left]).0@ != (
        #[trigger] entries[right]).0@
}

impl<V> TextMap<V> {
    #[verifier::type_invariant]
    spec fn keys_are_unique(&self) -> bool {
        keys_differ(self.entries@)
    }

    /// What the map holds.
    pub closed spec fn content(&self) -> Map<Seq<char>, V> {
        Map::new(
            |key: Seq<char>| place_of(self.entries@, key, 0) < self.entries@.len(),
            |key: Seq<char>| self.entries@[place_of(self.entries@, key, 0)].1,
        )
    }

    /// The keys, in the order in which they first came.
    pub closed spec fn order(&self) -> Seq<Seq<char>> {
        self.entries@.map_values(|entry: (String, V)| entry.0@)
    }

    /// The empty map.
    pub fn new() -> (map: TextMap<V>)
        ensures
            map@ == Map::<Seq<char>, V>::empty(),
            map.order().len() == 0,
    {
        let map = TextMap { entries: Vec::new() };
        proof {
            assert(map@ =~= Map::<Seq<char>, V>::empty());
        }
        map
    }

    /// How many keys the map holds. It lists each of them once.
    pub fn len(&self) -> (count: usize)
        ensures
            count == self.order().len(),
            count == self@.len(),
            self@.dom().finite(),
            self.order().no_duplicates(),
            forall|key: Seq<char>| self@.dom().contains(key) <==> self.order().contains(key),
    {
        proof {
            use_type_invariant(self);
            let order = self.order();
            assert(order.no_duplicates());
            assert forall|key: Seq<char>| self@.dom().contains(key) <==> order.contains(key) by {
                place_of_is_first(self.entries@, key, 0);
                let place = place_of(self.entries@, key, 0);
                if place < self.entries@.len() {
                    assert(order[place] == key);
                }
                if order.contains(key) {
                    let found = choose|found: int|
                        0 <= found < order.len() && order[found] == key;
                    assert(self.entries@[found].0@ == key);
                }
            }
            order.unique_seq_to_set();
            assert(self@.dom() =~= order.to_set());
        }
        self.entries.len()
    }

    /// The key and the value at a place.
    pub fn entry(&self, index: usize) -> (entry: (&str, &V))
        requires
            index < self.order().len(),
        ensures
            entry.0@ == self.order()[index as int],
            self@.dom().contains(entry.0@),
            self@[entry.0@] == *entry.1,
    {
        let found = &self.entries[index];
        proof {
            use_type_invariant(self);
            place_of_is_first(self.entries@, found.0@, 0);
        }
        (found.0.as_str(), &found.1)
    }

    /// The value that a key has.
    pub fn get(&self, key: &str) -> (value: Option<&V>)
        ensures
            match value {
                Some(found) => self@.dom().contains(key@) && self@[key@] == *found,
                None => !self@.dom().contains(key@),
            },
    {
        let mut index: usize = 0;
        while index < self.entries.len()
            invariant
                index <= self.entries.len(),
                place_of(self.entries@, key@, 0) == place_of(self.entries@, key@, index as int),
            decreases self.entries.len() - index,
        {
            if same_text(self.entries[index].0.as_str(), key) {
                return Some(&self.entries[index].1);
            }
            index = index + 1;
        }
        None
    }

    /// Whether a key has a value.
    pub fn holds(&self, key: &str) -> (found: bool)
        ensures
            found == self@.dom().contains(key@),
    {
        self.get(key).is_some()
    }

    /// Gives a key a value, in place of the one that it had.
    pub fn insert(&mut self, key: String, value: V)
        ensures
            final(self)@ == old(self)@.insert(key@, value),
            final(self).order() == (if old(self)@.dom().contains(key@) {
                old(self).order()
            } else {
                old(self).order().push(key@)
            }),
    {
        proof {
            use_type_invariant(&*self);
        }
        let ghost before = self.entries@;
        let mut entries: Vec<(String, V)> = Vec::new();
        core::mem::swap(&mut entries, &mut self.entries);
        let mut index: usize = 0;
        while index < entries.len() && !same_text(entries[index].0.as_str(), key.as_str())
            invariant
                index <= entries.len(),
                entries@ == before,
                place_of(before, key@, 0) == place_of(before, key@, index as int),
            decreases entries.len() - index,
        {
            index = index + 1;
        }
        let ghost shown = key@;
        if index < entries.len() {
            entries[index].1 = value;
        } else {
            entries.push((key, value));
        }
        let ghost after = entries@;
        proof {
            place_of_is_first(before, shown, 0);
            assert(keys_differ(after));
            assert forall|other: Seq<char>| true implies #[trigger] place_of(after, other, 0)
                == if place_of(before, other, 0) == before.len() && other == shown {
                index as int
            } else if place_of(before, other, 0) == before.len() {
                after.len() as int
            } else {
                place_of(before, other, 0)
            } by {
                place_of_is_first(before, other, 0);
                place_of_is_first(after, other, 0);
                let old_place = place_of(before, other, 0);
                let new_place = place_of(after, other, 0);
                if old_place < before.len() {
                    assert(after[old_place].0@ == other);
                }
                if new_place < before.len() {
                    assert(before[new_place].0@ == other);
                }
                if other == shown {
                    assert(after[index as int].0@ == other);
                }
            }
        }
        self.entries = entries;
        proof {
            place_of_is_first(after, shown, 0);
            assert(self@.dom() =~= old(self)@.insert(shown, value).dom()) by {
                assert forall|other: Seq<char>|
                    self@.dom().contains(other) == old(self)@.insert(shown, value).dom().contains(
                        other,
                    ) by {
                    place_of_is_first(before, other, 0);
                }
            }
            assert forall|other: Seq<char>| self@.dom().contains(other) implies self@[other]
                == old(self)@.insert(shown, value)[other] by {
                place_of_is_first(before, other, 0);
            }
            assert(self@ =~= old(self)@.insert(shown, value));
            assert(self.order() =~= (if old(self)@.dom().contains(shown) {
                old(self).order()
            } else {
                old(self).order().push(shown)
            }));
        }
    }

    /// Takes a key out of the map, with the value that it had.
    pub fn remove(&mut self, key: &str) -> (removed: Option<V>)
        ensures
            final(self)@ == old(self)@.remove(key@),
            match removed {
                Some(value) => old(self)@.dom().contains(key@) && old(self)@[key@] == value,
                None => !old(self)@.dom().contains(key@),
            },
            final(self).order() == old(self).order().remove_value(key@),
    {
        proof {
            use_type_invariant(&*self);
            old(self).order().index_of_first_ensures(key@);
        }
        let ghost before = self.entries@;
        let mut entries: Vec<(String, V)> = Vec::new();
        core::mem::swap(&mut entries, &mut self.entries);
        let mut index: usize = 0;
        while index < entries.len() && !same_text(entries[index].0.as_str(), key)
            invariant
                index <= entries.len(),
                entries@ == before,
                place_of(before, key@, 0) == place_of(before, key@, index as int),
            decreases entries.len() - index,
        {
            index = index + 1;
        }
        proof {
            place_of_is_first(before, key@, 0);
        }
        if index == entries.len() {
            self.entries = entries;
            proof {
                assert(self@ =~= old(self)@.remove(key@));
                assert(!old(self).order().contains(key@));
            }
            return None;
        }
        let removed = entries.remove(index);
        let ghost after = entries@;
        proof {
            assert(after =~= before.remove(index as int));
            assert(keys_differ(after));
        }
        self.entries = entries;
        proof {
            assert forall|other: Seq<char>| #[trigger]
                self@.dom().contains(other) == old(self)@.remove(key@).dom().contains(other) by {
                place_of_is_first(before, other, 0);
                place_of_is_first(after, other, 0);
                place_after_removal(before, index as int, other);
            }
            assert(self@.dom() =~= old(self)@.remove(key@).dom());
            assert forall|other: Seq<char>| #[trigger]
                self@.dom().contains(other) implies self@[other] == old(self)@.remove(
                key@,
            )[other] by {
                place_of_is_first(before, other, 0);
                place_of_is_first(after, other, 0);
                place_after_removal(before, index as int, other);
            }
            assert(self@ =~= old(self)@.remove(key@));
            assert(old(self).order()[index as int] == key@);
            assert(self.order() =~= old(self).order().remove(index as int));
        }
        Some(removed.1)
    }
}

impl<V> View for TextMap<V> {
    type V = Map<Seq<char>, V>;

    open spec fn view(&self) -> Map<Seq<char>, V> {
        self.content()
    }
}

} // verus!
