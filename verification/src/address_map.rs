//! A finite map from addresses to small values, one entry per address.

use crate::address::Address;
use vstd::prelude::*;

verus! {

/// One address with the value stored for it.
#[derive(Debug)]
struct Entry<V> {
    key: Address,
    value: V,
}

/// The map that a sequence of entries stands for: each entry stores its value
/// under the text of its key, a later entry replacing an earlier one.
spec fn entries_map<V>(entries: Seq<Entry<V>>) -> Map<Seq<char>, V>
    decreases entries.len(),
{
    if entries.len() == 0 {
        Map::empty()
    } else {
        entries_map(entries.drop_last()).insert(entries.last().key@, entries.last().value)
    }
}

/// No two entries are for the same address.
spec fn distinct_keys<V>(entries: Seq<Entry<V>>) -> bool {
    forall|i: int, j: int|
        0 <= i < j < entries.len() ==> (#[trigger] entries[i]).key@ != (#[trigger] entries[j]).key@
}

/// The addresses of a map are those of its entries.
proof fn lemma_entries_map_domain<V>(entries: Seq<Entry<V>>)
    ensures
        forall|k: Seq<char>|
            entries_map(entries).contains_key(k) <==> exists|i: int|
                0 <= i < entries.len() && (#[trigger] entries[i]).key@ == k,
        entries_map(entries).dom().finite(),
    decreases entries.len(),
{
    if entries.len() > 0 {
        let front = entries.drop_last();
        lemma_entries_map_domain(front);
        assert forall|k: Seq<char>| entries_map(entries).contains_key(k) implies exists|i: int|
            0 <= i < entries.len() && (#[trigger] entries[i]).key@ == k by {
            if k == entries.last().key@ {
                assert(entries[entries.len() - 1].key@ == k);
            } else {
                let i = choose|i: int| 0 <= i < front.len() && (#[trigger] front[i]).key@ == k;
                assert(entries[i].key@ == k);
            }
        }
        assert forall|k: Seq<char>|
            (exists|i: int| 0 <= i < entries.len() && (#[trigger] entries[i]).key@ == k)
            implies entries_map(entries).contains_key(k) by {
            let i = choose|i: int| 0 <= i < entries.len() && (#[trigger] entries[i]).key@ == k;
            if i < entries.len() - 1 {
                assert(front[i].key@ == k);
            }
        }
    }
}

/// With one entry per address, each entry's value is the one the map holds,
/// and the map has as many addresses as there are entries.
proof fn lemma_entries_map_values<V>(entries: Seq<Entry<V>>)
    requires
        distinct_keys(entries),
    ensures
        forall|i: int|
            0 <= i < entries.len() ==> entries_map(entries)[(#[trigger] entries[i]).key@]
                == entries[i].value,
        entries_map(entries).len() == entries.len(),
    decreases entries.len(),
{
    if entries.len() > 0 {
        let front = entries.drop_last();
        let last = entries.last();
        assert(distinct_keys(front));
        lemma_entries_map_values(front);
        lemma_entries_map_domain(front);
        assert(!entries_map(front).contains_key(last.key@));
        assert forall|i: int| 0 <= i < entries.len() implies {
            let entry = #[trigger] entries[i];
            entries_map(entries)[entry.key@] == entry.value
        } by {
            if i < entries.len() - 1 {
                assert(front[i].key@ == entries[i].key@);
            }
        }
    }
}

/// Replacing the value of one entry stores that value under the entry's
/// address and changes nothing else.
proof fn lemma_entries_map_update<V>(entries: Seq<Entry<V>>, at: int, entry: Entry<V>)
    requires
        distinct_keys(entries),
        0 <= at < entries.len(),
        entry.key@ == entries[at].key@,
    ensures
        distinct_keys(entries.update(at, entry)),
        entries_map(entries.update(at, entry)) == entries_map(entries).insert(
            entry.key@,
            entry.value,
        ),
{
    let updated = entries.update(at, entry);
    assert(distinct_keys(updated)) by {
        assert forall|i: int, j: int| 0 <= i < j < updated.len() implies (
        #[trigger] updated[i]).key@ != (#[trigger] updated[j]).key@ by {
            assert(entries[i].key@ != entries[j].key@);
        }
    }
    lemma_entries_map_domain(entries);
    lemma_entries_map_domain(updated);
    lemma_entries_map_values(entries);
    lemma_entries_map_values(updated);
    let want = entries_map(entries).insert(entry.key@, entry.value);
    assert forall|k: Seq<char>|
        entries_map(updated).contains_key(k) <==> want.contains_key(k) by {
        if entries_map(updated).contains_key(k) {
            let i = choose|i: int| 0 <= i < updated.len() && (#[trigger] updated[i]).key@ == k;
            assert(entries[i].key@ == k);
        }
        if want.contains_key(k) {
            if k == entry.key@ {
                assert(updated[at].key@ == k);
            } else {
                let i = choose|i: int| 0 <= i < entries.len() && (#[trigger] entries[i]).key@ == k;
                assert(updated[i].key@ == k);
            }
        }
    }
    assert forall|k: Seq<char>| entries_map(updated).contains_key(k) implies entries_map(updated)[k]
        == want[k] by {
        let i = choose|i: int| 0 <= i < updated.len() && (#[trigger] updated[i]).key@ == k;
        if i != at {
            assert(updated[i] == entries[i]);
        }
    }
    assert(entries_map(updated) =~= want);
}

/// A finite map from addresses to values, holding one value per address.
///
/// Its view is the mathematical map from the text of each address to the
/// value stored for it.
#[derive(Debug)]
pub struct AddressMap<V> {
    entries: Vec<Entry<V>>,
}

impl<V> View for AddressMap<V> {
    type V = Map<Seq<char>, V>;

    closed spec fn view(&self) -> Map<Seq<char>, V> {
        entries_map(self.entries@)
    }
}

impl<V> AddressMap<V> {
    #[verifier::type_invariant]
    spec fn one_entry_per_address(&self) -> bool {
        distinct_keys(self.entries@)
    }
}

impl<V: Copy> AddressMap<V> {
    /// The empty map.
    pub fn new() -> (map: AddressMap<V>)
        ensures
            map@ == Map::<Seq<char>, V>::empty(),
    {
        AddressMap { entries: Vec::new() }
    }

    /// The place of the entry for `key`, if there is one.
    fn position(&self, key: &Address) -> (place: Option<usize>)
        ensures
            match place {
                Some(i) => i < self.entries.len() && self.entries[i as int].key@ == key@,
                None => forall|i: int|
                    0 <= i < self.entries.len() ==> (#[trigger] self.entries[i]).key@ != key@,
            },
    {
        let mut i: usize = 0;
        while i < self.entries.len()
            invariant
                i <= self.entries.len(),
                forall|j: int| 0 <= j < i ==> (#[trigger] self.entries[j]).key@ != key@,
            decreases self.entries.len() - i,
        {
            if self.entries[i].key == *key {
                return Some(i);
            }
            i += 1;
        }
        None
    }

    /// The number of addresses that have a value.
    pub fn len(&self) -> (count: usize)
        ensures
            self@.dom().finite(),
            count == self@.len(),
    {
        proof {
            use_type_invariant(self);
            lemma_entries_map_domain(self.entries@);
            lemma_entries_map_values(self.entries@);
        }
        self.entries.len()
    }

    /// Whether no address has a value.
    pub fn is_empty(&self) -> (empty: bool)
        ensures
            empty == (self@ == Map::<Seq<char>, V>::empty()),
    {
        proof {
            lemma_entries_map_domain(self.entries@);
            if self.entries.len() > 0 {
                let first = self.entries@[0];
                assert(self@.contains_key(first.key@));
            }
        }
        self.entries.len() == 0
    }

    /// Whether `key` has a value.
    pub fn contains_key(&self, key: Address) -> (present: bool)
        ensures
            present == self@.contains_key(key@),
    {
        proof {
            lemma_entries_map_domain(self.entries@);
        }
        self.position(&key).is_some()
    }

    /// The value stored for `key`, if there is one.
    pub fn get(&self, key: Address) -> (value: Option<V>)
        ensures
            value == if self@.contains_key(key@) {
                Some(self@[key@])
            } else {
                None
            },
    {
        proof {
            use_type_invariant(self);
            lemma_entries_map_domain(self.entries@);
            lemma_entries_map_values(self.entries@);
        }
        match self.position(&key) {
            Some(i) => Some(self.entries[i].value),
            None => None,
        }
    }

    /// Stores `value` for `key`, replacing the value that `key` had, and
    /// leaves every other address as it was.
    pub fn set(&mut self, key: Address, value: V)
        ensures
            final(self)@ == old(self)@.insert(key@, value),
    {
        proof {
            use_type_invariant(&*self);
            lemma_entries_map_domain(self.entries@);
        }
        let place = self.position(&key);
        let mut entries: Vec<Entry<V>> = Vec::new();
        core::mem::swap(&mut self.entries, &mut entries);
        match place {
            Some(i) => {
                proof {
                    let replaced = Entry { key: entries@[i as int].key, value };
                    lemma_entries_map_update(entries@, i as int, replaced);
                }
                entries[i].value = value;
            },
            None => {
                proof {
                    let grown = entries@.push(Entry { key, value });
                    assert(grown.drop_last() =~= entries@);
                    assert(distinct_keys(grown)) by {
                        assert forall|i: int, j: int| 0 <= i < j < grown.len() implies (
                        #[trigger] grown[i]).key@ != (#[trigger] grown[j]).key@ by {
                            if j < grown.len() - 1 {
                                assert(entries@[i].key@ != entries@[j].key@);
                            } else {
                                assert(entries@[i].key@ != key@);
                            }
                        }
                    }
                }
                entries.push(Entry { key, value });
            },
        }
        self.entries = entries;
    }

    /// The addresses that have a value, each once.
    pub fn keys(&self) -> (keys: Vec<Address>)
        ensures
            keys.len() == self@.len(),
            forall|i: int| 0 <= i < keys.len() ==> self@.contains_key((#[trigger] keys[i])@),
            forall|i: int, j: int|
                0 <= i < j < keys.len() ==> (#[trigger] keys[i])@ != (#[trigger] keys[j])@,
            forall|k: Seq<char>|
                self@.contains_key(k) ==> exists|i: int|
                    0 <= i < keys.len() && (#[trigger] keys[i])@ == k,
    {
        proof {
            use_type_invariant(self);
            lemma_entries_map_domain(self.entries@);
            lemma_entries_map_values(self.entries@);
        }
        let mut keys: Vec<Address> = Vec::new();
        let mut i: usize = 0;
        while i < self.entries.len()
            invariant
                i <= self.entries.len(),
                keys.len() == i,
                forall|j: int| 0 <= j < i ==> (#[trigger] keys[j])@ == self.entries[j].key@,
            decreases self.entries.len() - i,
        {
            keys.push(self.entries[i].key.clone());
            i += 1;
        }
        proof {
            assert forall|k: Seq<char>| self@.contains_key(k) implies exists|i: int|
                0 <= i < keys.len() && (#[trigger] keys[i])@ == k by {
                let i = choose|i: int|
                    0 <= i < self.entries.len() && (#[trigger] self.entries[i]).key@ == k;
                assert(keys[i]@ == k);
            }
            assert forall|i: int, j: int| 0 <= i < j < keys.len() implies (#[trigger] keys[i])@
                != (#[trigger] keys[j])@ by {
                assert(self.entries[i].key@ != self.entries[j].key@);
            }
            assert forall|i: int| 0 <= i < keys.len() implies self@.contains_key(
                (#[trigger] keys[i])@,
            ) by {
                assert(self.entries[i].key@ == keys[i]@);
            }
        }
        keys
    }
}

impl<V: Copy> Clone for AddressMap<V> {
    fn clone(&self) -> (copy: AddressMap<V>)
        ensures
            copy@ == self@,
    {
        proof {
            use_type_invariant(self);
        }
        let mut entries: Vec<Entry<V>> = Vec::new();
        let mut i: usize = 0;
        while i < self.entries.len()
            invariant
                i <= self.entries.len(),
                entries@ == self.entries@.subrange(0, i as int),
            decreases self.entries.len() - i,
        {
            let entry = Entry { key: self.entries[i].key.clone(), value: self.entries[i].value };
            entries.push(entry);
            proof {
                assert(entries@ =~= self.entries@.subrange(0, i + 1));
            }
            i += 1;
        }
        proof {
            assert(entries@ =~= self.entries@);
        }
        AddressMap { entries }
    }
}

} // verus!
