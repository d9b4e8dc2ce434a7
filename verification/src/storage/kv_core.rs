//! The key-value core that the front ends keep connection state in: a map
//! from byte keys to byte values in which a write replaces what the key held.

use crate::errors::ImmuxResult;
use crate::storage::kv::KeyValueEngine;
use vstd::prelude::*;
use vstd::slice::slice_to_vec;

verus! {

/// Compares two byte strings.
pub fn bytes_equal(a: &[u8], b: &[u8]) -> (res: bool)
    ensures
        res == (a@ == b@),
{
    if a.len() != b.len() {
        return false;
    }
    let mut i: usize = 0;
    while i < a.len()
        invariant
            a@.len() == b@.len(),
            i <= a@.len(),
            forall|k: int| 0 <= k < i ==> a@[k] == b@[k],
        decreases a@.len() - i,
    {
        if a[i] != b[i] {
            return false;
        }
        i = i + 1;
    }
    assert(a@ =~= b@);
    true
}

pub struct ImmuxDBCore {
    engine_choice: KeyValueEngine,
    data_root: String,
    chain_name: Vec<u8>,
    entries: Vec<(Vec<u8>, Vec<u8>)>,
}

/// The key of entry `i`.
pub open spec fn entry_key(entries: Seq<(Vec<u8>, Vec<u8>)>, i: int) -> Seq<u8> {
    entries[i].0@
}

/// No key occurs twice among `entries`.
pub open spec fn keys_distinct(entries: Seq<(Vec<u8>, Vec<u8>)>) -> bool {
    forall|i: int, j: int|
        0 <= i < entries.len() && 0 <= j < entries.len() && i != j ==> entry_key(entries, i)
            != entry_key(entries, j)
}

/// The map that an association list without repeated keys stands for.
pub open spec fn entries_map(entries: Seq<(Vec<u8>, Vec<u8>)>) -> Map<Seq<u8>, Seq<u8>> {
    Map::new(
        |k: Seq<u8>| exists|i: int| 0 <= i < entries.len() && entry_key(entries, i) == k,
        |k: Seq<u8>|
            entries[choose|i: int| 0 <= i < entries.len() && entry_key(entries, i) == k].1@,
    )
}

proof fn lemma_entries_map_at(entries: Seq<(Vec<u8>, Vec<u8>)>, i: int)
    requires
        keys_distinct(entries),
        0 <= i < entries.len(),
    ensures
        entries_map(entries).contains_key(entry_key(entries, i)),
        entries_map(entries)[entry_key(entries, i)] == entries[i].1@,
{
    let k = entry_key(entries, i);
    assert(exists|j: int| 0 <= j < entries.len() && entry_key(entries, j) == k);
    let c = choose|j: int| 0 <= j < entries.len() && entry_key(entries, j) == k;
    assert(c == i);
}

impl View for ImmuxDBCore {
    type V = Map<Seq<u8>, Seq<u8>>;

    closed spec fn view(&self) -> Map<Seq<u8>, Seq<u8>> {
        entries_map(self.entries@)
    }
}

impl ImmuxDBCore {
    #[verifier::type_invariant]
    closed spec fn keys_are_distinct(&self) -> bool {
        keys_distinct(self.entries@)
    }

    /// The storage engine the core was opened with.
    pub closed spec fn engine_choice_view(&self) -> KeyValueEngine {
        self.engine_choice
    }

    /// The directory the core was opened on.
    pub closed spec fn data_root_view(&self) -> Seq<char> {
        self.data_root@
    }

    /// The chain the core works on.
    pub closed spec fn chain_name_view(&self) -> Seq<u8> {
        self.chain_name@
    }

    /// A core with nothing stored, opened with `engine_choice` on `data_root`,
    /// working on the chain `chain_name`.
    pub fn new(engine_choice: &KeyValueEngine, data_root: &str, chain_name: &[u8]) -> (res:
        ImmuxResult<ImmuxDBCore>)
        ensures
            res matches Ok(core) && core@ == Map::<Seq<u8>, Seq<u8>>::empty()
                && core.engine_choice_view() == *engine_choice && core.data_root_view()
                == data_root@ && core.chain_name_view() == chain_name@,
    {
        let core = ImmuxDBCore {
            engine_choice: *engine_choice,
            data_root: data_root.to_owned(),
            chain_name: slice_to_vec(chain_name),
            entries: Vec::new(),
        };
        assert(core@ =~= Map::<Seq<u8>, Seq<u8>>::empty());
        Ok(core)
    }

    /// Stores `value` under `key`, replacing what the key held.
    pub fn set(&mut self, key: &[u8], value: &[u8])
        ensures
            final(self)@ == old(self)@.insert(key@, value@),
            final(self).engine_choice_view() == old(self).engine_choice_view(),
            final(self).data_root_view() == old(self).data_root_view(),
            final(self).chain_name_view() == old(self).chain_name_view(),
    {
        proof {
            use_type_invariant(&*self);
        }
        let mut entries: Vec<(Vec<u8>, Vec<u8>)> = Vec::new();
        std::mem::swap(&mut entries, &mut self.entries);
        let ghost old_entries = entries@;
        let mut i: usize = 0;
        while i < entries.len()
            invariant
                entries@ == old_entries,
                old(self)@ == entries_map(old_entries),
                self.engine_choice == old(self).engine_choice,
                self.data_root == old(self).data_root,
                self.chain_name == old(self).chain_name,
                keys_distinct(old_entries),
                i <= entries@.len(),
                forall|j: int| 0 <= j < i ==> entry_key(old_entries, j) != key@,
            decreases entries@.len() - i,
        {
            if bytes_equal(&entries[i].0, key) {
                let new_key = slice_to_vec(key);
                let new_value = slice_to_vec(value);
                entries.set(i, (new_key, new_value));
                proof {
                    assert(entry_key(old_entries, i as int) == key@);
                    assert(entry_key(entries@, i as int) == key@);
                    assert(entries@[i as int].1@ == value@);
                    assert(keys_distinct(entries@)) by {
                        assert forall|a: int, b: int|
                            0 <= a < entries@.len() && 0 <= b < entries@.len() && a != b implies
                            entry_key(entries@, a) != entry_key(entries@, b) by {
                            if a != i && b != i {
                                assert(entry_key(entries@, a) == entry_key(old_entries, a));
                                assert(entry_key(entries@, b) == entry_key(old_entries, b));
                            } else if a == i {
                                assert(entry_key(entries@, b) == entry_key(old_entries, b));
                            } else {
                                assert(entry_key(entries@, a) == entry_key(old_entries, a));
                            }
                        }
                    }
                    assert(entries_map(entries@) =~= entries_map(old_entries).insert(key@, value@))
                        by {
                        lemma_entries_map_at(entries@, i as int);
                        assert forall|k: Seq<u8>|
                            #![trigger entries_map(entries@).contains_key(k)]
                            entries_map(old_entries).insert(key@, value@).contains_key(k)
                                implies entries_map(entries@).contains_key(k)
                            && entries_map(entries@)[k] == entries_map(old_entries).insert(
                                key@,
                                value@,
                            )[k] by {
                            if k != key@ {
                                let j = choose|j: int|
                                    0 <= j < old_entries.len() && entry_key(old_entries, j) == k;
                                lemma_entries_map_at(old_entries, j);
                                assert(entry_key(entries@, j) == k);
                                lemma_entries_map_at(entries@, j);
                            }
                        }
                        assert forall|k: Seq<u8>|
                            #![trigger entries_map(entries@).contains_key(k)]
                            entries_map(entries@).contains_key(k) implies entries_map(
                                old_entries,
                            ).insert(key@, value@).contains_key(k) by {
                            let j = choose|j: int|
                                0 <= j < entries@.len() && entry_key(entries@, j) == k;
                            if j != i {
                                assert(entry_key(old_entries, j) == k);
                            }
                        }
                    }
                }
                self.entries = entries;
                return;
            }
            i = i + 1;
        }
        let new_key = slice_to_vec(key);
        let new_value = slice_to_vec(value);
        entries.push((new_key, new_value));
        proof {
            assert(entry_key(entries@, old_entries.len() as int) == key@);
            assert(entries@[old_entries.len() as int].1@ == value@);
            let n = old_entries.len() as int;
            assert(keys_distinct(entries@)) by {
                assert forall|a: int, b: int|
                    0 <= a < entries@.len() && 0 <= b < entries@.len() && a != b implies entry_key(
                    entries@,
                    a,
                ) != entry_key(entries@, b) by {
                    if a < n && b < n {
                        assert(entry_key(entries@, a) == entry_key(old_entries, a));
                        assert(entry_key(entries@, b) == entry_key(old_entries, b));
                    } else if a == n {
                        assert(entry_key(entries@, b) == entry_key(old_entries, b));
                    } else {
                        assert(entry_key(entries@, a) == entry_key(old_entries, a));
                    }
                }
            }
            assert(entries_map(entries@) =~= entries_map(old_entries).insert(key@, value@)) by {
                lemma_entries_map_at(entries@, n);
                assert forall|k: Seq<u8>|
                    #![trigger entries_map(entries@).contains_key(k)]
                    entries_map(old_entries).insert(key@, value@).contains_key(k) implies entries_map(
                    entries@,
                ).contains_key(k) && entries_map(entries@)[k] == entries_map(old_entries).insert(
                    key@,
                    value@,
                )[k] by {
                    if k != key@ {
                        let j = choose|j: int|
                            0 <= j < old_entries.len() && entry_key(old_entries, j) == k;
                        lemma_entries_map_at(old_entries, j);
                        assert(entry_key(entries@, j) == k);
                        lemma_entries_map_at(entries@, j);
                    }
                }
                assert forall|k: Seq<u8>|
                    #![trigger entries_map(entries@).contains_key(k)]
                    entries_map(entries@).contains_key(k) implies entries_map(old_entries).insert(
                    key@,
                    value@,
                ).contains_key(k) by {
                    let j = choose|j: int| 0 <= j < entries@.len() && entry_key(entries@, j) == k;
                    if j != n {
                        assert(entry_key(old_entries, j) == k);
                    }
                }
            }
        }
        self.entries = entries;
    }

    /// The value stored under `key`, if any.
    pub fn get(&self, key: &[u8]) -> (res: Option<Vec<u8>>)
        ensures
            res is Some <==> self@.contains_key(key@),
            res matches Some(v) ==> v@ == self@[key@],
    {
        proof {
            use_type_invariant(self);
        }
        let mut i: usize = 0;
        while i < self.entries.len()
            invariant
                keys_distinct(self.entries@),
                i <= self.entries@.len(),
                forall|j: int| 0 <= j < i ==> entry_key(self.entries@, j) != key@,
            decreases self.entries@.len() - i,
        {
            if bytes_equal(&self.entries[i].0, key) {
                proof {
                    lemma_entries_map_at(self.entries@, i as int);
                }
                return Some(slice_to_vec(&self.entries[i].1));
            }
            i = i + 1;
        }
        None
    }
}

/// Reading a key after writing it gives what was written, and a write
/// leaves every other key as it was.
pub proof fn lemma_read_after_write(
    m: Map<Seq<u8>, Seq<u8>>,
    key: Seq<u8>,
    value: Seq<u8>,
    other: Seq<u8>,
)
    ensures
        m.insert(key, value).contains_key(key),
        m.insert(key, value)[key] == value,
        other != key ==> m.insert(key, value).contains_key(other) == m.contains_key(other),
        other != key && m.contains_key(other) ==> m.insert(key, value)[other] == m[other],
{
}

} // verus!
