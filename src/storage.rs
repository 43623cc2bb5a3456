//! A keyed store of entries.
use vstd::prelude::*;

use crate::entry::{identifier_text, Entry};

verus! {

/// The text of the error for a key that has no entry.
pub open spec fn unknown_key_message(key: Seq<char>) -> Seq<char> {
    "No entry with key "@ + key + " found"@
}

/// Why a keyed operation failed.
#[derive(Debug, Clone)]
pub enum StorageError {
    /// No entry is stored under `key`.
    UnknownKey { key: String },
}

impl StorageError {
    /// A sentence that describes the error.
    pub fn message(&self) -> (r: String)
        ensures
            match self {
                StorageError::UnknownKey { key } => r@ == unknown_key_message(key@),
            },
    {
        match self {
            StorageError::UnknownKey { key } => {
                let mut text = String::from_str("No entry with key ");
                text.append(key.as_str());
                text.append(" found");
                text
            },
        }
    }
}

/// The map that a sequence of key-entry pairs describes: where a key occurs
/// more than once, its last pair wins.
pub open spec fn pairs_map(pairs: Seq<(String, Entry)>) -> Map<Seq<char>, Entry>
    decreases pairs.len(),
{
    if pairs.len() == 0 {
        Map::empty()
    } else {
        pairs_map(pairs.drop_last()).insert(pairs.last().0@, pairs.last().1)
    }
}

/// Entries stored under string keys, at most one per key.
#[derive(Clone)]
pub struct Storage {
    entries: Vec<(String, Entry)>,
    model: Ghost<Map<Seq<char>, Entry>>,
}

impl View for Storage {
    type V = Map<Seq<char>, Entry>;

    closed spec fn view(&self) -> Map<Seq<char>, Entry> {
        self.model@
    }
}

impl Storage {
    /// The pairs held agree with the map: each pair is in the map, each key of
    /// the map has a pair, and no key has two.
    pub closed spec fn wf(&self) -> bool {
        &&& forall|i: int|
            0 <= i < self.entries@.len() ==> {
                &&& self.model@.contains_key(#[trigger] self.entries@[i].0@)
                &&& self.model@[self.entries@[i].0@] == self.entries@[i].1
            }
        &&& forall|k: Seq<char>|
            #[trigger] self.model@.contains_key(k) ==> exists|i: int|
                0 <= i < self.entries@.len() && #[trigger] self.entries@[i].0@ == k
        &&& forall|i: int, j: int|
            0 <= i < self.entries@.len() && 0 <= j < self.entries@.len() && i != j
                ==> #[trigger] self.entries@[i].0@ != #[trigger] self.entries@[j].0@
    }

    /// The position of the pair with key `key`, if there is one.
    fn position(&self, key: &String) -> (r: Option<usize>)
        ensures
            match r {
                Some(i) => i < self.entries@.len() && self.entries@[i as int].0@ == key@,
                None => forall|i: int|
                    0 <= i < self.entries@.len() ==> #[trigger] self.entries@[i].0@ != key@,
            },
    {
        let mut i: usize = 0;
        while i < self.entries.len()
            invariant
                i <= self.entries@.len(),
                forall|j: int| 0 <= j < i ==> #[trigger] self.entries@[j].0@ != key@,
            decreases self.entries@.len() - i,
        {
            if self.entries[i].0 == *key {
                return Some(i);
            }
            i = i + 1;
        }
        None
    }

    /// An empty store.
    pub fn empty() -> (r: Storage)
        ensures
            r.wf(),
            r@ == Map::<Seq<char>, Entry>::empty(),
    {
        Storage { entries: Vec::new(), model: Ghost(Map::empty()) }
    }

    /// The entry stored under `key`, if any.
    pub fn get(&self, key: &str) -> (r: Option<&Entry>)
        requires
            self.wf(),
        ensures
            match r {
                Some(e) => self@.contains_key(key@) && *e == self@[key@],
                None => !self@.contains_key(key@),
            },
    {
        let k = String::from_str(key);
        match self.position(&k) {
            Some(i) => Some(&self.entries[i].1),
            None => None,
        }
    }

    /// Stores `entry` under `key` and hands back the entry it replaced, if any.
    pub fn add(&mut self, key: &str, entry: Entry) -> (r: Option<Entry>)
        requires
            old(self).wf(),
        ensures
            final(self).wf(),
            final(self)@ == old(self)@.insert(key@, entry),
            r == old(self)@.get(key@),
    {
        let k = String::from_str(key);
        let ghost before = self.entries@;
        let replaced = match self.position(&k) {
            Some(i) => {
                let (_, e) = self.entries.remove(i);
                proof {
                    assert forall|j: int| 0 <= j < self.entries@.len() implies
                        #[trigger] self.entries@[j] == before[if j < i { j } else { j + 1 }] by {}
                }
                Some(e)
            },
            None => None,
        };
        let ghost mid = self.entries@;
        self.entries.push((k, entry));
        self.model = Ghost(self.model@.insert(key@, entry));
        proof {
            let n = self.entries@.len() - 1;
            assert(self.entries@[n as int].0@ == key@);
            assert forall|j: int| 0 <= j < n implies #[trigger] self.entries@[j] == mid[j] by {}
            assert forall|kk: Seq<char>| #[trigger] self.model@.contains_key(kk) implies exists|j: int|
                0 <= j < self.entries@.len() && #[trigger] self.entries@[j].0@ == kk by {
                if kk == key@ {
                    assert(self.entries@[n as int].0@ == kk);
                } else {
                    assert(old(self).model@.contains_key(kk));
                    let w = choose|j: int| 0 <= j < before.len() && #[trigger] before[j].0@ == kk;
                    match replaced {
                        Some(_) => {
                            let i = choose|i: int| 0 <= i < before.len() && before[i].0@ == key@;
                            if w < i {
                                assert(self.entries@[w].0@ == kk);
                            } else {
                                assert(w != i);
                                assert(self.entries@[w - 1].0@ == kk);
                            }
                        },
                        None => {
                            assert(self.entries@[w].0@ == kk);
                        },
                    }
                }
            }
        }
        replaced
    }

    /// Wraps `bytes` in a new entry, stores it under `key`, and hands back the
    /// entry it replaced, if any.
    pub fn add_bytes(&mut self, key: &str, bytes: Vec<u8>) -> (r: Option<Entry>)
        requires
            old(self).wf(),
        ensures
            final(self).wf(),
            r == old(self)@.get(key@),
            exists|e: Entry|
                {
                    &&& e@.bytes == bytes@
                    &&& exists|micros: nat| e@.identifier == identifier_text(micros, bytes@.len())
                    &&& final(self)@ == old(self)@.insert(key@, e)
                },
    {
        let ghost content = bytes@;
        let entry = Entry::new(bytes);
        let ghost e = entry;
        let r = self.add(key, entry);
        assert(e@.bytes == content);
        r
    }

    /// Takes the entry stored under `key` out of the store, if there is one.
    pub fn remove(&mut self, key: &str) -> (r: Option<Entry>)
        requires
            old(self).wf(),
        ensures
            final(self).wf(),
            final(self)@ == old(self)@.remove(key@),
            r == old(self)@.get(key@),
    {
        let k = String::from_str(key);
        let ghost before = self.entries@;
        match self.position(&k) {
            Some(i) => {
                let (_, e) = self.entries.remove(i);
                self.model = Ghost(self.model@.remove(key@));
                proof {
                    assert forall|j: int| 0 <= j < self.entries@.len() implies
                        #[trigger] self.entries@[j] == before[if j < i { j } else { j + 1 }] by {}
                    assert forall|kk: Seq<char>| #[trigger] self.model@.contains_key(kk) implies exists|j: int|
                        0 <= j < self.entries@.len() && #[trigger] self.entries@[j].0@ == kk by {
                        assert(old(self).model@.contains_key(kk));
                        let w = choose|j: int| 0 <= j < before.len() && #[trigger] before[j].0@ == kk;
                        if w < i {
                            assert(self.entries@[w].0@ == kk);
                        } else {
                            assert(w != i);
                            assert(self.entries@[w - 1].0@ == kk);
                        }
                    }
                }
                Some(e)
            },
            None => None,
        }
    }

    /// The entry to map for `key`, or the unknown-key error when no entry is
    /// stored under it.
    pub fn map(&self, key: &str) -> (r: Result<&Entry, StorageError>)
        requires
            self.wf(),
        ensures
            match r {
                Ok(e) => self@.contains_key(key@) && *e == self@[key@],
                Err(StorageError::UnknownKey { key: k }) => !self@.contains_key(key@) && k@ == key@,
            },
    {
        match self.get(key) {
            Some(e) => Ok(e),
            None => Err(StorageError::UnknownKey { key: String::from_str(key) }),
        }
    }

    /// The entry to unmap for `key`; `None` when no entry is stored under it,
    /// in which case there is nothing to unmap and unmapping succeeds.
    pub fn unmap(&self, key: &str) -> (r: Option<&Entry>)
        requires
            self.wf(),
        ensures
            match r {
                Some(e) => self@.contains_key(key@) && *e == self@[key@],
                None => !self@.contains_key(key@),
            },
    {
        self.get(key)
    }

    /// The stored pairs, one per key, in no particular order.
    pub fn into_entries(self) -> (r: Vec<(String, Entry)>)
        requires
            self.wf(),
        ensures
            r@.len() == self@.len(),
            forall|i: int|
                0 <= i < r@.len() ==> {
                    &&& self@.contains_key(#[trigger] r@[i].0@)
                    &&& self@[r@[i].0@] == r@[i].1
                },
            forall|k: Seq<char>|
                #[trigger] self@.contains_key(k) ==> exists|i: int| 0 <= i < r@.len() && #[trigger] r@[i].0@ == k,
    {
        proof {
            self.lemma_len();
        }
        self.entries
    }

    /// A store holds as many pairs as its map has keys.
    proof fn lemma_len(&self)
        requires
            self.wf(),
        ensures
            self.entries@.len() == self@.len(),
    {
        let keys = self.entries@.map_values(|p: (String, Entry)| p.0@);
        assert forall|i: int, j: int| 0 <= i < j < keys.len() implies keys[i] != keys[j] by {
            assert(self.entries@[i].0@ != self.entries@[j].0@);
        }
        keys.unique_seq_to_set();
        assert(keys.to_set() =~= self@.dom()) by {
            assert forall|k: Seq<char>| self@.dom().contains(k) implies keys.to_set().contains(k) by {
                let i = choose|i: int| 0 <= i < self.entries@.len() && #[trigger] self.entries@[i].0@ == k;
                assert(keys[i] == k);
            }
            assert forall|k: Seq<char>| keys.to_set().contains(k) implies self@.dom().contains(k) by {
                let i = choose|i: int| 0 <= i < keys.len() && keys[i] == k;
                assert(self.entries@[i].0@ == k);
            }
        }
    }

    /// A store that holds the given pairs; where a key occurs more than once,
    /// its last pair wins.
    pub fn new(entries: Vec<(String, Entry)>) -> (r: Storage)
        ensures
            r.wf(),
            r@ == pairs_map(entries@),
    {
        let ghost all = entries@;
        let total = entries.len();
        let mut rest = entries;
        let mut store = Storage::empty();
        let mut n: usize = 0;
        while rest.len() > 0
            invariant
                store.wf(),
                n <= all.len(),
                all.len() == total,
                rest@ == all.subrange(n as int, all.len() as int),
                store@ == pairs_map(all.subrange(0, n as int)),
            decreases rest@.len(),
        {
            let (k, e) = rest.remove(0);
            proof {
                assert(all.subrange(0, n + 1).drop_last() =~= all.subrange(0, n as int));
            }
            store.add(k.as_str(), e);
            n = n + 1;
            proof {
                assert(rest@ =~= all.subrange(n as int, all.len() as int));
            }
        }
        proof {
            assert(all.subrange(0, n as int) =~= all);
        }
        store
    }
}

impl Default for Storage {
    /// An empty store.
    fn default() -> (r: Storage)
        ensures
            r.wf(),
            r@ == Map::<Seq<char>, Entry>::empty(),
    {
        Storage::empty()
    }
}

} // verus!
