//! The records a node holds locally.

use crate::address::{AddressView, NetworkAddress, RecordKey};
use crate::bytes::{slice_eq, slice_to_vec};
use vstd::prelude::*;

verus! {

/// How a stored value is interpreted. Only chunks take part in storage
/// challenges.
#[derive(Clone, Copy, Debug, PartialEq, Eq, Hash)]
pub enum RecordType {
    Chunk,
    Register,
    Scratchpad,
}

impl RecordType {
    /// Whether this is the chunk type.
    pub fn is_chunk(&self) -> (chunk: bool)
        ensures
            chunk == (*self == RecordType::Chunk),
    {
        match self {
            RecordType::Chunk => true,
            _ => false,
        }
    }
}

/// A stored record.
#[derive(Debug, PartialEq, Eq)]
pub struct Record {
    pub key: RecordKey,
    pub value: Vec<u8>,
    pub record_type: RecordType,
}

/// What a record is, mathematically.
pub struct RecordView {
    pub key: Seq<u8>,
    pub value: Seq<u8>,
    pub record_type: RecordType,
}

impl View for Record {
    type V = RecordView;

    open spec fn view(&self) -> RecordView {
        RecordView { key: self.key@, value: self.value@, record_type: self.record_type }
    }
}

impl Clone for Record {
    fn clone(&self) -> (copy: Self)
        ensures
            copy@ == self@,
    {
        Record {
            key: slice_to_vec(self.key.as_slice()),
            value: slice_to_vec(self.value.as_slice()),
            record_type: self.record_type,
        }
    }
}

/// The address under which a record key is found in the key space.
pub open spec fn record_address(key: Seq<u8>) -> AddressView {
    AddressView { peer: false, bytes: key }
}

/// The node's own records, at most one under each key.
pub struct LocalStore {
    records: Vec<Record>,
}

impl View for LocalStore {
    type V = Map<Seq<u8>, RecordView>;

    closed spec fn view(&self) -> Map<Seq<u8>, RecordView> {
        Map::new(
            |key: Seq<u8>| self.holds(key),
            |key: Seq<u8>| self.records@[self.index_of(key)]@,
        )
    }
}

impl LocalStore {
    #[verifier::type_invariant]
    spec fn keys_distinct(self) -> bool {
        forall|i: int, j: int|
            0 <= i < j < self.records@.len() ==> self.records@[i].key@ != self.records@[j].key@
    }

    spec fn holds(self, key: Seq<u8>) -> bool {
        exists|i: int| 0 <= i < self.records@.len() && #[trigger] self.records@[i].key@ == key
    }

    spec fn index_of(self, key: Seq<u8>) -> int {
        choose|i: int| 0 <= i < self.records@.len() && #[trigger] self.records@[i].key@ == key
    }

    /// With distinct keys, the record at position `i` is the one the view
    /// holds under its key.
    proof fn lemma_view_at(self, i: int)
        requires
            self.keys_distinct(),
            0 <= i < self.records@.len(),
        ensures
            self@.contains_key(self.records@[i].key@),
            self@[self.records@[i].key@] == self.records@[i]@,
    {
        let key = self.records@[i].key@;
        assert(self.holds(key));
        let j = self.index_of(key);
        assert(j == i);
    }

    /// A store without records.
    pub fn new() -> (store: LocalStore)
        ensures
            store@ == Map::<Seq<u8>, RecordView>::empty(),
    {
        let store = LocalStore { records: Vec::new() };
        assert(store@ =~= Map::<Seq<u8>, RecordView>::empty());
        store
    }

    /// Number of records held.
    pub fn len(&self) -> (n: usize)
        ensures
            n == self@.dom().len(),
            self@.dom().finite(),
    {
        proof {
            use_type_invariant(self);
            self.lemma_dom_len();
        }
        self.records.len()
    }

    /// The domain of the view has as many keys as there are records.
    proof fn lemma_dom_len(self)
        requires
            self.keys_distinct(),
        ensures
            self@.dom().finite(),
            self@.dom().len() == self.records@.len(),
    {
        let keys = self.records@.map_values(|r: Record| r.key@);
        assert(keys.no_duplicates());
        assert forall|k: Seq<u8>| keys.to_set().contains(k) == self@.dom().contains(k) by {
            if keys.to_set().contains(k) {
                let i = choose|i: int| 0 <= i < keys.len() && keys[i] == k;
                assert(self.records@[i].key@ == k);
            }
            if self@.dom().contains(k) {
                let i = self.index_of(k);
                assert(keys[i] == k);
            }
        }
        assert(keys.to_set() =~= self@.dom());
        keys.unique_seq_to_set();
    }

    /// Stores `record`, replacing the record held under the same key if
    /// there is one.
    pub fn insert(&mut self, record: Record)
        ensures
            final(self)@ == old(self)@.insert(record.key@, record@),
    {
        proof {
            use_type_invariant(&*self);
        }
        let ghost before = *self;
        let ghost new_view = record@;
        let mut taken = LocalStore { records: Vec::new() };
        core::mem::swap(self, &mut taken);
        let mut records = taken.records;
        let mut i: usize = 0;
        let mut found: Option<usize> = None;
        while i < records.len()
            invariant_except_break
                i <= records@.len(),
                found is None,
                forall|j: int| 0 <= j < i ==> records@[j].key@ != record.key@,
            invariant
                records == before.records,
            ensures
                records == before.records,
                match found {
                    Some(at) => at < records@.len() && records@[at as int].key@ == record.key@,
                    None => forall|j: int| 0 <= j < records@.len() ==> records@[j].key@ != record.key@,
                },
            decreases records@.len() - i,
        {
            if slice_eq(records[i].key.as_slice(), record.key.as_slice()) {
                found = Some(i);
                break;
            }
            i = i + 1;
        }
        match found {
            Some(at) => {
                records[at] = record;
            },
            None => {
                records.push(record);
            },
        }
        let after = LocalStore { records };
        proof {
            let n = before.records@.len() as int;
            assert forall|k: Seq<u8>| after@.dom().contains(k) == before@.insert(
                new_view.key,
                new_view,
            ).dom().contains(k) by {
                if after.holds(k) {
                    let j = after.index_of(k);
                    if j < n && k != new_view.key {
                        assert(before.records@[j].key@ == k);
                    }
                }
                if before.holds(k) {
                    let j = before.index_of(k);
                    assert(after.records@[j].key@ == k);
                }
                if k == new_view.key {
                    match found {
                        Some(at) => {
                            assert(after.records@[at as int].key@ == k);
                        },
                        None => {
                            assert(after.records@[n].key@ == k);
                        },
                    }
                }
            }
            assert forall|k: Seq<u8>| after@.dom().contains(k) implies after@[k] == before@.insert(
                new_view.key,
                new_view,
            )[k] by {
                let j = after.index_of(k);
                after.lemma_view_at(j);
                if k != new_view.key {
                    before.lemma_view_at(j);
                }
            }
            assert(after@ =~= before@.insert(new_view.key, new_view));
        }
        *self = after;
    }

    /// The record held under `key`, if there is one.
    pub fn get_local(&self, key: &[u8]) -> (found: Option<&Record>)
        ensures
            found is Some == self@.contains_key(key@),
            found is Some ==> found->0@ == self@[key@] && found->0.key@ == key@,
    {
        proof {
            use_type_invariant(self);
        }
        let mut i: usize = 0;
        while i < self.records.len()
            invariant
                self.keys_distinct(),
                i <= self.records@.len(),
                forall|j: int| 0 <= j < i ==> self.records@[j].key@ != key@,
            decreases self.records@.len() - i,
        {
            if slice_eq(self.records[i].key.as_slice(), key) {
                proof {
                    self.lemma_view_at(i as int);
                }
                return Some(&self.records[i]);
            }
            i = i + 1;
        }
        proof {
            if self.holds(key@) {
                let j = self.index_of(key@);
                assert(self.records@[j].key@ == key@);
            }
        }
        None
    }

    /// The address and type of every record held; no address occurs twice.
    pub fn get_all_addresses(&self) -> (all: Vec<(NetworkAddress, RecordType)>)
        ensures
            all@.len() == self@.dom().len(),
            forall|i: int|
                0 <= i < all@.len() ==> {
                    let key = (#[trigger] all@[i]).0@.bytes;
                    &&& !all@[i].0@.peer
                    &&& self@.contains_key(key)
                    &&& self@[key].record_type == all@[i].1
                },
            forall|key: Seq<u8>|
                self@.contains_key(key) ==> exists|i: int|
                    0 <= i < all@.len() && (#[trigger] all@[i]).0@ == record_address(key),
            forall|i: int, j: int| 0 <= i < j < all@.len() ==> all@[i].0@ != all@[j].0@,
    {
        proof {
            use_type_invariant(self);
            self.lemma_dom_len();
        }
        let mut all: Vec<(NetworkAddress, RecordType)> = Vec::new();
        let mut i: usize = 0;
        while i < self.records.len()
            invariant
                self.keys_distinct(),
                i <= self.records@.len(),
                all@.len() == i,
                forall|j: int|
                    0 <= j < i ==> (#[trigger] all@[j]).0@ == record_address(self.records@[j].key@)
                        && all@[j].1 == self.records@[j].record_type,
            decreases self.records@.len() - i,
        {
            let record = &self.records[i];
            all.push(
                (NetworkAddress::RecordAddr(slice_to_vec(record.key.as_slice())), record.record_type),
            );
            i = i + 1;
        }
        proof {
            assert forall|j: int| 0 <= j < all@.len() implies {
                let key = (#[trigger] all@[j]).0@.bytes;
                &&& !all@[j].0@.peer
                &&& self@.contains_key(key)
                &&& self@[key].record_type == all@[j].1
            } by {
                self.lemma_view_at(j);
            }
            assert forall|key: Seq<u8>| self@.contains_key(key) implies exists|j: int|
                0 <= j < all@.len() && (#[trigger] all@[j]).0@ == record_address(key) by {
                let j = self.index_of(key);
                assert(all@[j].0@ == record_address(key));
            }
        }
        all
    }
}

} // verus!
