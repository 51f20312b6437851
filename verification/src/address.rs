//! Identifiers of peers and records, and the distance between them.

use crate::bytes::{
    be_value, lemma_be_value_order, lemma_lex_asymmetric, lemma_lex_irreflexive, lemma_lex_total,
    lemma_lex_transitive, lex_lt, slice_eq, slice_lt, slice_to_vec, xor_bytes, U256,
};
use crate::hashing::{kbucket_digest, kbucket_key_bytes};
use vstd::prelude::*;

verus! {

/// Number of nearest peers that form the replication and challenge set of
/// an address.
pub const CLOSE_GROUP_SIZE: usize = 5;

/// Identifier of a network participant: 32 opaque bytes.
#[derive(Clone, Copy, Debug, PartialEq, Eq, PartialOrd, Ord, Hash)]
pub struct PeerId {
    pub bytes: [u8; 32],
}

impl View for PeerId {
    type V = Seq<u8>;

    open spec fn view(&self) -> Seq<u8> {
        self.bytes@
    }
}

impl PeerId {
    /// Whether both identifiers hold the same bytes.
    pub fn same_as(&self, other: &PeerId) -> (same: bool)
        ensures
            same == (self@ == other@),
            same == (*self == *other),
    {
        proof {
            if self@ == other@ {
                assert(self.bytes =~= other.bytes);
            }
        }
        slice_eq(self.bytes.as_slice(), other.bytes.as_slice())
    }
}

/// Identity of a stored record.
pub type RecordKey = Vec<u8>;

/// Something that has a place in the key space: a peer or a record.
#[derive(Debug, PartialEq, Eq, Hash)]
pub enum NetworkAddress {
    PeerAddr(PeerId),
    RecordAddr(RecordKey),
}

/// What an address is, mathematically: its kind and its bytes.
pub struct AddressView {
    pub peer: bool,
    pub bytes: Seq<u8>,
}

impl View for NetworkAddress {
    type V = AddressView;

    open spec fn view(&self) -> AddressView {
        match self {
            NetworkAddress::PeerAddr(peer) => AddressView { peer: true, bytes: peer@ },
            NetworkAddress::RecordAddr(key) => AddressView { peer: false, bytes: key@ },
        }
    }
}

impl Clone for NetworkAddress {
    fn clone(&self) -> (copy: Self)
        ensures
            copy@ == self@,
    {
        match self {
            NetworkAddress::PeerAddr(peer) => NetworkAddress::PeerAddr(*peer),
            NetworkAddress::RecordAddr(key) => NetworkAddress::RecordAddr(
                slice_to_vec(key.as_slice()),
            ),
        }
    }
}

/// The XOR distance between two addresses: the digests under which the
/// routing layer files them, combined bit by bit. Read most significant
/// byte first it is a 256-bit integer.
pub open spec fn distance_spec(a: AddressView, b: AddressView) -> Seq<u8> {
    xor_bytes(kbucket_digest(a.bytes), kbucket_digest(b.bytes))
}

/// The order that breaks ties between addresses at equal distance: by
/// their bytes, and a peer before a record with the same bytes.
pub open spec fn address_lt(a: AddressView, b: AddressView) -> bool {
    lex_lt(a.bytes, b.bytes) || (a.bytes == b.bytes && a.peer && !b.peer)
}

/// Whether `a` is closer to `key` than `b` is, ties broken by
/// [`address_lt`].
pub open spec fn closer(key: AddressView, a: AddressView, b: AddressView) -> bool {
    let da = distance_spec(key, a);
    let db = distance_spec(key, b);
    lex_lt(da, db) || (da == db && address_lt(a, b))
}

/// The distance between two addresses as a number.
pub open spec fn distance_value(a: AddressView, b: AddressView) -> nat {
    be_value(distance_spec(a, b))
}

/// "Closer" compares distances as numbers: the smaller distance is the
/// closer one, and only equal distances are settled by the addresses.
pub proof fn lemma_closer_compares_numbers(key: AddressView, a: AddressView, b: AddressView)
    ensures
        closer(key, a, b) == (distance_value(key, a) < distance_value(key, b) || (distance_value(
            key,
            a,
        ) == distance_value(key, b) && address_lt(a, b))),
{
    let da = distance_spec(key, a);
    let db = distance_spec(key, b);
    lemma_be_value_order(da, db);
    lemma_be_value_order(db, da);
    if da != db {
        lemma_lex_total(da, db);
    }
}

/// No address is closer to a key than itself.
pub proof fn lemma_closer_irreflexive(key: AddressView, a: AddressView)
    ensures
        !closer(key, a, a),
{
    lemma_lex_irreflexive(distance_spec(key, a));
    lemma_lex_irreflexive(a.bytes);
}

/// "Closer to `key`" is transitive.
pub proof fn lemma_closer_transitive(key: AddressView, a: AddressView, b: AddressView, c: AddressView)
    requires
        closer(key, a, b),
        closer(key, b, c),
    ensures
        closer(key, a, c),
{
    let da = distance_spec(key, a);
    let db = distance_spec(key, b);
    let dc = distance_spec(key, c);
    if lex_lt(da, db) && lex_lt(db, dc) {
        lemma_lex_transitive(da, db, dc);
    }
    if da == db && db == dc {
        if lex_lt(a.bytes, b.bytes) && lex_lt(b.bytes, c.bytes) {
            lemma_lex_transitive(a.bytes, b.bytes, c.bytes);
        }
    }
}

/// Of two different addresses exactly one is closer to a given key.
pub proof fn lemma_closer_total(key: AddressView, a: AddressView, b: AddressView)
    requires
        a != b,
    ensures
        closer(key, a, b) != closer(key, b, a),
{
    let da = distance_spec(key, a);
    let db = distance_spec(key, b);
    if da != db {
        lemma_lex_total(da, db);
        if lex_lt(da, db) {
            lemma_lex_asymmetric(da, db);
        } else {
            lemma_lex_asymmetric(db, da);
        }
    } else {
        lemma_lex_irreflexive(da);
        if a.bytes != b.bytes {
            lemma_lex_total(a.bytes, b.bytes);
            if lex_lt(a.bytes, b.bytes) {
                lemma_lex_asymmetric(a.bytes, b.bytes);
            } else {
                lemma_lex_asymmetric(b.bytes, a.bytes);
            }
        } else {
            lemma_lex_irreflexive(a.bytes);
        }
    }
}

impl NetworkAddress {
    /// The address of a peer.
    pub fn from_peer(peer: PeerId) -> (address: NetworkAddress)
        ensures
            address == NetworkAddress::PeerAddr(peer),
    {
        NetworkAddress::PeerAddr(peer)
    }

    /// The address of the record stored under `key`.
    pub fn from_record_key(key: RecordKey) -> (address: NetworkAddress)
        ensures
            address == NetworkAddress::RecordAddr(key),
    {
        NetworkAddress::RecordAddr(key)
    }

    /// The bytes that place this address in the key space.
    pub fn as_bytes(&self) -> (bytes: &[u8])
        ensures
            bytes@ == self@.bytes,
    {
        match self {
            NetworkAddress::PeerAddr(peer) => peer.bytes.as_slice(),
            NetworkAddress::RecordAddr(key) => key.as_slice(),
        }
    }

    /// The peer this address names, if it names one.
    pub fn as_peer_id(&self) -> (peer: Option<PeerId>)
        ensures
            peer == match *self {
                NetworkAddress::PeerAddr(p) => Some(p),
                NetworkAddress::RecordAddr(_) => None,
            },
    {
        match self {
            NetworkAddress::PeerAddr(peer) => Some(*peer),
            NetworkAddress::RecordAddr(_) => None,
        }
    }

    /// The key of the record this address names; a peer's address names
    /// none.
    pub fn to_record_key(&self) -> (key: Option<RecordKey>)
        ensures
            self@.peer ==> key is None,
            !self@.peer ==> key is Some && key->0@ == self@.bytes,
    {
        match self {
            NetworkAddress::PeerAddr(_) => None,
            NetworkAddress::RecordAddr(key) => Some(slice_to_vec(key.as_slice())),
        }
    }

    /// Whether both addresses are of the same kind and hold the same bytes.
    pub fn same_as(&self, other: &NetworkAddress) -> (same: bool)
        ensures
            same == (self@ == other@),
    {
        match (self, other) {
            (NetworkAddress::PeerAddr(a), NetworkAddress::PeerAddr(b)) => a.same_as(b),
            (NetworkAddress::RecordAddr(a), NetworkAddress::RecordAddr(b)) => slice_eq(
                a.as_slice(),
                b.as_slice(),
            ),
            _ => false,
        }
    }

    /// Whether `self` comes before `other` in the tie-breaking order.
    pub fn precedes(&self, other: &NetworkAddress) -> (before: bool)
        ensures
            before == address_lt(self@, other@),
    {
        if slice_lt(self.as_bytes(), other.as_bytes()) {
            true
        } else if slice_eq(self.as_bytes(), other.as_bytes()) {
            match (self, other) {
                (NetworkAddress::PeerAddr(_), NetworkAddress::RecordAddr(_)) => true,
                _ => false,
            }
        } else {
            false
        }
    }

    /// The key-space digest of this address, from which distances are
    /// taken.
    pub fn key_digest(&self) -> (digest: [u8; 32])
        ensures
            digest@ == kbucket_digest(self@.bytes),
    {
        kbucket_key_bytes(self.as_bytes())
    }

    /// The XOR distance between `self` and `other`.
    pub fn distance(&self, other: &NetworkAddress) -> (d: U256)
        ensures
            d@ == distance_spec(self@, other@),
    {
        let a = self.key_digest();
        let b = other.key_digest();
        U256::xor(&a, &b)
    }
}

} // verus!
