//! Signed, time-bounded offers to store a record.
//!
//! A quote's hash is the Keccak-256 digest of an encoding of everything
//! the quote says; the node signs that hash with its identity key.

use crate::address::{AddressView, NetworkAddress, PeerId};
use crate::bytes::{
    append_bytes, append_u64_le, le_bytes, lemma_concat_parts, lemma_le_bytes_injective,
    lemma_le_bytes_len, lemma_u64_fits_eight_bytes, pow256, slice_to_vec, U256,
};
use crate::evm::{QuoteHash, RewardsAddress};
use crate::hashing::{keccak256, keccak256_digest};
use crate::messages::ProtocolError;
use vstd::prelude::*;

verus! {

/// How long a quote stays valid after it was issued, in seconds.
pub const QUOTE_TTL_SECS: u64 = 3600;

/// The local figures a price is derived from.
#[derive(Clone, Copy, Debug, PartialEq, Eq)]
pub struct QuotingMetrics {
    pub close_records_stored: u64,
    pub max_records: u64,
    pub received_payment_count: u64,
    pub live_time: u64,
}

/// What storing a record would cost here, with the figures behind the
/// price and the peers this node currently distrusts.
#[derive(Debug, PartialEq, Eq)]
pub struct StoreCost {
    pub cost: U256,
    pub quoting_metrics: QuotingMetrics,
    pub bad_nodes: Vec<PeerId>,
}

/// An offer of the node at `peer_address` to store a record for `cost`,
/// valid until `expiration_secs`.
#[derive(Clone, Debug, PartialEq, Eq)]
pub struct Quote {
    pub hash: QuoteHash,
    pub cost: U256,
    pub pricing_metrics: QuotingMetrics,
    pub bad_nodes: Vec<PeerId>,
    pub reward_address: RewardsAddress,
    pub expiration_secs: u64,
    pub peer_address: NetworkAddress,
    pub signature: Vec<u8>,
}

/// Everything a quote says, before it is hashed and signed.
pub struct QuoteTerms {
    pub target: AddressView,
    pub cost: Seq<u8>,
    pub pricing_metrics: QuotingMetrics,
    pub bad_nodes: Seq<PeerId>,
    pub reward_address: Seq<u8>,
    pub expiration_secs: u64,
    pub peer: Seq<u8>,
}

/// An address as bytes: its kind, the length of its bytes, its bytes.
pub open spec fn address_encoding(address: AddressView) -> Seq<u8> {
    seq![if address.peer { 0u8 } else { 1u8 }] + le_bytes(address.bytes.len(), 8) + address.bytes
}

/// The four figures, eight bytes each.
pub open spec fn metrics_encoding(metrics: QuotingMetrics) -> Seq<u8> {
    le_bytes(metrics.close_records_stored as nat, 8) + le_bytes(metrics.max_records as nat, 8)
        + le_bytes(metrics.received_payment_count as nat, 8) + le_bytes(metrics.live_time as nat, 8)
}

/// The identifiers of the peers, one after the other.
pub open spec fn peers_encoding(peers: Seq<PeerId>) -> Seq<u8>
    decreases peers.len(),
{
    if peers.len() == 0 {
        Seq::empty()
    } else {
        peers_encoding(peers.drop_last()) + peers.last()@
    }
}

/// The byte string whose digest is the quote's hash.
pub open spec fn quote_encoding(terms: QuoteTerms) -> Seq<u8> {
    address_encoding(terms.target) + terms.cost + metrics_encoding(terms.pricing_metrics)
        + le_bytes(terms.bad_nodes.len(), 8) + peers_encoding(terms.bad_nodes)
        + terms.reward_address + le_bytes(terms.expiration_secs as nat, 8) + terms.peer
}

/// The hash that binds a quote to its terms.
pub open spec fn quote_hash_spec(terms: QuoteTerms) -> Seq<u8> {
    keccak256_digest(quote_encoding(terms))
}

/// The terms of the quote that `peer` issues at time `now` for storing
/// the record at `target`.
pub open spec fn terms_of(
    store_cost: StoreCost,
    target: AddressView,
    reward_address: RewardsAddress,
    peer: PeerId,
    now: u64,
) -> QuoteTerms {
    QuoteTerms {
        target,
        cost: store_cost.cost@,
        pricing_metrics: store_cost.quoting_metrics,
        bad_nodes: store_cost.bad_nodes@,
        reward_address: reward_address@,
        expiration_secs: (now + QUOTE_TTL_SECS) as u64,
        peer: peer@,
    }
}

/// Whether `quote` says exactly what `terms` say, under the hash that
/// binds them, and carries `signature`.
pub open spec fn quote_states(quote: Quote, terms: QuoteTerms, signature: Seq<u8>) -> bool {
    &&& quote.hash@ == quote_hash_spec(terms)
    &&& quote.cost@ == terms.cost
    &&& quote.pricing_metrics == terms.pricing_metrics
    &&& quote.bad_nodes@ == terms.bad_nodes
    &&& quote.reward_address@ == terms.reward_address
    &&& quote.expiration_secs == terms.expiration_secs
    &&& quote.peer_address@ == (AddressView { peer: true, bytes: terms.peer })
    &&& quote.signature@ == signature
}

/// All zero bytes: the cost of a record that is already stored.
pub open spec fn is_zero_cost(cost: Seq<u8>) -> bool {
    forall|i: int| 0 <= i < cost.len() ==> cost[i] == 0
}

/// Declares `libp2p::identity::Keypair`, the identity key pair of a node.
/// Nothing is known of what is inside.
#[verifier::external_type_specification]
#[verifier::external_body]
pub struct ExKeypair(libp2p::identity::Keypair);

/// What a key pair signs a message with; `None` where the key refuses to
/// sign.
pub uninterp spec fn signature_of(keypair: libp2p::identity::Keypair, message: Seq<u8>) -> Option<
    Seq<u8>,
>;

/// Calls `libp2p::identity::Keypair::sign`. Trusted: whether the key
/// signs, and with which bytes, depends on the key and the message alone,
/// which the contract names without saying more; `None` stands for the
/// key's refusal to sign.
#[verifier::external_body]
pub(crate) fn sign(keypair: &libp2p::identity::Keypair, message: &[u8]) -> (signature: Option<
    Vec<u8>,
>)
    ensures
        match signature {
            Some(s) => signature_of(*keypair, message@) == Some(s@),
            None => signature_of(*keypair, message@) is None,
        },
{
    keypair.sign(message).ok()
}

/// Whether every byte of the cost is zero.
pub fn cost_is_zero(cost: &U256) -> (zero: bool)
    ensures
        zero == is_zero_cost(cost@),
{
    let mut i: usize = 0;
    while i < 32
        invariant
            i <= 32,
            forall|j: int| 0 <= j < i ==> cost@[j] == 0,
        decreases 32 - i,
    {
        if cost.bytes[i] != 0 {
            return false;
        }
        i = i + 1;
    }
    true
}

/// Computes the hash that binds a quote to its terms.
pub fn quote_hash(
    target: &NetworkAddress,
    cost: &U256,
    metrics: &QuotingMetrics,
    bad_nodes: &Vec<PeerId>,
    reward_address: &RewardsAddress,
    expiration_secs: u64,
    peer: &PeerId,
) -> (hash: QuoteHash)
    ensures
        hash@ == quote_hash_spec(
            QuoteTerms {
                target: target@,
                cost: cost@,
                pricing_metrics: *metrics,
                bad_nodes: bad_nodes@,
                reward_address: reward_address@,
                expiration_secs,
                peer: peer@,
            },
        ),
{
    let mut out: Vec<u8> = Vec::new();
    let kind: u8 = match target {
        NetworkAddress::PeerAddr(_) => 0,
        NetworkAddress::RecordAddr(_) => 1,
    };
    out.push(kind);
    append_u64_le(&mut out, target.as_bytes().len() as u64);
    append_bytes(&mut out, target.as_bytes());
    assert(out@ =~= address_encoding(target@));
    append_bytes(&mut out, cost.bytes.as_slice());
    append_u64_le(&mut out, metrics.close_records_stored);
    append_u64_le(&mut out, metrics.max_records);
    append_u64_le(&mut out, metrics.received_payment_count);
    append_u64_le(&mut out, metrics.live_time);
    assert(out@ =~= address_encoding(target@) + cost@ + metrics_encoding(*metrics));
    append_u64_le(&mut out, bad_nodes.len() as u64);
    let ghost head = out@;
    let mut i: usize = 0;
    assert(out@ =~= head + peers_encoding(bad_nodes@.take(0)));
    while i < bad_nodes.len()
        invariant
            i <= bad_nodes@.len(),
            out@ == head + peers_encoding(bad_nodes@.take(i as int)),
        decreases bad_nodes@.len() - i,
    {
        append_bytes(&mut out, bad_nodes[i].bytes.as_slice());
        proof {
            let next = bad_nodes@.take(i as int + 1);
            assert(next.drop_last() =~= bad_nodes@.take(i as int));
            assert(next.last() == bad_nodes@[i as int]);
            assert(out@ =~= head + peers_encoding(next));
        }
        i = i + 1;
    }
    assert(bad_nodes@.take(i as int) =~= bad_nodes@);
    append_bytes(&mut out, reward_address.bytes.as_slice());
    append_u64_le(&mut out, expiration_secs);
    append_bytes(&mut out, peer.bytes.as_slice());
    assert(out@ =~= quote_encoding(
        QuoteTerms {
            target: target@,
            cost: cost@,
            pricing_metrics: *metrics,
            bad_nodes: bad_nodes@,
            reward_address: reward_address@,
            expiration_secs,
            peer: peer@,
        },
    ));
    keccak256(out.as_slice())
}

/// The bytes of a signature, if there is one.
pub open spec fn signature_bytes(signature: Option<Vec<u8>>) -> Option<Seq<u8>> {
    match signature {
        Some(s) => Some(s@),
        None => None,
    }
}

/// How an attempt to issue a quote ends, given how the attempt to sign
/// its hash ended.
///
/// A record that costs nothing is stored already, and the answer says so
/// with the record's key. Otherwise the answer is the quote for the given
/// terms with the given signature, which expires after `now`; or, where
/// there is no signature, the failure to make a quote.
pub open spec fn is_signed_outcome(
    quote: Result<Quote, ProtocolError>,
    store_cost: StoreCost,
    target: AddressView,
    reward_address: RewardsAddress,
    peer: PeerId,
    now: u64,
    signature: Option<Seq<u8>>,
) -> bool {
    if is_zero_cost(store_cost.cost@) {
        quote matches Err(ProtocolError::RecordExists(key)) && key@ == target.bytes
    } else {
        match signature {
            Some(s) => {
                &&& quote matches Ok(q)
                &&& quote_states(q, terms_of(store_cost, target, reward_address, peer, now), s)
                &&& q.expiration_secs > now
            },
            None => quote matches Err(ProtocolError::QuoteGenerationFailed),
        }
    }
}

/// How an attempt of the node with the given identity key to issue a
/// quote ends: as [`is_signed_outcome`] says, with the key's signature of
/// the quote's hash.
pub open spec fn is_quote_outcome(
    quote: Result<Quote, ProtocolError>,
    keypair: libp2p::identity::Keypair,
    store_cost: StoreCost,
    target: AddressView,
    reward_address: RewardsAddress,
    peer: PeerId,
    now: u64,
) -> bool {
    is_signed_outcome(
        quote,
        store_cost,
        target,
        reward_address,
        peer,
        now,
        signature_of(
            keypair,
            quote_hash_spec(terms_of(store_cost, target, reward_address, peer, now)),
        ),
    )
}

/// Completes a quote once the attempt to sign its hash has ended.
///
/// A record that costs nothing is stored already, so no quote is issued
/// for it; a hash that could not be signed gives no quote either.
pub fn quote_from_signature(
    store_cost: StoreCost,
    target: &NetworkAddress,
    reward_address: RewardsAddress,
    peer: PeerId,
    now: u64,
    signature: Option<Vec<u8>>,
) -> (quote: Result<Quote, ProtocolError>)
    requires
        !is_zero_cost(store_cost.cost@) && signature is Some ==> now + QUOTE_TTL_SECS <= u64::MAX,
    ensures
        is_signed_outcome(
            quote,
            store_cost,
            target@,
            reward_address,
            peer,
            now,
            signature_bytes(signature),
        ),
{
    if cost_is_zero(&store_cost.cost) {
        return Err(ProtocolError::RecordExists(slice_to_vec(target.as_bytes())));
    }
    match signature {
        None => Err(ProtocolError::QuoteGenerationFailed),
        Some(signature) => {
            let expiration_secs = now + QUOTE_TTL_SECS;
            let hash = quote_hash(
                target,
                &store_cost.cost,
                &store_cost.quoting_metrics,
                &store_cost.bad_nodes,
                &reward_address,
                expiration_secs,
                &peer,
            );
            Ok(
                Quote {
                    hash,
                    cost: store_cost.cost,
                    pricing_metrics: store_cost.quoting_metrics,
                    bad_nodes: store_cost.bad_nodes,
                    reward_address,
                    expiration_secs,
                    peer_address: NetworkAddress::PeerAddr(peer),
                    signature,
                },
            )
        },
    }
}

/// Issues the quote for storing the record at `target`: hashes its terms,
/// has the node's identity key sign the hash, and stamps it to expire
/// [`QUOTE_TTL_SECS`] after `now`.
pub fn create_quote_for_storecost(
    keypair: &libp2p::identity::Keypair,
    store_cost: StoreCost,
    target: &NetworkAddress,
    reward_address: RewardsAddress,
    peer: PeerId,
    now: u64,
) -> (quote: Result<Quote, ProtocolError>)
    requires
        !is_zero_cost(store_cost.cost@) ==> now + QUOTE_TTL_SECS <= u64::MAX,
    ensures
        is_quote_outcome(quote, *keypair, store_cost, target@, reward_address, peer, now),
{
    let signature = if cost_is_zero(&store_cost.cost) {
        None
    } else {
        let hash = quote_hash(
            target,
            &store_cost.cost,
            &store_cost.quoting_metrics,
            &store_cost.bad_nodes,
            &reward_address,
            now + QUOTE_TTL_SECS,
            &peer,
        );
        sign(keypair, hash.as_slice())
    };
    quote_from_signature(store_cost, target, reward_address, peer, now, signature)
}

/// Terms whose fields are as long as the fields of a quote are.
pub open spec fn well_formed_terms(terms: QuoteTerms) -> bool {
    &&& terms.cost.len() == 32
    &&& terms.reward_address.len() == 20
    &&& terms.peer.len() == 32
    &&& terms.target.bytes.len() < pow256(8)
    &&& terms.bad_nodes.len() < pow256(8)
}

proof fn lemma_peers_encoding_len(peers: Seq<PeerId>)
    ensures
        peers_encoding(peers).len() == 32 * peers.len(),
    decreases peers.len(),
{
    if peers.len() > 0 {
        lemma_peers_encoding_len(peers.drop_last());
    }
}

proof fn lemma_peers_encoding_injective(a: Seq<PeerId>, b: Seq<PeerId>)
    requires
        a.len() == b.len(),
        peers_encoding(a) == peers_encoding(b),
    ensures
        a == b,
    decreases a.len(),
{
    if a.len() > 0 {
        lemma_peers_encoding_len(a.drop_last());
        lemma_peers_encoding_len(b.drop_last());
        lemma_concat_parts(
            peers_encoding(a.drop_last()),
            a.last()@,
            peers_encoding(b.drop_last()),
            b.last()@,
        );
        lemma_peers_encoding_injective(a.drop_last(), b.drop_last());
        assert(a.last().bytes =~= b.last().bytes);
        assert(a =~= a.drop_last().push(a.last()));
        assert(b =~= b.drop_last().push(b.last()));
    } else {
        assert(a =~= b);
    }
}

proof fn lemma_u64_encoding_injective(x: u64, y: u64, after_x: Seq<u8>, after_y: Seq<u8>)
    requires
        le_bytes(x as nat, 8) + after_x == le_bytes(y as nat, 8) + after_y,
    ensures
        x == y,
        after_x == after_y,
{
    lemma_le_bytes_len(x as nat, 8);
    lemma_le_bytes_len(y as nat, 8);
    lemma_concat_parts(le_bytes(x as nat, 8), after_x, le_bytes(y as nat, 8), after_y);
    lemma_u64_fits_eight_bytes(x);
    lemma_u64_fits_eight_bytes(y);
    lemma_le_bytes_injective(x as nat, y as nat, 8);
}

proof fn lemma_len_encoding_injective(x: nat, y: nat, after_x: Seq<u8>, after_y: Seq<u8>)
    requires
        x < pow256(8),
        y < pow256(8),
        le_bytes(x, 8) + after_x == le_bytes(y, 8) + after_y,
    ensures
        x == y,
        after_x == after_y,
{
    lemma_le_bytes_len(x, 8);
    lemma_le_bytes_len(y, 8);
    lemma_concat_parts(le_bytes(x, 8), after_x, le_bytes(y, 8), after_y);
    lemma_le_bytes_injective(x, y, 8);
}

/// What follows the target's kind in the encoding of the terms.
spec fn encoding_after_kind(terms: QuoteTerms) -> Seq<u8> {
    le_bytes(terms.target.bytes.len(), 8) + (terms.target.bytes + (terms.cost + encoding_of_rest(
        terms,
    )))
}

/// What follows the cost in the encoding of the terms.
spec fn encoding_of_rest(terms: QuoteTerms) -> Seq<u8> {
    let m = terms.pricing_metrics;
    le_bytes(m.close_records_stored as nat, 8) + (le_bytes(m.max_records as nat, 8) + (le_bytes(
        m.received_payment_count as nat,
        8,
    ) + (le_bytes(m.live_time as nat, 8) + (le_bytes(terms.bad_nodes.len(), 8) + (peers_encoding(
        terms.bad_nodes,
    ) + (terms.reward_address + (le_bytes(terms.expiration_secs as nat, 8) + terms.peer)))))))
}

proof fn lemma_encoding_parts(terms: QuoteTerms)
    ensures
        quote_encoding(terms) == seq![
            if terms.target.peer {
                0u8
            } else {
                1u8
            },
        ] + encoding_after_kind(terms),
{
    assert(quote_encoding(terms) =~= seq![
        if terms.target.peer {
            0u8
        } else {
            1u8
        },
    ] + encoding_after_kind(terms));
}

/// The hash binds the quote to its terms: different terms are hashed
/// from different byte strings, so that two quotes can only share a hash
/// where the hash function maps different byte strings to one digest.
pub proof fn lemma_quote_encoding_injective(a: QuoteTerms, b: QuoteTerms)
    requires
        well_formed_terms(a),
        well_formed_terms(b),
        quote_encoding(a) == quote_encoding(b),
    ensures
        a == b,
{
    lemma_encoding_parts(a);
    lemma_encoding_parts(b);
    let kind_a = seq![if a.target.peer { 0u8 } else { 1u8 }];
    let kind_b = seq![if b.target.peer { 0u8 } else { 1u8 }];
    lemma_concat_parts(kind_a, encoding_after_kind(a), kind_b, encoding_after_kind(b));
    assert(kind_a[0] == kind_b[0]);
    assert(a.target.peer == b.target.peer);
    lemma_len_encoding_injective(
        a.target.bytes.len(),
        b.target.bytes.len(),
        a.target.bytes + (a.cost + encoding_of_rest(a)),
        b.target.bytes + (b.cost + encoding_of_rest(b)),
    );
    lemma_concat_parts(
        a.target.bytes,
        a.cost + encoding_of_rest(a),
        b.target.bytes,
        b.cost + encoding_of_rest(b),
    );
    lemma_concat_parts(a.cost, encoding_of_rest(a), b.cost, encoding_of_rest(b));
    let ma = a.pricing_metrics;
    let mb = b.pricing_metrics;
    let peers_on_a = peers_encoding(a.bad_nodes) + (a.reward_address + (le_bytes(
        a.expiration_secs as nat,
        8,
    ) + a.peer));
    let peers_on_b = peers_encoding(b.bad_nodes) + (b.reward_address + (le_bytes(
        b.expiration_secs as nat,
        8,
    ) + b.peer));
    let count_on_a = le_bytes(a.bad_nodes.len(), 8) + peers_on_a;
    let count_on_b = le_bytes(b.bad_nodes.len(), 8) + peers_on_b;
    let live_on_a = le_bytes(ma.live_time as nat, 8) + count_on_a;
    let live_on_b = le_bytes(mb.live_time as nat, 8) + count_on_b;
    let paid_on_a = le_bytes(ma.received_payment_count as nat, 8) + live_on_a;
    let paid_on_b = le_bytes(mb.received_payment_count as nat, 8) + live_on_b;
    let max_on_a = le_bytes(ma.max_records as nat, 8) + paid_on_a;
    let max_on_b = le_bytes(mb.max_records as nat, 8) + paid_on_b;
    lemma_u64_encoding_injective(ma.close_records_stored, mb.close_records_stored, max_on_a, max_on_b);
    lemma_u64_encoding_injective(ma.max_records, mb.max_records, paid_on_a, paid_on_b);
    lemma_u64_encoding_injective(
        ma.received_payment_count,
        mb.received_payment_count,
        live_on_a,
        live_on_b,
    );
    lemma_u64_encoding_injective(ma.live_time, mb.live_time, count_on_a, count_on_b);
    lemma_len_encoding_injective(a.bad_nodes.len(), b.bad_nodes.len(), peers_on_a, peers_on_b);
    lemma_peers_encoding_len(a.bad_nodes);
    lemma_peers_encoding_len(b.bad_nodes);
    lemma_concat_parts(
        peers_encoding(a.bad_nodes),
        a.reward_address + (le_bytes(a.expiration_secs as nat, 8) + a.peer),
        peers_encoding(b.bad_nodes),
        b.reward_address + (le_bytes(b.expiration_secs as nat, 8) + b.peer),
    );
    lemma_peers_encoding_injective(a.bad_nodes, b.bad_nodes);
    lemma_concat_parts(
        a.reward_address,
        le_bytes(a.expiration_secs as nat, 8) + a.peer,
        b.reward_address,
        le_bytes(b.expiration_secs as nat, 8) + b.peer,
    );
    lemma_u64_encoding_injective(a.expiration_secs, b.expiration_secs, a.peer, b.peer);
}

} // verus!
