//! The storage challenge: proving to neighbours that chunks are held, and
//! checking that neighbours hold theirs.

use crate::address::{AddressView, NetworkAddress, PeerId, CLOSE_GROUP_SIZE};
use crate::chunk_proof::{chunk_proof_spec, ChunkProof, Nonce};
use crate::closest::{
    address_views, chunk_addresses, closest_chunk_addresses, is_closest, workload,
};
use crate::event::{Action, NodeIssue};
use crate::messages::{ChunkProofAnswer, ProtocolError, Query, QueryResponse, Request, Response};
use crate::random::{random_index, random_u64};
use crate::store::{LocalStore, RecordType, RecordView};
use vstd::prelude::*;

verus! {

/// A node that holds fewer chunks than this challenges nobody: with so
/// little evidence an honest neighbour cannot be told from a lazy one.
pub const MIN_CHALLENGE_CANDIDATES: usize = 50;

/// Whether the store holds a record at this address.
pub open spec fn holds_at(store: Map<Seq<u8>, RecordView>, address: AddressView) -> bool {
    !address.peer && store.contains_key(address.bytes)
}

/// The proof this store gives for the record at `address` under `nonce`.
pub open spec fn proof_at(store: Map<Seq<u8>, RecordView>, address: AddressView, nonce: Nonce) -> Seq<
    u8,
> {
    chunk_proof_spec(store[address.bytes].value, nonce)
}

/// The answer names `address` and carries this proof.
pub open spec fn is_proof_answer(answer: ChunkProofAnswer, address: AddressView, proof: Seq<u8>) -> bool {
    &&& answer.0@ == address
    &&& answer.1 matches Ok(p)
    &&& p@ == proof
}

/// The answer names `address` and says that no chunk is held there.
pub open spec fn is_missing_answer(answer: ChunkProofAnswer, address: AddressView) -> bool {
    &&& answer.0@ == address
    &&& answer.1 matches Err(ProtocolError::ChunkDoesNotExist(a))
    &&& a@ == address
}

/// The addresses at which the store holds a record, in the order given.
pub open spec fn held_addresses(store: Map<Seq<u8>, RecordView>, addresses: Seq<AddressView>) -> Seq<
    AddressView,
>
    decreases addresses.len(),
{
    if addresses.len() == 0 {
        Seq::empty()
    } else {
        let rest = held_addresses(store, addresses.drop_last());
        if holds_at(store, addresses.last()) {
            rest.push(addresses.last())
        } else {
            rest
        }
    }
}

/// The addresses of the chunks a store holds.
pub open spec fn store_chunk_addresses(store: Map<Seq<u8>, RecordView>) -> Set<AddressView> {
    Set::new(|a: AddressView| holds_at(store, a) && store[a.bytes].record_type == RecordType::Chunk)
}

/// The answers are the store's proofs for the given addresses, one for
/// one and in the same order.
pub open spec fn are_proofs_for(
    answers: Seq<ChunkProofAnswer>,
    store: Map<Seq<u8>, RecordView>,
    addresses: Seq<AddressView>,
    nonce: Nonce,
) -> bool {
    &&& answers.len() == addresses.len()
    &&& forall|i: int|
        0 <= i < answers.len() ==> is_proof_answer(
            #[trigger] answers[i],
            addresses[i],
            proof_at(store, addresses[i], nonce),
        )
}

/// The addresses that a list of answers names.
pub open spec fn answered_addresses(answers: Seq<ChunkProofAnswer>) -> Seq<AddressView> {
    answers.map_values(|a: ChunkProofAnswer| a.0@)
}

/// Proves possession of the records held at the given addresses.
/// Addresses at which nothing is held are left out; the others are
/// answered in the order given.
pub fn chunk_proofs_for(store: &LocalStore, addresses: &Vec<NetworkAddress>, nonce: Nonce) -> (answers:
    Vec<ChunkProofAnswer>)
    ensures
        are_proofs_for(
            answers@,
            store@,
            held_addresses(store@, address_views(addresses@)),
            nonce,
        ),
{
    let mut answers: Vec<ChunkProofAnswer> = Vec::new();
    let mut i: usize = 0;
    assert(address_views(addresses@).take(0) =~= Seq::<AddressView>::empty());
    while i < addresses.len()
        invariant
            i <= addresses@.len(),
            are_proofs_for(
                answers@,
                store@,
                held_addresses(store@, address_views(addresses@).take(i as int)),
                nonce,
            ),
        decreases addresses@.len() - i,
    {
        let ghost views = address_views(addresses@);
        let ghost next = views.take(i as int + 1);
        proof {
            assert(next.drop_last() =~= views.take(i as int));
            assert(next.last() == addresses@[i as int]@);
        }
        let address = &addresses[i];
        match address {
            NetworkAddress::RecordAddr(key) => {
                match store.get_local(key.as_slice()) {
                    Some(record) => {
                        let proof = ChunkProof::new(record.value.as_slice(), nonce);
                        answers.push((address.clone(), Ok(proof)));
                    },
                    None => {},
                }
            },
            NetworkAddress::PeerAddr(_) => {},
        }
        i = i + 1;
    }
    assert(address_views(addresses@).take(i as int) =~= address_views(addresses@));
    answers
}

/// What a storage challenge is answered with.
///
/// At difficulty 1 the one answer is for the challenged key itself: its
/// proof, or the statement that no chunk is held there. At any other
/// difficulty the answers are proofs for the held chunks closest to the
/// key, the closest first, as many as [`workload`] allows.
pub open spec fn is_challenge_response(
    answers: Seq<ChunkProofAnswer>,
    store: Map<Seq<u8>, RecordView>,
    key: AddressView,
    nonce: Nonce,
    difficulty: usize,
) -> bool {
    if difficulty == 1 {
        &&& answers.len() == 1
        &&& if holds_at(store, key) {
            is_proof_answer(answers[0], key, proof_at(store, key, nonce))
        } else {
            is_missing_answer(answers[0], key)
        }
    } else {
        &&& is_closest(
            answered_addresses(answers),
            store_chunk_addresses(store),
            key,
            workload(difficulty),
        )
        &&& are_proofs_for(answers, store, answered_addresses(answers), nonce)
    }
}

/// Answers a storage challenge from the records held locally.
pub fn respond_x_closest_chunk_proof(
    store: &LocalStore,
    key: &NetworkAddress,
    nonce: Nonce,
    difficulty: usize,
) -> (answers: Vec<ChunkProofAnswer>)
    ensures
        is_challenge_response(answers@, store@, key@, nonce, difficulty),
{
    if difficulty == 1 {
        let mut answers: Vec<ChunkProofAnswer> = Vec::new();
        let held = match key {
            NetworkAddress::RecordAddr(record_key) => store.get_local(record_key.as_slice()),
            NetworkAddress::PeerAddr(_) => None,
        };
        let result = match held {
            Some(record) => Ok(ChunkProof::new(record.value.as_slice(), nonce)),
            None => Err(ProtocolError::ChunkDoesNotExist(key.clone())),
        };
        answers.push((key.clone(), result));
        answers
    } else {
        let all = store.get_all_addresses();
        let closest = closest_chunk_addresses(&all, key, difficulty);
        let answers = chunk_proofs_for(store, &closest, nonce);
        proof {
            let pool = store_chunk_addresses(store@);
            let chosen = address_views(closest@);
            assert forall|a: AddressView| chunk_addresses(all@).contains(a) <==> pool.contains(
                a,
            ) by {
                if chunk_addresses(all@).contains(a) {
                    let i = choose|i: int|
                        0 <= i < all@.len() && (#[trigger] all@[i]).1 == RecordType::Chunk
                            && all@[i].0@ == a;
                    assert(holds_at(store@, all@[i].0@));
                }
                if pool.contains(a) {
                    let i = choose|i: int|
                        0 <= i < all@.len() && (#[trigger] all@[i]).0@
                            == crate::store::record_address(a.bytes);
                    assert(all@[i].0@ == a);
                }
            }
            assert(chunk_addresses(all@) =~= pool);
            lemma_all_held(store@, chosen);
            assert(answered_addresses(answers@) =~= chosen);
        }
        answers
    }
}

/// Where a record is held at every address, none is left out.
proof fn lemma_all_held(store: Map<Seq<u8>, RecordView>, addresses: Seq<AddressView>)
    requires
        forall|i: int| 0 <= i < addresses.len() ==> holds_at(store, #[trigger] addresses[i]),
    ensures
        held_addresses(store, addresses) == addresses,
    decreases addresses.len(),
{
    if addresses.len() > 0 {
        lemma_all_held(store, addresses.drop_last());
        assert(addresses.drop_last().push(addresses.last()) =~= addresses);
    }
}

/// A store with finitely many records holds finitely many chunks.
pub proof fn lemma_store_chunks_finite(store: Map<Seq<u8>, RecordView>)
    requires
        store.dom().finite(),
    ensures
        store_chunk_addresses(store).finite(),
{
    let place = |key: Seq<u8>| crate::store::record_address(key);
    let image = store.dom().map(place);
    store.dom().lemma_map_finite(place);
    assert(store_chunk_addresses(store).subset_of(image)) by {
        assert forall|a: AddressView| store_chunk_addresses(store).contains(a) implies image.contains(
            a,
        ) by {
            assert(store.dom().contains(a.bytes) && a == place(a.bytes));
        }
    }
    vstd::set_lib::lemma_set_subset_finite(image, store_chunk_addresses(store));
}

/// A challenge of a difficulty other than 1 is answered with as many
/// proofs as the difficulty asks for, the close-group size at most, and
/// no more than there are chunks in the store; they are for the chunks
/// closest to the key, and no other list of answers will do.
pub proof fn lemma_challenge_response_closest(
    answers: Seq<ChunkProofAnswer>,
    store: Map<Seq<u8>, RecordView>,
    key: AddressView,
    nonce: Nonce,
    difficulty: usize,
    closest: Seq<AddressView>,
)
    requires
        difficulty != 1,
        store.dom().finite(),
        is_challenge_response(answers, store, key, nonce, difficulty),
        is_closest(closest, store_chunk_addresses(store), key, workload(difficulty)),
    ensures
        answered_addresses(answers) == closest,
        answers.len() == if workload(difficulty) <= store_chunk_addresses(store).len() {
            workload(difficulty)
        } else {
            store_chunk_addresses(store).len()
        },
{
    lemma_store_chunks_finite(store);
    crate::closest::lemma_closest_unique(
        answered_addresses(answers),
        closest,
        store_chunk_addresses(store),
        key,
        workload(difficulty),
    );
    crate::closest::lemma_closest_len(
        closest,
        store_chunk_addresses(store),
        key,
        workload(difficulty),
    );
}

/// One answer is acceptable unless it carries a proof for a record held
/// here that differs from the proof computed here. An answer without a
/// proof, or for a record not held here, decides nothing.
pub open spec fn answer_passes(
    store: Map<Seq<u8>, RecordView>,
    nonce: Nonce,
    answer: ChunkProofAnswer,
) -> bool {
    (answer.1 is Ok && holds_at(store, answer.0@)) ==> answer.1->Ok_0@ == proof_at(
        store,
        answer.0@,
        nonce,
    )
}

/// A challenged peer passes if it replied with a list of answers that is
/// not empty and holds no unacceptable answer. No reply, a reply of
/// another kind and an empty list all fail.
pub open spec fn reply_passes(
    store: Map<Seq<u8>, RecordView>,
    nonce: Nonce,
    reply: Option<Response>,
) -> bool {
    &&& reply matches Some(Response::Query(QueryResponse::GetChunkExistenceProof(answers)))
    &&& answers@.len() > 0
    &&& forall|i: int| 0 <= i < answers@.len() ==> answer_passes(store, nonce, #[trigger] answers@[i])
}

/// Judges the reply of a peer that was challenged under `nonce`; `None`
/// stands for a peer that did not reply in time or replied with an error.
pub fn chunk_proof_verify_peer(store: &LocalStore, nonce: Nonce, reply: &Option<Response>) -> (passed:
    bool)
    ensures
        passed == reply_passes(store@, nonce, *reply),
{
    match reply {
        Some(Response::Query(QueryResponse::GetChunkExistenceProof(answers))) => {
            if answers.len() == 0 {
                return false;
            }
            let mut i: usize = 0;
            while i < answers.len()
                invariant
                    i <= answers@.len(),
                    answers@.len() > 0,
                    *reply == Some(
                        Response::Query(QueryResponse::GetChunkExistenceProof(*answers)),
                    ),
                    forall|j: int| 0 <= j < i ==> answer_passes(store@, nonce, #[trigger] answers@[j]),
                decreases answers@.len() - i,
            {
                let answer = &answers[i];
                match (&answer.0, &answer.1) {
                    (NetworkAddress::RecordAddr(key), Ok(proof)) => {
                        match store.get_local(key.as_slice()) {
                            Some(record) => {
                                let expected = ChunkProof::new(record.value.as_slice(), nonce);
                                if !proof.verify(&expected) {
                                    assert(!answer_passes(store@, nonce, answers@[i as int]));
                                    return false;
                                }
                            },
                            None => {},
                        }
                    },
                    _ => {},
                }
                i = i + 1;
            }
            true
        },
        _ => false,
    }
}

/// A challenge about to be sent.
#[derive(Debug, PartialEq, Eq)]
pub struct Challenge {
    pub peer: PeerId,
    pub key: NetworkAddress,
    pub nonce: Nonce,
}

/// The peers of `peers` other than `own`, in the order given.
pub open spec fn others(peers: Seq<PeerId>, own: PeerId) -> Seq<PeerId>
    decreases peers.len(),
{
    if peers.len() == 0 {
        Seq::empty()
    } else {
        let rest = others(peers.drop_last(), own);
        if peers.last() == own {
            rest
        } else {
            rest.push(peers.last())
        }
    }
}

/// Whom to challenge: the close group among the closest peers, without
/// the node itself; nobody while fewer peers than a close group are known.
pub open spec fn challenge_targets_spec(closest_peers: Seq<PeerId>, own: PeerId) -> Seq<PeerId> {
    if closest_peers.len() < CLOSE_GROUP_SIZE {
        Seq::empty()
    } else {
        others(closest_peers.take(CLOSE_GROUP_SIZE as int), own)
    }
}

/// The addresses of the chunk records among `all`, in the order given.
pub open spec fn chunk_entries(all: Seq<(NetworkAddress, RecordType)>) -> Seq<AddressView>
    decreases all.len(),
{
    if all.len() == 0 {
        Seq::empty()
    } else {
        let rest = chunk_entries(all.drop_last());
        if all.last().1 == RecordType::Chunk {
            rest.push(all.last().0@)
        } else {
            rest
        }
    }
}

/// Whom to challenge, given the closest peers known locally, closest
/// first.
pub fn challenge_targets(closest_peers: &Vec<PeerId>, own: &PeerId) -> (targets: Vec<PeerId>)
    ensures
        targets@ == challenge_targets_spec(closest_peers@, *own),
{
    let mut targets: Vec<PeerId> = Vec::new();
    if closest_peers.len() < CLOSE_GROUP_SIZE {
        return targets;
    }
    let ghost group = closest_peers@.take(CLOSE_GROUP_SIZE as int);
    let mut i: usize = 0;
    assert(group.take(0) =~= Seq::<PeerId>::empty());
    while i < CLOSE_GROUP_SIZE
        invariant
            i <= CLOSE_GROUP_SIZE <= closest_peers@.len(),
            group == closest_peers@.take(CLOSE_GROUP_SIZE as int),
            targets@ == others(group.take(i as int), *own),
        decreases CLOSE_GROUP_SIZE - i,
    {
        proof {
            let next = group.take(i as int + 1);
            assert(next.drop_last() =~= group.take(i as int));
            assert(next.last() == closest_peers@[i as int]);
        }
        if !closest_peers[i].same_as(own) {
            targets.push(closest_peers[i]);
        }
        i = i + 1;
    }
    assert(group.take(CLOSE_GROUP_SIZE as int) =~= group);
    targets
}

/// The addresses a challenge can be about: those of the chunks held.
pub fn verify_candidates(all: &Vec<(NetworkAddress, RecordType)>) -> (candidates: Vec<NetworkAddress>)
    ensures
        address_views(candidates@) == chunk_entries(all@),
{
    let mut candidates: Vec<NetworkAddress> = Vec::new();
    let mut i: usize = 0;
    assert(all@.take(0) =~= Seq::<(NetworkAddress, RecordType)>::empty());
    assert(address_views(candidates@) =~= Seq::<AddressView>::empty());
    while i < all.len()
        invariant
            i <= all@.len(),
            address_views(candidates@) == chunk_entries(all@.take(i as int)),
        decreases all@.len() - i,
    {
        let ghost before = address_views(candidates@);
        proof {
            let next = all@.take(i as int + 1);
            assert(next.drop_last() =~= all@.take(i as int));
            assert(next.last() == all@[i as int]);
        }
        if all[i].1.is_chunk() {
            candidates.push(all[i].0.clone());
            assert(address_views(candidates@) =~= before.push(all@[i as int].0@));
        }
        i = i + 1;
    }
    assert(all@.take(i as int) =~= all@);
    candidates
}

/// The challenge of `peer` on the candidate at `index`, under `nonce`.
pub fn pick_challenge(peer: PeerId, candidates: &Vec<NetworkAddress>, index: usize, nonce: Nonce) -> (challenge:
    Challenge)
    requires
        index < candidates@.len(),
    ensures
        challenge.peer == peer,
        challenge.key@ == candidates@[index as int]@,
        challenge.nonce == nonce,
{
    Challenge { peer, key: candidates[index].clone(), nonce }
}

/// A challenge of `peer` on the chunk at `key`, under a fresh nonce.
pub fn new_challenge(peer: PeerId, key: NetworkAddress) -> (challenge: Challenge)
    ensures
        challenge.peer == peer,
        challenge.key == key,
{
    Challenge { peer, key, nonce: random_u64() }
}

/// The request that puts a challenge to its peer: the close-group size is
/// the difficulty.
pub fn challenge_request(challenge: &Challenge) -> (request: Request)
    ensures
        request matches Request::Query(Query::GetChunkExistenceProof { key, nonce, difficulty })
            && key@ == challenge.key@ && nonce == challenge.nonce && difficulty
            == CLOSE_GROUP_SIZE,
{
    Request::Query(
        Query::GetChunkExistenceProof {
            key: challenge.key.clone(),
            nonce: challenge.nonce,
            difficulty: CLOSE_GROUP_SIZE,
        },
    )
}

/// Plans a round of storage challenges.
///
/// Nobody is challenged while fewer peers than a close group are known,
/// or while fewer than [`MIN_CHALLENGE_CANDIDATES`] chunks are held.
/// Otherwise every peer of the close group but the node itself is
/// challenged, in order, each on a chunk picked at random and under a
/// nonce of its own.
pub fn storage_challenge(
    closest_peers: &Vec<PeerId>,
    all: &Vec<(NetworkAddress, RecordType)>,
    own: &PeerId,
) -> (challenges: Vec<Challenge>)
    ensures
        chunk_entries(all@).len() < MIN_CHALLENGE_CANDIDATES ==> challenges@.len() == 0,
        chunk_entries(all@).len() >= MIN_CHALLENGE_CANDIDATES ==> {
            let targets = challenge_targets_spec(closest_peers@, *own);
            &&& challenges@.len() == targets.len()
            &&& forall|i: int|
                0 <= i < challenges@.len() ==> (#[trigger] challenges@[i]).peer == targets[i]
                    && chunk_entries(all@).contains(challenges@[i].key@)
        },
{
    let mut challenges: Vec<Challenge> = Vec::new();
    let targets = challenge_targets(closest_peers, own);
    if targets.len() == 0 {
        return challenges;
    }
    let candidates = verify_candidates(all);
    let num_of_targets = candidates.len();
    if num_of_targets < MIN_CHALLENGE_CANDIDATES {
        return challenges;
    }
    let mut i: usize = 0;
    while i < targets.len()
        invariant
            i <= targets@.len(),
            num_of_targets == candidates@.len(),
            num_of_targets >= MIN_CHALLENGE_CANDIDATES,
            address_views(candidates@) == chunk_entries(all@),
            challenges@.len() == i,
            forall|j: int|
                0 <= j < i ==> (#[trigger] challenges@[j]).peer == targets@[j] && chunk_entries(
                    all@,
                ).contains(challenges@[j].key@),
        decreases targets@.len() - i,
    {
        let index = random_index(num_of_targets);
        let challenge = pick_challenge(targets[i], &candidates, index, random_u64());
        assert(address_views(candidates@)[index as int] == challenge.key@);
        challenges.push(challenge);
        i = i + 1;
    }
    challenges
}

/// What follows from a challenged peer's reply: nothing if it passed,
/// otherwise the failed check is held against it.
pub fn challenge_verdict(store: &LocalStore, challenge: &Challenge, reply: &Option<Response>) -> (issue:
    Option<Action>)
    ensures
        issue == if reply_passes(store@, challenge.nonce, *reply) {
            None
        } else {
            Some(Action::RecordNodeIssue(challenge.peer, NodeIssue::FailedChunkProofCheck))
        },
{
    if chunk_proof_verify_peer(store, challenge.nonce, reply) {
        None
    } else {
        Some(Action::RecordNodeIssue(challenge.peer, NodeIssue::FailedChunkProofCheck))
    }
}

} // verus!
