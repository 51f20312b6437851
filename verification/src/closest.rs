//! Picking the addresses closest to a key.
//!
//! Addresses are ranked by their distance to the key; ties are broken by
//! the addresses themselves, so that any set of addresses has exactly one
//! ranking.

use crate::address::{
    address_lt, closer, distance_spec, AddressView, NetworkAddress, CLOSE_GROUP_SIZE,
};
use crate::bytes::{
    lemma_lex_asymmetric, lemma_lex_irreflexive, lemma_lex_total, lemma_lex_transitive, lex_lt, U256,
};
use crate::store::RecordType;
use vstd::prelude::*;

verus! {

/// An address together with its distance to the key at hand.
#[derive(Debug, PartialEq, Eq)]
pub struct Ranked {
    pub distance: U256,
    pub address: NetworkAddress,
}

/// What a ranked address is, mathematically.
pub struct RankedView {
    pub distance: Seq<u8>,
    pub address: AddressView,
}

impl View for Ranked {
    type V = RankedView;

    open spec fn view(&self) -> RankedView {
        RankedView { distance: self.distance@, address: self.address@ }
    }
}

/// By distance first, by address second.
pub open spec fn ranked_lt(a: RankedView, b: RankedView) -> bool {
    lex_lt(a.distance, b.distance) || (a.distance == b.distance && address_lt(a.address, b.address))
}

/// Nothing ranks before itself.
pub proof fn lemma_ranked_irreflexive(a: RankedView)
    ensures
        !ranked_lt(a, a),
{
    lemma_lex_irreflexive(a.distance);
    lemma_lex_irreflexive(a.address.bytes);
}

/// The ranking is transitive.
pub proof fn lemma_ranked_transitive(a: RankedView, b: RankedView, c: RankedView)
    requires
        ranked_lt(a, b),
        ranked_lt(b, c),
    ensures
        ranked_lt(a, c),
{
    if lex_lt(a.distance, b.distance) && lex_lt(b.distance, c.distance) {
        lemma_lex_transitive(a.distance, b.distance, c.distance);
    }
    if a.distance == b.distance && b.distance == c.distance {
        if lex_lt(a.address.bytes, b.address.bytes) && lex_lt(b.address.bytes, c.address.bytes) {
            lemma_lex_transitive(a.address.bytes, b.address.bytes, c.address.bytes);
        }
    }
}

/// Of two different ranked addresses exactly one ranks before the other.
pub proof fn lemma_ranked_total(a: RankedView, b: RankedView)
    requires
        a != b,
    ensures
        ranked_lt(a, b) != ranked_lt(b, a),
{
    if a.distance != b.distance {
        lemma_lex_total(a.distance, b.distance);
        if lex_lt(a.distance, b.distance) {
            lemma_lex_asymmetric(a.distance, b.distance);
        } else {
            lemma_lex_asymmetric(b.distance, a.distance);
        }
    } else {
        lemma_lex_irreflexive(a.distance);
        if a.address.bytes != b.address.bytes {
            lemma_lex_total(a.address.bytes, b.address.bytes);
            if lex_lt(a.address.bytes, b.address.bytes) {
                lemma_lex_asymmetric(a.address.bytes, b.address.bytes);
            } else {
                lemma_lex_asymmetric(b.address.bytes, a.address.bytes);
            }
        } else {
            lemma_lex_irreflexive(a.address.bytes);
        }
    }
}

/// The views of a list of ranked addresses.
pub open spec fn ranked_views(list: Seq<Ranked>) -> Seq<RankedView> {
    list.map_values(|r: Ranked| r@)
}

/// The ranked addresses that occur in a list.
pub open spec fn ranked_set(list: Seq<Ranked>) -> Set<RankedView> {
    Set::new(|x: RankedView| ranked_views(list).contains(x))
}

/// Every earlier entry ranks before every later one.
pub open spec fn strictly_ranked(list: Seq<RankedView>) -> bool {
    forall|i: int, j: int| 0 <= i < j < list.len() ==> ranked_lt(list[i], list[j])
}

/// `best` lists, in rising rank, the `limit` first-ranking members of
/// `pool`, or all of them where the pool has no more.
pub open spec fn is_smallest(best: Seq<RankedView>, pool: Set<RankedView>, limit: nat) -> bool {
    &&& best.len() <= limit
    &&& strictly_ranked(best)
    &&& forall|i: int| 0 <= i < best.len() ==> pool.contains(#[trigger] best[i])
    &&& forall|x: RankedView|
        #![trigger pool.contains(x)]
        pool.contains(x) && !best.contains(x) ==> {
            &&& best.len() == limit
            &&& forall|i: int| 0 <= i < best.len() ==> ranked_lt(#[trigger] best[i], x)
        }
}

impl Ranked {
    /// Whether `self` ranks before `other`.
    pub fn ranks_before(&self, other: &Ranked) -> (before: bool)
        ensures
            before == ranked_lt(self@, other@),
    {
        if self.distance.lt(&other.distance) {
            true
        } else if self.distance.same_as(&other.distance) {
            self.address.precedes(&other.address)
        } else {
            false
        }
    }
}

/// Puts `item` at its place in a ranked list, unless the list holds it
/// already.
pub fn insert_ranked(list: &mut Vec<Ranked>, item: Ranked)
    requires
        strictly_ranked(ranked_views(old(list)@)),
    ensures
        strictly_ranked(ranked_views(final(list)@)),
        forall|x: RankedView|
            ranked_views(final(list)@).contains(x) <==> (ranked_views(old(list)@).contains(x) || x
                == item@),
{
    let ghost before = ranked_views(list@);
    let ghost new = item@;
    let mut at: usize = 0;
    while at < list.len()
        invariant_except_break
            forall|j: int| 0 <= j < at ==> ranked_lt(before[j], new),
        invariant
            at <= list@.len(),
            ranked_views(list@) == before,
            new == item@,
        ensures
            forall|j: int| 0 <= j < at ==> ranked_lt(before[j], new),
            at < list@.len() ==> !ranked_lt(before[at as int], new),
        decreases list@.len() - at,
    {
        assert(before[at as int] == list@[at as int]@);
        if !list[at].ranks_before(&item) {
            break;
        }
        at = at + 1;
    }
    if at < list.len() && !item.ranks_before(&list[at]) {
        proof {
            let held = before[at as int];
            assert(held == list@[at as int]@);
            if held != new {
                lemma_ranked_total(new, held);
            }
            assert(before.contains(new));
        }
        return;
    }
    list.insert(at, item);
    proof {
        let after = ranked_views(list@);
        assert(after =~= before.insert(at as int, new));
        assert forall|i: int, j: int| 0 <= i < j < after.len() implies ranked_lt(
            after[i],
            after[j],
        ) by {
            if j == at {
            } else if i == at {
                assert(after[j] == before[j - 1]);
                assert(before[at as int] == list@[at as int + 1]@);
                if j - 1 > at {
                    lemma_ranked_transitive(new, before[at as int], before[j - 1]);
                }
            } else {
                let bi = if i < at { i } else { i - 1 };
                let bj = if j < at { j } else { j - 1 };
                assert(after[i] == before[bi] && after[j] == before[bj]);
            }
        }
        assert forall|x: RankedView| after.contains(x) <==> (before.contains(x) || x == new) by {
            if after.contains(x) {
                let i = choose|i: int| 0 <= i < after.len() && after[i] == x;
                if i < at {
                    assert(before[i] == x);
                } else if i > at {
                    assert(before[i - 1] == x);
                }
            }
            if before.contains(x) {
                let i = choose|i: int| 0 <= i < before.len() && before[i] == x;
                if i < at {
                    assert(after[i] == x);
                } else {
                    assert(after[i + 1] == x);
                }
            }
            if x == new {
                assert(after[at as int] == x);
            }
        }
    }
}

/// The `limit` first-ranking of the given ranked addresses, in rising
/// rank; all of them if there are fewer. An address that is listed twice
/// with the same distance counts once.
pub fn select_closest(ranked: Vec<Ranked>, limit: usize) -> (best: Vec<Ranked>)
    ensures
        is_smallest(ranked_views(best@), ranked_set(ranked@), limit as nat),
{
    let ghost all = ranked_views(ranked@);
    let mut rest = ranked;
    let mut sorted: Vec<Ranked> = Vec::new();
    assert(all.skip(rest@.len() as int) =~= Seq::<RankedView>::empty());
    while rest.len() > 0
        invariant
            rest@.len() <= all.len(),
            ranked_views(rest@) == all.take(rest@.len() as int),
            strictly_ranked(ranked_views(sorted@)),
            forall|x: RankedView|
                ranked_views(sorted@).contains(x) <==> all.skip(rest@.len() as int).contains(x),
        decreases rest@.len(),
    {
        let ghost n = rest@.len() as int;
        let item = rest.pop().unwrap();
        proof {
            assert(ranked_views(rest@) =~= all.take(n - 1));
            assert(all.take(n)[n - 1] == item@);
        }
        insert_ranked(&mut sorted, item);
        proof {
            let now = ranked_views(sorted@);
            let done = all.skip(n - 1);
            let earlier = all.skip(n);
            assert forall|x: RankedView| now.contains(x) <==> done.contains(x) by {
                if done.contains(x) {
                    let i = choose|i: int| 0 <= i < done.len() && done[i] == x;
                    if i > 0 {
                        assert(earlier[i - 1] == x);
                    }
                }
                if earlier.contains(x) {
                    let i = choose|i: int| 0 <= i < earlier.len() && earlier[i] == x;
                    assert(done[i + 1] == x);
                }
                if x == item@ {
                    assert(done[0] == x);
                }
            }
        }
    }
    let ghost full = ranked_views(sorted@);
    assert(all.skip(0) =~= all);
    if sorted.len() > limit {
        sorted.truncate(limit);
    }
    proof {
        let best = ranked_views(sorted@);
        let pool = ranked_set(ranked@);
        assert(best =~= full.take(best.len() as int));
        assert forall|i: int| 0 <= i < best.len() implies pool.contains(#[trigger] best[i]) by {
            assert(full[i] == best[i]);
            assert(full.contains(best[i]));
        }
        assert forall|x: RankedView|
            #![trigger pool.contains(x)]
            pool.contains(x) && !best.contains(x) implies {
            &&& best.len() == limit
            &&& forall|i: int| 0 <= i < best.len() ==> ranked_lt(#[trigger] best[i], x)
        } by {
            assert(full.contains(x));
            let j = choose|j: int| 0 <= j < full.len() && full[j] == x;
            if j < best.len() {
                assert(best[j] == x);
            }
        }
    }
    sorted
}

/// The addresses of the chunk records among `all`.
pub open spec fn chunk_addresses(all: Seq<(NetworkAddress, RecordType)>) -> Set<AddressView> {
    Set::new(
        |a: AddressView|
            exists|i: int|
                0 <= i < all.len() && (#[trigger] all[i]).1 == RecordType::Chunk && all[i].0@ == a,
    )
}

/// The views of a list of addresses.
pub open spec fn address_views(list: Seq<NetworkAddress>) -> Seq<AddressView> {
    list.map_values(|a: NetworkAddress| a@)
}

/// How many of the closest chunks a challenge of the given difficulty is
/// answered with.
pub open spec fn workload(difficulty: usize) -> nat {
    if difficulty < CLOSE_GROUP_SIZE {
        difficulty as nat
    } else {
        CLOSE_GROUP_SIZE as nat
    }
}

/// `best` lists the `limit` members of `pool` that are closest to `key`,
/// the closest first, or all members where the pool has no more.
pub open spec fn is_closest(
    best: Seq<AddressView>,
    pool: Set<AddressView>,
    key: AddressView,
    limit: nat,
) -> bool {
    &&& best.len() <= limit
    &&& forall|i: int, j: int| 0 <= i < j < best.len() ==> closer(key, best[i], best[j])
    &&& forall|i: int| 0 <= i < best.len() ==> pool.contains(#[trigger] best[i])
    &&& forall|a: AddressView|
        #![trigger pool.contains(a)]
        pool.contains(a) && !best.contains(a) ==> {
            &&& best.len() == limit
            &&& forall|i: int| 0 <= i < best.len() ==> closer(key, #[trigger] best[i], a)
        }
}

/// Ranking addresses by their true distance to `key` and taking the
/// first-ranking ones gives the closest addresses.
proof fn lemma_ranked_are_closest(
    best: Seq<RankedView>,
    ranked_pool: Set<RankedView>,
    pool: Set<AddressView>,
    key: AddressView,
    limit: nat,
)
    requires
        is_smallest(best, ranked_pool, limit),
        forall|x: RankedView|
            #![trigger ranked_pool.contains(x)]
            ranked_pool.contains(x) <==> (pool.contains(x.address) && x.distance == distance_spec(
                key,
                x.address,
            )),
    ensures
        is_closest(best.map_values(|r: RankedView| r.address), pool, key, limit),
{
    let chosen = best.map_values(|r: RankedView| r.address);
    assert forall|i: int| 0 <= i < best.len() implies pool.contains(#[trigger] chosen[i])
        && best[i].distance == distance_spec(key, chosen[i]) by {
        assert(ranked_pool.contains(best[i]));
    }
    assert forall|i: int, j: int| 0 <= i < j < chosen.len() implies closer(
        key,
        chosen[i],
        chosen[j],
    ) by {
        assert(ranked_lt(best[i], best[j]));
        assert(ranked_pool.contains(best[i]) && ranked_pool.contains(best[j]));
    }
    assert forall|a: AddressView|
        #![trigger pool.contains(a)]
        pool.contains(a) && !chosen.contains(a) implies {
        &&& chosen.len() == limit
        &&& forall|i: int| 0 <= i < chosen.len() ==> closer(key, #[trigger] chosen[i], a)
    } by {
        let x = RankedView { distance: distance_spec(key, a), address: a };
        assert(ranked_pool.contains(x));
        if best.contains(x) {
            let i = choose|i: int| 0 <= i < best.len() && best[i] == x;
            assert(chosen[i] == a);
        }
        assert forall|i: int| 0 <= i < chosen.len() implies closer(key, #[trigger] chosen[i], a) by {
            assert(ranked_lt(best[i], x));
            assert(ranked_pool.contains(best[i]));
        }
    }
}

/// The chunk addresses among `all` that are closest to `key`, the closest
/// first: as many as the difficulty asks for, the close-group size at
/// most, and all of them where there are fewer.
pub fn closest_chunk_addresses(
    all: &Vec<(NetworkAddress, RecordType)>,
    key: &NetworkAddress,
    difficulty: usize,
) -> (closest: Vec<NetworkAddress>)
    ensures
        is_closest(address_views(closest@), chunk_addresses(all@), key@, workload(difficulty)),
{
    let key_digest = key.key_digest();
    let mut ranked: Vec<Ranked> = Vec::new();
    let mut i: usize = 0;
    while i < all.len()
        invariant
            i <= all@.len(),
            key_digest@ == crate::hashing::kbucket_digest(key@.bytes),
            forall|x: RankedView|
                #![trigger ranked_views(ranked@).contains(x)]
                ranked_views(ranked@).contains(x) <==> (chunk_addresses(all@.take(i as int)).contains(
                    x.address,
                ) && x.distance == distance_spec(key@, x.address)),
        decreases all@.len() - i,
    {
        let ghost held = ranked_views(ranked@);
        let ghost seen = all@.take(i as int);
        let ghost next = all@.take(i as int + 1);
        let entry = &all[i];
        if entry.1.is_chunk() {
            let digest = entry.0.key_digest();
            let item = Ranked { distance: U256::xor(&key_digest, &digest), address: entry.0.clone() };
            let ghost new = item@;
            ranked.push(item);
            proof {
                let now = ranked_views(ranked@);
                assert(now =~= held.push(new));
                assert(next[i as int] == all@[i as int]);
                assert forall|x: RankedView|
                    #![trigger now.contains(x)]
                    now.contains(x) <==> (chunk_addresses(next).contains(x.address) && x.distance
                        == distance_spec(key@, x.address)) by {
                    if now.contains(x) {
                        let j = choose|j: int| 0 <= j < now.len() && now[j] == x;
                        if j < held.len() {
                            assert(held[j] == x);
                            assert(held.contains(x));
                            let k = choose|k: int|
                                0 <= k < seen.len() && (#[trigger] seen[k]).1 == RecordType::Chunk
                                    && seen[k].0@ == x.address;
                            assert(next[k] == seen[k]);
                        }
                    }
                    if chunk_addresses(next).contains(x.address) && x.distance == distance_spec(
                        key@,
                        x.address,
                    ) {
                        let k = choose|k: int|
                            0 <= k < next.len() && (#[trigger] next[k]).1 == RecordType::Chunk
                                && next[k].0@ == x.address;
                        if k < i {
                            assert(seen[k] == next[k]);
                            assert(held.contains(x));
                            let j = choose|j: int| 0 <= j < held.len() && held[j] == x;
                            assert(now[j] == x);
                        } else {
                            assert(now[held.len() as int] == x);
                        }
                    }
                }
            }
        } else {
            proof {
                assert(next[i as int] == all@[i as int]);
                assert forall|a: AddressView|
                    chunk_addresses(next).contains(a) <==> chunk_addresses(seen).contains(a) by {
                    if chunk_addresses(next).contains(a) {
                        let k = choose|k: int|
                            0 <= k < next.len() && (#[trigger] next[k]).1 == RecordType::Chunk
                                && next[k].0@ == a;
                        assert(seen[k] == next[k]);
                    }
                    if chunk_addresses(seen).contains(a) {
                        let k = choose|k: int|
                            0 <= k < seen.len() && (#[trigger] seen[k]).1 == RecordType::Chunk
                                && seen[k].0@ == a;
                        assert(next[k] == seen[k]);
                    }
                }
            }
        }
        i = i + 1;
    }
    assert(all@.take(i as int) =~= all@);
    let limit = if difficulty < CLOSE_GROUP_SIZE {
        difficulty
    } else {
        CLOSE_GROUP_SIZE
    };
    let ghost pool = ranked_set(ranked@);
    let best = select_closest(ranked, limit);
    let mut closest: Vec<NetworkAddress> = Vec::new();
    let mut j: usize = 0;
    while j < best.len()
        invariant
            j <= best@.len(),
            closest@.len() == j,
            forall|k: int| 0 <= k < j ==> (#[trigger] closest@[k])@ == best@[k]@.address,
        decreases best@.len() - j,
    {
        closest.push(best[j].address.clone());
        j = j + 1;
    }
    proof {
        let chosen = ranked_views(best@).map_values(|r: RankedView| r.address);
        assert(address_views(closest@) =~= chosen);
        lemma_ranked_are_closest(
            ranked_views(best@),
            pool,
            chunk_addresses(all@),
            key@,
            limit as nat,
        );
    }
    closest
}

/// Two strictly rising lists with the same members are the same list.
proof fn lemma_same_members_same_list(a: Seq<AddressView>, b: Seq<AddressView>, key: AddressView)
    requires
        forall|i: int, j: int| 0 <= i < j < a.len() ==> closer(key, a[i], a[j]),
        forall|i: int, j: int| 0 <= i < j < b.len() ==> closer(key, b[i], b[j]),
        forall|x: AddressView| a.contains(x) <==> b.contains(x),
    ensures
        a == b,
    decreases a.len(),
{
    if a.len() == 0 {
        if b.len() > 0 {
            assert(b.contains(b[0]));
        }
        assert(a =~= b);
    } else {
        assert(a.contains(a[0]));
        let jb = choose|j: int| 0 <= j < b.len() && b[j] == a[0];
        assert(b.contains(b[0]));
        let ja = choose|j: int| 0 <= j < a.len() && a[j] == b[0];
        if a[0] != b[0] {
            assert(closer(key, b[0], b[jb]));
            assert(closer(key, a[0], a[ja]));
            crate::address::lemma_closer_total(key, a[0], b[0]);
        }
        let ta = a.drop_first();
        let tb = b.drop_first();
        assert forall|x: AddressView| ta.contains(x) <==> tb.contains(x) by {
            crate::address::lemma_closer_irreflexive(key, x);
            if ta.contains(x) {
                let i = choose|i: int| 0 <= i < ta.len() && ta[i] == x;
                assert(a[i + 1] == x);
                assert(closer(key, a[0], a[i + 1]));
                assert(a.contains(x));
                let k = choose|k: int| 0 <= k < b.len() && b[k] == x;
                assert(tb[k - 1] == x);
            }
            if tb.contains(x) {
                let i = choose|i: int| 0 <= i < tb.len() && tb[i] == x;
                assert(b[i + 1] == x);
                assert(closer(key, b[0], b[i + 1]));
                assert(b.contains(x));
                let k = choose|k: int| 0 <= k < a.len() && a[k] == x;
                assert(ta[k - 1] == x);
            }
        }
        assert forall|i: int, j: int| 0 <= i < j < ta.len() implies closer(key, ta[i], ta[j]) by {
            assert(closer(key, a[i + 1], a[j + 1]));
        }
        assert forall|i: int, j: int| 0 <= i < j < tb.len() implies closer(key, tb[i], tb[j]) by {
            assert(closer(key, b[i + 1], b[j + 1]));
        }
        lemma_same_members_same_list(ta, tb, key);
        assert(a =~= seq![a[0]] + ta);
        assert(b =~= seq![b[0]] + tb);
    }
}

/// A strictly rising list names no address twice.
proof fn lemma_rising_no_duplicates(a: Seq<AddressView>, key: AddressView)
    requires
        forall|i: int, j: int| 0 <= i < j < a.len() ==> closer(key, a[i], a[j]),
    ensures
        a.no_duplicates(),
{
    assert forall|i: int, j: int| 0 <= i < a.len() && 0 <= j < a.len() && i != j implies a[i]
        != a[j] by {
        crate::address::lemma_closer_irreflexive(key, a[i]);
        if i < j {
            assert(closer(key, a[i], a[j]));
        } else {
            assert(closer(key, a[j], a[i]));
        }
    }
}

/// Every member of `a` is a member of `b`, where both list the closest
/// of the same pool.
proof fn lemma_closest_members(
    a: Seq<AddressView>,
    b: Seq<AddressView>,
    pool: Set<AddressView>,
    key: AddressView,
    limit: nat,
    x: AddressView,
)
    requires
        is_closest(a, pool, key, limit),
        is_closest(b, pool, key, limit),
        a.contains(x),
    ensures
        b.contains(x),
{
    if !b.contains(x) {
        let ix = choose|i: int| 0 <= i < a.len() && a[i] == x;
        assert(pool.contains(a[ix]));
        assert(b.len() == limit);
        if exists|k: int| 0 <= k < b.len() && !a.contains(#[trigger] b[k]) {
            let k = choose|k: int| 0 <= k < b.len() && !a.contains(#[trigger] b[k]);
            let y = b[k];
            assert(pool.contains(y));
            assert(closer(key, a[ix], y));
            assert(closer(key, b[k], x));
            crate::address::lemma_closer_transitive(key, x, y, x);
            crate::address::lemma_closer_irreflexive(key, x);
        } else {
            lemma_rising_no_duplicates(a, key);
            lemma_rising_no_duplicates(b, key);
            a.unique_seq_to_set();
            b.unique_seq_to_set();
            vstd::seq_lib::seq_to_set_is_finite(a);
            vstd::seq_lib::seq_to_set_is_finite(b);
            let bigger = b.to_set().insert(x);
            assert(bigger.subset_of(a.to_set())) by {
                assert forall|y: AddressView| bigger.contains(y) implies a.to_set().contains(y) by {
                    if y != x {
                        assert(b.contains(y));
                        let k = choose|k: int| 0 <= k < b.len() && b[k] == y;
                        assert(a.contains(b[k]));
                    }
                }
            }
            vstd::set_lib::lemma_len_subset(bigger, a.to_set());
            assert(!b.to_set().contains(x));
            assert(bigger.len() == b.to_set().len() + 1);
        }
    }
}

/// A pool has exactly one list of its closest members: whatever order the
/// pool was given in, the same addresses come out in the same order.
pub proof fn lemma_closest_unique(
    a: Seq<AddressView>,
    b: Seq<AddressView>,
    pool: Set<AddressView>,
    key: AddressView,
    limit: nat,
)
    requires
        is_closest(a, pool, key, limit),
        is_closest(b, pool, key, limit),
    ensures
        a == b,
{
    assert forall|x: AddressView| a.contains(x) <==> b.contains(x) by {
        if a.contains(x) {
            lemma_closest_members(a, b, pool, key, limit, x);
        }
        if b.contains(x) {
            lemma_closest_members(b, a, pool, key, limit, x);
        }
    }
    lemma_same_members_same_list(a, b, key);
}

/// The list of the closest members is as long as the limit allows and the
/// pool can fill.
pub proof fn lemma_closest_len(
    best: Seq<AddressView>,
    pool: Set<AddressView>,
    key: AddressView,
    limit: nat,
)
    requires
        is_closest(best, pool, key, limit),
        pool.finite(),
    ensures
        best.len() == if limit <= pool.len() {
            limit
        } else {
            pool.len()
        },
{
    lemma_rising_no_duplicates(best, key);
    best.unique_seq_to_set();
    vstd::seq_lib::seq_to_set_is_finite(best);
    assert(best.to_set().subset_of(pool)) by {
        assert forall|x: AddressView| best.to_set().contains(x) implies pool.contains(x) by {
            let i = choose|i: int| 0 <= i < best.len() && best[i] == x;
            assert(pool.contains(best[i]));
        }
    }
    vstd::set_lib::lemma_len_subset(best.to_set(), pool);
    if best.len() < limit {
        assert(pool =~= best.to_set()) by {
            assert forall|x: AddressView| pool.contains(x) implies best.to_set().contains(x) by {
                if !best.contains(x) {
                    assert(best.len() == limit);
                }
            }
        }
    }
}

} // verus!
