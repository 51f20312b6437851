//! Byte strings as ordered values.
//!
//! Record keys, peer identifiers and 256-bit integers are all byte strings
//! here. This module fixes the one order they are compared by and proves
//! that it is a strict total order.

use vstd::prelude::*;

verus! {

/// Lexicographic "less than": a proper prefix comes first, otherwise the
/// first position at which the strings differ decides.
pub open spec fn lex_lt(a: Seq<u8>, b: Seq<u8>) -> bool
    decreases a.len(),
{
    if b.len() == 0 {
        false
    } else if a.len() == 0 {
        true
    } else if a[0] != b[0] {
        a[0] < b[0]
    } else {
        lex_lt(a.drop_first(), b.drop_first())
    }
}

/// No byte string comes before itself.
pub proof fn lemma_lex_irreflexive(a: Seq<u8>)
    ensures
        !lex_lt(a, a),
    decreases a.len(),
{
    if a.len() > 0 {
        lemma_lex_irreflexive(a.drop_first());
    }
}

/// Of two byte strings at most one comes before the other.
pub proof fn lemma_lex_asymmetric(a: Seq<u8>, b: Seq<u8>)
    requires
        lex_lt(a, b),
    ensures
        !lex_lt(b, a),
    decreases a.len(),
{
    if a.len() > 0 && b.len() > 0 && a[0] == b[0] {
        lemma_lex_asymmetric(a.drop_first(), b.drop_first());
    }
}

/// The order is transitive.
pub proof fn lemma_lex_transitive(a: Seq<u8>, b: Seq<u8>, c: Seq<u8>)
    requires
        lex_lt(a, b),
        lex_lt(b, c),
    ensures
        lex_lt(a, c),
    decreases a.len(),
{
    if a.len() > 0 && b.len() > 0 && c.len() > 0 && a[0] == b[0] && b[0] == c[0] {
        lemma_lex_transitive(a.drop_first(), b.drop_first(), c.drop_first());
    }
}

/// Two different byte strings are always ordered one way or the other.
pub proof fn lemma_lex_total(a: Seq<u8>, b: Seq<u8>)
    requires
        a != b,
    ensures
        lex_lt(a, b) || lex_lt(b, a),
    decreases a.len(),
{
    if a.len() > 0 && b.len() > 0 && a[0] == b[0] {
        if a.drop_first() == b.drop_first() {
            assert(a =~= seq![a[0]] + a.drop_first());
            assert(b =~= seq![b[0]] + b.drop_first());
        } else {
            lemma_lex_total(a.drop_first(), b.drop_first());
        }
    } else if a.len() == 0 && b.len() == 0 {
        assert(a =~= b);
    }
}

/// Whether `a` comes before `b`.
pub fn slice_lt(a: &[u8], b: &[u8]) -> (before: bool)
    ensures
        before == lex_lt(a@, b@),
{
    let mut i: usize = 0;
    assert(a@.skip(0) =~= a@ && b@.skip(0) =~= b@);
    while i < a.len() && i < b.len()
        invariant
            i <= a@.len(),
            i <= b@.len(),
            lex_lt(a@, b@) == lex_lt(a@.skip(i as int), b@.skip(i as int)),
        decreases a@.len() - i,
    {
        proof {
            assert(a@.skip(i as int).drop_first() =~= a@.skip(i as int + 1));
            assert(b@.skip(i as int).drop_first() =~= b@.skip(i as int + 1));
        }
        if a[i] != b[i] {
            return a[i] < b[i];
        }
        i = i + 1;
    }
    i < b.len()
}

/// Whether `a` and `b` hold the same bytes.
pub fn slice_eq(a: &[u8], b: &[u8]) -> (same: bool)
    ensures
        same == (a@ == b@),
{
    if a.len() != b.len() {
        return false;
    }
    let mut i: usize = 0;
    while i < a.len()
        invariant
            a@.len() == b@.len(),
            i <= a@.len(),
            forall|j: int| 0 <= j < i ==> a@[j] == b@[j],
        decreases a@.len() - i,
    {
        if a[i] != b[i] {
            return false;
        }
        i = i + 1;
    }
    assert(a@ =~= b@);
    true
}

/// A copy of the bytes of `a`.
pub fn slice_to_vec(a: &[u8]) -> (copy: Vec<u8>)
    ensures
        copy@ == a@,
{
    let mut copy: Vec<u8> = Vec::new();
    let mut i: usize = 0;
    while i < a.len()
        invariant
            i <= a@.len(),
            copy@ == a@.take(i as int),
        decreases a@.len() - i,
    {
        copy.push(a[i]);
        assert(copy@ =~= a@.take(i as int + 1));
        i = i + 1;
    }
    assert(a@.take(a@.len() as int) =~= a@);
    copy
}

/// Byte-wise exclusive or of two strings; the result is as long as `a`.
pub open spec fn xor_bytes(a: Seq<u8>, b: Seq<u8>) -> Seq<u8> {
    Seq::new(a.len(), |i: int| a[i] ^ b[i])
}

/// The number a byte string denotes when read most significant byte first.
pub open spec fn be_value(s: Seq<u8>) -> nat
    decreases s.len(),
{
    if s.len() == 0 {
        0
    } else {
        be_value(s.drop_last()) * 256 + (s.last() as nat)
    }
}

/// An unsigned 256-bit integer, held as its 32 bytes, most significant
/// first. Distances between addresses and token amounts are of this type.
#[derive(Clone, Copy, Debug, PartialEq, Eq, Hash)]
pub struct U256 {
    pub bytes: [u8; 32],
}

impl View for U256 {
    type V = Seq<u8>;

    open spec fn view(&self) -> Seq<u8> {
        self.bytes@
    }
}

impl U256 {
    /// The integer this value stands for.
    pub open spec fn value(self) -> nat {
        be_value(self@)
    }

    /// Zero.
    pub fn zero() -> (z: U256)
        ensures
            z@ == Seq::new(32, |i: int| 0u8),
    {
        let z = U256 { bytes: [0u8; 32] };
        assert(z@ =~= Seq::new(32, |i: int| 0u8));
        z
    }

    /// The value whose bytes are the given ones.
    pub fn from_be_bytes(bytes: [u8; 32]) -> (v: U256)
        ensures
            v@ == bytes@,
    {
        U256 { bytes }
    }

    /// The bitwise exclusive or of two 32-byte strings.
    pub fn xor(a: &[u8; 32], b: &[u8; 32]) -> (d: U256)
        ensures
            d@ == xor_bytes(a@, b@),
    {
        let mut out: [u8; 32] = [0u8; 32];
        let mut i: usize = 0;
        while i < 32
            invariant
                i <= 32,
                forall|j: int| 0 <= j < i ==> out@[j] == a@[j] ^ b@[j],
            decreases 32 - i,
        {
            out[i] = a[i] ^ b[i];
            i = i + 1;
        }
        let d = U256 { bytes: out };
        assert(d@ =~= xor_bytes(a@, b@));
        d
    }

    /// Whether `self` is the smaller integer.
    pub fn lt(&self, other: &U256) -> (smaller: bool)
        ensures
            smaller == lex_lt(self@, other@),
            smaller == (self.value() < other.value()),
    {
        proof {
            lemma_be_value_order(self@, other@);
        }
        slice_lt(self.bytes.as_slice(), other.bytes.as_slice())
    }

    /// Whether both stand for the same integer.
    pub fn same_as(&self, other: &U256) -> (same: bool)
        ensures
            same == (self@ == other@),
            same == (self.value() == other.value()),
    {
        proof {
            lemma_be_value_order(self@, other@);
            lemma_be_value_order(other@, self@);
            if self@ != other@ {
                lemma_lex_total(self@, other@);
            }
        }
        slice_eq(self.bytes.as_slice(), other.bytes.as_slice())
    }
}

/// A byte string of length `n` denotes a number below `256^n`; stated here
/// in the form the order proof needs: appending one byte to a smaller
/// prefix cannot overtake a larger prefix.
proof fn lemma_be_value_step(hi_a: nat, lo_a: u8, hi_b: nat, lo_b: u8)
    requires
        hi_a < hi_b,
    ensures
        hi_a * 256 + (lo_a as nat) < hi_b * 256 + (lo_b as nat),
{
    assert(hi_a * 256 + 256 <= hi_b * 256) by (nonlinear_arith)
        requires
            hi_a + 1 <= hi_b,
    ;
}

/// On strings of equal length the lexicographic order is the order of the
/// numbers they denote.
pub proof fn lemma_be_value_order(a: Seq<u8>, b: Seq<u8>)
    requires
        a.len() == b.len(),
    ensures
        lex_lt(a, b) == (be_value(a) < be_value(b)),
    decreases a.len(),
{
    if a.len() == 0 {
    } else {
        let a0 = a.drop_last();
        let b0 = b.drop_last();
        lemma_be_value_order(a0, b0);
        lemma_lex_extend(a0, b0, a.last(), b.last());
        assert(a =~= a0.push(a.last()));
        assert(b =~= b0.push(b.last()));
        if be_value(a0) < be_value(b0) {
            lemma_be_value_step(be_value(a0), a.last(), be_value(b0), b.last());
        } else if be_value(b0) < be_value(a0) {
            lemma_be_value_step(be_value(b0), b.last(), be_value(a0), a.last());
            lemma_be_value_order(b0, a0);
        } else {
            lemma_be_value_order(b0, a0);
            if a0 != b0 {
                lemma_lex_total(a0, b0);
            }
        }
    }
}

/// How the order of two equally long strings extends when one byte is
/// appended to each.
proof fn lemma_lex_extend(a: Seq<u8>, b: Seq<u8>, x: u8, y: u8)
    requires
        a.len() == b.len(),
    ensures
        lex_lt(a.push(x), b.push(y)) == (lex_lt(a, b) || (a == b && x < y)),
    decreases a.len(),
{
    let ax = a.push(x);
    let by = b.push(y);
    if a.len() == 0 {
        assert(a =~= b);
        assert(ax[0] == x && by[0] == y);
        assert(ax.drop_first() =~= Seq::<u8>::empty());
        assert(by.drop_first() =~= Seq::<u8>::empty());
        assert(!lex_lt(Seq::<u8>::empty(), Seq::<u8>::empty()));
        assert(!lex_lt(a, b));
    } else {
        assert(ax[0] == a[0] && by[0] == b[0]);
        assert(ax.drop_first() =~= a.drop_first().push(x));
        assert(by.drop_first() =~= b.drop_first().push(y));
        lemma_lex_extend(a.drop_first(), b.drop_first(), x, y);
        if a[0] == b[0] {
            if a.drop_first() == b.drop_first() {
                assert(a =~= seq![a[0]] + a.drop_first());
                assert(b =~= seq![b[0]] + b.drop_first());
            }
        }
    }
}

/// The `n` low-order bytes of `x`, least significant first.
pub open spec fn le_bytes(x: nat, n: nat) -> Seq<u8>
    decreases n,
{
    if n == 0 {
        Seq::empty()
    } else {
        seq![(x % 256) as u8] + le_bytes(x / 256, (n - 1) as nat)
    }
}

/// 256 to the power of `n`: how many byte strings of length `n` there
/// are.
pub open spec fn pow256(n: nat) -> nat
    decreases n,
{
    if n == 0 {
        1
    } else {
        256 * pow256((n - 1) as nat)
    }
}

/// `n` bytes are `n` bytes.
pub proof fn lemma_le_bytes_len(x: nat, n: nat)
    ensures
        le_bytes(x, n).len() == n,
    decreases n,
{
    if n > 0 {
        lemma_le_bytes_len(x / 256, (n - 1) as nat);
    }
}

/// Numbers that fit into `n` bytes and have the same `n` bytes are the
/// same number.
pub proof fn lemma_le_bytes_injective(x: nat, y: nat, n: nat)
    requires
        x < pow256(n),
        y < pow256(n),
        le_bytes(x, n) == le_bytes(y, n),
    ensures
        x == y,
    decreases n,
{
    if n > 0 {
        let m = (n - 1) as nat;
        let bx = le_bytes(x, n);
        let by = le_bytes(y, n);
        assert(bx[0] == (x % 256) as u8);
        assert(by[0] == (y % 256) as u8);
        assert(bx.skip(1) =~= le_bytes(x / 256, m));
        assert(by.skip(1) =~= le_bytes(y / 256, m));
        lemma_le_bytes_injective(x / 256, y / 256, m);
    }
}

/// Every `u64` fits into eight bytes.
pub proof fn lemma_u64_fits_eight_bytes(x: u64)
    ensures
        (x as nat) < pow256(8),
{
    assert(pow256(0) == 1);
    assert(pow256(1) == 256);
    assert(pow256(2) == 65536);
    assert(pow256(3) == 16777216);
    assert(pow256(4) == 4294967296);
    assert(pow256(5) == 1099511627776);
    assert(pow256(6) == 281474976710656);
    assert(pow256(7) == 72057594037927936);
    assert(pow256(8) == 18446744073709551616);
}

/// Where two strings of equal length are each followed by another string
/// and the results are equal, the parts are equal.
pub proof fn lemma_concat_parts(a: Seq<u8>, b: Seq<u8>, c: Seq<u8>, d: Seq<u8>)
    requires
        a.len() == c.len(),
        a + b == c + d,
    ensures
        a == c,
        b == d,
{
    assert(a =~= (a + b).take(a.len() as int));
    assert(c =~= (c + d).take(c.len() as int));
    assert(b =~= (a + b).skip(a.len() as int));
    assert(d =~= (c + d).skip(c.len() as int));
}

/// Appends the eight bytes of `x`, least significant first.
pub fn append_u64_le(out: &mut Vec<u8>, x: u64)
    ensures
        final(out)@ == old(out)@ + le_bytes(x as nat, 8),
{
    let ghost before = out@;
    let mut rest: u64 = x;
    let mut i: usize = 0;
    assert(out@ =~= before + Seq::<u8>::empty());
    let ghost mut done: Seq<u8> = Seq::empty();
    while i < 8
        invariant
            i <= 8,
            out@ == before + done,
            done + le_bytes(rest as nat, (8 - i) as nat) == le_bytes(x as nat, 8),
        decreases 8 - i,
    {
        out.push((rest % 256) as u8);
        proof {
            let tail = le_bytes((rest / 256) as nat, (8 - i - 1) as nat);
            let byte = (rest % 256) as u8;
            assert(done + (seq![byte] + tail) =~= done.push(byte) + tail);
            assert(out@ =~= before + done.push(byte));
            done = done.push(byte);
        }
        rest = rest / 256;
        i = i + 1;
    }
    assert(done + Seq::<u8>::empty() =~= done);
}

/// Appends the bytes of `more`.
pub fn append_bytes(out: &mut Vec<u8>, more: &[u8])
    ensures
        final(out)@ == old(out)@ + more@,
{
    let ghost before = out@;
    let mut i: usize = 0;
    assert(out@ =~= before + more@.take(0));
    while i < more.len()
        invariant
            i <= more@.len(),
            out@ == before + more@.take(i as int),
        decreases more@.len() - i,
    {
        out.push(more[i]);
        assert(out@ =~= before + more@.take(i as int + 1));
        i = i + 1;
    }
    assert(more@.take(more@.len() as int) =~= more@);
}

} // verus!
