//! Fixed-width byte strings and their big-endian numeric reading.
//!
//! The ledger hands every scalar to this library as a byte string: addresses
//! are 20 bytes, hashes and unsigned 256-bit integers are 32 bytes, and the
//! memory words inside an access record are 8 bytes. This module defines
//! those carriers and the arithmetic needed to read a byte string as a
//! big-endian unsigned integer without ever overflowing or indexing out of
//! bounds.

use vstd::prelude::*;

verus! {

/// The value of a byte string read as a big-endian unsigned integer.
pub open spec fn be_value(s: Seq<u8>) -> nat
    decreases s.len(),
{
    if s.len() == 0 {
        0
    } else {
        be_value(s.drop_last()) * 256 + s.last() as nat
    }
}

/// 256 raised to the power `n`: the number of byte strings of length `n`.
pub open spec fn pow256(n: nat) -> nat
    decreases n,
{
    if n == 0 {
        1
    } else {
        256 * pow256((n - 1) as nat)
    }
}

/// A byte string of length `n` reads as a value below `pow256(n)`.
pub proof fn lemma_be_value_bound(s: Seq<u8>)
    ensures
        be_value(s) < pow256(s.len()),
    decreases s.len(),
{
    if s.len() > 0 {
        lemma_be_value_bound(s.drop_last());
    }
}

/// A byte string reads as zero exactly when every byte of it is zero.
pub proof fn lemma_be_value_zero(s: Seq<u8>)
    ensures
        (be_value(s) == 0) <==> (forall|i: int| 0 <= i < s.len() ==> s[i] == 0),
    decreases s.len(),
{
    if s.len() > 0 {
        lemma_be_value_zero(s.drop_last());
        if be_value(s) == 0 {
            assert forall|i: int| 0 <= i < s.len() implies s[i] == 0 by {
                if i < s.len() - 1 {
                    assert(s.drop_last()[i] == s[i]);
                }
            }
        } else {
            if forall|i: int| 0 <= i < s.len() ==> s[i] == 0 {
                assert forall|i: int| 0 <= i < s.drop_last().len() implies s.drop_last()[i]
                    == 0 by {
                    assert(s.drop_last()[i] == s[i]);
                }
                assert(s.last() == s[s.len() - 1]);
            }
        }
    }
}

/// Splitting a byte string splits its value: the first `k` bytes carry
/// weight `pow256(len - k)`.
pub proof fn lemma_be_value_split(s: Seq<u8>, k: int)
    requires
        0 <= k <= s.len(),
    ensures
        be_value(s) == be_value(s.take(k)) * pow256((s.len() - k) as nat) + be_value(s.skip(k)),
    decreases s.len() - k,
{
    if k == s.len() {
        assert(s.take(k) =~= s);
        assert(s.skip(k) =~= Seq::<u8>::empty());
        assert(pow256((s.len() - k) as nat) == 1);
        assert(be_value(s.skip(k)) == 0);
        assert(be_value(s.take(k)) * 1 == be_value(s));
    } else {
        let dl = s.drop_last();
        lemma_be_value_split(dl, k);
        assert(dl.take(k) =~= s.take(k));
        assert(dl.skip(k) =~= s.skip(k).drop_last());
        assert(s.skip(k).last() == s.last());
        assert(be_value(s.skip(k)) == be_value(dl.skip(k)) * 256 + s.last());
        let a = be_value(s.take(k));
        let p = pow256((dl.len() - k) as nat);
        assert(be_value(s) == (a * p + be_value(dl.skip(k))) * 256 + s.last());
        assert((a * p + be_value(dl.skip(k))) * 256 == a * (256 * p) + be_value(dl.skip(k))
            * 256) by (nonlinear_arith);
        assert(pow256((s.len() - k) as nat) == 256 * p);
        assert(be_value(s) == a * (256 * p) + be_value(s.skip(k)));
    }
}

/// The power table up to `pow256(8)`, enough for one 64-bit word.
pub proof fn lemma_pow256_words()
    ensures
        pow256(8) == 0x1_0000_0000_0000_0000,
        pow256(7) == 0x100_0000_0000_0000,
{
    reveal_with_fuel(pow256, 9);
}

/// A 20-byte ledger address.
#[derive(Debug, PartialEq, Eq)]
pub struct Address {
    pub bytes: Vec<u8>,
}

impl Address {
    pub open spec fn wf(&self) -> bool {
        self.bytes@.len() == 20
    }
}

impl Clone for Address {
    fn clone(&self) -> (r: Self)
        ensures
            r.bytes@ == self.bytes@,
    {
        let r = Address { bytes: self.bytes.clone() };
        proof {
            assert(r.bytes@ =~= self.bytes@);
        }
        r
    }
}

/// A 32-byte hash committed on the ledger.
#[derive(Debug, PartialEq, Eq)]
pub struct Hash256 {
    pub bytes: Vec<u8>,
}

impl Hash256 {
    pub open spec fn wf(&self) -> bool {
        self.bytes@.len() == 32
    }
}

impl Clone for Hash256 {
    fn clone(&self) -> (r: Self)
        ensures
            r.bytes@ == self.bytes@,
    {
        let r = Hash256 { bytes: self.bytes.clone() };
        proof {
            assert(r.bytes@ =~= self.bytes@);
        }
        r
    }
}

/// An unsigned 256-bit integer, stored as 32 big-endian bytes.
#[derive(Debug, PartialEq, Eq)]
pub struct Uint256 {
    pub bytes: Vec<u8>,
}

impl Uint256 {
    pub open spec fn wf(&self) -> bool {
        self.bytes@.len() == 32
    }

    /// The numeric value this word stands for.
    pub open spec fn value(&self) -> nat {
        be_value(self.bytes@)
    }
}

impl Clone for Uint256 {
    fn clone(&self) -> (r: Self)
        ensures
            r.bytes@ == self.bytes@,
    {
        let r = Uint256 { bytes: self.bytes.clone() };
        proof {
            assert(r.bytes@ =~= self.bytes@);
        }
        r
    }
}

/// The zero word.
pub fn uint256_zero() -> (r: Uint256)
    ensures
        r.wf(),
        r.bytes@ == Seq::new(32, |i: int| 0u8),
{
    let bytes: Vec<u8> = vec![0u8; 32];
    proof {
        assert(bytes@ =~= Seq::new(32, |i: int| 0u8));
    }
    Uint256 { bytes }
}

/// The 24 zero bytes that extend an 8-byte word to a 256-bit word.
pub open spec fn padded(s: Seq<u8>) -> Seq<u8> {
    Seq::new(24, |i: int| 0u8) + s
}

/// Extends an 8-byte memory word to the 256-bit word the ledger call takes,
/// by prefixing 24 zero bytes.
pub fn uint256_from_word8(word: &Vec<u8>) -> (r: Uint256)
    requires
        word@.len() == 8,
    ensures
        r.wf(),
        r.bytes@ == padded(word@),
{
    let mut bytes: Vec<u8> = vec![0u8; 24];
    let mut i: usize = 0;
    while i < 8
        invariant
            word@.len() == 8,
            i <= 8,
            bytes@.len() == 24 + i,
            forall|j: int| 0 <= j < 24 ==> bytes@[j] == 0u8,
            forall|j: int| 0 <= j < i ==> bytes@[24 + j] == word@[j],
        decreases 8 - i,
    {
        bytes.push(word[i]);
        i += 1;
    }
    proof {
        assert(bytes@ =~= padded(word@));
    }
    Uint256 { bytes }
}

/// Whether two byte strings hold the same bytes.
pub fn bytes_eq(a: &Vec<u8>, b: &Vec<u8>) -> (r: bool)
    ensures
        r == (a@ == b@),
{
    if a.len() != b.len() {
        proof {
            assert(a@ != b@);
        }
        return false;
    }
    let mut i: usize = 0;
    while i < a.len()
        invariant
            a@.len() == b@.len(),
            i <= a@.len(),
            forall|j: int| 0 <= j < i ==> a@[j] == b@[j],
        decreases a@.len() - i,
    {
        if a[i] != b[i] {
            return false;
        }
        i += 1;
    }
    proof {
        assert(a@ =~= b@);
    }
    true
}

/// Reads bytes `start .. end` of `v` as one big-endian 64-bit word.
pub fn be_u64(v: &Vec<u8>, start: usize, end: usize) -> (r: u64)
    requires
        start <= end <= v@.len(),
        end - start <= 8,
    ensures
        r as nat == be_value(v@.subrange(start as int, end as int)),
{
    let mut acc: u64 = 0;
    let mut i: usize = start;
    proof {
        assert(v@.subrange(start as int, start as int) =~= Seq::<u8>::empty());
    }
    while i < end
        invariant
            start <= i <= end <= v@.len(),
            end - start <= 8,
            acc as nat == be_value(v@.subrange(start as int, i as int)),
        decreases end - i,
    {
        proof {
            let cur = v@.subrange(start as int, i as int);
            let next = v@.subrange(start as int, i as int + 1);
            assert(next.drop_last() =~= cur);
            assert(next.last() == v@[i as int]);
            lemma_be_value_bound(cur);
            lemma_pow256_words();
            assert(cur.len() <= 7);
            assert(pow256(cur.len()) <= pow256(7)) by {
                lemma_pow256_increases(cur.len(), 7);
            }
        }
        acc = acc * 256 + (v[i] as u64);
        i += 1;
    }
    acc
}

/// `pow256` grows with its exponent.
pub proof fn lemma_pow256_increases(m: nat, n: nat)
    requires
        m <= n,
    ensures
        pow256(m) <= pow256(n),
    decreases n,
{
    if m < n {
        lemma_pow256_increases(m, (n - 1) as nat);
        assert(pow256(n) == 256 * pow256((n - 1) as nat));
    }
}

/// Positions the on-chain proof count against a step log of length `len`:
/// `None` when the count says every entry below `len` was already submitted,
/// else the count itself, safe to use as an index.
pub fn history_index(h: &Uint256, len: usize) -> (r: Option<usize>)
    requires
        h.wf(),
    ensures
        match r {
            None => h.value() >= len,
            Some(i) => h.value() == i && i < len,
        },
{
    let mut i: usize = 0;
    while i < 24
        invariant
            h.wf(),
            i <= 24,
            forall|j: int| 0 <= j < i ==> h.bytes@[j] == 0,
        decreases 24 - i,
    {
        if h.bytes[i] != 0 {
            proof {
                lemma_high_byte_large(h.bytes@, i as int);
            }
            return None;
        }
        i += 1;
    }
    let lo = be_u64(&h.bytes, 24, 32);
    proof {
        lemma_be_value_split(h.bytes@, 24);
        assert forall|j: int| 0 <= j < h.bytes@.take(24).len() implies h.bytes@.take(24)[j]
            == 0 by {
            assert(h.bytes@.take(24)[j] == h.bytes@[j]);
        }
        lemma_be_value_zero(h.bytes@.take(24));
        assert(h.bytes@.skip(24) =~= h.bytes@.subrange(24, 32));
        assert(h.value() == be_value(h.bytes@.subrange(24, 32)));
        assert((len as u64) as nat == len as nat);
    }
    if lo >= len as u64 {
        None
    } else {
        Some(lo as usize)
    }
}

/// A 32-byte word with a nonzero byte among its first 24 reads as a value
/// too large for any in-memory step log length.
proof fn lemma_high_byte_large(s: Seq<u8>, i: int)
    requires
        s.len() == 32,
        0 <= i < 24,
        s[i] != 0,
    ensures
        be_value(s) >= pow256(8),
        be_value(s) > usize::MAX,
{
    lemma_be_value_split(s, 24);
    lemma_be_value_zero(s.take(24));
    assert(s.take(24)[i] == s[i]);
    assert(be_value(s.take(24)) >= 1);
    lemma_pow256_words();
    assert(be_value(s.take(24)) * pow256(8) >= pow256(8)) by (nonlinear_arith)
        requires
            be_value(s.take(24)) >= 1,
            pow256(8) == 0x1_0000_0000_0000_0000,
    ;
    assert(usize::MAX < pow256(8));
}

} // verus!
