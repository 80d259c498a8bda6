//! Fixed-width identifiers and the 256-bit unsigned integer.
//!
//! Each of them is held as unsigned machine words, most significant first,
//! so that two values are the same exactly when their words are.
use crate::vec_map::Key;
use vstd::prelude::*;

verus! {

/// Number of most recent block hashes that stay available.
pub const BLOCK_HASH_HISTORY: u64 = 256;

/// The count `n` as a `usize` can hold it: no less than zero and no more
/// than the largest value.
pub open spec fn clipped(n: int) -> int {
    if n > usize::MAX {
        usize::MAX as int
    } else if n < 0 {
        0
    } else {
        n
    }
}

/// Two to the power 128.
pub open spec fn pow2_128() -> nat {
    0x1_0000_0000_0000_0000_0000_0000_0000_0000nat
}

/// The largest value of 256 bits.
pub open spec fn max_u256() -> nat {
    (pow2_128() * pow2_128() - 1) as nat
}

/// 256 to the power `n`.
pub open spec fn pow256(n: nat) -> nat
    decreases n,
{
    if n == 0 {
        1
    } else {
        256 * pow256((n - 1) as nat)
    }
}

/// The number that `bytes` spell, most significant byte first.
pub open spec fn be_value(bytes: Seq<u8>) -> nat
    decreases bytes.len(),
{
    if bytes.len() == 0 {
        0
    } else {
        be_value(bytes.drop_last()) * 256 + bytes.last() as nat
    }
}

pub proof fn lemma_be_value_bound(bytes: Seq<u8>)
    ensures
        be_value(bytes) < pow256(bytes.len()),
    decreases bytes.len(),
{
    if bytes.len() > 0 {
        lemma_be_value_bound(bytes.drop_last());
        let n = pow256((bytes.len() - 1) as nat);
        assert(be_value(bytes.drop_last()) * 256 + 255 < 256 * n) by (nonlinear_arith)
            requires
                be_value(bytes.drop_last()) < n,
        ;
    }
}

pub proof fn lemma_pow256_16()
    ensures
        pow256(16) == pow2_128(),
        pow256(4) == 0x1_0000_0000,
{
    reveal_with_fuel(pow256, 17);
}

/// Reads up to sixteen bytes of `bytes`, from `start` on, as one number.
pub fn read_be(bytes: &[u8], start: usize, count: usize) -> (value: u128)
    requires
        count <= 16,
        start + count <= bytes@.len(),
    ensures
        value == be_value(bytes@.subrange(start as int, start + count)),
{
    let length: usize = bytes.len();
    let mut value: u128 = 0;
    let mut i: usize = 0;
    while i < count
        invariant
            i <= count <= 16,
            start + count <= bytes@.len(),
            length == bytes@.len(),
            value == be_value(bytes@.subrange(start as int, start + i)),
        decreases count - i,
    {
        let ghost done = bytes@.subrange(start as int, start + i);
        let ghost next = bytes@.subrange(start as int, start + i + 1);
        proof {
            assert(next.drop_last() == done);
            assert(next.last() == bytes@[start + i]);
            lemma_be_value_bound(next);
            lemma_pow256_bound((i + 1) as nat);
        }
        value = value * 256 + bytes[start + i] as u128;
        i += 1;
    }
    value
}

pub proof fn lemma_pow256_bound(n: nat)
    requires
        n <= 16,
    ensures
        pow256(n) <= pow2_128(),
    decreases 16 - n,
{
    lemma_pow256_16();
    if n < 16 {
        lemma_pow256_bound(n + 1);
    }
}

/// The address of an account: 160 bits.
#[derive(Clone, Copy, Debug, PartialEq, Eq, Structural, Hash, PartialOrd, Ord)]
pub struct Address {
    /// The first four bytes.
    pub hi: u32,
    /// The last sixteen bytes.
    pub lo: u128,
}

impl Address {
    /// The address whose twenty bytes are `bytes`.
    pub fn from_slice(bytes: &[u8]) -> (address: Address)
        requires
            bytes@.len() == 20,
        ensures
            address.hi == be_value(bytes@.subrange(0, 4)),
            address.lo == be_value(bytes@.subrange(4, 20)),
    {
        let hi = read_be(bytes, 0, 4);
        let lo = read_be(bytes, 4, 16);
        proof {
            lemma_be_value_bound(bytes@.subrange(0, 4));
            lemma_pow256_16();
        }
        Address { hi: hi as u32, lo }
    }
}

impl Key for Address {
    fn same(&self, other: &Self) -> (r: bool) {
        *self == *other
    }
}

/// A hash of 256 bits.
#[derive(Clone, Copy, Debug, PartialEq, Eq, Structural, Hash, PartialOrd, Ord)]
pub struct B256 {
    /// The first sixteen bytes.
    pub hi: u128,
    /// The last sixteen bytes.
    pub lo: u128,
}

impl B256 {
    /// The hash whose thirty-two bytes are `bytes`.
    pub fn from_be_bytes(bytes: &[u8; 32]) -> (hash: B256)
        ensures
            hash.hi == be_value(bytes@.subrange(0, 16)),
            hash.lo == be_value(bytes@.subrange(16, 32)),
    {
        let all = bytes.as_slice();
        B256 { hi: read_be(all, 0, 16), lo: read_be(all, 16, 16) }
    }

    /// The hash of all zero bytes.
    pub fn zero() -> (hash: B256)
        ensures
            hash == (B256 { hi: 0, lo: 0 }),
    {
        B256 { hi: 0, lo: 0 }
    }
}

impl Key for B256 {
    fn same(&self, other: &Self) -> (r: bool) {
        *self == *other
    }
}

/// The Keccak-256 hash of the empty byte string.
pub open spec fn keccak_empty() -> B256 {
    B256 {
        hi: 0xc5d2_4601_86f7_233c_927e_7db2_dcc7_03c0,
        lo: 0xe500_b653_ca82_273b_7bfa_d804_5d85_a470,
    }
}

/// The Keccak-256 hash of the empty byte string.
pub fn empty_code_hash() -> (hash: B256)
    ensures
        hash == keccak_empty(),
{
    B256 {
        hi: 0xc5d2_4601_86f7_233c_927e_7db2_dcc7_03c0,
        lo: 0xe500_b653_ca82_273b_7bfa_d804_5d85_a470,
    }
}

/// An unsigned integer of 256 bits.
#[derive(Clone, Copy, Debug, PartialEq, Eq, Structural, Hash, PartialOrd, Ord)]
pub struct U256 {
    /// The upper 128 bits.
    pub hi: u128,
    /// The lower 128 bits.
    pub lo: u128,
}

/// The key of a storage slot.
pub type StorageKey = U256;

/// The value of a storage slot.
pub type StorageValue = U256;

impl U256 {
    /// The number that the two halves stand for.
    pub open spec fn value(self) -> nat {
        self.hi as nat * pow2_128() + self.lo as nat
    }

    pub open spec fn spec_zero() -> U256 {
        U256 { hi: 0, lo: 0 }
    }

    #[verifier::when_used_as_spec(spec_zero)]
    pub fn zero() -> (n: U256)
        ensures
            n == U256::spec_zero(),
            n.value() == 0,
    {
        U256 { hi: 0, lo: 0 }
    }

    pub open spec fn spec_from_u128(n: u128) -> U256 {
        U256 { hi: 0, lo: n }
    }

    #[verifier::when_used_as_spec(spec_from_u128)]
    pub fn from_u128(n: u128) -> (r: U256)
        ensures
            r == U256::spec_from_u128(n),
            r.value() == n,
    {
        U256 { hi: 0, lo: n }
    }

    pub open spec fn spec_from_u64(n: u64) -> U256 {
        U256 { hi: 0, lo: n as u128 }
    }

    #[verifier::when_used_as_spec(spec_from_u64)]
    pub fn from_u64(n: u64) -> (r: U256)
        ensures
            r == U256::spec_from_u64(n),
            r.value() == n,
    {
        U256 { hi: 0, lo: n as u128 }
    }

    pub fn is_zero(&self) -> (r: bool)
        ensures
            r == (*self == U256::spec_zero()),
            r == (self.value() == 0),
    {
        proof {
            if self.hi > 0 {
                assert(self.hi as nat * pow2_128() > 0) by (nonlinear_arith)
                    requires
                        self.hi > 0,
                        pow2_128() > 0,
                ;
            }
        }
        self.hi == 0 && self.lo == 0
    }

    /// The sum of `self` and `other`, or the largest value where the sum does not fit.
    pub open spec fn spec_saturating_add(self, other: U256) -> U256 {
        if self.value() + other.value() > max_u256() {
            U256 { hi: u128::MAX, lo: u128::MAX }
        } else if self.lo + other.lo > u128::MAX {
            U256 {
                hi: (self.hi + other.hi + 1) as u128,
                lo: (self.lo + other.lo - pow2_128()) as u128,
            }
        } else {
            U256 { hi: (self.hi + other.hi) as u128, lo: (self.lo + other.lo) as u128 }
        }
    }

    /// The sum of `self` and `other`, or the largest value where the sum does not fit.
    #[verifier::when_used_as_spec(spec_saturating_add)]
    pub fn saturating_add(self, other: U256) -> (sum: U256)
        ensures
            sum == self.spec_saturating_add(other),
            sum.value() == if self.value() + other.value() > max_u256() {
                max_u256()
            } else {
                self.value() + other.value()
            },
    {
        let ghost p = pow2_128();
        proof {
            assert(u128::MAX as nat * p + u128::MAX as nat == p * p - 1) by (nonlinear_arith)
                requires
                    p == u128::MAX + 1,
            ;
            assert((self.hi + other.hi) * p == self.hi * p + other.hi * p) by (nonlinear_arith);
            assert((self.hi + other.hi + 1) * p == self.hi * p + other.hi * p + p)
                by (nonlinear_arith);
            if self.hi + other.hi >= p {
                assert((self.hi + other.hi) * p >= p * p) by (nonlinear_arith)
                    requires
                        self.hi + other.hi >= p,
                ;
            }
            if self.hi + other.hi + 1 >= p {
                assert((self.hi + other.hi + 1) * p >= p * p) by (nonlinear_arith)
                    requires
                        self.hi + other.hi + 1 >= p,
                ;
            }
            if self.hi + other.hi + 1 < p {
                assert((self.hi + other.hi + 1) * p <= (p - 1) * p) by (nonlinear_arith)
                    requires
                        self.hi + other.hi + 1 <= p - 1,
                ;
                assert((p - 1) * p == p * p - p) by (nonlinear_arith);
            }
            if self.hi + other.hi < p {
                assert((self.hi + other.hi) * p <= (p - 1) * p) by (nonlinear_arith)
                    requires
                        self.hi + other.hi <= p - 1,
                ;
                assert((p - 1) * p == p * p - p) by (nonlinear_arith);
            }
        }
        let largest = U256 { hi: u128::MAX, lo: u128::MAX };
        let (lo, carry): (u128, u128) = match self.lo.checked_add(other.lo) {
            Some(lo) => (lo, 0),
            None => (self.lo - (u128::MAX - other.lo) - 1, 1),
        };
        match self.hi.checked_add(other.hi) {
            None => largest,
            Some(hi) => match hi.checked_add(carry) {
                None => largest,
                Some(hi) => U256 { hi, lo },
            },
        }
    }
}

impl Key for U256 {
    fn same(&self, other: &Self) -> (r: bool) {
        *self == *other
    }
}

} // verus!
