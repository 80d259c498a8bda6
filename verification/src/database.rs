//! The database that backs the cache, and the one that holds nothing.
use crate::account_info::AccountInfo;
use crate::bytecode::Bytecode;
use crate::primitives::{be_value, Address, StorageKey, StorageValue, B256, U256};
use std::convert::Infallible;
use vstd::prelude::*;

verus! {

/// What the cache asks of the database behind it. Each of the four questions
/// may fail with the error of the database.
pub trait Database {
    type Error;

    /// The database may be asked for the storage of the account at
    /// `address`. A database answers for every account unless it says
    /// otherwise.
    open spec fn storage_ready(&self, address: Address) -> bool {
        true
    }

    /// The info of the account at `address`, if the account exists.
    fn basic(&mut self, address: Address) -> Result<Option<AccountInfo>, Self::Error>;

    /// The code with hash `code_hash`.
    fn code_by_hash(&mut self, code_hash: B256) -> Result<Bytecode, Self::Error>;

    /// The value of slot `index` of the account at `address`.
    fn storage(&mut self, address: Address, index: StorageKey) -> Result<
        StorageValue,
        Self::Error,
    >
        requires
            old(self).storage_ready(address),
    ;

    /// The hash of block `number`.
    fn block_hash(&mut self, number: u64) -> Result<B256, Self::Error>;
}

/// The same four questions of a database that answers without being changed.
pub trait DatabaseRef {
    type Error;

    /// The info of the account at `address`, if the account exists.
    fn basic_ref(&self, address: Address) -> Result<Option<AccountInfo>, Self::Error>;

    /// The code with hash `code_hash`.
    fn code_by_hash_ref(&self, code_hash: B256) -> Result<Bytecode, Self::Error>;

    /// The value of slot `index` of the account at `address`.
    fn storage_ref(&self, address: Address, index: StorageKey) -> Result<
        StorageValue,
        Self::Error,
    >;

    /// The hash of block `number`.
    fn block_hash_ref(&self, number: u64) -> Result<B256, Self::Error>;
}

/// `answer` is one that the database, standing as `database`, may give when
/// it is asked for the info of the account at `address`.
pub open spec fn may_answer_basic<DB: Database>(
    database: DB,
    address: Address,
    answer: Result<Option<AccountInfo>, DB::Error>,
) -> bool {
    exists|db: &mut DB|
        *db == database && #[trigger] call_ensures(DB::basic, (db, address), answer)
}

/// The Keccak-256 digest of a byte string: thirty-two bytes.
pub uninterp spec fn keccak256_digest(data: Seq<u8>) -> Seq<u8>;

/// The Keccak-256 digest of `data`.
///
/// Calls `alloy_primitives::keccak256`, which hashes the bytes it is given
/// and nothing else, and returns the thirty-two bytes of the digest. The
/// contract gives that digest a name and claims no more of it.
#[verifier::external_body]
fn keccak256_bytes(data: &[u8]) -> (digest: [u8; 32])
    ensures
        digest@ == keccak256_digest(data@),
{
    alloy_primitives::keccak256(data).0
}

/// The hash that the thirty-two bytes of a digest spell.
pub open spec fn hash_of_digest(digest: Seq<u8>) -> B256 {
    B256 {
        hi: be_value(digest.subrange(0, 16)) as u128,
        lo: be_value(digest.subrange(16, 32)) as u128,
    }
}

/// The Keccak-256 hash of `data`.
pub fn keccak256(data: &[u8]) -> (hash: B256)
    ensures
        hash == hash_of_digest(keccak256_digest(data@)),
{
    let digest = keccak256_bytes(data);
    B256::from_be_bytes(&digest)
}

/// The decimal digits of `n` as ASCII bytes, without leading zeros.
pub open spec fn decimal(n: nat) -> Seq<u8>
    decreases n,
{
    if n < 10 {
        seq![(48 + n) as u8]
    } else {
        decimal(n / 10).push((48 + n % 10) as u8)
    }
}

/// Appends the decimal digits of `n` to `out`.
pub fn push_decimal(n: u64, out: &mut Vec<u8>)
    ensures
        final(out)@ == old(out)@ + decimal(n as nat),
    decreases n,
{
    if n >= 10 {
        push_decimal(n / 10, out);
    }
    let digit: u8 = 48 + (n % 10) as u8;
    out.push(digit);
    proof {
        assert(final(out)@ =~= old(out)@ + decimal(n as nat));
    }
}

/// The hash that the empty database gives for block `number`: the Keccak-256
/// hash of the decimal digits of the number.
pub open spec fn empty_block_hash(number: u64) -> B256 {
    hash_of_digest(keccak256_digest(decimal(number as nat)))
}

/// A database that holds nothing: no account exists, every code is empty,
/// every slot is zero.
#[derive(Clone, Copy, Debug, Default, PartialEq, Eq)]
pub struct EmptyDB {}

impl EmptyDB {
    pub fn new() -> (db: Self) {
        EmptyDB {  }
    }
}

impl DatabaseRef for EmptyDB {
    type Error = Infallible;

    fn basic_ref(&self, address: Address) -> (info: Result<Option<AccountInfo>, Infallible>)
        ensures
            info == Ok::<Option<AccountInfo>, Infallible>(None),
    {
        Ok(None)
    }

    fn code_by_hash_ref(&self, code_hash: B256) -> (code: Result<Bytecode, Infallible>)
        ensures
            code is Ok,
            code.unwrap()@ == Seq::<u8>::empty(),
    {
        Ok(Bytecode::new(Vec::new()))
    }

    fn storage_ref(&self, address: Address, index: StorageKey) -> (value: Result<
        StorageValue,
        Infallible,
    >)
        ensures
            value == Ok::<StorageValue, Infallible>(U256::spec_zero()),
    {
        Ok(U256::zero())
    }

    fn block_hash_ref(&self, number: u64) -> (hash: Result<B256, Infallible>)
        ensures
            hash == Ok::<B256, Infallible>(empty_block_hash(number)),
    {
        let mut digits: Vec<u8> = Vec::new();
        push_decimal(number, &mut digits);
        Ok(keccak256(digits.as_slice()))
    }
}

impl Database for EmptyDB {
    type Error = Infallible;

    fn basic(&mut self, address: Address) -> (info: Result<Option<AccountInfo>, Infallible>)
        ensures
            info == Ok::<Option<AccountInfo>, Infallible>(None),
            *final(self) == *old(self),
    {
        self.basic_ref(address)
    }

    fn code_by_hash(&mut self, code_hash: B256) -> (code: Result<Bytecode, Infallible>)
        ensures
            code is Ok,
            code.unwrap()@ == Seq::<u8>::empty(),
            *final(self) == *old(self),
    {
        self.code_by_hash_ref(code_hash)
    }

    fn storage(&mut self, address: Address, index: StorageKey) -> (value: Result<
        StorageValue,
        Infallible,
    >)
        ensures
            value == Ok::<StorageValue, Infallible>(U256::spec_zero()),
            *final(self) == *old(self),
    {
        self.storage_ref(address, index)
    }

    fn block_hash(&mut self, number: u64) -> (hash: Result<B256, Infallible>)
        ensures
            hash == Ok::<B256, Infallible>(empty_block_hash(number)),
            *final(self) == *old(self),
    {
        self.block_hash_ref(number)
    }
}

} // verus!
