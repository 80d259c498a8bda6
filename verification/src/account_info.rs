//! What is known of an account besides its storage.
use crate::bytecode::Bytecode;
use crate::primitives::{empty_code_hash, keccak_empty, B256, U256};
use crate::primitives::StorageKey;
use crate::storage::{StorageSlot, StorageWithOriginalValues};
use vstd::prelude::*;

verus! {

/// Balance, nonce and code of an account.
#[derive(Debug, PartialEq, Eq)]
pub struct AccountInfo {
    pub balance: U256,
    pub nonce: u64,
    /// The hash of the code.
    pub code_hash: B256,
    /// The code, where it has been loaded.
    pub code: Option<Bytecode>,
}

impl Clone for AccountInfo {
    fn clone(&self) -> (info: Self)
        ensures
            info == *self,
    {
        AccountInfo {
            balance: self.balance,
            nonce: self.nonce,
            code_hash: self.code_hash,
            code: self.code.clone(),
        }
    }
}

impl Default for AccountInfo {
    fn default() -> (info: Self)
        ensures
            info == AccountInfo::default_info(),
    {
        AccountInfo { balance: U256::zero(), nonce: 0, code_hash: empty_code_hash(), code: None }
    }
}

impl AccountInfo {
    /// The empty account: no balance, nonce zero, no code.
    pub open spec fn default_info() -> AccountInfo {
        AccountInfo { balance: U256::spec_zero(), nonce: 0, code_hash: keccak_empty(), code: None }
    }

    /// Balance zero, nonce zero and the code hash of the empty code.
    pub open spec fn spec_is_empty(&self) -> bool {
        &&& self.balance == U256::spec_zero()
        &&& self.nonce == 0
        &&& self.code_hash == keccak_empty()
    }

    #[verifier::when_used_as_spec(spec_is_empty)]
    pub fn is_empty(&self) -> (r: bool)
        ensures
            r == self.spec_is_empty(),
    {
        self.balance.is_zero() && self.nonce == 0 && self.code_hash == empty_code_hash()
    }

    /// Both describe the same account: balance, nonce and code hash agree.
    /// The code itself is not compared, its hash stands for it.
    pub open spec fn agrees(&self, other: &AccountInfo) -> bool {
        &&& self.balance == other.balance
        &&& self.nonce == other.nonce
        &&& self.code_hash == other.code_hash
    }

    pub fn same(&self, other: &AccountInfo) -> (r: bool)
        ensures
            r == self.agrees(other),
    {
        self.balance == other.balance && self.nonce == other.nonce && self.code_hash
            == other.code_hash
    }
}

/// Two optional infos describe the same account, or both describe none.
pub open spec fn infos_agree(a: Option<AccountInfo>, b: Option<AccountInfo>) -> bool {
    match (a, b) {
        (None, None) => true,
        (Some(x), Some(y)) => x.agrees(&y),
        _ => false,
    }
}

pub fn same_infos(a: &Option<AccountInfo>, b: &Option<AccountInfo>) -> (r: bool)
    ensures
        r == infos_agree(*a, *b),
{
    match (a, b) {
        (None, None) => true,
        (Some(x), Some(y)) => x.same(y),
        _ => false,
    }
}

/// What the virtual machine reports of an account after a transaction.
#[derive(Debug, Default, PartialEq, Eq)]
pub struct Account {
    pub info: AccountInfo,
    /// The slots that the transaction read or wrote.
    pub storage: StorageWithOriginalValues,
    /// The transaction touched the account.
    pub touched: bool,
    /// The transaction created the account.
    pub created: bool,
    /// The account destroyed itself in the transaction.
    pub selfdestructed: bool,
}

/// The model of an [`Account`].
#[verifier::ext_equal]
pub struct AccountView {
    pub info: AccountInfo,
    pub storage: Map<StorageKey, StorageSlot>,
    pub touched: bool,
    pub created: bool,
    pub selfdestructed: bool,
}

impl Account {
    pub open spec fn view(&self) -> AccountView {
        AccountView {
            info: self.info,
            storage: self.storage@,
            touched: self.touched,
            created: self.created,
            selfdestructed: self.selfdestructed,
        }
    }

    /// The account has neither balance nor nonce nor code.
    pub fn is_empty(&self) -> (r: bool)
        ensures
            r == self.info.is_empty(),
    {
        self.info.is_empty()
    }
}

} // verus!
