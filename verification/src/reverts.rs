//! What it takes to undo the changes of a block.
use crate::account_info::AccountInfo;
use crate::account_status::AccountStatus;
use crate::primitives::{clipped, StorageKey, StorageValue};
use crate::vec_map::VecMap;
use vstd::prelude::*;

verus! {

/// How to undo the change of one slot.
#[derive(Clone, Copy, Debug, PartialEq, Eq, Structural, Hash)]
pub enum RevertToSlot {
    /// Give the slot this value back.
    Restore(StorageValue),
    /// Drop the slot: it came into being with the account.
    Destroyed,
}

/// How to undo the change of the info of an account.
#[derive(Debug, Default, PartialEq, Eq)]
pub enum AccountInfoRevert {
    /// The info stays as it is.
    #[default]
    DoNothing,
    /// The account did not exist: remove its info.
    DeleteIt,
    /// Give the account this info back.
    RevertTo(AccountInfo),
}

impl Clone for AccountInfoRevert {
    fn clone(&self) -> (revert: Self)
        ensures
            revert == *self,
    {
        match self {
            AccountInfoRevert::DoNothing => AccountInfoRevert::DoNothing,
            AccountInfoRevert::DeleteIt => AccountInfoRevert::DeleteIt,
            AccountInfoRevert::RevertTo(info) => AccountInfoRevert::RevertTo(info.clone()),
        }
    }
}

/// How to undo the changes that one block made to one account.
#[derive(Debug, Default, PartialEq, Eq)]
pub struct AccountRevert {
    pub account: AccountInfoRevert,
    pub storage: VecMap<StorageKey, RevertToSlot>,
    /// The status that the account had before the block.
    pub previous_status: AccountStatus,
    /// The block wiped the storage that the account had before.
    pub wipe_storage: bool,
}

/// The model of an [`AccountRevert`].
#[verifier::ext_equal]
pub struct AccountRevertView {
    pub account: AccountInfoRevert,
    pub storage: Map<StorageKey, RevertToSlot>,
    pub previous_status: AccountStatus,
    pub wipe_storage: bool,
}

impl AccountRevert {
    pub open spec fn view(&self) -> AccountRevertView {
        AccountRevertView {
            account: self.account,
            storage: self.storage@,
            previous_status: self.previous_status,
            wipe_storage: self.wipe_storage,
        }
    }

    /// A number that grows with the room the revert takes: one for the
    /// account and one for each slot.
    pub fn size_hint(&self) -> (n: usize)
        ensures
            n == clipped(1 + self.storage.entries().len() as int),
    {
        self.storage.len().saturating_add(1)
    }
}

} // verus!
