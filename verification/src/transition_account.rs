//! The change that a block has made to one account so far.
use crate::account_info::AccountInfo;
use crate::account_status::AccountStatus;
use crate::bytecode::Bytecode;
use crate::primitives::{empty_code_hash, keccak_empty, StorageKey, B256};
use crate::storage::{composed_storage, merge_slots, StorageSlot, StorageWithOriginalValues};
use crate::vec_map::VecMap;
use vstd::prelude::*;

verus! {

/// An account before and after a change.
#[derive(Debug, PartialEq, Eq)]
pub struct TransitionAccount {
    /// The info after the change; `None` where the account is gone.
    pub info: Option<AccountInfo>,
    /// The status after the change.
    pub status: AccountStatus,
    /// The info before the change.
    pub previous_info: Option<AccountInfo>,
    /// The status before the change.
    pub previous_status: AccountStatus,
    /// The slots that the change wrote.
    pub storage: StorageWithOriginalValues,
    /// The change wiped the storage that the account had before.
    pub storage_was_destroyed: bool,
}

/// The model of a [`TransitionAccount`].
#[verifier::ext_equal]
pub struct TransitionAccountView {
    pub info: Option<AccountInfo>,
    pub status: AccountStatus,
    pub previous_info: Option<AccountInfo>,
    pub previous_status: AccountStatus,
    pub storage: Map<StorageKey, StorageSlot>,
    pub storage_was_destroyed: bool,
}

impl TransitionAccountView {
    /// The change that `self` followed by `newer` amounts to.
    pub open spec fn compose(self, newer: TransitionAccountView) -> TransitionAccountView {
        TransitionAccountView {
            info: newer.info,
            status: newer.status,
            previous_info: self.previous_info,
            previous_status: self.previous_status,
            storage: composed_storage(self.storage, newer.storage, newer.storage_was_destroyed),
            storage_was_destroyed: self.storage_was_destroyed || newer.storage_was_destroyed,
        }
    }

    /// The code that the change brought in: the code of the new info, where
    /// its hash differs from the one before and is not that of the empty code.
    pub open spec fn new_contract(self) -> Option<(B256, Bytecode)> {
        match self.info {
            Some(info) => {
                let unchanged = self.previous_info is Some && self.previous_info.unwrap().code_hash
                    == info.code_hash;
                if !unchanged && info.code is Some && info.code_hash != keccak_empty() {
                    Some((info.code_hash, info.code.unwrap()))
                } else {
                    None
                }
            },
            None => None,
        }
    }
}

impl Default for TransitionAccount {
    fn default() -> (transition: Self)
        ensures
            transition@ == (TransitionAccountView {
                info: None,
                status: AccountStatus::LoadedNotExisting,
                previous_info: None,
                previous_status: AccountStatus::LoadedNotExisting,
                storage: Map::empty(),
                storage_was_destroyed: false,
            }),
    {
        TransitionAccount {
            info: None,
            status: AccountStatus::LoadedNotExisting,
            previous_info: None,
            previous_status: AccountStatus::LoadedNotExisting,
            storage: VecMap::new(),
            storage_was_destroyed: false,
        }
    }
}

impl TransitionAccount {
    pub open spec fn view(&self) -> TransitionAccountView {
        TransitionAccountView {
            info: self.info,
            status: self.status,
            previous_info: self.previous_info,
            previous_status: self.previous_status,
            storage: self.storage@,
            storage_was_destroyed: self.storage_was_destroyed,
        }
    }

    /// The code that the change brought in, with its hash.
    pub fn has_new_contract(&self) -> (contract: Option<(B256, &Bytecode)>)
        ensures
            match contract {
                Some((hash, code)) => self@.new_contract() == Some((hash, *code)),
                None => self@.new_contract() is None,
            },
    {
        match &self.info {
            Some(info) => {
                let unchanged = match &self.previous_info {
                    Some(previous) => previous.code_hash == info.code_hash,
                    None => false,
                };
                if unchanged || info.code_hash == empty_code_hash() {
                    None
                } else {
                    match &info.code {
                        Some(code) => Some((info.code_hash, code)),
                        None => None,
                    }
                }
            },
            None => None,
        }
    }

    /// Takes `newer`, a change that follows this one, into this one.
    pub fn update(&mut self, newer: TransitionAccount)
        ensures
            final(self)@ == old(self)@.compose(newer@),
    {
        let TransitionAccount {
            info,
            status,
            previous_info: _,
            previous_status: _,
            storage,
            storage_was_destroyed,
        } = newer;
        self.info = info;
        self.status = status;
        if storage_was_destroyed {
            self.storage = storage;
            self.storage_was_destroyed = true;
        } else {
            merge_slots(&mut self.storage, &storage);
        }
    }
}

} // verus!
