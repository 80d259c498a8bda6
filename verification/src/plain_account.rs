//! An account as the database would hold it.
use crate::account_info::AccountInfo;
use crate::primitives::{StorageKey, StorageValue};
use crate::storage::PlainStorage;
use vstd::prelude::*;

verus! {

/// The info of an account together with the slots that are known of its storage.
#[derive(Debug, Default, PartialEq, Eq)]
pub struct PlainAccount {
    pub info: AccountInfo,
    pub storage: PlainStorage,
}

/// The model of a [`PlainAccount`].
#[verifier::ext_equal]
pub struct PlainAccountView {
    pub info: AccountInfo,
    pub storage: Map<StorageKey, StorageValue>,
}

impl PlainAccount {
    pub open spec fn view(&self) -> PlainAccountView {
        PlainAccountView { info: self.info, storage: self.storage@ }
    }

    /// An empty account that holds `storage`.
    pub fn new_empty_with_storage(storage: PlainStorage) -> (account: Self)
        ensures
            account.info == AccountInfo::default_info(),
            account.storage == storage,
    {
        PlainAccount { info: AccountInfo::default(), storage }
    }

    /// The value of slot `key`, if it is known.
    pub fn storage_slot(&self, key: StorageKey) -> (value: Option<StorageValue>)
        ensures
            value == (if self.storage@.contains_key(key) {
                Some(self.storage@[key])
            } else {
                None
            }),
    {
        match self.storage.get(&key) {
            Some(value) => Some(*value),
            None => None,
        }
    }
}

} // verus!
