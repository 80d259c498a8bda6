//! One account of the cache, and what each kind of change does to it.
use crate::account_info::AccountInfo;
use crate::account_status::AccountStatus;
use crate::bundle_account::{BundleAccount, BundleAccountView};
use crate::plain_account::{PlainAccount, PlainAccountView};
use crate::primitives::{Address, StorageKey, StorageValue, U256};
use crate::storage::{
    present_values, present_values_of, write_values, PlainStorage, StorageSlot,
    StorageWithOriginalValues,
};
use crate::transition_account::{TransitionAccount, TransitionAccountView};
use crate::vec_map::VecMap;
use vstd::prelude::*;

verus! {

/// An account as the cache holds it: its data, where it exists, and its status.
#[derive(Debug, Default, PartialEq, Eq)]
pub struct CacheAccount {
    pub account: Option<PlainAccount>,
    pub status: AccountStatus,
}

/// What it takes to set an account back after its balance was changed: what
/// the cache held of the account before the change.
#[derive(Clone, Copy, Debug, PartialEq, Eq)]
pub struct BalanceUndo {
    pub address: Address,
    /// The cache held the account before it was loaded for the change.
    pub was_cached: bool,
    /// The account had data before the change.
    pub had_data: bool,
    /// The balance before the change; zero for an account without data.
    pub balance: U256,
    /// The status before the change.
    pub status: AccountStatus,
}

/// The model of a [`CacheAccount`].
#[verifier::ext_equal]
pub struct CacheAccountView {
    pub account: Option<PlainAccountView>,
    pub status: AccountStatus,
}

impl CacheAccountView {
    /// The data is missing exactly where the status says that the account is absent.
    pub open spec fn is_consistent(self) -> bool {
        self.account is None <==> self.status.is_absent()
    }

    /// The info of the account, if it exists.
    pub open spec fn info(self) -> Option<AccountInfo> {
        match self.account {
            Some(account) => Some(account.info),
            None => None,
        }
    }

    /// The slots known of the account; none where it does not exist.
    pub open spec fn storage(self) -> Map<StorageKey, StorageValue> {
        match self.account {
            Some(account) => account.storage,
            None => Map::empty(),
        }
    }

    /// The account as it is loaded from what the database says of it.
    pub open spec fn loaded(info: Option<AccountInfo>) -> CacheAccountView {
        match info {
            None => CacheAccountView { account: None, status: AccountStatus::LoadedNotExisting },
            Some(info) => CacheAccountView {
                account: Some(PlainAccountView { info, storage: Map::empty() }),
                status: if info.is_empty() {
                    AccountStatus::LoadedEmptyEIP161
                } else {
                    AccountStatus::Loaded
                },
            },
        }
    }

    /// The account as it is loaded from an account of a bundle.
    pub open spec fn from_bundle(account: BundleAccountView) -> CacheAccountView {
        CacheAccountView {
            account: match account.info {
                Some(info) => Some(
                    PlainAccountView { info, storage: present_values(account.storage) },
                ),
                None => None,
            },
            status: account.status,
        }
    }

    /// The change from `self` to `after` that wrote `storage`.
    pub open spec fn transition_to(
        self,
        after: CacheAccountView,
        storage: Map<StorageKey, StorageSlot>,
        storage_was_destroyed: bool,
    ) -> TransitionAccountView {
        TransitionAccountView {
            info: after.info(),
            status: after.status,
            previous_info: self.info(),
            previous_status: self.status,
            storage,
            storage_was_destroyed,
        }
    }

    /// The account after it destroyed itself.
    pub open spec fn selfdestructed(self) -> CacheAccountView {
        CacheAccountView { account: None, status: self.status.on_selfdestructed() }
    }

    /// The account after it was created with `info` and the slots `storage`.
    pub open spec fn created(
        self,
        info: AccountInfo,
        storage: Map<StorageKey, StorageSlot>,
    ) -> CacheAccountView {
        CacheAccountView {
            account: Some(PlainAccountView { info, storage: present_values(storage) }),
            status: self.status.on_created(),
        }
    }

    /// The account after its info became `info` and the slots `storage` were written.
    pub open spec fn changed(
        self,
        info: AccountInfo,
        storage: Map<StorageKey, StorageSlot>,
        state_clear: bool,
    ) -> CacheAccountView {
        CacheAccountView {
            account: Some(
                PlainAccountView {
                    info,
                    storage: self.storage().union_prefer_right(present_values(storage)),
                },
            ),
            status: self.status.on_changed(state_clear),
        }
    }

    /// The account after it was touched while empty, where empty accounts are cleared.
    pub open spec fn touched_empty(self) -> CacheAccountView {
        CacheAccountView { account: None, status: AccountStatus::Destroyed }
    }

    /// The account with slot `index` known to hold `value`.
    pub open spec fn with_slot(self, index: StorageKey, value: StorageValue) -> CacheAccountView {
        match self.account {
            Some(account) => CacheAccountView {
                account: Some(
                    PlainAccountView {
                        info: account.info,
                        storage: account.storage.insert(index, value),
                    },
                ),
                status: self.status,
            },
            None => self,
        }
    }

    /// The account after `balance`, which is not zero, was added to its balance.
    pub open spec fn balance_added(self, balance: u128, state_clear: bool) -> CacheAccountView {
        self.changed(
            AccountInfo {
                balance: self.info_or_default().balance.spec_saturating_add(
                    U256::spec_from_u128(balance),
                ),
                ..self.info_or_default()
            },
            Map::empty(),
            state_clear,
        )
    }

    /// The account after its balance was taken.
    pub open spec fn drained(self, state_clear: bool) -> CacheAccountView {
        self.changed(
            AccountInfo { balance: U256::spec_zero(), ..self.info_or_default() },
            Map::empty(),
            state_clear,
        )
    }

    /// What sets the account back to `self` after a change of its balance.
    pub open spec fn balance_undo(self, address: Address, was_cached: bool) -> BalanceUndo {
        BalanceUndo {
            address,
            was_cached,
            had_data: self.account is Some,
            balance: self.info_or_default().balance,
            status: self.status,
        }
    }

    /// The account set back as `undo` says: with the balance and the status
    /// from before the change, and without data where it had none.
    pub open spec fn balance_restored(self, undo: BalanceUndo) -> CacheAccountView {
        CacheAccountView {
            account: match self.account {
                Some(account) => if undo.had_data {
                    Some(
                        PlainAccountView {
                            info: AccountInfo { balance: undo.balance, ..account.info },
                            storage: account.storage,
                        },
                    )
                } else {
                    None
                },
                None => None,
            },
            status: undo.status,
        }
    }

    /// The info of the account, or that of an empty account where it does not exist.
    pub open spec fn info_or_default(self) -> AccountInfo {
        match self.account {
            Some(account) => account.info,
            None => AccountInfo::default_info(),
        }
    }
}

impl CacheAccount {
    pub open spec fn view(&self) -> CacheAccountView {
        CacheAccountView {
            account: match self.account {
                Some(account) => Some(account@),
                None => None,
            },
            status: self.status,
        }
    }

    /// An account that the database holds, with the slots known of it.
    pub fn new_loaded(info: AccountInfo, storage: PlainStorage) -> (account: Self)
        ensures
            account@ == (CacheAccountView {
                account: Some(PlainAccountView { info, storage: storage@ }),
                status: AccountStatus::Loaded,
            }),
            account@.is_consistent(),
    {
        CacheAccount {
            account: Some(PlainAccount { info, storage }),
            status: AccountStatus::Loaded,
        }
    }

    /// An account that the database holds and that is empty.
    pub fn new_loaded_empty_eip161(storage: PlainStorage) -> (account: Self)
        ensures
            account@ == (CacheAccountView {
                account: Some(
                    PlainAccountView { info: AccountInfo::default_info(), storage: storage@ },
                ),
                status: AccountStatus::LoadedEmptyEIP161,
            }),
            account@.is_consistent(),
    {
        CacheAccount {
            account: Some(PlainAccount::new_empty_with_storage(storage)),
            status: AccountStatus::LoadedEmptyEIP161,
        }
    }

    /// An account that the database does not hold.
    pub fn new_loaded_not_existing() -> (account: Self)
        ensures
            account@ == (CacheAccountView {
                account: None,
                status: AccountStatus::LoadedNotExisting,
            }),
            account@.is_consistent(),
    {
        CacheAccount { account: None, status: AccountStatus::LoadedNotExisting }
    }

    /// An account that was created in this block.
    pub fn new_newly_created(info: AccountInfo, storage: PlainStorage) -> (account: Self)
        ensures
            account@ == (CacheAccountView {
                account: Some(PlainAccountView { info, storage: storage@ }),
                status: AccountStatus::InMemoryChange,
            }),
            account@.is_consistent(),
    {
        CacheAccount {
            account: Some(PlainAccount { info, storage }),
            status: AccountStatus::InMemoryChange,
        }
    }

    /// An account that was destroyed in this block.
    pub fn new_destroyed() -> (account: Self)
        ensures
            account@ == (CacheAccountView { account: None, status: AccountStatus::Destroyed }),
            account@.is_consistent(),
    {
        CacheAccount { account: None, status: AccountStatus::Destroyed }
    }

    /// An account that was changed in this block.
    pub fn new_changed(info: AccountInfo, storage: PlainStorage) -> (account: Self)
        ensures
            account@ == (CacheAccountView {
                account: Some(PlainAccountView { info, storage: storage@ }),
                status: AccountStatus::Changed,
            }),
            account@.is_consistent(),
    {
        CacheAccount {
            account: Some(PlainAccount { info, storage }),
            status: AccountStatus::Changed,
        }
    }

    /// The account for what the database says of it: absent, empty, or loaded.
    pub fn from_database(info: Option<AccountInfo>) -> (account: Self)
        ensures
            account@ == CacheAccountView::loaded(info),
            account@.is_consistent(),
    {
        match info {
            None => CacheAccount::new_loaded_not_existing(),
            Some(info) => {
                if info.is_empty() {
                    CacheAccount {
                        account: Some(PlainAccount { info, storage: VecMap::new() }),
                        status: AccountStatus::LoadedEmptyEIP161,
                    }
                } else {
                    CacheAccount::new_loaded(info, VecMap::new())
                }
            },
        }
    }

    /// The account for an account of a bundle: its info, the present value
    /// of each of its slots, and its status.
    pub fn from_bundle_account(account: &BundleAccount) -> (cached: Self)
        ensures
            cached@ == CacheAccountView::from_bundle(account@),
    {
        let plain = match &account.info {
            Some(info) => Some(
                PlainAccount { info: info.clone(), storage: present_values_of(&account.storage) },
            ),
            None => None,
        };
        CacheAccount { account: plain, status: account.status }
    }

    /// The account exists.
    pub fn is_some(&self) -> (r: bool)
        ensures
            r == !self.status.is_absent(),
    {
        !self.status.is_absent()
    }

    /// The value of slot `key`, if the cache holds it.
    pub fn storage_slot(&self, key: StorageKey) -> (value: Option<StorageValue>)
        ensures
            value == (if self@.storage().contains_key(key) {
                Some(self@.storage()[key])
            } else {
                None
            }),
    {
        match &self.account {
            Some(account) => account.storage_slot(key),
            None => None,
        }
    }

    /// The info of the account, if it exists.
    pub fn account_info(&self) -> (info: Option<AccountInfo>)
        ensures
            info == self@.info(),
    {
        match &self.account {
            Some(account) => Some(account.info.clone()),
            None => None,
        }
    }

    /// The account destroyed itself: its data is gone and its storage wiped.
    pub fn selfdestruct(&mut self) -> (transition: TransitionAccount)
        ensures
            final(self)@ == old(self)@.selfdestructed(),
            transition@ == old(self)@.transition_to(final(self)@, Map::empty(), true),
            final(self)@.is_consistent(),
    {
        let previous_status = self.status;
        let previous_info = match self.account.take() {
            Some(account) => Some(account.info),
            None => None,
        };
        self.status = previous_status.on_selfdestructed();
        TransitionAccount {
            info: None,
            status: self.status,
            previous_info,
            previous_status,
            storage: VecMap::new(),
            storage_was_destroyed: true,
        }
    }

    /// The account was created with `info`; `storage` holds the slots that
    /// were written since.
    pub fn newly_created(
        &mut self,
        info: AccountInfo,
        storage: StorageWithOriginalValues,
    ) -> (transition: TransitionAccount)
        ensures
            final(self)@ == old(self)@.created(info, storage@),
            transition@ == old(self)@.transition_to(final(self)@, storage@, false),
            final(self)@.is_consistent(),
    {
        let previous_status = self.status;
        let previous_info = match self.account.take() {
            Some(account) => Some(account.info),
            None => None,
        };
        self.status = previous_status.on_created();
        self.account = Some(
            PlainAccount { info: info.clone(), storage: present_values_of(&storage) },
        );
        TransitionAccount {
            info: Some(info),
            status: self.status,
            previous_info,
            previous_status,
            storage,
            storage_was_destroyed: false,
        }
    }

    /// The info of the account became `info` and the slots of `storage` were written.
    pub fn change(
        &mut self,
        info: AccountInfo,
        storage: StorageWithOriginalValues,
        state_clear: bool,
    ) -> (transition: TransitionAccount)
        ensures
            final(self)@ == old(self)@.changed(info, storage@, state_clear),
            transition@ == old(self)@.transition_to(final(self)@, storage@, false),
            final(self)@.is_consistent(),
    {
        let previous_status = self.status;
        let (previous_info, mut slots) = match self.account.take() {
            Some(account) => (Some(account.info), account.storage),
            None => (None, VecMap::new()),
        };
        let written = present_values_of(&storage);
        write_values(&mut slots, &written);
        self.status = previous_status.on_changed(state_clear);
        self.account = Some(PlainAccount { info: info.clone(), storage: slots });
        TransitionAccount {
            info: Some(info),
            status: self.status,
            previous_info,
            previous_status,
            storage,
            storage_was_destroyed: false,
        }
    }

    /// The account was touched while empty and is cleared.
    pub fn touch_empty_eip161(&mut self) -> (transition: TransitionAccount)
        ensures
            final(self)@ == old(self)@.touched_empty(),
            transition@ == old(self)@.transition_to(final(self)@, Map::empty(), true),
            final(self)@.is_consistent(),
    {
        let previous_status = self.status;
        let previous_info = match self.account.take() {
            Some(account) => Some(account.info),
            None => None,
        };
        self.status = AccountStatus::Destroyed;
        TransitionAccount {
            info: None,
            status: self.status,
            previous_info,
            previous_status,
            storage: VecMap::new(),
            storage_was_destroyed: true,
        }
    }

    /// Adds `balance` to the balance of the account; the sum stops at the
    /// largest value. An account that does not exist yet comes into being.
    /// Nothing happens for a balance of zero.
    pub fn increment_balance(&mut self, balance: u128, state_clear: bool) -> (transition: Option<
        TransitionAccount,
    >)
        ensures
            balance == 0 ==> transition is None && *final(self) == *old(self),
            balance != 0 ==> transition is Some && {
                &&& final(self)@ == old(self)@.balance_added(balance, state_clear)
                &&& transition.unwrap()@ == old(self)@.transition_to(
                    final(self)@,
                    Map::empty(),
                    false,
                )
            },
            balance != 0 ==> final(self)@.is_consistent(),
    {
        if balance == 0 {
            return None;
        }
        let mut info = match &self.account {
            Some(account) => account.info.clone(),
            None => AccountInfo::default(),
        };
        info.balance = info.balance.saturating_add(U256::from_u128(balance));
        Some(self.change(info, VecMap::new(), state_clear))
    }

    /// What sets the account back after a change of its balance.
    pub fn balance_undo(&self, address: Address, was_cached: bool) -> (undo: BalanceUndo)
        ensures
            undo == self@.balance_undo(address, was_cached),
    {
        let (had_data, balance) = match &self.account {
            Some(account) => (true, account.info.balance),
            None => (false, U256::zero()),
        };
        BalanceUndo { address, was_cached, had_data, balance, status: self.status }
    }

    /// Sets the account back as `undo` says.
    pub fn restore_balance(&mut self, undo: &BalanceUndo)
        ensures
            final(self)@ == old(self)@.balance_restored(*undo),
    {
        if undo.had_data {
            match &mut self.account {
                Some(account) => {
                    account.info.balance = undo.balance;
                },
                None => {},
            }
        } else {
            self.account = None;
        }
        self.status = undo.status;
    }

    /// Sets the balance of the account to zero and hands out what it was.
    /// An account that does not exist yet comes into being, empty.
    pub fn drain_balance(&mut self, state_clear: bool) -> (drained: (U256, TransitionAccount))
        ensures
            drained.0 == old(self)@.info_or_default().balance,
            final(self)@ == old(self)@.drained(state_clear),
            drained.1@ == old(self)@.transition_to(final(self)@, Map::empty(), false),
            final(self)@.is_consistent(),
    {
        let mut info = match &self.account {
            Some(account) => account.info.clone(),
            None => AccountInfo::default(),
        };
        let balance = info.balance;
        info.balance = U256::zero();
        let transition = self.change(info, VecMap::new(), state_clear);
        (balance, transition)
    }
}

/// A change of the balance of an account, undone, leaves the account as it was.
pub proof fn lemma_balance_change_is_undone(
    account: CacheAccountView,
    balance: U256,
    state_clear: bool,
    address: Address,
    was_cached: bool,
)
    ensures
        account.changed(
            AccountInfo { balance, ..account.info_or_default() },
            Map::empty(),
            state_clear,
        ).balance_restored(account.balance_undo(address, was_cached)) == account,
{
    let changed = account.changed(
        AccountInfo { balance, ..account.info_or_default() },
        Map::empty(),
        state_clear,
    );
    let back = changed.balance_restored(account.balance_undo(address, was_cached));
    match account.account {
        Some(plain) => {
            assert(back.account.unwrap().storage =~= plain.storage);
            assert(back.account.unwrap().info == plain.info);
            assert(back.account.unwrap() == plain);
        },
        None => {},
    }
}

} // verus!
