//! The cache of accounts and contracts.
use crate::account_info::{Account, AccountInfo, AccountView};
use crate::bytecode::Bytecode;
use crate::cache_account::{BalanceUndo, CacheAccount, CacheAccountView};
use crate::plain_account::PlainAccountView;
use crate::primitives::{Address, B256};
use crate::storage::{changed_slots, changed_slots_of, PlainStorage};
use crate::transition_account::{TransitionAccount, TransitionAccountView};
use crate::transition_state::transition_views;
use crate::vec_map::VecMap;
use vstd::prelude::*;

verus! {

/// What has been read from the database or written since: accounts by
/// address and contracts by code hash.
#[derive(Debug, PartialEq, Eq)]
pub struct CacheState {
    pub accounts: VecMap<Address, CacheAccount>,
    pub contracts: VecMap<B256, Bytecode>,
    /// An empty account that is touched is cleared.
    pub has_state_clear: bool,
}

/// The model of a [`CacheState`].
#[verifier::ext_equal]
pub struct CacheStateView {
    pub accounts: Map<Address, CacheAccountView>,
    pub contracts: Map<B256, Bytecode>,
    pub has_state_clear: bool,
}

impl CacheAccountView {
    /// The account after a transaction that touched it left it as `account`:
    /// destroyed where it destroyed itself, created where it was created,
    /// cleared where it is empty and empty accounts are cleared, and changed
    /// otherwise. Only the slots that changed are written.
    pub open spec fn applied(self, account: AccountView, state_clear: bool) -> CacheAccountView {
        if account.selfdestructed {
            self.selfdestructed()
        } else if account.created {
            self.created(account.info, changed_slots(account.storage))
        } else if account.info.is_empty() && state_clear {
            self.touched_empty()
        } else {
            self.changed(account.info, changed_slots(account.storage), state_clear)
        }
    }

    /// The record of that change.
    pub open spec fn applied_transition(
        self,
        account: AccountView,
        state_clear: bool,
    ) -> TransitionAccountView {
        let wiped = account.selfdestructed || (!account.created && account.info.is_empty()
            && state_clear);
        self.transition_to(
            self.applied(account, state_clear),
            if wiped {
                Map::empty()
            } else {
                changed_slots(account.storage)
            },
            wiped,
        )
    }
}

/// The accounts with one change of a balance undone: an account that was
/// cached before the change is set back, and one that was loaded for the
/// change is dropped.
pub open spec fn undone_one(
    accounts: Map<Address, CacheAccountView>,
    undo: BalanceUndo,
) -> Map<Address, CacheAccountView> {
    if !undo.was_cached {
        accounts.remove(undo.address)
    } else if accounts.contains_key(undo.address) {
        accounts.insert(undo.address, accounts[undo.address].balance_restored(undo))
    } else {
        accounts
    }
}

/// The accounts with the changes of `log` undone, the last one first.
pub open spec fn undone(
    accounts: Map<Address, CacheAccountView>,
    log: Seq<BalanceUndo>,
) -> Map<Address, CacheAccountView>
    decreases log.len(),
{
    if log.len() == 0 {
        accounts
    } else {
        undone(undone_one(accounts, log.last()), log.drop_last())
    }
}

/// The models of what the virtual machine reports.
pub open spec fn account_views(state: Seq<(Address, Account)>) -> Seq<(Address, AccountView)> {
    Seq::new(state.len(), |i: int| (state[i].0, state[i].1@))
}

impl CacheStateView {
    /// Every account has its data exactly where its status says that it exists.
    pub open spec fn is_consistent(self) -> bool {
        forall|address: Address|
            self.accounts.contains_key(address) ==> (
            #[trigger] self.accounts[address]).is_consistent()
    }

    /// Every account that `state` touches is in the cache.
    pub open spec fn holds_touched(self, state: Seq<(Address, AccountView)>) -> bool {
        forall|i: int|
            0 <= i < state.len() && (#[trigger] state[i]).1.touched ==> self.accounts.contains_key(
                state[i].0,
            )
    }

    /// The cache after the accounts of `state` have been applied, first one first.
    pub open spec fn applied(self, state: Seq<(Address, AccountView)>) -> CacheStateView
        decreases state.len(),
    {
        if state.len() == 0 {
            self
        } else {
            let before = self.applied(state.drop_last());
            let (address, account) = state.last();
            if account.touched && before.accounts.contains_key(address) {
                CacheStateView {
                    accounts: before.accounts.insert(
                        address,
                        before.accounts[address].applied(account, self.has_state_clear),
                    ),
                    ..before
                }
            } else {
                before
            }
        }
    }

    /// The records of these changes, one for each touched account, in order.
    pub open spec fn applied_transitions(self, state: Seq<(Address, AccountView)>) -> Seq<
        (Address, TransitionAccountView),
    >
        decreases state.len(),
    {
        if state.len() == 0 {
            Seq::empty()
        } else {
            let before = self.applied(state.drop_last());
            let records = self.applied_transitions(state.drop_last());
            let (address, account) = state.last();
            if account.touched && before.accounts.contains_key(address) {
                records.push(
                    (
                        address,
                        before.accounts[address].applied_transition(account, self.has_state_clear),
                    ),
                )
            } else {
                records
            }
        }
    }
}

impl Default for CacheState {
    /// An empty cache in which empty accounts are cleared.
    fn default() -> (cache: Self)
        ensures
            cache@ == (CacheStateView {
                accounts: Map::empty(),
                contracts: Map::empty(),
                has_state_clear: true,
            }),
    {
        CacheState::new(true)
    }
}

impl CacheState {
    pub open spec fn view(&self) -> CacheStateView {
        CacheStateView {
            accounts: self.accounts@.map_values(|account: CacheAccount| account@),
            contracts: self.contracts@,
            has_state_clear: self.has_state_clear,
        }
    }

    /// An empty cache.
    pub fn new(has_state_clear: bool) -> (cache: Self)
        ensures
            cache@ == (CacheStateView {
                accounts: Map::empty(),
                contracts: Map::empty(),
                has_state_clear,
            }),
    {
        let cache = CacheState {
            accounts: VecMap::new(),
            contracts: VecMap::new(),
            has_state_clear,
        };
        proof {
            assert(cache@.accounts =~= Map::empty());
        }
        cache
    }

    /// Says whether empty accounts that are touched are cleared.
    pub fn set_state_clear_flag(&mut self, has_state_clear: bool)
        ensures
            final(self)@ == (CacheStateView { has_state_clear, ..old(self)@ }),
    {
        self.has_state_clear = has_state_clear;
    }

    /// Records that `address` does not exist in the database.
    pub fn insert_not_existing(&mut self, address: Address)
        ensures
            final(self)@ == (CacheStateView {
                accounts: old(self)@.accounts.insert(address, CacheAccountView::loaded(None)),
                ..old(self)@
            }),
    {
        self.accounts.insert(address, CacheAccount::new_loaded_not_existing());
        proof {
            assert(self@.accounts =~= old(self)@.accounts.insert(
                address,
                CacheAccountView::loaded(None),
            ));
        }
    }

    /// Records `address` as the database would give it: loaded, or loaded
    /// empty where `info` is empty.
    pub fn insert_account(&mut self, address: Address, info: AccountInfo)
        ensures
            final(self)@ == (CacheStateView {
                accounts: old(self)@.accounts.insert(
                    address,
                    CacheAccountView::loaded(Some(info)),
                ),
                ..old(self)@
            }),
    {
        self.accounts.insert(address, CacheAccount::from_database(Some(info)));
        proof {
            assert(self@.accounts =~= old(self)@.accounts.insert(
                address,
                CacheAccountView::loaded(Some(info)),
            ));
        }
    }

    /// As [`CacheState::insert_account`], with the slots of `storage` known.
    pub fn insert_account_with_storage(
        &mut self,
        address: Address,
        info: AccountInfo,
        storage: PlainStorage,
    )
        ensures
            final(self)@ == (CacheStateView {
                accounts: old(self)@.accounts.insert(
                    address,
                    CacheAccountView {
                        account: Some(PlainAccountView { info, storage: storage@ }),
                        ..CacheAccountView::loaded(Some(info))
                    },
                ),
                ..old(self)@
            }),
    {
        let mut account = CacheAccount::from_database(Some(info));
        match &mut account.account {
            Some(plain) => {
                plain.storage = storage;
            },
            None => {},
        }
        self.accounts.insert(address, account);
        proof {
            assert(self@.accounts =~= old(self)@.accounts.insert(
                address,
                CacheAccountView {
                    account: Some(PlainAccountView { info, storage: storage@ }),
                    ..CacheAccountView::loaded(Some(info))
                },
            ));
        }
    }

    /// Undoes the changes of balances that `log` holds, the last one first.
    pub fn undo_balance_changes(&mut self, log: Vec<BalanceUndo>)
        ensures
            final(self)@ == (CacheStateView {
                accounts: undone(old(self)@.accounts, log@),
                ..old(self)@
            }),
            final(self).contracts == old(self).contracts,
            final(self).has_state_clear == old(self).has_state_clear,
    {
        let ghost all = log@;
        let mut log = log;
        while log.len() > 0
            invariant
                self.contracts == old(self).contracts,
                self.has_state_clear == old(self).has_state_clear,
                undone(self@.accounts, log@) == undone(old(self)@.accounts, all),
            decreases log@.len(),
        {
            let ghost before = self@.accounts;
            let ghost held = self.accounts@;
            let ghost rest = log@.drop_last();
            let undo = match log.pop() {
                Some(undo) => undo,
                None => vstd::pervasive::unreached(),
            };
            proof {
                assert(log@ == rest);
            }
            if undo.was_cached {
                match self.accounts.get_mut(&undo.address) {
                    Some(cached) => {
                        cached.restore_balance(&undo);
                    },
                    None => {},
                }
            } else {
                self.accounts.remove(&undo.address);
            }
            proof {
                assert(self@.accounts =~= undone_one(before, undo));
            }
        }
    }

    /// Applies what a transaction did to one account, and returns the record
    /// of it. An account that was not touched stays as it is.
    pub fn apply_account_state(&mut self, address: Address, account: Account) -> (transition:
        Option<TransitionAccount>)
        requires
            account.touched ==> old(self)@.accounts.contains_key(address),
        ensures
            !account.touched ==> transition is None && *final(self) == *old(self),
            account.touched ==> {
                let cached = old(self)@.accounts[address];
                let state_clear = old(self).has_state_clear;
                &&& transition is Some
                &&& transition.unwrap()@ == cached.applied_transition(account@, state_clear)
                &&& final(self)@ == (CacheStateView {
                    accounts: old(self)@.accounts.insert(
                        address,
                        cached.applied(account@, state_clear),
                    ),
                    ..old(self)@
                })
            },
    {
        if !account.touched {
            return None;
        }
        let state_clear = self.has_state_clear;
        let ghost before = self@.accounts;
        let ghost expected = before[address].applied(account@, state_clear);
        let transition = match self.accounts.get_mut(&address) {
            Some(cached) => {
                let Account { info, storage, touched: _, created, selfdestructed } = account;
                let transition = if selfdestructed {
                    cached.selfdestruct()
                } else if created {
                    cached.newly_created(info, changed_slots_of(&storage))
                } else if info.is_empty() && state_clear {
                    cached.touch_empty_eip161()
                } else {
                    cached.change(info, changed_slots_of(&storage), state_clear)
                };
                Some(transition)
            },
            None => None,
        };
        proof {
            assert(self@.accounts =~= before.insert(address, expected));
        }
        transition
    }

    /// Applies what a transaction did to the accounts of `state`, and returns
    /// the records of it: one for each account that was touched, in the
    /// order of `state`.
    pub fn apply_evm_state(&mut self, state: VecMap<Address, Account>) -> (transitions: Vec<
        (Address, TransitionAccount),
    >)
        requires
            old(self)@.holds_touched(account_views(state.entries())),
        ensures
            final(self)@ == old(self)@.applied(account_views(state.entries())),
            transition_views(transitions@) == old(self)@.applied_transitions(
                account_views(state.entries()),
            ),
    {
        let ghost all = account_views(state.entries());
        let ghost start = self@;
        let entries = state.into_entries();
        let mut transitions: Vec<(Address, TransitionAccount)> = Vec::new();
        proof {
            assert(transition_views(transitions@) =~= Seq::empty());
        }
        for entry in it: entries
            invariant
                it.seq() == entries@,
                all == account_views(entries@),
                start.holds_touched(all),
                start == old(self)@,
                self@ == start.applied(all.take(it.index() as int)),
                transition_views(transitions@)
                    == start.applied_transitions(all.take(it.index() as int)),
        {
            let ghost i = it.index() as int;
            let ghost records = transition_views(transitions@);
            proof {
                assert(all.take(i + 1).drop_last() == all.take(i));
                assert(all.take(i + 1).last() == (entry.0, entry.1@));
                lemma_applied_keeps_keys(start, all.take(i));
                assert(all[i].1.touched ==> start.accounts.contains_key(all[i].0));
            }
            match self.apply_account_state(entry.0, entry.1) {
                Some(transition) => {
                    transitions.push((entry.0, transition));
                    proof {
                        assert(transition_views(transitions@)
                            =~= records.push((entry.0, transition@)));
                    }
                },
                None => {},
            }
        }
        proof {
            assert(all.take(all.len() as int) == all);
        }
        transitions
    }
}

/// Whatever is applied to a cache, each account keeps its data exactly where
/// its status says that it exists.
pub proof fn lemma_applied_is_consistent(cache: CacheStateView, state: Seq<(Address, AccountView)>)
    requires
        cache.is_consistent(),
    ensures
        cache.applied(state).is_consistent(),
    decreases state.len(),
{
    if state.len() > 0 {
        lemma_applied_is_consistent(cache, state.drop_last());
    }
}

/// Applying accounts to a cache changes which accounts it holds in no way.
pub proof fn lemma_applied_keeps_keys(cache: CacheStateView, state: Seq<(Address, AccountView)>)
    ensures
        cache.applied(state).accounts.dom() == cache.accounts.dom(),
        cache.applied(state).has_state_clear == cache.has_state_clear,
        cache.applied(state).contracts == cache.contracts,
    decreases state.len(),
{
    if state.len() > 0 {
        lemma_applied_keeps_keys(cache, state.drop_last());
        let before = cache.applied(state.drop_last());
        let (address, account) = state.last();
        if account.touched && before.accounts.contains_key(address) {
            assert(before.accounts.insert(
                address,
                before.accounts[address].applied(account, cache.has_state_clear),
            ).dom() =~= before.accounts.dom());
        }
    }
}

} // verus!
