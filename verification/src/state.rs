//! The cache over a database, the transitions of the block in progress, and
//! the bundle of the blocks that are done.
use crate::account_info::{Account, AccountInfo};
use crate::bundle_account::BundleAccount;
use crate::bundle_state::{total_reverts, BundleRetention, BundleState, BundleStateView};
use crate::reverts::AccountRevert;
use crate::bytecode::Bytecode;
use crate::cache::{account_views, undone, undone_one, CacheState, CacheStateView};
use crate::cache_account::{
    lemma_balance_change_is_undone, BalanceUndo, CacheAccount, CacheAccountView,
};
use crate::database::{may_answer_basic, Database, DatabaseRef, EmptyDB};
use crate::plain_account::PlainAccountView;
use crate::primitives::{
    clipped, Address, StorageKey, StorageValue, B256, BLOCK_HASH_HISTORY, U256,
};
use crate::state_builder::StateBuilder;
use crate::storage::PlainStorage;
use crate::transition_account::{TransitionAccount, TransitionAccountView};
use crate::transition_state::{transition_views, with_transitions, TransitionState};
use crate::vec_map::{distinct_keys, VecMap};
use std::collections::BTreeMap;
use vstd::prelude::*;

verus! {

/// The state of the chain as execution sees it.
///
/// Reads go through the cache to the database. The changes of each
/// transaction are gathered as transitions, where the state was built to
/// gather them, and merged into the bundle at the end of a block.
///
/// A state is itself a database: it answers the four questions of
/// [`Database`], and those of [`DatabaseRef`] without a change to itself.
#[derive(Debug)]
pub struct State<DB> {
    /// What has been read from the database or changed since.
    pub cache: CacheState,
    /// The database that is asked where the cache knows nothing.
    pub database: DB,
    /// The changes of the block in progress; `None` where none are gathered.
    pub transition_state: Option<TransitionState>,
    /// The changes of the blocks that are done.
    pub bundle_state: BundleState,
    /// The bundle is asked before the database.
    pub use_preloaded_bundle: bool,
    /// The hashes of recent blocks by number.
    pub block_hashes: BTreeMap<u64, B256>,
}

/// The oldest block number whose hash is still kept once `number` was asked for.
pub open spec fn oldest_kept(number: u64) -> u64 {
    if number >= BLOCK_HASH_HISTORY {
        (number - BLOCK_HASH_HISTORY) as u64
    } else {
        0
    }
}

/// The hashes of `hashes` that are still kept once `number` was asked for.
pub open spec fn pruned(hashes: Map<u64, B256>, number: u64) -> Map<u64, B256> {
    hashes.restrict(Set::new(|n: u64| n >= oldest_kept(number)))
}

/// The transitions gathered in `after` are those of `before` with `records`
/// added, first one first; and where none are gathered, none are.
pub open spec fn gathers(
    before: Option<TransitionState>,
    after: Option<TransitionState>,
    records: Seq<(Address, TransitionAccountView)>,
) -> bool {
    match before {
        Some(gathered) => after is Some && after.unwrap()@ == with_transitions(gathered@, records),
        None => after is None,
    }
}

/// The smallest block number in `hashes`.
///
/// Calls `BTreeMap::first_key_value` of the standard library, which returns
/// the entry with the minimum key of the map, and `None` for an empty map.
#[verifier::external_body]
fn first_number(hashes: &BTreeMap<u64, B256>) -> (first: Option<u64>)
    ensures
        match first {
            Some(number) => hashes@.contains_key(number) && forall|n: u64|
                hashes@.contains_key(n) ==> number <= n,
            None => forall|n: u64| !hashes@.contains_key(n),
        },
{
    hashes.first_key_value().map(|entry| *entry.0)
}

/// Drops every hash of a block before `oldest`.
pub fn prune_block_hashes(hashes: &mut BTreeMap<u64, B256>, oldest: u64)
    ensures
        final(hashes)@ == old(hashes)@.restrict(Set::new(|n: u64| n >= oldest)),
{
    broadcast use {vstd::std_specs::btree::group_btree_axioms, vstd::laws_cmp::group_laws_cmp};

    let ghost start = hashes@;
    loop
        invariant
            forall|n: u64|
                #![trigger hashes@.contains_key(n)]
                hashes@.contains_key(n) ==> start.contains_key(n) && hashes@[n] == start[n],
            forall|n: u64|
                #![trigger start.contains_key(n)]
                start.contains_key(n) && n >= oldest ==> hashes@.contains_key(n),
            hashes@.dom().finite(),
        ensures
            forall|n: u64|
                #![trigger hashes@.contains_key(n)]
                hashes@.contains_key(n) ==> n >= oldest,
        decreases hashes@.len(),
    {
        match first_number(hashes) {
            Some(number) => {
                if number < oldest {
                    let ghost before = hashes@;
                    proof {
                        before.lemma_remove_key_len(number);
                    }
                    hashes.remove(&number);
                } else {
                    break ;
                }
            },
            None => {
                break ;
            },
        }
    }
    assert(hashes@ =~= start.restrict(Set::new(|n: u64| n >= oldest)));
}

impl State<EmptyDB> {
    /// The builder of a state; it starts without a database.
    pub fn builder() -> (builder: StateBuilder<EmptyDB>)
        ensures
            builder.with_state_clear,
            builder.with_bundle_prestate is None,
            !builder.with_bundle_update,
            builder.with_block_hashes@ == Map::<u64, B256>::empty(),
    {
        StateBuilder::new()
    }
}

impl<DB> State<DB> {
    /// Everything but the cached accounts and the database is as in `before`.
    pub open spec fn same_but_accounts(&self, before: &Self) -> bool {
        &&& self.cache.contracts == before.cache.contracts
        &&& self.cache.has_state_clear == before.cache.has_state_clear
        &&& self.transition_state == before.transition_state
        &&& self.bundle_state == before.bundle_state
        &&& self.use_preloaded_bundle == before.use_preloaded_bundle
        &&& self.block_hashes == before.block_hashes
    }

    /// What is known of `address` without the database, where the cache
    /// holds `accounts`: the account that is cached, or else the account of
    /// the preloaded bundle. `None` where the database has to be asked.
    pub open spec fn known_in(
        &self,
        accounts: Map<Address, CacheAccountView>,
        address: Address,
    ) -> Option<CacheAccountView> {
        if accounts.contains_key(address) {
            Some(accounts[address])
        } else if self.use_preloaded_bundle && self.bundle_state@.state.contains_key(address) {
            Some(CacheAccountView::from_bundle(self.bundle_state@.state[address]))
        } else {
            None
        }
    }

    /// What is known of `address` without the database.
    pub open spec fn known_account(&self, address: Address) -> Option<CacheAccountView> {
        self.known_in(self.cache@.accounts, address)
    }

    /// A load of `address`, where the cache holds `accounts` and the database
    /// is `database`, finds `loaded` and leaves the database as `after`: the
    /// account that is known without the database, which is then left alone,
    /// or else the account that an answer of the database to `basic` makes.
    pub open spec fn loads_in(
        &self,
        accounts: Map<Address, CacheAccountView>,
        database: DB,
        address: Address,
        after: DB,
        loaded: CacheAccountView,
    ) -> bool where DB: Database {
        match self.known_in(accounts, address) {
            Some(known) => loaded == known && after == database,
            None => exists|info: Option<AccountInfo>|
                #![trigger CacheAccountView::loaded(info)]
                {
                    &&& loaded == CacheAccountView::loaded(info)
                    &&& may_answer_basic(
                        database,
                        address,
                        Ok::<Option<AccountInfo>, DB::Error>(info),
                    )
                },
        }
    }

    /// Adding the balances of `balances`, first one first, leaves the cache
    /// with `accounts` and the database as `database`, and makes the records
    /// `records`: an entry of zero is passed over; for any other, the account
    /// is loaded, the balance added, and the change recorded.
    pub open spec fn adds_balances(
        &self,
        balances: Seq<(Address, u128)>,
        accounts: Map<Address, CacheAccountView>,
        database: DB,
        records: Seq<(Address, TransitionAccountView)>,
    ) -> bool where DB: Database
        decreases balances.len(),
    {
        if balances.len() == 0 {
            &&& accounts == self.cache@.accounts
            &&& database == self.database
            &&& records == Seq::<(Address, TransitionAccountView)>::empty()
        } else if balances.last().1 == 0 {
            self.adds_balances(balances.drop_last(), accounts, database, records)
        } else {
            let (address, balance) = balances.last();
            exists|
                earlier: Map<Address, CacheAccountView>,
                earlier_database: DB,
                loaded: CacheAccountView,
            |
                #![trigger self.loads_in(earlier, earlier_database, address, database, loaded)]
                {
                    let changed = loaded.balance_added(balance, self.cache.has_state_clear);
                    &&& records.len() > 0
                    &&& self.adds_balances(
                        balances.drop_last(),
                        earlier,
                        earlier_database,
                        records.drop_last(),
                    )
                    &&& self.loads_in(earlier, earlier_database, address, database, loaded)
                    &&& accounts == earlier.insert(address, changed)
                    &&& records.last() == (
                        address,
                        loaded.transition_to(changed, Map::empty(), false),
                    )
                }
        }
    }

    /// Taking the balances of `addresses`, first one first, leaves the cache
    /// with `accounts` and the database as `database`, makes the records
    /// `records` and hands out the balances `taken`: each account is loaded,
    /// its balance set to zero, and the change recorded.
    pub open spec fn drains_balances(
        &self,
        addresses: Seq<Address>,
        accounts: Map<Address, CacheAccountView>,
        database: DB,
        records: Seq<(Address, TransitionAccountView)>,
        taken: Seq<U256>,
    ) -> bool where DB: Database
        decreases addresses.len(),
    {
        if addresses.len() == 0 {
            &&& accounts == self.cache@.accounts
            &&& database == self.database
            &&& records == Seq::<(Address, TransitionAccountView)>::empty()
            &&& taken == Seq::<U256>::empty()
        } else {
            let address = addresses.last();
            exists|
                earlier: Map<Address, CacheAccountView>,
                earlier_database: DB,
                loaded: CacheAccountView,
            |
                #![trigger self.loads_in(earlier, earlier_database, address, database, loaded)]
                {
                    let changed = loaded.drained(self.cache.has_state_clear);
                    &&& records.len() > 0
                    &&& taken.len() > 0
                    &&& self.drains_balances(
                        addresses.drop_last(),
                        earlier,
                        earlier_database,
                        records.drop_last(),
                        taken.drop_last(),
                    )
                    &&& self.loads_in(earlier, earlier_database, address, database, loaded)
                    &&& accounts == earlier.insert(address, changed)
                    &&& records.last() == (
                        address,
                        loaded.transition_to(changed, Map::empty(), false),
                    )
                    &&& taken.last() == loaded.info_or_default().balance
                }
        }
    }

    /// What is known of the code with hash `code_hash` without the database:
    /// the code that is cached, or else the code of the preloaded bundle.
    pub open spec fn known_code(&self, code_hash: B256) -> Option<Bytecode> {
        if self.cache.contracts@.contains_key(code_hash) {
            Some(self.cache.contracts@[code_hash])
        } else if self.use_preloaded_bundle && self.bundle_state@.contracts.contains_key(
            code_hash,
        ) {
            Some(self.bundle_state@.contracts[code_hash])
        } else {
            None
        }
    }

    /// What is known of slot `index` of the cached account at `address`
    /// without the database: zero for an account that does not exist, the
    /// value that is cached, or zero where all storage of the account is
    /// known. `None` where the database has to be asked.
    pub open spec fn known_slot(&self, address: Address, index: StorageKey) -> Option<
        StorageValue,
    > {
        let account = self.cache@.accounts[address];
        if account.account is None {
            Some(U256::spec_zero())
        } else if account.storage().contains_key(index) {
            Some(account.storage()[index])
        } else if account.status.is_storage_known() {
            Some(U256::spec_zero())
        } else {
            None
        }
    }

    /// What the cache alone says of slot `index` of the account at `address`:
    /// for an account that is cached, what is known of the slot without the
    /// database; nothing for an account that is not cached.
    pub open spec fn cached_slot(&self, address: Address, index: StorageKey) -> Option<
        StorageValue,
    > {
        if self.cache@.accounts.contains_key(address) {
            self.known_slot(address, index)
        } else {
            None
        }
    }

    /// A load of `address` into the cache of `before` finds `loaded` and
    /// leaves the database as `database`.
    pub open spec fn loads(
        before: &Self,
        address: Address,
        database: DB,
        loaded: CacheAccountView,
    ) -> bool where DB: Database {
        before.loads_in(before.cache@.accounts, before.database, address, database, loaded)
    }

    /// What a call of `basic` may do: `before` and `after` are the state
    /// before and after it, `info` is what it returns.
    ///
    /// Where the call succeeds, the account is cached from then on, as a load
    /// finds it, and its info is returned. It fails only where the database
    /// was asked and failed: the error is the one of the database, and the
    /// cache is then as before.
    pub open spec fn answers_basic(
        before: &Self,
        address: Address,
        after: &Self,
        info: Result<Option<AccountInfo>, DB::Error>,
    ) -> bool where DB: Database {
        &&& after.same_but_accounts(before)
        &&& match info {
            Ok(found) => exists|loaded: CacheAccountView|
                #![trigger loaded.info()]
                {
                    &&& Self::loads(before, address, after.database, loaded)
                    &&& after.cache@.accounts == before.cache@.accounts.insert(address, loaded)
                    &&& found == loaded.info()
                },
            Err(error) => {
                &&& before.known_account(address) is None
                &&& may_answer_basic(
                    before.database,
                    address,
                    Err::<Option<AccountInfo>, DB::Error>(error),
                )
                &&& after.cache == before.cache
            },
        }
    }

    /// Everything but the cache is as in `before`.
    pub open spec fn same_but_cache(&self, before: &Self) -> bool {
        &&& self.database == before.database
        &&& self.transition_state == before.transition_state
        &&& self.bundle_state == before.bundle_state
        &&& self.use_preloaded_bundle == before.use_preloaded_bundle
        &&& self.block_hashes == before.block_hashes
    }

    /// Says whether empty accounts that are touched are cleared.
    pub fn set_state_clear_flag(&mut self, has_state_clear: bool)
        ensures
            final(self).same_but_cache(old(self)),
            final(self).cache@ == (CacheStateView {
                has_state_clear,
                ..old(self).cache@
            }),
    {
        self.cache.set_state_clear_flag(has_state_clear);
    }

    /// Records that `address` does not exist in the database.
    pub fn insert_not_existing(&mut self, address: Address)
        ensures
            final(self).same_but_cache(old(self)),
            final(self).cache@ == (CacheStateView {
                accounts: old(self).cache@.accounts.insert(address, CacheAccountView::loaded(None)),
                ..old(self).cache@
            }),
    {
        self.cache.insert_not_existing(address)
    }

    /// Records `address` as the database would give it.
    pub fn insert_account(&mut self, address: Address, info: AccountInfo)
        ensures
            final(self).same_but_cache(old(self)),
            final(self).cache@ == (CacheStateView {
                accounts: old(self).cache@.accounts.insert(
                    address,
                    CacheAccountView::loaded(Some(info)),
                ),
                ..old(self).cache@
            }),
    {
        self.cache.insert_account(address, info)
    }

    /// Records `address` as the database would give it, with the slots of `storage` known.
    pub fn insert_account_with_storage(
        &mut self,
        address: Address,
        info: AccountInfo,
        storage: PlainStorage,
    )
        ensures
            final(self).same_but_cache(old(self)),
            final(self).cache@ == (CacheStateView {
                accounts: old(self).cache@.accounts.insert(
                    address,
                    CacheAccountView {
                        account: Some(
                            PlainAccountView { info, storage: storage@ },
                        ),
                        ..CacheAccountView::loaded(Some(info))
                    },
                ),
                ..old(self).cache@
            }),
    {
        self.cache.insert_account_with_storage(address, info, storage)
    }

    /// Adds transitions to those of the block in progress, where they are gathered.
    pub fn apply_transition(&mut self, transitions: Vec<(Address, TransitionAccount)>)
        ensures
            final(self).cache == old(self).cache,
            final(self).database == old(self).database,
            final(self).bundle_state == old(self).bundle_state,
            final(self).use_preloaded_bundle == old(self).use_preloaded_bundle,
            final(self).block_hashes == old(self).block_hashes,
            gathers(
                old(self).transition_state,
                final(self).transition_state,
                transition_views(transitions@),
            ),
    {
        match &mut self.transition_state {
            Some(gathered) => {
                gathered.add_transitions(transitions);
            },
            None => {},
        }
    }

    /// Folds the transitions of the block into the bundle and starts a new
    /// block: the transitions gathered are taken, each address once, and
    /// merged as `retention` says, and the counters of the bundle follow.
    /// Nothing happens where no transitions are gathered.
    pub fn merge_transitions(&mut self, retention: BundleRetention)
        ensures
            final(self).cache == old(self).cache,
            final(self).database == old(self).database,
            final(self).use_preloaded_bundle == old(self).use_preloaded_bundle,
            final(self).block_hashes == old(self).block_hashes,
            match old(self).transition_state {
                Some(gathered) => {
                    let before = old(self).bundle_state;
                    let after = final(self).bundle_state;
                    &&& final(self).transition_state is Some
                    &&& final(self).transition_state.unwrap()@ == Seq::<
                        (Address, TransitionAccountView),
                    >::empty()
                    &&& distinct_keys(gathered@)
                    &&& after@ == before@.merge(gathered@, retention)
                    &&& retention is Nothing ==> after == before
                    &&& !(retention is Nothing) ==> {
                        &&& after.state_size == after.state.entries().len()
                        &&& after.reverts_size == clipped(
                            before.reverts_size + after@.reverts.last().len(),
                        )
                    }
                    &&& before.sizes_agree() && total_reverts(after@.reverts) <= usize::MAX
                        ==> after.sizes_agree()
                    &&& before@.has_no_empty_contract() ==> after@.has_no_empty_contract()
                },
                None => {
                    &&& final(self).transition_state is None
                    &&& final(self).bundle_state == old(self).bundle_state
                },
            },
    {
        let taken = match &mut self.transition_state {
            Some(gathered) => Some(gathered.take()),
            None => None,
        };
        match taken {
            Some(transitions) => {
                self.bundle_state.apply_transitions_and_create_reverts(transitions, retention);
            },
            None => {},
        }
    }

    /// Hands out the bundle and leaves an empty one. Transitions that have
    /// not been merged stay where they are.
    pub fn take_bundle(&mut self) -> (bundle: BundleState)
        ensures
            bundle == old(self).bundle_state,
            final(self).cache == old(self).cache,
            final(self).database == old(self).database,
            final(self).transition_state == old(self).transition_state,
            final(self).use_preloaded_bundle == old(self).use_preloaded_bundle,
            final(self).block_hashes == old(self).block_hashes,
            final(self).bundle_state@ == (BundleStateView {
                state: Map::empty(),
                contracts: Map::empty(),
                reverts: Seq::empty(),
            }),
            final(self).bundle_state.state.entries() == Seq::<(Address, BundleAccount)>::empty(),
            final(self).bundle_state.contracts.entries() == Seq::<(B256, Bytecode)>::empty(),
            final(self).bundle_state.reverts@ == Seq::<Vec<(Address, AccountRevert)>>::empty(),
            final(self).bundle_state.state_size == 0,
            final(self).bundle_state.reverts_size == 0,
    {
        self.bundle_state.take()
    }

    /// Takes what a transaction did into the cache, and the records of it
    /// into the transitions of the block, where they are gathered.
    ///
    /// Every account that the transaction touched has to be in the cache:
    /// execution loads an account before it changes it, and a change to an
    /// account that was never loaded is an error of the caller.
    pub fn commit(&mut self, changes: VecMap<Address, Account>)
        requires
            old(self).cache@.holds_touched(account_views(changes.entries())),
        ensures
            final(self).database == old(self).database,
            final(self).bundle_state == old(self).bundle_state,
            final(self).use_preloaded_bundle == old(self).use_preloaded_bundle,
            final(self).block_hashes == old(self).block_hashes,
            final(self).cache@ == old(self).cache@.applied(account_views(changes.entries())),
            gathers(
                old(self).transition_state,
                final(self).transition_state,
                old(self).cache@.applied_transitions(account_views(changes.entries())),
            ),
    {
        let transitions = self.cache.apply_evm_state(changes);
        self.apply_transition(transitions);
    }

    /// A number that grows with the room the bundle takes.
    pub fn bundle_size_hint(&self) -> (n: usize)
        ensures
            n == clipped(
                self.bundle_state.state_size + self.bundle_state.reverts_size,
            ),
    {
        self.bundle_state.size_hint()
    }
}

impl<DB: Database> State<DB> {
    /// Loads the account of `address` into the cache, where it is not there:
    /// from the preloaded bundle where that is in use and holds it, and else
    /// from the database. Where the database fails, nothing is cached and
    /// its error is returned.
    pub fn ensure_loaded(&mut self, address: Address) -> (done: Result<(), DB::Error>)
        ensures
            final(self).same_but_accounts(old(self)),
            match done {
                Ok(_) => exists|loaded: CacheAccountView|
                    #![trigger Self::loads(old(self), address, final(self).database, loaded)]
                    {
                        &&& Self::loads(old(self), address, final(self).database, loaded)
                        &&& final(self).cache@.accounts == old(self).cache@.accounts.insert(
                            address,
                            loaded,
                        )
                    },
                Err(error) => {
                    &&& old(self).known_account(address) is None
                    &&& may_answer_basic(
                        old(self).database,
                        address,
                        Err::<Option<AccountInfo>, DB::Error>(error),
                    )
                    &&& final(self).cache == old(self).cache
                },
            },
            old(self).known_account(address) is None ==> exists|
                db: &mut DB,
                answer: Result<Option<AccountInfo>, DB::Error>,
            |
                {
                    &&& *db == old(self).database
                    &&& *final(db) == final(self).database
                    &&& #[trigger] call_ensures(DB::basic, (db, address), answer)
                    &&& match answer {
                        Ok(info) => {
                            &&& done is Ok
                            &&& final(self).cache@.accounts == old(self).cache@.accounts.insert(
                                address,
                                CacheAccountView::loaded(info),
                            )
                        },
                        Err(error) => done == Err::<(), DB::Error>(error),
                    }
                },
    {
        if self.cache.accounts.contains_key(&address) {
            proof {
                let known = self.cache@.accounts[address];
                assert(self.cache@.accounts.insert(address, known) =~= self.cache@.accounts);
                assert(Self::loads(old(self), address, self.database, known));
            }
            return Ok(());
        }
        let from_bundle = if self.use_preloaded_bundle {
            match self.bundle_state.account(&address) {
                Some(held) => Some(CacheAccount::from_bundle_account(held)),
                None => None,
            }
        } else {
            None
        };
        let ghost before = self.cache@.accounts;
        let loaded = match from_bundle {
            Some(account) => account,
            None => {
                proof {
                    assert(!self.cache@.accounts.contains_key(address));
                    assert(self.known_account(address) is None);
                }
                let answer = self.database.basic(address);
                proof {
                    assert(may_answer_basic(old(self).database, address, answer));
                }
                match answer {
                    Ok(info) => CacheAccount::from_database(info),
                    Err(error) => {
                        return Err(error);
                    },
                }
            },
        };
        let ghost found = loaded@;
        self.cache.accounts.insert(address, loaded);
        proof {
            assert(self.cache@.accounts =~= before.insert(address, found));
            assert(Self::loads(old(self), address, self.database, found));
        }
        Ok(())
    }

    /// The cached account of `address`, loaded first as [`State::ensure_loaded`]
    /// loads it.
    pub fn load_cache_account(&mut self, address: Address) -> (account: Result<
        &mut CacheAccount,
        DB::Error,
    >)
        ensures
            final(self).same_but_accounts(old(self)),
            match account {
                Ok(cached) => {
                    &&& Self::loads(old(self), address, final(self).database, cached@)
                    &&& final(self).cache@.accounts == old(self).cache@.accounts.insert(
                        address,
                        final(cached)@,
                    )
                },
                Err(error) => {
                    &&& old(self).known_account(address) is None
                    &&& may_answer_basic(
                        old(self).database,
                        address,
                        Err::<Option<AccountInfo>, DB::Error>(error),
                    )
                    &&& final(self).cache == old(self).cache
                },
            },
            old(self).known_account(address) is None ==> exists|
                db: &mut DB,
                answer: Result<Option<AccountInfo>, DB::Error>,
            |
                {
                    &&& *db == old(self).database
                    &&& *final(db) == final(self).database
                    &&& #[trigger] call_ensures(DB::basic, (db, address), answer)
                    &&& match answer {
                        Ok(info) => account is Ok && account->Ok_0@ == CacheAccountView::loaded(
                            info,
                        ),
                        Err(error) => account is Err && account->Err_0 == error,
                    }
                },
    {
        match self.ensure_loaded(address) {
            Ok(_) => {},
            Err(error) => {
                return Err(error);
            },
        }
        let ghost before = self.cache@.accounts;
        let ghost held = self.cache.accounts@;
        let ghost earlier = old(self).cache@.accounts;
        let ghost loaded = choose|loaded: CacheAccountView|
            {
                &&& Self::loads(old(self), address, self.database, loaded)
                &&& before == earlier.insert(address, loaded)
            };
        proof {
            assert(before.contains_key(address));
            assert(held.contains_key(address));
            assert(before[address] == loaded);
            assert(held[address]@ == before[address]);
        }
        match self.cache.accounts.get_mut(&address) {
            Some(cached) => {
                proof {
                    assert(held.insert(address, *final(cached)).map_values(
                        |account: CacheAccount| account@,
                    ) =~= before.insert(address, final(cached)@));
                    assert(before.insert(address, final(cached)@) =~= earlier.insert(
                        address,
                        final(cached)@,
                    ));
                }
                Ok(cached)
            },
            None => vstd::pervasive::unreached(),
        }
    }

    /// Adds each balance of `balances` to its account, first one first. An
    /// entry of zero is passed over; for any other the account is loaded and
    /// changed, and the change is recorded with the transitions of the block,
    /// where they are gathered.
    ///
    /// Where the database fails on an account, its error is returned and the
    /// call leaves no trace: the accounts changed before that one are set
    /// back, so that the cache and the transitions are as they were before
    /// the call. The database is asked for the accounts that are not known
    /// without it, in the order of `balances`, and for nothing else.
    pub fn increment_balances(&mut self, balances: Vec<(Address, u128)>) -> (done: Result<
        (),
        DB::Error,
    >)
        ensures
            final(self).cache.contracts == old(self).cache.contracts,
            final(self).cache.has_state_clear == old(self).cache.has_state_clear,
            final(self).bundle_state == old(self).bundle_state,
            final(self).use_preloaded_bundle == old(self).use_preloaded_bundle,
            final(self).block_hashes == old(self).block_hashes,
            exists|
                databases: Seq<DB>,
                reached: int,
                accounts: Map<Address, CacheAccountView>,
                records: Seq<(Address, TransitionAccountView)>,
            |
                {
                    &&& #[trigger] old(self).adds_balances(
                        balances@.take(reached),
                        accounts,
                        databases[reached],
                        records,
                    )
                    &&& 0 <= reached <= balances@.len()
                    &&& databases[0] == old(self).database
                    &&& databases[databases.len() - 1] == final(self).database
                    &&& forall|i: int|
                        #![trigger databases[i]]
                        0 <= i < databases.len() - 1 ==> databases[i + 1] == databases[i]
                            || exists|
                            db: &mut DB,
                            answer: Result<Option<AccountInfo>, DB::Error>,
                        |
                            {
                                &&& *db == databases[i]
                                &&& *final(db) == databases[i + 1]
                                &&& #[trigger] call_ensures(
                                    DB::basic,
                                    (db, balances@[i].0),
                                    answer,
                                )
                            }
                    &&& match done {
                        Ok(_) => {
                            &&& reached == balances@.len()
                            &&& databases.len() == balances@.len() + 1
                            &&& accounts == final(self).cache@.accounts
                            &&& old(self).adds_balances(
                                balances@,
                                final(self).cache@.accounts,
                                final(self).database,
                                records,
                            )
                            &&& gathers(
                                old(self).transition_state,
                                final(self).transition_state,
                                records,
                            )
                        },
                        Err(error) => {
                            &&& reached < balances@.len()
                            &&& databases.len() == reached + 2
                            &&& final(self).cache@ == old(self).cache@
                            &&& final(self).transition_state == old(self).transition_state
                            &&& balances@[reached].1 != 0
                            &&& old(self).known_in(accounts, balances@[reached].0) is None
                            &&& exists|
                                db: &mut DB,
                                answer: Result<Option<AccountInfo>, DB::Error>,
                            |
                                {
                                    &&& *db == databases[reached]
                                    &&& *final(db) == databases[reached + 1]
                                    &&& #[trigger] call_ensures(
                                        DB::basic,
                                        (db, balances@[reached].0),
                                        answer,
                                    )
                                    &&& answer == Err::<Option<AccountInfo>, DB::Error>(error)
                                }
                        },
                    }
                },
    {
        let state_clear = self.cache.has_state_clear;
        let mut transitions: Vec<(Address, TransitionAccount)> = Vec::new();
        let mut log: Vec<BalanceUndo> = Vec::new();
        let count = balances.len();
        let mut i: usize = 0;
        let ghost mut databases: Seq<DB> = seq![self.database];
        proof {
            assert(transition_views(transitions@) =~= Seq::empty());
            assert(balances@.take(0) =~= Seq::empty());
        }
        while i < count
            invariant
                i <= count,
                count == balances@.len(),
                state_clear == old(self).cache.has_state_clear,
                self.same_but_accounts(old(self)),
                old(self).adds_balances(
                    balances@.take(i as int),
                    self.cache@.accounts,
                    self.database,
                    transition_views(transitions@),
                ),
                undone(self.cache@.accounts, log@) == old(self).cache@.accounts,
                databases.len() == i + 1,
                databases[0] == old(self).database,
                databases[i as int] == self.database,
                forall|i: int|
                    #![trigger databases[i]]
                    0 <= i < databases.len() - 1 ==> databases[i + 1] == databases[i]
                        || exists|db: &mut DB, answer: Result<Option<AccountInfo>, DB::Error>|
                        {
                            &&& *db == databases[i]
                            &&& *final(db) == databases[i + 1]
                            &&& #[trigger] call_ensures(DB::basic, (db, balances@[i].0), answer)
                        },
            decreases count - i,
        {
            let address = balances[i].0;
            let balance = balances[i].1;
            let ghost earlier = self.cache@.accounts;
            let ghost earlier_database = self.database;
            let ghost earlier_records = transition_views(transitions@);
            let ghost earlier_log = log@;
            proof {
                assert(balances@.take(i + 1).drop_last() == balances@.take(i as int));
                assert(balances@.take(i + 1).last() == (address, balance));
            }
            if balance != 0 {
                let was_cached = self.cache.accounts.contains_key(&address);
                let ghost loaded;
                match self.load_cache_account(address) {
                    Ok(cached) => {
                        proof {
                            loaded = cached@;
                        }
                        log.push(cached.balance_undo(address, was_cached));
                        match cached.increment_balance(balance, state_clear) {
                            Some(transition) => {
                                transitions.push((address, transition));
                            },
                            None => {},
                        }
                    },
                    Err(error) => {
                        proof {
                            let before = databases;
                            databases = databases.push(self.database);
                            assert forall|j: int| 0 <= j < i implies #[trigger] databases[j]
                                == before[j] && databases[j + 1] == before[j + 1] by {}
                            assert(databases[i as int] == earlier_database);
                            assert(self.cache@.accounts == earlier);
                        }
                        self.cache.undo_balance_changes(log);
                        proof {
                            assert(self.cache@ == old(self).cache@);
                            assert(old(self).adds_balances(
                                balances@.take(i as int),
                                earlier,
                                databases[i as int],
                                earlier_records,
                            ));
                        }
                        return Err(error);
                    },
                }
                proof {
                    let records = transition_views(transitions@);
                    let changed = loaded.balance_added(balance, state_clear);
                    assert(records.drop_last() =~= earlier_records);
                    assert(records.last() == (
                        address,
                        loaded.transition_to(changed, Map::empty(), false),
                    ));
                    assert(old(self).loads_in(
                        earlier,
                        earlier_database,
                        address,
                        self.database,
                        loaded,
                    ));
                    let undo = loaded.balance_undo(address, was_cached);
                    assert(was_cached == earlier.contains_key(address));
                    lemma_balance_change_is_undone(
                        loaded,
                        loaded.info_or_default().balance.spec_saturating_add(
                            U256::spec_from_u128(balance),
                        ),
                        state_clear,
                        address,
                        was_cached,
                    );
                    assert(log@.drop_last() =~= earlier_log);
                    assert(undone_one(self.cache@.accounts, undo) =~= earlier);
                }
            }
            proof {
                let before = databases;
                databases = databases.push(self.database);
                assert forall|j: int| 0 <= j < i implies #[trigger] databases[j] == before[j]
                    && databases[j + 1] == before[j + 1] by {}
                assert(databases[i as int] == earlier_database);
            }
            i += 1;
        }
        proof {
            assert(balances@.take(count as int) == balances@);
        }
        let ghost records = transition_views(transitions@);
        self.apply_transition(transitions);
        proof {
            assert(databases.len() - 1 == balances@.len());
            assert(balances@.take(balances@.len() as int) == balances@);
            assert(old(self).adds_balances(
                balances@.take(balances@.len() as int),
                self.cache@.accounts,
                databases[balances@.len() as int],
                records,
            ));
        }
        Ok(())
    }

    /// Takes the balance of each account of `addresses`, first one first:
    /// the account is loaded, its balance set to zero and handed out in full,
    /// as the 256-bit number that it is, and the change is recorded with the
    /// transitions of the block, where they are gathered.
    ///
    /// Where the database fails on an account, its error is returned and the
    /// call leaves no trace: the accounts changed before that one are set
    /// back, so that the cache and the transitions are as they were before
    /// the call. The database is asked for the accounts that are not known
    /// without it, in the order of `addresses`, and for nothing else.
    pub fn drain_balances(&mut self, addresses: Vec<Address>) -> (done: Result<
        Vec<U256>,
        DB::Error,
    >)
        ensures
            final(self).cache.contracts == old(self).cache.contracts,
            final(self).cache.has_state_clear == old(self).cache.has_state_clear,
            final(self).bundle_state == old(self).bundle_state,
            final(self).use_preloaded_bundle == old(self).use_preloaded_bundle,
            final(self).block_hashes == old(self).block_hashes,
            exists|
                databases: Seq<DB>,
                reached: int,
                accounts: Map<Address, CacheAccountView>,
                records: Seq<(Address, TransitionAccountView)>,
                taken: Seq<U256>,
            |
                {
                    &&& #[trigger] old(self).drains_balances(
                        addresses@.take(reached),
                        accounts,
                        databases[reached],
                        records,
                        taken,
                    )
                    &&& 0 <= reached <= addresses@.len()
                    &&& databases[0] == old(self).database
                    &&& databases[databases.len() - 1] == final(self).database
                    &&& forall|i: int|
                        #![trigger databases[i]]
                        0 <= i < databases.len() - 1 ==> databases[i + 1] == databases[i]
                            || exists|
                            db: &mut DB,
                            answer: Result<Option<AccountInfo>, DB::Error>,
                        |
                            {
                                &&& *db == databases[i]
                                &&& *final(db) == databases[i + 1]
                                &&& #[trigger] call_ensures(
                                    DB::basic,
                                    (db, addresses@[i]),
                                    answer,
                                )
                            }
                    &&& match done {
                        Ok(handed) => {
                            &&& reached == addresses@.len()
                            &&& databases.len() == addresses@.len() + 1
                            &&& accounts == final(self).cache@.accounts
                            &&& old(self).drains_balances(
                                addresses@,
                                final(self).cache@.accounts,
                                final(self).database,
                                records,
                                handed@,
                            )
                            &&& taken == handed@
                            &&& gathers(
                                old(self).transition_state,
                                final(self).transition_state,
                                records,
                            )
                        },
                        Err(error) => {
                            &&& reached < addresses@.len()
                            &&& databases.len() == reached + 2
                            &&& final(self).cache@ == old(self).cache@
                            &&& final(self).transition_state == old(self).transition_state
                            &&& old(self).known_in(accounts, addresses@[reached]) is None
                            &&& exists|
                                db: &mut DB,
                                answer: Result<Option<AccountInfo>, DB::Error>,
                            |
                                {
                                    &&& *db == databases[reached]
                                    &&& *final(db) == databases[reached + 1]
                                    &&& #[trigger] call_ensures(
                                        DB::basic,
                                        (db, addresses@[reached]),
                                        answer,
                                    )
                                    &&& answer == Err::<Option<AccountInfo>, DB::Error>(error)
                                }
                        },
                    }
                },
    {
        let state_clear = self.cache.has_state_clear;
        let mut transitions: Vec<(Address, TransitionAccount)> = Vec::new();
        let mut taken: Vec<U256> = Vec::new();
        let mut log: Vec<BalanceUndo> = Vec::new();
        let count = addresses.len();
        let mut i: usize = 0;
        let ghost mut databases: Seq<DB> = seq![self.database];
        proof {
            assert(transition_views(transitions@) =~= Seq::empty());
            assert(addresses@.take(0) =~= Seq::empty());
        }
        while i < count
            invariant
                i <= count,
                count == addresses@.len(),
                state_clear == old(self).cache.has_state_clear,
                self.same_but_accounts(old(self)),
                old(self).drains_balances(
                    addresses@.take(i as int),
                    self.cache@.accounts,
                    self.database,
                    transition_views(transitions@),
                    taken@,
                ),
                undone(self.cache@.accounts, log@) == old(self).cache@.accounts,
                databases.len() == i + 1,
                databases[0] == old(self).database,
                databases[i as int] == self.database,
                forall|i: int|
                    #![trigger databases[i]]
                    0 <= i < databases.len() - 1 ==> databases[i + 1] == databases[i]
                        || exists|db: &mut DB, answer: Result<Option<AccountInfo>, DB::Error>|
                        {
                            &&& *db == databases[i]
                            &&& *final(db) == databases[i + 1]
                            &&& #[trigger] call_ensures(DB::basic, (db, addresses@[i]), answer)
                        },
            decreases count - i,
        {
            let address = addresses[i];
            let ghost earlier = self.cache@.accounts;
            let ghost earlier_database = self.database;
            let ghost earlier_records = transition_views(transitions@);
            let ghost earlier_log = log@;
            let ghost earlier_taken = taken@;
            proof {
                assert(addresses@.take(i + 1).drop_last() == addresses@.take(i as int));
                assert(addresses@.take(i + 1).last() == address);
            }
            let was_cached = self.cache.accounts.contains_key(&address);
            let ghost loaded;
            match self.load_cache_account(address) {
                Ok(cached) => {
                    proof {
                        loaded = cached@;
                    }
                    log.push(cached.balance_undo(address, was_cached));
                    let (balance, transition) = cached.drain_balance(state_clear);
                    taken.push(balance);
                    transitions.push((address, transition));
                },
                Err(error) => {
                    proof {
                        let before = databases;
                        databases = databases.push(self.database);
                        assert forall|j: int| 0 <= j < i implies #[trigger] databases[j]
                            == before[j] && databases[j + 1] == before[j + 1] by {}
                        assert(databases[i as int] == earlier_database);
                        assert(self.cache@.accounts == earlier);
                    }
                    self.cache.undo_balance_changes(log);
                    proof {
                        assert(self.cache@ == old(self).cache@);
                        assert(old(self).drains_balances(
                            addresses@.take(i as int),
                            earlier,
                            databases[i as int],
                            earlier_records,
                            earlier_taken,
                        ));
                    }
                    return Err(error);
                },
            }
            proof {
                let records = transition_views(transitions@);
                let changed = loaded.drained(state_clear);
                assert(records.drop_last() =~= earlier_records);
                assert(taken@.drop_last() =~= earlier_taken);
                assert(records.last() == (
                    address,
                    loaded.transition_to(changed, Map::empty(), false),
                ));
                assert(old(self).loads_in(
                    earlier,
                    earlier_database,
                    address,
                    self.database,
                    loaded,
                ));
                let undo = loaded.balance_undo(address, was_cached);
                assert(was_cached == earlier.contains_key(address));
                lemma_balance_change_is_undone(
                    loaded,
                    U256::spec_zero(),
                    state_clear,
                    address,
                    was_cached,
                );
                assert(log@.drop_last() =~= earlier_log);
                assert(undone_one(self.cache@.accounts, undo) =~= earlier);
            }
            proof {
                let before = databases;
                databases = databases.push(self.database);
                assert forall|j: int| 0 <= j < i implies #[trigger] databases[j] == before[j]
                    && databases[j + 1] == before[j + 1] by {}
                assert(databases[i as int] == earlier_database);
            }
            i += 1;
        }
        proof {
            assert(addresses@.take(count as int) == addresses@);
        }
        let ghost records = transition_views(transitions@);
        self.apply_transition(transitions);
        let ghost handed = taken@;
        let done = Ok(taken);
        proof {
            assert(done->Ok_0@ == handed);
            assert(databases.len() - 1 == addresses@.len());
            assert(addresses@.take(addresses@.len() as int) == addresses@);
            assert(old(self).drains_balances(
                addresses@.take(addresses@.len() as int),
                self.cache@.accounts,
                databases[addresses@.len() as int],
                records,
                done->Ok_0@,
            ));
        }
        done
    }
}

/// The four questions as execution asks them: answered from the cache where
/// it knows, and else from the database, whose answer is cached.
impl<DB: Database> Database for State<DB> {
    type Error = DB::Error;

    /// The storage of an account may be asked for once the account is
    /// cached, and where the database may have to be asked, once it may be
    /// asked as well.
    open spec fn storage_ready(&self, address: Address) -> bool {
        &&& self.cache@.accounts.contains_key(address)
        &&& {
            let account = self.cache@.accounts[address];
            ||| account.account is None
            ||| account.status.is_storage_known()
            ||| self.database.storage_ready(address)
        }
    }

    /// The info of the account at `address`, loaded into the cache where it
    /// was not there.
    fn basic(&mut self, address: Address) -> (info: Result<Option<AccountInfo>, DB::Error>)
        ensures
            Self::answers_basic(old(self), address, final(self), info),
            old(self).known_account(address) is None ==> exists|db: &mut DB|
                {
                    &&& *db == old(self).database
                    &&& *final(db) == final(self).database
                    &&& #[trigger] call_ensures(DB::basic, (db, address), info)
                },
    {
        match self.ensure_loaded(address) {
            Ok(_) => {},
            Err(error) => {
                return Err(error);
            },
        }
        let ghost loaded = choose|loaded: CacheAccountView|
            {
                &&& Self::loads(old(self), address, self.database, loaded)
                &&& self.cache@.accounts == old(self).cache@.accounts.insert(address, loaded)
            };
        match self.cache.accounts.get(&address) {
            Some(cached) => {
                proof {
                    assert(self.cache@.accounts[address] == loaded);
                    assert(cached@ == loaded);
                }
                Ok(cached.account_info())
            },
            None => {
                proof {
                    assert(self.cache@.accounts.contains_key(address));
                }
                vstd::pervasive::unreached()
            },
        }
    }

    /// The code with hash `code_hash`: from the cache, or else from the
    /// preloaded bundle where that is in use, or else from the database. Code
    /// that was not cached is cached.
    fn code_by_hash(&mut self, code_hash: B256) -> (code: Result<Bytecode, DB::Error>)
        ensures
            final(self).cache.accounts == old(self).cache.accounts,
            final(self).cache.has_state_clear == old(self).cache.has_state_clear,
            final(self).transition_state == old(self).transition_state,
            final(self).bundle_state == old(self).bundle_state,
            final(self).use_preloaded_bundle == old(self).use_preloaded_bundle,
            final(self).block_hashes == old(self).block_hashes,
            match old(self).known_code(code_hash) {
                Some(known) => {
                    &&& code == Ok::<Bytecode, DB::Error>(known)
                    &&& final(self).database == old(self).database
                    &&& final(self).cache.contracts@ == old(self).cache.contracts@.insert(
                        code_hash,
                        known,
                    )
                },
                None => (exists|db: &mut DB|
                    {
                        &&& *db == old(self).database
                        &&& *final(db) == final(self).database
                        &&& #[trigger] call_ensures(DB::code_by_hash, (db, code_hash), code)
                    }) && match code {
                    Ok(found) => {
                        &&& final(self).cache.contracts@ == old(self).cache.contracts@.insert(
                            code_hash,
                            found,
                        )
                    },
                    Err(_) => final(self).cache == old(self).cache,
                },
            },
    {
        match self.cache.contracts.get(&code_hash) {
            Some(code) => {
                proof {
                    assert(self.cache.contracts@.insert(code_hash, *code)
                        =~= self.cache.contracts@);
                }
                return Ok(code.clone());
            },
            None => {},
        }
        let preloaded = if self.use_preloaded_bundle {
            self.bundle_state.bytecode(&code_hash)
        } else {
            None
        };
        let code = match preloaded {
            Some(code) => code,
            None => match self.database.code_by_hash(code_hash) {
                Ok(code) => code,
                Err(error) => {
                    return Err(error);
                },
            },
        };
        self.cache.contracts.insert(code_hash, code.clone());
        Ok(code)
    }

    /// The value of slot `index` of the account at `address`, which has to
    /// be in the cache: execution loads an account before it reads its
    /// storage. For an account that does not exist the value is zero. A slot
    /// that is cached is answered from the cache. A slot that is not cached
    /// is zero where all storage of the account is known, and is asked of the
    /// database otherwise; either way it is cached.
    fn storage(&mut self, address: Address, index: StorageKey) -> (value: Result<
        StorageValue,
        DB::Error,
    >)
        ensures
            final(self).same_but_accounts(old(self)),
            match old(self).known_slot(address, index) {
                Some(known) => {
                    &&& value == Ok::<StorageValue, DB::Error>(known)
                    &&& final(self).database == old(self).database
                    &&& final(self).cache@.accounts == old(self).cache@.accounts.insert(
                        address,
                        old(self).cache@.accounts[address].with_slot(index, known),
                    )
                },
                None => (exists|db: &mut DB|
                    {
                        &&& *db == old(self).database
                        &&& *final(db) == final(self).database
                        &&& #[trigger] call_ensures(DB::storage, (db, address, index), value)
                    }) && match value {
                    Ok(found) => final(self).cache@.accounts == old(self).cache@.accounts.insert(
                        address,
                        old(self).cache@.accounts[address].with_slot(index, found),
                    ),
                    Err(_) => final(self).cache@ == old(self).cache@,
                },
            },
    {
        let ghost before = self.cache@.accounts;
        let ghost account = before[address];
        let value = match self.cache.accounts.get_mut(&address) {
            Some(cached) => {
                let known = cached.status.is_storage_known();
                match &mut cached.account {
                    Some(plain) => {
                        let found = match plain.storage.get(&index) {
                            Some(value) => *value,
                            None => if known {
                                U256::zero()
                            } else {
                                match self.database.storage(address, index) {
                                    Ok(value) => value,
                                    Err(error) => {
                                        proof {
                                            assert(self.cache@.accounts =~= before);
                                        }
                                        return Err(error);
                                    },
                                }
                            },
                        };
                        plain.storage.insert(index, found);
                        found
                    },
                    None => U256::zero(),
                }
            },
            None => vstd::pervasive::unreached(),
        };
        proof {
            assert(self.cache@.accounts =~= before.insert(
                address,
                account.with_slot(index, value),
            ));
        }
        Ok(value)
    }

    /// The hash of block `number`: the one that is kept, or else the one
    /// that the database gives. A hash that comes from the database is kept,
    /// and every hash of a block more than `BLOCK_HASH_HISTORY` before
    /// `number` is dropped.
    fn block_hash(&mut self, number: u64) -> (hash: Result<B256, DB::Error>)
        ensures
            final(self).cache == old(self).cache,
            final(self).transition_state == old(self).transition_state,
            final(self).bundle_state == old(self).bundle_state,
            final(self).use_preloaded_bundle == old(self).use_preloaded_bundle,
            old(self).block_hashes@.contains_key(number) ==> hash == Ok::<B256, DB::Error>(
                old(self).block_hashes@[number],
            ) && *final(self) == *old(self),
            !old(self).block_hashes@.contains_key(number) ==> (exists|db: &mut DB|
                {
                    &&& *db == old(self).database
                    &&& *final(db) == final(self).database
                    &&& #[trigger] call_ensures(DB::block_hash, (db, number), hash)
                }) && match hash {
                Ok(found) => final(self).block_hashes@ == pruned(
                    old(self).block_hashes@.insert(number, found),
                    number,
                ),
                Err(_) => final(self).block_hashes == old(self).block_hashes,
            },
    {
        broadcast use {vstd::std_specs::btree::group_btree_axioms, vstd::laws_cmp::group_laws_cmp};

        match self.block_hashes.get(&number) {
            Some(hash) => {
                return Ok(*hash);
            },
            None => {},
        }
        let found = match self.database.block_hash(number) {
            Ok(found) => found,
            Err(error) => {
                return Err(error);
            },
        };
        self.block_hashes.insert(number, found);
        let oldest = if number >= BLOCK_HASH_HISTORY {
            number - BLOCK_HASH_HISTORY
        } else {
            0
        };
        prune_block_hashes(&mut self.block_hashes, oldest);
        Ok(found)
    }
}

/// The four questions, answered without a change to the state: what the
/// cache or the preloaded bundle knows, and else what the database answers.
impl<DB: DatabaseRef> DatabaseRef for State<DB> {
    type Error = DB::Error;

    /// The info of the account at `address`, without a change to the state:
    /// from the cache, or else from the preloaded bundle where that is in
    /// use, or else whatever the database answers.
    fn basic_ref(&self, address: Address) -> (info: Result<Option<AccountInfo>, DB::Error>)
        ensures
            match self.known_account(address) {
                Some(known) => info == Ok::<Option<AccountInfo>, DB::Error>(known.info()),
                None => call_ensures(DB::basic_ref, (&self.database, address), info),
            },
    {
        match self.cache.accounts.get(&address) {
            Some(cached) => {
                return Ok(cached.account_info());
            },
            None => {},
        }
        if self.use_preloaded_bundle {
            match self.bundle_state.account(&address) {
                Some(held) => {
                    return Ok(held.account_info());
                },
                None => {},
            }
        }
        self.database.basic_ref(address)
    }

    /// The code with hash `code_hash`, without a change to the state: from
    /// the cache, or else from the preloaded bundle where that is in use, or
    /// else whatever the database answers.
    fn code_by_hash_ref(&self, code_hash: B256) -> (code: Result<Bytecode, DB::Error>)
        ensures
            match self.known_code(code_hash) {
                Some(known) => code == Ok::<Bytecode, DB::Error>(known),
                None => call_ensures(DB::code_by_hash_ref, (&self.database, code_hash), code),
            },
    {
        match self.cache.contracts.get(&code_hash) {
            Some(code) => {
                return Ok(code.clone());
            },
            None => {},
        }
        if self.use_preloaded_bundle {
            match self.bundle_state.bytecode(&code_hash) {
                Some(code) => {
                    return Ok(code);
                },
                None => {},
            }
        }
        self.database.code_by_hash_ref(code_hash)
    }

    /// The value of slot `index` of the account at `address`, without a
    /// change to the state. For an account that is cached the answer is that
    /// of [`State::storage`]: zero for an account that does not exist, the
    /// value that is cached, zero where all storage of the account is known,
    /// and else whatever the database answers. For an account that is not
    /// cached the database is asked.
    fn storage_ref(&self, address: Address, index: StorageKey) -> (value: Result<
        StorageValue,
        DB::Error,
    >)
        ensures
            match self.cached_slot(address, index) {
                Some(known) => value == Ok::<StorageValue, DB::Error>(known),
                None => call_ensures(DB::storage_ref, (&self.database, address, index), value),
            },
    {
        match self.cache.accounts.get(&address) {
            Some(cached) => {
                match &cached.account {
                    Some(plain) => {
                        match plain.storage.get(&index) {
                            Some(value) => {
                                return Ok(*value);
                            },
                            None => {},
                        }
                        if cached.status.is_storage_known() {
                            return Ok(U256::zero());
                        }
                    },
                    None => {
                        return Ok(U256::zero());
                    },
                }
            },
            None => {},
        }
        self.database.storage_ref(address, index)
    }

    /// The hash of block `number`, without a change to the state: the one
    /// that is kept, or else whatever the database answers.
    fn block_hash_ref(&self, number: u64) -> (hash: Result<B256, DB::Error>)
        ensures
            if self.block_hashes@.contains_key(number) {
                hash == Ok::<B256, DB::Error>(self.block_hashes@[number])
            } else {
                call_ensures(DB::block_hash_ref, (&self.database, number), hash)
            },
    {
        broadcast use {vstd::std_specs::btree::group_btree_axioms, vstd::laws_cmp::group_laws_cmp};

        match self.block_hashes.get(&number) {
            Some(hash) => {
                return Ok(*hash);
            },
            None => {},
        }
        self.database.block_hash_ref(number)
    }
}

} // verus!
