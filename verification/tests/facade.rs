use std::collections::BTreeMap;

use evm_state::account_info::{Account, AccountInfo};
use evm_state::account_status::AccountStatus;
use evm_state::bundle_account::BundleAccount;
use evm_state::bundle_state::{BundleRetention, BundleState};
use evm_state::bytecode::Bytecode;
use evm_state::database::{keccak256, Database, DatabaseRef};
use evm_state::primitives::{Address, StorageKey, StorageValue, B256, BLOCK_HASH_HISTORY, U256};
use evm_state::state::State;
use evm_state::state_builder::StateBuilder;
use evm_state::storage::StorageSlot;
use evm_state::vec_map::VecMap;

/// A database in memory that counts how often it is asked and can be told to fail.
#[derive(Debug, Default)]
struct CountingDb {
    accounts: Vec<(Address, AccountInfo)>,
    slots: Vec<(Address, StorageKey, StorageValue)>,
    codes: Vec<(B256, Bytecode)>,
    fails: bool,
    fails_for: Vec<Address>,
    asked: std::cell::Cell<usize>,
}

impl CountingDb {
    fn find_basic(&self, address: Address) -> Result<Option<AccountInfo>, String> {
        self.asked.set(self.asked.get() + 1);
        if self.fails || self.fails_for.contains(&address) {
            return Err(String::from("database is down"));
        }
        Ok(self
            .accounts
            .iter()
            .find(|entry| entry.0 == address)
            .map(|entry| entry.1.clone()))
    }

    fn find_code(&self, code_hash: B256) -> Result<Bytecode, String> {
        self.asked.set(self.asked.get() + 1);
        if self.fails {
            return Err(String::from("database is down"));
        }
        Ok(self
            .codes
            .iter()
            .find(|entry| entry.0 == code_hash)
            .map(|entry| entry.1.clone())
            .unwrap_or_else(|| Bytecode::new(Vec::new())))
    }

    fn find_slot(&self, address: Address, index: StorageKey) -> Result<StorageValue, String> {
        self.asked.set(self.asked.get() + 1);
        if self.fails {
            return Err(String::from("database is down"));
        }
        Ok(self
            .slots
            .iter()
            .find(|entry| entry.0 == address && entry.1 == index)
            .map(|entry| entry.2)
            .unwrap_or(U256::zero()))
    }

    fn find_hash(&self, number: u64) -> Result<B256, String> {
        self.asked.set(self.asked.get() + 1);
        if self.fails {
            return Err(String::from("database is down"));
        }
        Ok(B256 { hi: 0, lo: number as u128 })
    }
}

impl Database for CountingDb {
    type Error = String;

    fn basic(&mut self, address: Address) -> Result<Option<AccountInfo>, String> {
        self.find_basic(address)
    }

    fn code_by_hash(&mut self, code_hash: B256) -> Result<Bytecode, String> {
        self.find_code(code_hash)
    }

    fn storage(&mut self, address: Address, index: StorageKey) -> Result<StorageValue, String> {
        self.find_slot(address, index)
    }

    fn block_hash(&mut self, number: u64) -> Result<B256, String> {
        self.find_hash(number)
    }
}

impl DatabaseRef for CountingDb {
    type Error = String;

    fn basic_ref(&self, address: Address) -> Result<Option<AccountInfo>, String> {
        self.find_basic(address)
    }

    fn code_by_hash_ref(&self, code_hash: B256) -> Result<Bytecode, String> {
        self.find_code(code_hash)
    }

    fn storage_ref(&self, address: Address, index: StorageKey) -> Result<StorageValue, String> {
        self.find_slot(address, index)
    }

    fn block_hash_ref(&self, number: u64) -> Result<B256, String> {
        self.find_hash(number)
    }
}

fn address(byte: u8) -> Address {
    Address::from_slice(&[byte; 20])
}

fn info(nonce: u64, balance: u64) -> AccountInfo {
    AccountInfo { nonce, balance: U256::from_u64(balance), ..Default::default() }
}

fn state_over(db: CountingDb) -> State<CountingDb> {
    StateBuilder::new_with_database(db).with_bundle_update().build()
}

fn touched(info: AccountInfo, slots: Vec<(u64, u64, u64)>) -> Account {
    Account {
        info,
        storage: VecMap::from_entries(
            slots
                .into_iter()
                .map(|(key, original, present)| {
                    (
                        U256::from_u64(key),
                        StorageSlot::new_changed(U256::from_u64(original), U256::from_u64(present)),
                    )
                })
                .collect(),
        ),
        touched: true,
        created: false,
        selfdestructed: false,
    }
}

#[test]
fn basic_loads_each_kind_of_account() {
    let db = CountingDb {
        accounts: vec![(address(1), info(1, 5)), (address(2), AccountInfo::default())],
        ..Default::default()
    };
    let mut state = state_over(db);
    assert_eq!(state.basic(address(1)).unwrap(), Some(info(1, 5)));
    assert_eq!(state.basic(address(2)).unwrap(), Some(AccountInfo::default()));
    assert_eq!(state.basic(address(3)).unwrap(), None);
    assert_eq!(
        state.cache.accounts.get(&address(1)).unwrap().status,
        AccountStatus::Loaded
    );
    assert_eq!(
        state.cache.accounts.get(&address(2)).unwrap().status,
        AccountStatus::LoadedEmptyEIP161
    );
    assert_eq!(
        state.cache.accounts.get(&address(3)).unwrap().status,
        AccountStatus::LoadedNotExisting
    );
    assert!(state.cache.accounts.get(&address(3)).unwrap().account.is_none());
}

#[test]
fn basic_twice_asks_the_database_once() {
    let db = CountingDb { accounts: vec![(address(1), info(1, 5))], ..Default::default() };
    let mut state = state_over(db);
    let first = state.basic(address(1)).unwrap();
    let second = state.basic(address(1)).unwrap();
    assert_eq!(first, second);
    assert_eq!(first, Some(info(1, 5)));
    assert_eq!(state.database.asked.get(), 1);
    // An account that does not exist is remembered as well.
    assert_eq!(state.basic(address(9)).unwrap(), None);
    assert_eq!(state.basic(address(9)).unwrap(), None);
    assert_eq!(state.database.asked.get(), 2);
}

#[test]
fn a_failed_load_leaves_the_cache_as_it_was() {
    let db = CountingDb { fails: true, ..Default::default() };
    let mut state = state_over(db);
    assert_eq!(state.basic(address(1)), Err(String::from("database is down")));
    assert!(state.cache.accounts.is_empty());
    assert!(state.load_cache_account(address(1)).is_err());
    assert_eq!(state.ensure_loaded(address(1)), Err(String::from("database is down")));
    assert!(state.cache.accounts.is_empty());
    state.insert_account(address(1), info(1, 1));
    assert_eq!(state.basic(address(1)).unwrap(), Some(info(1, 1)));
}

#[test]
fn storage_of_a_loaded_account_asks_the_database_once() {
    let db = CountingDb {
        accounts: vec![(address(1), info(1, 5))],
        slots: vec![(address(1), U256::from_u64(7), U256::from_u64(70))],
        ..Default::default()
    };
    let mut state = state_over(db);
    state.basic(address(1)).unwrap();
    assert_eq!(state.database.asked.get(), 1);
    assert_eq!(state.storage(address(1), U256::from_u64(7)).unwrap(), U256::from_u64(70));
    assert_eq!(state.database.asked.get(), 2);
    assert_eq!(state.storage(address(1), U256::from_u64(7)).unwrap(), U256::from_u64(70));
    assert_eq!(state.database.asked.get(), 2);
    assert_eq!(state.storage(address(1), U256::from_u64(8)).unwrap(), U256::zero());
    assert_eq!(state.database.asked.get(), 3);
}

#[test]
fn storage_that_is_known_never_asks_the_database() {
    let db = CountingDb {
        slots: vec![(address(1), U256::from_u64(7), U256::from_u64(70))],
        ..Default::default()
    };
    let mut state = state_over(db);
    // Not existing: the value is zero.
    state.insert_not_existing(address(1));
    assert_eq!(state.storage(address(1), U256::from_u64(7)).unwrap(), U256::zero());
    // Created in this block: what is not cached is zero.
    state.cache.accounts.insert(
        address(2),
        evm_state::cache_account::CacheAccount::new_newly_created(
            info(1, 0),
            VecMap::from_entries(vec![(U256::from_u64(1), U256::from_u64(11))]),
        ),
    );
    assert_eq!(state.storage(address(2), U256::from_u64(1)).unwrap(), U256::from_u64(11));
    assert_eq!(state.storage(address(2), U256::from_u64(7)).unwrap(), U256::zero());
    // The zero is cached from then on.
    assert_eq!(
        state.cache.accounts.get(&address(2)).unwrap().storage_slot(U256::from_u64(7)),
        Some(U256::zero())
    );
    assert_eq!(state.database.asked.get(), 0);
}

#[test]
fn storage_passes_on_the_error_of_the_database() {
    let db = CountingDb { fails: true, ..Default::default() };
    let mut state = state_over(db);
    state.insert_account(address(1), info(1, 1));
    assert_eq!(
        state.storage(address(1), U256::from_u64(7)),
        Err(String::from("database is down"))
    );
    assert_eq!(
        state.cache.accounts.get(&address(1)).unwrap().storage_slot(U256::from_u64(7)),
        None
    );
}

#[test]
fn code_by_hash_is_cached() {
    let code = Bytecode::new(vec![1, 2, 3]);
    let hash = keccak256(&[1, 2, 3]);
    let db = CountingDb { codes: vec![(hash, code.clone())], ..Default::default() };
    let mut state = state_over(db);
    assert_eq!(state.code_by_hash(hash).unwrap(), code);
    assert_eq!(state.code_by_hash(hash).unwrap(), code);
    assert_eq!(state.database.asked.get(), 1);
    assert_eq!(state.cache.contracts.get(&hash), Some(&code));
}

#[test]
fn code_by_hash_passes_on_the_error_of_the_database() {
    let db = CountingDb { fails: true, ..Default::default() };
    let mut state = state_over(db);
    assert_eq!(
        state.code_by_hash(B256::zero()),
        Err(String::from("database is down"))
    );
    assert!(state.cache.contracts.is_empty());
}

#[test]
fn the_preloaded_bundle_is_asked_before_the_database() {
    let code = Bytecode::new(vec![9, 9]);
    let hash = keccak256(&[9, 9]);
    let mut bundle = BundleState::new();
    bundle.state.insert(
        address(1),
        BundleAccount::new(
            Some(info(1, 1)),
            Some(info(2, 2)),
            VecMap::from_entries(vec![(
                U256::from_u64(4),
                StorageSlot::new_changed(U256::from_u64(40), U256::from_u64(44)),
            )]),
            AccountStatus::Changed,
        ),
    );
    bundle.contracts.insert(hash, code.clone());
    let db = CountingDb { accounts: vec![(address(1), info(7, 7))], ..Default::default() };
    let mut state = StateBuilder::new_with_database(db).with_bundle_prestate(bundle).build();
    assert!(state.use_preloaded_bundle);
    assert_eq!(state.basic_ref(address(1)).unwrap(), Some(info(2, 2)));
    assert_eq!(state.code_by_hash_ref(hash).unwrap(), code);
    assert_eq!(state.basic(address(1)).unwrap(), Some(info(2, 2)));
    assert_eq!(state.storage(address(1), U256::from_u64(4)).unwrap(), U256::from_u64(44));
    assert_eq!(state.code_by_hash(hash).unwrap(), code);
    assert_eq!(state.database.asked.get(), 0);
    assert_eq!(
        state.cache.accounts.get(&address(1)).unwrap().status,
        AccountStatus::Changed
    );
}

#[test]
fn the_read_only_queries_leave_the_cache_alone() {
    let db = CountingDb {
        accounts: vec![(address(1), info(1, 5))],
        slots: vec![(address(1), U256::from_u64(7), U256::from_u64(70))],
        ..Default::default()
    };
    let mut state = state_over(db);
    assert_eq!(state.basic_ref(address(1)).unwrap(), Some(info(1, 5)));
    assert_eq!(state.storage_ref(address(1), U256::from_u64(7)).unwrap(), U256::from_u64(70));
    assert_eq!(state.block_hash_ref(3).unwrap(), B256 { hi: 0, lo: 3 });
    assert!(state.cache.accounts.is_empty());
    assert!(state.block_hashes.is_empty());
    assert_eq!(state.database.asked.get(), 3);

    // What the cache knows is answered from the cache.
    state.insert_account_with_storage(
        address(2),
        info(1, 1),
        VecMap::from_entries(vec![(U256::from_u64(1), U256::from_u64(11))]),
    );
    state.block_hashes.insert(5, B256 { hi: 5, lo: 5 });
    assert_eq!(state.basic_ref(address(2)).unwrap(), Some(info(1, 1)));
    assert_eq!(state.storage_ref(address(2), U256::from_u64(1)).unwrap(), U256::from_u64(11));
    assert_eq!(state.block_hash_ref(5).unwrap(), B256 { hi: 5, lo: 5 });
    assert_eq!(state.database.asked.get(), 3);
    // A loaded account may have storage that the cache does not know.
    assert_eq!(state.storage_ref(address(2), U256::from_u64(2)).unwrap(), U256::zero());
    assert_eq!(state.database.asked.get(), 4);
}

#[test]
fn read_only_storage_of_an_account_without_data_is_zero() {
    let db = CountingDb {
        slots: vec![
            (address(1), U256::from_u64(7), U256::from_u64(70)),
            (address(2), U256::from_u64(7), U256::from_u64(71)),
            (address(3), U256::from_u64(7), U256::from_u64(72)),
        ],
        ..Default::default()
    };
    let mut state = state_over(db);
    state.insert_not_existing(address(1));
    state.cache.accounts.insert(
        address(2),
        evm_state::cache_account::CacheAccount::new_destroyed(),
    );
    state.cache.accounts.insert(
        address(3),
        evm_state::cache_account::CacheAccount {
            account: None,
            status: AccountStatus::DestroyedAgain,
        },
    );
    for byte in [1u8, 2, 3] {
        assert_eq!(state.storage_ref(address(byte), U256::from_u64(7)).unwrap(), U256::zero());
        assert_eq!(
            state.storage_ref(address(byte), U256::from_u64(7)).unwrap(),
            state.storage(address(byte), U256::from_u64(7)).unwrap()
        );
    }
    assert_eq!(state.database.asked.get(), 0);
    // An account that is not cached is asked of the database.
    assert_eq!(state.storage_ref(address(4), U256::from_u64(7)).unwrap(), U256::zero());
    assert_eq!(state.database.asked.get(), 1);
}

#[test]
fn block_hash_that_is_kept_prunes_nothing() {
    let db = CountingDb::default();
    let mut state = StateBuilder::new_with_database(db)
        .with_block_hashes(BTreeMap::from([(1, B256 { hi: 1, lo: 1 }), (1000, B256 { hi: 2, lo: 2 })]))
        .build();
    assert_eq!(state.block_hash(1000).unwrap(), B256 { hi: 2, lo: 2 });
    assert_eq!(state.database.asked.get(), 0);
    assert_eq!(state.block_hashes.len(), 2);
    // A hash that the database gives prunes what is older than the window.
    assert_eq!(state.block_hash(999).unwrap(), B256 { hi: 0, lo: 999 });
    assert_eq!(
        state.block_hashes.keys().copied().collect::<Vec<u64>>(),
        vec![999, 1000]
    );
}

#[test]
fn block_hash_keeps_the_whole_window() {
    let db = CountingDb::default();
    let mut state = StateBuilder::new_with_database(db).build();
    state.block_hash(10).unwrap();
    state.block_hash(10 + BLOCK_HASH_HISTORY).unwrap();
    assert_eq!(
        state.block_hashes.keys().copied().collect::<Vec<u64>>(),
        vec![10, 10 + BLOCK_HASH_HISTORY]
    );
    state.block_hash(11 + BLOCK_HASH_HISTORY).unwrap();
    assert_eq!(
        state.block_hashes.keys().copied().collect::<Vec<u64>>(),
        vec![10 + BLOCK_HASH_HISTORY, 11 + BLOCK_HASH_HISTORY]
    );
    // Below the size of the window nothing is old enough.
    state.block_hash(0).unwrap();
    assert_eq!(state.block_hashes.len(), 3);
}

#[test]
fn block_hash_passes_on_the_error_of_the_database() {
    let db = CountingDb { fails: true, ..Default::default() };
    let mut state = StateBuilder::new_with_database(db).build();
    assert_eq!(state.block_hash(5), Err(String::from("database is down")));
    assert!(state.block_hashes.is_empty());
}

#[test]
fn increment_balances_loads_and_adds() {
    let x = address(1);
    let y = address(2);
    let db = CountingDb { accounts: vec![(x, info(0, 5))], ..Default::default() };
    let mut state = state_over(db);
    state.increment_balances(vec![(x, 0), (x, 10), (y, 3)]).unwrap();
    assert_eq!(state.database.asked.get(), 2);
    assert_eq!(state.basic(x).unwrap(), Some(info(0, 15)));
    assert_eq!(state.basic(y).unwrap(), Some(info(0, 3)));
    assert_eq!(state.database.asked.get(), 2);
    assert_eq!(state.cache.accounts.get(&x).unwrap().status, AccountStatus::Changed);
    assert_eq!(state.cache.accounts.get(&y).unwrap().status, AccountStatus::InMemoryChange);
    let transitions = state.transition_state.as_ref().unwrap();
    assert_eq!(transitions.transitions.len(), 2);
    let of_x = transitions.transitions.get(&x).unwrap();
    assert_eq!(of_x.previous_info, Some(info(0, 5)));
    assert_eq!(of_x.info, Some(info(0, 15)));
    assert_eq!(of_x.previous_status, AccountStatus::Loaded);
    assert_eq!(of_x.status, AccountStatus::Changed);
    let of_y = transitions.transitions.get(&y).unwrap();
    assert_eq!(of_y.previous_info, None);
    assert_eq!(of_y.previous_status, AccountStatus::LoadedNotExisting);
    assert_eq!(of_y.info, Some(info(0, 3)));
}

#[test]
fn increment_balances_twice_composes_the_transitions() {
    let x = address(1);
    let db = CountingDb { accounts: vec![(x, info(0, 5))], ..Default::default() };
    let mut state = state_over(db);
    state.increment_balances(vec![(x, 10), (x, 1)]).unwrap();
    let transitions = state.transition_state.as_ref().unwrap();
    assert_eq!(transitions.transitions.len(), 1);
    let of_x = transitions.transitions.get(&x).unwrap();
    assert_eq!(of_x.previous_info, Some(info(0, 5)));
    assert_eq!(of_x.info, Some(info(0, 16)));
}

#[test]
fn increment_balances_records_nothing_where_the_database_fails() {
    let db = CountingDb { fails: true, ..Default::default() };
    let mut state = state_over(db);
    state.insert_account(address(1), info(0, 5));
    assert_eq!(
        state.increment_balances(vec![(address(1), 10), (address(2), 3)]),
        Err(String::from("database is down"))
    );
    assert!(state.transition_state.as_ref().unwrap().transitions.is_empty());
    assert_eq!(state.cache.accounts.len(), 1);
    assert_eq!(
        state.cache.accounts.get(&address(1)).unwrap().status,
        AccountStatus::Loaded
    );
    assert_eq!(state.basic(address(1)).unwrap(), Some(info(0, 5)));
}

#[test]
fn a_failed_increment_leaves_no_trace() {
    let a = address(1);
    let b = address(2);
    let c = address(3);
    let db = CountingDb {
        accounts: vec![(a, info(1, 7))],
        fails_for: vec![c],
        ..Default::default()
    };
    let mut state = state_over(db);
    state.insert_not_existing(b);
    state.insert_account_with_storage(
        address(9),
        info(2, 2),
        VecMap::from_entries(vec![(U256::from_u64(1), U256::from_u64(11))]),
    );
    // `a` is answered by the database, `b` and the ninth are cached, `c` fails.
    assert_eq!(
        state.increment_balances(vec![(a, 1), (b, 2), (address(9), 3), (a, 4), (c, 5)]),
        Err(String::from("database is down"))
    );
    assert_eq!(state.database.asked.get(), 2);
    assert!(state.transition_state.as_ref().unwrap().transitions.is_empty());
    // The account that was loaded for the call is gone again.
    assert!(!state.cache.accounts.contains_key(&a));
    assert!(!state.cache.accounts.contains_key(&c));
    assert_eq!(state.cache.accounts.len(), 2);
    let cached_b = state.cache.accounts.get(&b).unwrap();
    assert_eq!(cached_b.status, AccountStatus::LoadedNotExisting);
    assert!(cached_b.account.is_none());
    let ninth = state.cache.accounts.get(&address(9)).unwrap();
    assert_eq!(ninth.status, AccountStatus::Loaded);
    assert_eq!(ninth.account_info(), Some(info(2, 2)));
    assert_eq!(ninth.storage_slot(U256::from_u64(1)), Some(U256::from_u64(11)));
    // The same call without the failing account goes through.
    state
        .increment_balances(vec![(a, 1), (b, 2), (address(9), 3), (a, 4)])
        .unwrap();
    assert_eq!(state.basic(a).unwrap(), Some(info(1, 12)));
    assert_eq!(state.basic(b).unwrap(), Some(info(0, 2)));
    assert_eq!(state.basic(address(9)).unwrap(), Some(info(2, 5)));
    assert_eq!(state.transition_state.as_ref().unwrap().transitions.len(), 3);
}

#[test]
fn a_failed_drain_leaves_no_trace() {
    let a = address(1);
    let b = address(2);
    let c = address(3);
    let db = CountingDb {
        accounts: vec![(a, info(1, 7))],
        fails_for: vec![c],
        ..Default::default()
    };
    let mut state = state_over(db);
    state.insert_account(b, info(3, 9));
    assert_eq!(
        state.drain_balances(vec![a, b, a, c]),
        Err(String::from("database is down"))
    );
    assert!(state.transition_state.as_ref().unwrap().transitions.is_empty());
    assert!(!state.cache.accounts.contains_key(&a));
    assert_eq!(state.cache.accounts.len(), 1);
    assert_eq!(state.cache.accounts.get(&b).unwrap().status, AccountStatus::Loaded);
    assert_eq!(state.basic(b).unwrap(), Some(info(3, 9)));
    assert_eq!(
        state.drain_balances(vec![a, b, a]).unwrap(),
        vec![U256::from_u64(7), U256::from_u64(9), U256::zero()]
    );
}

#[test]
fn drain_balances_hands_out_the_balances() {
    let x = address(1);
    let y = address(2);
    let db = CountingDb { accounts: vec![(x, info(3, 5))], ..Default::default() };
    let mut state = state_over(db);
    let taken = state.drain_balances(vec![x, y]).unwrap();
    assert_eq!(taken, vec![U256::from_u64(5), U256::zero()]);
    assert_eq!(state.basic(x).unwrap(), Some(info(3, 0)));
    assert_eq!(state.basic(y).unwrap(), Some(info(0, 0)));
    assert_eq!(state.transition_state.as_ref().unwrap().transitions.len(), 2);
}

#[test]
fn commit_records_one_transition_for_each_touched_account() {
    let a = address(1);
    let b = address(2);
    let c = address(3);
    let db = CountingDb {
        accounts: vec![(a, info(1, 5)), (b, info(1, 5))],
        ..Default::default()
    };
    let mut state = state_over(db);
    state.basic(a).unwrap();
    state.basic(b).unwrap();
    state.basic(c).unwrap();
    let mut untouched = touched(info(9, 9), vec![]);
    untouched.touched = false;
    let mut created = touched(info(1, 0), vec![(1, 0, 10), (2, 0, 0)]);
    created.created = true;
    state.commit(VecMap::from_entries(vec![
        (a, touched(info(2, 5), vec![(1, 1, 2), (2, 3, 3)])),
        (b, untouched),
        (c, created),
    ]));
    assert_eq!(state.basic(a).unwrap(), Some(info(2, 5)));
    assert_eq!(state.basic(b).unwrap(), Some(info(1, 5)));
    assert_eq!(state.basic(c).unwrap(), Some(info(1, 0)));
    assert_eq!(state.cache.accounts.get(&a).unwrap().status, AccountStatus::Changed);
    assert_eq!(state.cache.accounts.get(&b).unwrap().status, AccountStatus::Loaded);
    assert_eq!(state.cache.accounts.get(&c).unwrap().status, AccountStatus::InMemoryChange);
    // Only the slots that changed are written.
    assert_eq!(state.storage(a, U256::from_u64(1)).unwrap(), U256::from_u64(2));
    assert_eq!(
        state.cache.accounts.get(&a).unwrap().storage_slot(U256::from_u64(2)),
        None
    );
    let transitions = state.transition_state.as_ref().unwrap();
    assert_eq!(transitions.transitions.len(), 2);
    assert_eq!(transitions.transitions.key_at(0), a);
    assert_eq!(transitions.transitions.key_at(1), c);
    let of_a = transitions.transitions.get(&a).unwrap();
    assert_eq!(
        of_a.storage,
        VecMap::from_entries(vec![(
            U256::from_u64(1),
            StorageSlot::new_changed(U256::from_u64(1), U256::from_u64(2))
        )])
    );
    assert!(!of_a.storage_was_destroyed);
}

#[test]
fn commit_without_gathering_changes_the_cache_only() {
    let a = address(1);
    let db = CountingDb { accounts: vec![(a, info(1, 5))], ..Default::default() };
    let mut state = StateBuilder::new_with_database(db).build();
    assert!(state.transition_state.is_none());
    state.basic(a).unwrap();
    state.commit(VecMap::from_entries(vec![(a, touched(info(2, 5), vec![]))]));
    assert_eq!(state.basic(a).unwrap(), Some(info(2, 5)));
    assert!(state.transition_state.is_none());
    state.merge_transitions(BundleRetention::Reverts);
    assert!(state.bundle_state.reverts.is_empty());
    assert_eq!(state.bundle_size_hint(), 0);
}

#[test]
fn two_accounts_with_the_same_code_store_it_once() {
    let a = address(1);
    let b = address(2);
    let code = Bytecode::new(vec![0x60, 0x00]);
    let hash = keccak256(&[0x60, 0x00]);
    let with_code = AccountInfo {
        nonce: 1,
        balance: U256::zero(),
        code_hash: hash,
        code: Some(code.clone()),
    };
    let mut state = state_over(CountingDb::default());
    state.basic(a).unwrap();
    state.basic(b).unwrap();
    let mut first = touched(with_code.clone(), vec![]);
    first.created = true;
    let mut second = touched(with_code.clone(), vec![]);
    second.created = true;
    state.commit(VecMap::from_entries(vec![(a, first), (b, second)]));
    state.merge_transitions(BundleRetention::Reverts);
    assert_eq!(state.bundle_state.contracts.len(), 1);
    assert_eq!(state.bundle_state.bytecode(&hash), Some(code));
    assert_eq!(state.bundle_state.state.len(), 2);
    assert_eq!(state.bundle_size_hint(), 4);
}

#[test]
fn an_account_without_code_stores_no_contract() {
    let a = address(1);
    let mut state = state_over(CountingDb::default());
    state.basic(a).unwrap();
    let mut created = touched(info(1, 1), vec![]);
    created.created = true;
    state.commit(VecMap::from_entries(vec![(a, created)]));
    state.merge_transitions(BundleRetention::Reverts);
    assert!(state.bundle_state.contracts.is_empty());
    assert_eq!(state.bundle_state.state.len(), 1);
}

#[test]
fn take_bundle_leaves_an_empty_bundle() {
    let a = address(1);
    let mut state = state_over(CountingDb::default());
    state.increment_balances(vec![(a, 1)]).unwrap();
    state.merge_transitions(BundleRetention::Reverts);
    assert_eq!(state.bundle_size_hint(), 2);
    let bundle = state.take_bundle();
    assert_eq!(bundle.state.len(), 1);
    assert_eq!(bundle.reverts.len(), 1);
    assert_eq!(bundle.size_hint(), 2);
    assert_eq!(state.bundle_state, BundleState::new());
    assert_eq!(state.bundle_size_hint(), 0);
    assert!(state.transition_state.as_ref().unwrap().transitions.is_empty());
}

#[test]
fn the_builder_makes_the_state_it_was_told() {
    let state = State::builder().build();
    assert!(state.cache.has_state_clear);
    assert!(state.transition_state.is_none());
    assert!(!state.use_preloaded_bundle);
    assert!(state.block_hashes.is_empty());
    assert!(state.cache.accounts.is_empty());

    let state = State::builder()
        .without_state_clear()
        .with_bundle_update()
        .with_block_hashes(BTreeMap::from([(7, B256 { hi: 7, lo: 7 })]))
        .with_database(CountingDb::default())
        .build();
    assert!(!state.cache.has_state_clear);
    assert!(state.transition_state.is_some());
    assert_eq!(state.block_hashes.len(), 1);

    let mut state = StateBuilder::new_with_database(CountingDb::default())
        .without_database()
        .build();
    assert_eq!(state.basic(address(1)).unwrap(), None);
    state.set_state_clear_flag(false);
    assert!(!state.cache.has_state_clear);
}
