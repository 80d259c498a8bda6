use evm_state::account_info::{Account, AccountInfo};
use evm_state::account_status::AccountStatus;
use evm_state::bundle_account::BundleAccount;
use evm_state::bundle_state::{BundleRetention, BundleState};
use evm_state::cache::CacheState;
use evm_state::cache_account::CacheAccount;
use evm_state::primitives::{Address, U256};
use evm_state::reverts::{AccountInfoRevert, AccountRevert, RevertToSlot};
use evm_state::storage::{StorageSlot, StorageWithOriginalValues};
use evm_state::transition_account::TransitionAccount;
use evm_state::transition_state::TransitionState;
use evm_state::vec_map::VecMap;

fn address(byte: u8) -> Address {
    Address::from_slice(&[byte; 20])
}

fn info(nonce: u64, balance: u64) -> AccountInfo {
    AccountInfo { nonce, balance: U256::from_u64(balance), ..Default::default() }
}

fn slots(entries: Vec<(u64, u64, u64)>) -> StorageWithOriginalValues {
    VecMap::from_entries(
        entries
            .into_iter()
            .map(|(key, original, present)| {
                (
                    U256::from_u64(key),
                    StorageSlot::new_changed(U256::from_u64(original), U256::from_u64(present)),
                )
            })
            .collect(),
    )
}

fn key(n: u64) -> U256 {
    U256::from_u64(n)
}

fn block(transitions: Vec<(Address, TransitionAccount)>) -> TransitionState {
    let mut state = TransitionState::default();
    state.add_transitions(transitions);
    state
}

#[test]
fn status_predicates() {
    let all = [
        AccountStatus::LoadedNotExisting,
        AccountStatus::Loaded,
        AccountStatus::LoadedEmptyEIP161,
        AccountStatus::InMemoryChange,
        AccountStatus::Changed,
        AccountStatus::Destroyed,
        AccountStatus::DestroyedChanged,
        AccountStatus::DestroyedAgain,
    ];
    let storage_known: Vec<bool> = all.iter().map(|s| s.is_storage_known()).collect();
    assert_eq!(storage_known, [true, false, false, true, false, true, true, true]);
    let created: Vec<bool> = all.iter().map(|s| s.is_created()).collect();
    assert_eq!(created, [false, false, false, true, false, false, true, false]);
    let destroyed: Vec<bool> = all.iter().map(|s| s.was_destroyed()).collect();
    assert_eq!(destroyed, [false, false, false, false, false, true, false, true]);
    let absent: Vec<bool> = all.iter().map(|s| s.is_absent()).collect();
    assert_eq!(absent, [true, false, false, false, false, true, false, true]);
    let not_modified: Vec<bool> = all.iter().map(|s| s.is_not_modified()).collect();
    assert_eq!(not_modified, [true, true, true, false, false, false, false, false]);
    assert_eq!(AccountStatus::default(), AccountStatus::LoadedNotExisting);
}

#[test]
fn status_after_each_kind_of_change() {
    assert_eq!(AccountStatus::Loaded.on_selfdestructed(), AccountStatus::Destroyed);
    assert_eq!(AccountStatus::Changed.on_selfdestructed(), AccountStatus::Destroyed);
    assert_eq!(AccountStatus::InMemoryChange.on_selfdestructed(), AccountStatus::Destroyed);
    assert_eq!(
        AccountStatus::DestroyedChanged.on_selfdestructed(),
        AccountStatus::DestroyedAgain
    );
    assert_eq!(AccountStatus::LoadedNotExisting.on_created(), AccountStatus::InMemoryChange);
    assert_eq!(AccountStatus::Destroyed.on_created(), AccountStatus::DestroyedChanged);
    assert_eq!(AccountStatus::DestroyedAgain.on_created(), AccountStatus::DestroyedChanged);
    assert_eq!(AccountStatus::Loaded.on_changed(true), AccountStatus::Changed);
    assert_eq!(AccountStatus::InMemoryChange.on_changed(true), AccountStatus::InMemoryChange);
    assert_eq!(
        AccountStatus::LoadedEmptyEIP161.on_changed(true),
        AccountStatus::InMemoryChange
    );
    assert_eq!(AccountStatus::LoadedEmptyEIP161.on_changed(false), AccountStatus::Changed);
    assert_eq!(AccountStatus::Destroyed.on_changed(true), AccountStatus::DestroyedChanged);
}

#[test]
fn cache_account_constructors_keep_data_and_status_together() {
    let loaded = CacheAccount::new_loaded(info(1, 1), VecMap::new());
    assert_eq!(loaded.status, AccountStatus::Loaded);
    assert!(loaded.is_some());
    assert_eq!(loaded.account_info(), Some(info(1, 1)));
    let empty = CacheAccount::new_loaded_empty_eip161(VecMap::new());
    assert_eq!(empty.status, AccountStatus::LoadedEmptyEIP161);
    assert_eq!(empty.account_info(), Some(AccountInfo::default()));
    let missing = CacheAccount::new_loaded_not_existing();
    assert_eq!(missing.status, AccountStatus::LoadedNotExisting);
    assert!(!missing.is_some());
    assert_eq!(missing.account_info(), None);
    assert_eq!(CacheAccount::new_destroyed().status, AccountStatus::Destroyed);
    assert_eq!(
        CacheAccount::new_changed(info(1, 1), VecMap::new()).status,
        AccountStatus::Changed
    );
    assert_eq!(CacheAccount::from_database(None), missing);
    assert_eq!(
        CacheAccount::from_database(Some(AccountInfo::default())).status,
        AccountStatus::LoadedEmptyEIP161
    );
    assert_eq!(CacheAccount::from_database(Some(info(0, 1))).status, AccountStatus::Loaded);
}

#[test]
fn selfdestruct_wipes_the_account() {
    let mut account = CacheAccount::new_loaded(
        info(1, 1),
        VecMap::from_entries(vec![(key(1), key(10))]),
    );
    let transition = account.selfdestruct();
    assert_eq!(account, CacheAccount::new_destroyed());
    assert_eq!(
        transition,
        TransitionAccount {
            info: None,
            status: AccountStatus::Destroyed,
            previous_info: Some(info(1, 1)),
            previous_status: AccountStatus::Loaded,
            storage: VecMap::new(),
            storage_was_destroyed: true,
        }
    );
    let mut again = CacheAccount {
        account: Some(Default::default()),
        status: AccountStatus::DestroyedChanged,
    };
    assert_eq!(again.selfdestruct().status, AccountStatus::DestroyedAgain);
    assert!(again.account.is_none());
}

#[test]
fn creation_replaces_the_storage() {
    let mut account = CacheAccount::new_destroyed();
    let transition = account.newly_created(info(1, 0), slots(vec![(1, 0, 7)]));
    assert_eq!(account.status, AccountStatus::DestroyedChanged);
    assert_eq!(account.storage_slot(key(1)), Some(key(7)));
    assert_eq!(transition.previous_status, AccountStatus::Destroyed);
    assert_eq!(transition.previous_info, None);
    assert_eq!(transition.info, Some(info(1, 0)));
    assert_eq!(transition.storage, slots(vec![(1, 0, 7)]));
    assert!(!transition.storage_was_destroyed);
}

#[test]
fn change_writes_over_the_cached_slots() {
    let mut account = CacheAccount::new_loaded(
        info(1, 1),
        VecMap::from_entries(vec![(key(1), key(10)), (key(2), key(20))]),
    );
    let transition = account.change(info(2, 1), slots(vec![(2, 20, 21), (3, 0, 30)]), true);
    assert_eq!(account.status, AccountStatus::Changed);
    assert_eq!(account.storage_slot(key(1)), Some(key(10)));
    assert_eq!(account.storage_slot(key(2)), Some(key(21)));
    assert_eq!(account.storage_slot(key(3)), Some(key(30)));
    assert_eq!(transition.previous_info, Some(info(1, 1)));
    assert_eq!(transition.info, Some(info(2, 1)));
    assert_eq!(transition.status, AccountStatus::Changed);
}

#[test]
fn balance_changes_of_a_cache_account() {
    let mut account = CacheAccount::new_loaded(info(1, 5), VecMap::new());
    assert_eq!(account.increment_balance(0, true), None);
    assert_eq!(account.status, AccountStatus::Loaded);
    let transition = account.increment_balance(10, true).unwrap();
    assert_eq!(transition.info, Some(info(1, 15)));
    let (taken, transition) = account.drain_balance(true);
    assert_eq!(taken, U256::from_u64(15));
    assert_eq!(transition.previous_info, Some(info(1, 15)));
    assert_eq!(transition.info, Some(info(1, 0)));
    let mut account = CacheAccount::new_loaded(info(1, 5), VecMap::new());
    let undo = account.balance_undo(address(1), true);
    account.increment_balance(10, true);
    account.restore_balance(&undo);
    assert_eq!(account, CacheAccount::new_loaded(info(1, 5), VecMap::new()));
    let mut missing = CacheAccount::new_loaded_not_existing();
    let undo = missing.balance_undo(address(1), true);
    missing.increment_balance(10, true);
    assert_eq!(missing.status, AccountStatus::InMemoryChange);
    missing.restore_balance(&undo);
    assert_eq!(missing, CacheAccount::new_loaded_not_existing());
    let mut rich = CacheAccount::new_loaded(
        AccountInfo { balance: U256 { hi: u128::MAX, lo: u128::MAX }, ..Default::default() },
        VecMap::new(),
    );
    rich.increment_balance(1, true);
    assert_eq!(
        rich.account_info().unwrap().balance,
        U256 { hi: u128::MAX, lo: u128::MAX }
    );
}

#[test]
fn an_empty_account_that_is_touched_is_cleared() {
    let touched_empty = Account { touched: true, ..Default::default() };
    let a = address(1);
    let mut cache = CacheState::new(true);
    cache.insert_account(a, AccountInfo::default());
    let records = cache.apply_evm_state(VecMap::from_entries(vec![(a, touched_empty)]));
    assert_eq!(cache.accounts.get(&a).unwrap(), &CacheAccount::new_destroyed());
    assert_eq!(records.len(), 1);
    assert_eq!(records[0].1.status, AccountStatus::Destroyed);
    assert_eq!(records[0].1.previous_status, AccountStatus::LoadedEmptyEIP161);
    assert!(records[0].1.storage_was_destroyed);
}

#[test]
fn without_state_clear_an_empty_account_stays() {
    let touched_empty = Account { touched: true, ..Default::default() };
    let a = address(1);
    let mut cache = CacheState::default();
    cache.set_state_clear_flag(false);
    cache.insert_account(a, AccountInfo::default());
    let records = cache.apply_evm_state(VecMap::from_entries(vec![(a, touched_empty)]));
    let cached = cache.accounts.get(&a).unwrap();
    assert_eq!(cached.status, AccountStatus::Changed);
    assert_eq!(cached.account_info(), Some(AccountInfo::default()));
    assert_eq!(records.len(), 1);
    assert!(!records[0].1.storage_was_destroyed);
}

#[test]
fn the_cache_applies_selfdestruct_before_anything_else() {
    let a = address(1);
    let mut cache = CacheState::default();
    cache.insert_account_with_storage(
        a,
        info(1, 1),
        VecMap::from_entries(vec![(key(1), key(10))]),
    );
    let gone = Account {
        info: info(5, 5),
        touched: true,
        created: true,
        selfdestructed: true,
        ..Default::default()
    };
    let record = cache.apply_account_state(a, gone).unwrap();
    assert_eq!(record.status, AccountStatus::Destroyed);
    assert_eq!(record.info, None);
    assert!(cache.accounts.get(&a).unwrap().account.is_none());
    cache.insert_not_existing(address(2));
    assert_eq!(
        cache.accounts.get(&address(2)).unwrap().status,
        AccountStatus::LoadedNotExisting
    );
}

#[test]
fn transitions_of_one_address_are_composed() {
    let a = address(1);
    let first = TransitionAccount {
        info: Some(info(1, 1)),
        status: AccountStatus::Changed,
        previous_info: Some(info(0, 1)),
        previous_status: AccountStatus::Loaded,
        storage: slots(vec![(1, 10, 11), (2, 20, 21)]),
        storage_was_destroyed: false,
    };
    let second = TransitionAccount {
        info: Some(info(2, 1)),
        status: AccountStatus::Changed,
        previous_info: Some(info(1, 1)),
        previous_status: AccountStatus::Changed,
        storage: slots(vec![(2, 21, 22), (3, 30, 31)]),
        storage_was_destroyed: false,
    };
    let mut state = TransitionState::single(a, first);
    state.add_transition(a, second);
    assert_eq!(state.transitions.len(), 1);
    assert_eq!(
        state.transitions.get(&a).unwrap(),
        &TransitionAccount {
            info: Some(info(2, 1)),
            status: AccountStatus::Changed,
            previous_info: Some(info(0, 1)),
            previous_status: AccountStatus::Loaded,
            storage: slots(vec![(1, 10, 11), (2, 20, 22), (3, 30, 31)]),
            storage_was_destroyed: false,
        }
    );
    assert_eq!(state.len(), 1);
    let taken = state.take();
    assert!(state.transitions.is_empty());
    assert_eq!(state.len(), 0);
    assert_eq!(taken.transitions.len(), 1);
}

#[test]
fn a_wipe_between_two_transitions_drops_the_older_slots() {
    let mut older = TransitionAccount {
        info: Some(info(1, 1)),
        status: AccountStatus::Changed,
        previous_info: Some(info(0, 1)),
        previous_status: AccountStatus::Loaded,
        storage: slots(vec![(1, 10, 11)]),
        storage_was_destroyed: false,
    };
    older.update(TransitionAccount {
        info: None,
        status: AccountStatus::Destroyed,
        previous_info: Some(info(1, 1)),
        previous_status: AccountStatus::Changed,
        storage: VecMap::new(),
        storage_was_destroyed: true,
    });
    assert!(older.storage.is_empty());
    assert!(older.storage_was_destroyed);
    assert_eq!(older.previous_status, AccountStatus::Loaded);
    older.update(TransitionAccount {
        info: Some(info(1, 0)),
        status: AccountStatus::DestroyedChanged,
        previous_info: None,
        previous_status: AccountStatus::Destroyed,
        storage: slots(vec![(2, 0, 2)]),
        storage_was_destroyed: false,
    });
    assert!(older.storage_was_destroyed);
    assert_eq!(older.storage, slots(vec![(2, 0, 2)]));
}

#[test]
fn reverting_a_block_restores_the_accounts_it_changed() {
    let a = address(1);
    let b = address(2);
    let mut bundle = BundleState::new();
    // Block one: `a` is changed, with two slots.
    bundle.apply_transitions_and_create_reverts(
        block(vec![(
            a,
            TransitionAccount {
                info: Some(info(2, 5)),
                status: AccountStatus::Changed,
                previous_info: Some(info(1, 5)),
                previous_status: AccountStatus::Loaded,
                storage: slots(vec![(1, 10, 11), (2, 20, 21)]),
                storage_was_destroyed: false,
            },
        )]),
        BundleRetention::Reverts,
    );
    let after_one = bundle.state.get(&a).unwrap().storage.clone();
    assert_eq!(after_one, slots(vec![(1, 10, 11), (2, 20, 21)]));

    // Block two: `a` changes a slot again and a new one, `b` is created.
    bundle.apply_transitions_and_create_reverts(
        block(vec![
            (
                a,
                TransitionAccount {
                    info: Some(info(2, 5)),
                    status: AccountStatus::Changed,
                    previous_info: Some(info(2, 5)),
                    previous_status: AccountStatus::Changed,
                    storage: slots(vec![(2, 21, 22), (3, 30, 33)]),
                    storage_was_destroyed: false,
                },
            ),
            (
                b,
                TransitionAccount {
                    info: Some(info(1, 0)),
                    status: AccountStatus::InMemoryChange,
                    previous_info: None,
                    previous_status: AccountStatus::LoadedNotExisting,
                    storage: slots(vec![(7, 0, 70)]),
                    storage_was_destroyed: false,
                },
            ),
        ]),
        BundleRetention::Reverts,
    );
    assert_eq!(bundle.reverts.len(), 2);
    assert_eq!(bundle.size_hint(), 2 + 3);
    assert_eq!(
        bundle.state.get(&a).unwrap().storage,
        slots(vec![(1, 10, 11), (2, 20, 22), (3, 30, 33)])
    );
    assert_eq!(
        bundle.reverts[1],
        vec![
            (
                a,
                AccountRevert {
                    account: AccountInfoRevert::DoNothing,
                    storage: VecMap::from_entries(vec![
                        (key(2), RevertToSlot::Restore(key(21))),
                        (key(3), RevertToSlot::Restore(key(30))),
                    ]),
                    previous_status: AccountStatus::Changed,
                    wipe_storage: false,
                }
            ),
            (
                b,
                AccountRevert {
                    account: AccountInfoRevert::DeleteIt,
                    storage: VecMap::from_entries(vec![(key(7), RevertToSlot::Restore(key(0)))]),
                    previous_status: AccountStatus::LoadedNotExisting,
                    wipe_storage: false,
                }
            ),
        ]
    );

    assert!(bundle.revert_latest());
    assert_eq!(bundle.reverts.len(), 1);
    let restored = bundle.state.get(&a).unwrap();
    assert_eq!(restored.info, Some(info(2, 5)));
    assert_eq!(restored.original_info, Some(info(1, 5)));
    assert_eq!(restored.status, AccountStatus::Changed);
    assert_eq!(restored.storage.get(&key(1)), Some(&StorageSlot::new_changed(key(10), key(11))));
    assert_eq!(restored.storage.get(&key(2)), Some(&StorageSlot::new_changed(key(20), key(21))));
    // The slot that the block brought is back at the value it had and counts as unchanged.
    assert_eq!(restored.storage.get(&key(3)), Some(&StorageSlot::new(key(30))));
    let gone = bundle.state.get(&b).unwrap();
    assert_eq!(gone.info, None);
    assert_eq!(gone.original_info, None);
    assert_eq!(gone.status, AccountStatus::LoadedNotExisting);
    assert!(!gone.storage.get(&key(7)).unwrap().is_changed());

    assert!(bundle.revert_latest());
    let first = bundle.state.get(&a).unwrap();
    assert_eq!(first.info, Some(info(1, 5)));
    assert_eq!(first.status, AccountStatus::Loaded);
    assert!(!first.is_info_changed());
    assert!(!first.storage.get(&key(1)).unwrap().is_changed());
    assert!(!first.storage.get(&key(2)).unwrap().is_changed());
    assert!(bundle.reverts.is_empty());
    assert!(!bundle.revert_latest());
}

#[test]
fn a_wipe_is_undone_slot_by_slot() {
    let a = address(1);
    let mut bundle = BundleState::new();
    bundle.state.insert(
        a,
        BundleAccount::new(
            Some(info(1, 1)),
            Some(info(1, 1)),
            slots(vec![(1, 10, 11), (2, 20, 0)]),
            AccountStatus::Changed,
        ),
    );
    let before = slots(vec![(1, 10, 11), (2, 20, 0)]);
    bundle.apply_transitions_and_create_reverts(
        block(vec![(
            a,
            TransitionAccount {
                info: Some(info(1, 1)),
                status: AccountStatus::DestroyedChanged,
                previous_info: Some(info(1, 1)),
                previous_status: AccountStatus::Changed,
                storage: slots(vec![(3, 0, 3)]),
                storage_was_destroyed: true,
            },
        )]),
        BundleRetention::Reverts,
    );
    let held = bundle.account(&a).unwrap();
    assert_eq!(held.status, AccountStatus::DestroyedChanged);
    assert_eq!(held.storage, slots(vec![(1, 10, 0), (2, 20, 0), (3, 0, 3)]));
    assert_eq!(held.storage_slot(key(1)), Some(key(0)));
    assert_eq!(held.storage_slot(key(9)), Some(key(0)));
    assert_eq!(
        bundle.reverts[0],
        vec![(
            a,
            AccountRevert {
                account: AccountInfoRevert::DoNothing,
                storage: VecMap::from_entries(vec![
                    (key(1), RevertToSlot::Restore(key(11))),
                    (key(3), RevertToSlot::Destroyed),
                ]),
                previous_status: AccountStatus::Changed,
                wipe_storage: true,
            }
        )]
    );
    assert_eq!(bundle.reverts[0][0].1.size_hint(), 3);
    assert!(bundle.revert_latest());
    let restored = bundle.account(&a).unwrap();
    assert_eq!(restored.storage, before);
    assert_eq!(restored.status, AccountStatus::Changed);
    assert_eq!(restored.size_hint(), 3);
    assert_eq!(restored.storage_slot(key(9)), None);
}

#[test]
fn plain_state_keeps_no_reverts() {
    let a = address(1);
    let mut bundle = BundleState::new();
    let transition = || TransitionAccount {
        info: Some(info(2, 5)),
        status: AccountStatus::Changed,
        previous_info: Some(info(1, 5)),
        previous_status: AccountStatus::Loaded,
        storage: slots(vec![(1, 10, 11)]),
        storage_was_destroyed: false,
    };
    bundle.apply_transitions_and_create_reverts(
        block(vec![(a, transition())]),
        BundleRetention::PlainState,
    );
    assert_eq!(bundle.reverts, vec![vec![]]);
    assert_eq!(bundle.account(&a).unwrap().info, Some(info(2, 5)));
    assert_eq!(bundle.len(), 1);
    assert!(!bundle.is_empty());

    let mut untouched = BundleState::new();
    untouched.apply_transitions_and_create_reverts(
        block(vec![(a, transition())]),
        BundleRetention::Nothing,
    );
    assert_eq!(untouched, BundleState::new());
    assert!(!BundleRetention::PlainState.includes_reverts());
    assert!(BundleRetention::Reverts.includes_reverts());
}

#[test]
fn reverts_come_in_the_order_of_the_first_change() {
    let mut bundle = BundleState::new();
    let change = |nonce: u64| TransitionAccount {
        info: Some(info(nonce + 1, 0)),
        status: AccountStatus::Changed,
        previous_info: Some(info(nonce, 0)),
        previous_status: AccountStatus::Loaded,
        storage: VecMap::new(),
        storage_was_destroyed: false,
    };
    bundle.apply_transitions_and_create_reverts(
        block(vec![
            (address(3), change(1)),
            (address(1), change(1)),
            (address(2), change(1)),
            (address(3), change(2)),
        ]),
        BundleRetention::Reverts,
    );
    let order: Vec<Address> = bundle.reverts[0].iter().map(|entry| entry.0).collect();
    assert_eq!(order, vec![address(3), address(1), address(2)]);
    assert_eq!(
        bundle.reverts[0][0].1.account,
        AccountInfoRevert::RevertTo(info(1, 0))
    );
    assert_eq!(bundle.account(&address(3)).unwrap().info, Some(info(3, 0)));
}

#[test]
fn the_info_revert_of_a_later_block_depends_on_the_original_info() {
    let a = address(1);
    let mut bundle = BundleState::new();
    let change = |from: u64, to: u64, status: AccountStatus| TransitionAccount {
        info: Some(info(to, 0)),
        status: AccountStatus::Changed,
        previous_info: Some(info(from, 0)),
        previous_status: status,
        storage: VecMap::new(),
        storage_was_destroyed: false,
    };
    bundle.apply_transitions_and_create_reverts(
        block(vec![(a, change(1, 2, AccountStatus::Loaded))]),
        BundleRetention::Reverts,
    );
    assert_eq!(bundle.reverts[0][0].1.account, AccountInfoRevert::RevertTo(info(1, 0)));
    bundle.apply_transitions_and_create_reverts(
        block(vec![(a, change(2, 3, AccountStatus::Changed))]),
        BundleRetention::Reverts,
    );
    // The original info differs from the one before this block: nothing is recorded for it.
    assert_eq!(bundle.reverts[1][0].1.account, AccountInfoRevert::DoNothing);
    assert_eq!(bundle.account(&a).unwrap().original_info, Some(info(1, 0)));
    assert_eq!(bundle.account(&a).unwrap().info, Some(info(3, 0)));
}

#[test]
fn an_account_created_and_destroyed_in_one_block_leaves_no_trace() {
    let a = address(1);
    let mut cache = CacheState::default();
    cache.insert_not_existing(a);
    let created = Account { info: info(1, 1), touched: true, created: true, ..Default::default() };
    let destroyed = Account {
        info: info(1, 1),
        touched: true,
        selfdestructed: true,
        ..Default::default()
    };
    let mut transitions = TransitionState::default();
    transitions.add_transitions(cache.apply_evm_state(VecMap::from_entries(vec![(a, created)])));
    transitions.add_transitions(cache.apply_evm_state(VecMap::from_entries(vec![(a, destroyed)])));
    let mut bundle = BundleState::new();
    bundle.apply_transitions_and_create_reverts(transitions, BundleRetention::Reverts);
    assert_eq!(bundle.reverts, vec![vec![]]);
    assert!(bundle.state.is_empty());
}

#[test]
fn a_contract_is_new_where_its_hash_changes() {
    let code = evm_state::bytecode::Bytecode::new(vec![1]);
    let hash = evm_state::database::keccak256(&[1]);
    let with_code = AccountInfo { code_hash: hash, code: Some(code.clone()), ..info(1, 0) };
    let created = TransitionAccount {
        info: Some(with_code.clone()),
        previous_info: None,
        ..Default::default()
    };
    assert_eq!(created.has_new_contract(), Some((hash, &code)));
    let without_code = AccountInfo { code: None, ..with_code.clone() };
    let kept = TransitionAccount {
        info: Some(with_code.clone()),
        previous_info: Some(without_code.clone()),
        ..Default::default()
    };
    assert_eq!(kept.has_new_contract(), None);
    let plain = TransitionAccount { info: Some(info(1, 0)), ..Default::default() };
    assert_eq!(plain.has_new_contract(), None);
    let unloaded = TransitionAccount { info: Some(without_code.clone()), ..Default::default() };
    assert_eq!(unloaded.has_new_contract(), None);
    assert!(with_code.same(&without_code));
    assert!(!with_code.same(&info(1, 0)));
    assert!(AccountInfo::default().is_empty());
    assert!(!info(0, 1).is_empty());
    assert!(!with_code.is_empty());
}
