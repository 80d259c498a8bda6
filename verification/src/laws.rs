//! Laws that relate the operations of the library to one another.
use crate::account_info::{infos_agree, AccountInfo, AccountView};
use crate::bundle_account::{
    merged_storage, origin_of, reverted_storage, storage_revert, value_after_wipe,
    BundleAccountView,
};
use crate::bundle_state::{
    base_account, block_reverts, merged_contracts, reverted_state, unknown_account,
    BundleRetention, BundleStateView,
};
use crate::bytecode::Bytecode;
use crate::cache::CacheStateView;
use crate::cache_account::CacheAccountView;
use crate::database::Database;
use crate::primitives::{keccak_empty, Address, StorageKey, B256, BLOCK_HASH_HISTORY, U256};
use crate::reverts::AccountRevertView;
use crate::state::{oldest_kept, pruned, State};
use crate::storage::{changed_slots, StorageSlot};
use crate::transition_account::TransitionAccountView;
use crate::transition_state::{with_transition, with_transitions, TransitionStateView};
use crate::vec_map::{
    as_map, distinct_keys, has_key, lemma_as_map_at, lemma_as_map_take_step, position_of,
};
use vstd::prelude::*;

verus! {

/// Two accounts of a bundle say the same of the account they stand for: the
/// same info now and originally, and the same changed slots.
pub open spec fn same_effect(a: BundleAccountView, b: BundleAccountView) -> bool {
    &&& infos_agree(a.info, b.info)
    &&& infos_agree(a.original_info, b.original_info)
    &&& changed_slots(a.storage) =~= changed_slots(b.storage)
}

/// `transition` starts where `held` stands: it names the info and the status
/// of `held` as the previous ones, and, unless it wipes the storage, each
/// slot that it writes and `held` holds starts from the value held.
pub open spec fn starts_from(transition: TransitionAccountView, held: BundleAccountView) -> bool {
    &&& infos_agree(transition.previous_info, held.info)
    &&& transition.previous_status == held.status
    &&& transition.previous_status is LoadedNotExisting ==> transition.previous_info is None
    &&& !transition.storage_was_destroyed ==> forall|key: StorageKey|
        #![trigger transition.storage[key]]
        transition.storage.contains_key(key) && held.storage.contains_key(key)
            ==> transition.storage[key].original_value == held.storage[key].present_value
}

/// The info that `held` had before `transition` is not lost: either the
/// bundle has not changed the info of the account before, or the transition
/// does not change it.
pub open spec fn keeps_previous_info(
    held: BundleAccountView,
    transition: TransitionAccountView,
) -> bool {
    ||| held.original_info is None
    ||| infos_agree(held.original_info, transition.previous_info)
    ||| infos_agree(transition.info, transition.previous_info)
}

/// Undoing a transition gives back the account that the bundle held: the
/// revert that was made for the transition restores the info, the status and
/// every changed slot; and where no revert was made, nothing had changed.
pub proof fn lemma_revert_undoes_merge(held: BundleAccountView, transition: TransitionAccountView)
    requires
        starts_from(transition, held),
        keeps_previous_info(held, transition),
    ensures
        match held.revert_of(transition) {
            Some(revert) => {
                &&& same_effect(held.merge(transition).revert(revert), held)
                &&& held.merge(transition).revert(revert).status == held.status
            },
            None => same_effect(held.merge(transition), held),
        },
{
    let merged = held.merge(transition);
    match held.revert_of(transition) {
        Some(revert) => {
            let back = merged.revert(revert);
            assert forall|key: StorageKey|
                #![trigger changed_slots(held.storage).contains_key(key)]
                #![trigger changed_slots(back.storage).contains_key(key)]
                changed_slots(back.storage).contains_key(key) == changed_slots(
                    held.storage,
                ).contains_key(key) && (changed_slots(held.storage).contains_key(key)
                    ==> changed_slots(back.storage)[key] == changed_slots(held.storage)[key]) by {
                lemma_slot_restored(held.storage, transition, key);
            }
            assert(changed_slots(back.storage) =~= changed_slots(held.storage));
        },
        None => {
            assert forall|key: StorageKey|
                #![trigger changed_slots(held.storage).contains_key(key)]
                #![trigger changed_slots(merged.storage).contains_key(key)]
                changed_slots(merged.storage).contains_key(key) == changed_slots(
                    held.storage,
                ).contains_key(key) && (changed_slots(held.storage).contains_key(key)
                    ==> changed_slots(merged.storage)[key] == changed_slots(held.storage)[key]) by {
                lemma_slot_untouched(held.storage, transition, key);
            }
            assert(changed_slots(merged.storage) =~= changed_slots(held.storage));
        },
    }
}

/// One slot after a transition for which no revert is due is what it was, as
/// far as a changed slot goes.
proof fn lemma_slot_untouched(
    held: Map<StorageKey, StorageSlot>,
    transition: TransitionAccountView,
    key: StorageKey,
)
    requires
        storage_revert(held, transition) =~= Map::empty(),
        !transition.storage_was_destroyed ==> forall|key: StorageKey|
            #![trigger transition.storage[key]]
            transition.storage.contains_key(key) && held.contains_key(key)
                ==> transition.storage[key].original_value == held[key].present_value,
    ensures
        ({
            let merged = merged_storage(held, transition);
            &&& changed_slots(merged).contains_key(key) == changed_slots(held).contains_key(key)
            &&& changed_slots(held).contains_key(key) ==> changed_slots(merged)[key]
                == changed_slots(held)[key]
        }),
{
    assert(!storage_revert(held, transition).contains_key(key));
    if transition.storage.contains_key(key) && held.contains_key(key)
        && !transition.storage_was_destroyed {
        assert(transition.storage[key].original_value == held[key].present_value);
    }
}

/// One slot after a transition and its revert is what it was, as far as a changed slot goes.
proof fn lemma_slot_restored(
    held: Map<StorageKey, StorageSlot>,
    transition: TransitionAccountView,
    key: StorageKey,
)
    requires
        !transition.storage_was_destroyed ==> forall|key: StorageKey|
            #![trigger transition.storage[key]]
            transition.storage.contains_key(key) && held.contains_key(key)
                ==> transition.storage[key].original_value == held[key].present_value,
    ensures
        ({
            let back = reverted_storage(
                merged_storage(held, transition),
                storage_revert(held, transition),
            );
            &&& changed_slots(back).contains_key(key) == changed_slots(held).contains_key(key)
            &&& changed_slots(held).contains_key(key) ==> changed_slots(back)[key] == changed_slots(
                held,
            )[key]
        }),
{
    if transition.storage.contains_key(key) && held.contains_key(key)
        && !transition.storage_was_destroyed {
        assert(transition.storage[key].original_value == held[key].present_value);
    }
}

/// A transition of an account that the bundle does not hold, undone, leaves
/// an account that says nothing has changed.
pub proof fn lemma_revert_of_new_account(transition: TransitionAccountView)
    requires
        transition.previous_status is LoadedNotExisting ==> transition.previous_info is None,
    ensures
        match origin_of(transition).revert_of(transition) {
            Some(revert) => origin_of(transition).merge(transition).revert(revert).is_pristine(),
            None => origin_of(transition).merge(transition).is_pristine(),
        },
{
    let held = origin_of(transition);
    lemma_revert_undoes_merge(held, transition);
    assert(changed_slots(held.storage) =~= Map::empty());
}

/// `transition` leaves the account `held` as it was: its info is the one
/// before, none of the slots written has changed, and, where the storage was
/// wiped, the account did not exist before and every slot held is left with
/// the value it had.
pub open spec fn leaves_as_before(
    held: BundleAccountView,
    transition: TransitionAccountView,
) -> bool {
    &&& infos_agree(transition.info, transition.previous_info)
    &&& changed_slots(transition.storage) =~= Map::empty()
    &&& transition.storage_was_destroyed ==> {
        &&& transition.previous_info is None
        &&& forall|key: StorageKey|
            held.storage.contains_key(key) ==> (#[trigger] held.storage[key]).present_value
                == value_after_wipe(transition.storage, key)
    }
}

/// Where a transition leaves the account as it was, no revert is made for it.
pub proof fn lemma_unchanged_account_has_no_revert(
    held: BundleAccountView,
    transition: TransitionAccountView,
)
    requires
        leaves_as_before(held, transition),
    ensures
        held.revert_of(transition) is None,
{
    assert forall|key: StorageKey| !storage_revert(held.storage, transition).contains_key(key) by {
        if transition.storage.contains_key(key) && transition.storage[key].is_changed() {
            assert(changed_slots(transition.storage).contains_key(key));
        }
        if held.storage.contains_key(key) && transition.storage_was_destroyed {
            assert(held.storage[key].present_value == value_after_wipe(transition.storage, key));
        }
    }
    assert(storage_revert(held.storage, transition) =~= Map::empty());
}

/// A slot that a later transition sets back to the value it had before the
/// earlier one counts as unchanged in the two composed.
pub proof fn lemma_toggled_slot_is_unchanged(
    older: TransitionAccountView,
    newer: TransitionAccountView,
    key: StorageKey,
)
    requires
        !newer.storage_was_destroyed,
        older.storage.contains_key(key),
        newer.storage.contains_key(key),
        newer.storage[key].present_value == older.storage[key].original_value,
    ensures
        older.compose(newer).storage.contains_key(key),
        !older.compose(newer).storage[key].is_changed(),
        !changed_slots(older.compose(newer).storage).contains_key(key),
{
}

/// Two transitions in a row of which the later leads back to where the
/// earlier started leave the account as it was: the info is the one before,
/// and where each slot written is set back, no slot has changed.
pub proof fn lemma_composed_back_is_unchanged(
    older: TransitionAccountView,
    newer: TransitionAccountView,
)
    requires
        !newer.storage_was_destroyed,
        infos_agree(newer.info, older.previous_info),
        forall|key: StorageKey|
            older.storage.contains_key(key) ==> #[trigger] newer.storage.contains_key(key)
                && newer.storage[key].present_value == older.storage[key].original_value,
        forall|key: StorageKey|
            #[trigger] newer.storage.contains_key(key) && !older.storage.contains_key(key)
                ==> !newer.storage[key].is_changed(),
    ensures
        infos_agree(older.compose(newer).info, older.compose(newer).previous_info),
        changed_slots(older.compose(newer).storage) =~= Map::empty(),
{
    let composed = older.compose(newer);
    assert forall|key: StorageKey| !changed_slots(composed.storage).contains_key(key) by {
        if composed.storage.contains_key(key) {
            if older.storage.contains_key(key) {
                assert(newer.storage.contains_key(key));
            } else {
                assert(newer.storage.contains_key(key));
            }
        }
    }
}

/// Adding a transition to the transitions of a block leaves each address in
/// them once.
pub proof fn lemma_with_transition_keeps_keys_distinct(
    state: TransitionStateView,
    address: Address,
    transition: TransitionAccountView,
)
    requires
        distinct_keys(state),
    ensures
        distinct_keys(with_transition(state, address, transition)),
{
    let after = with_transition(state, address, transition);
    if has_key(state, address) {
        let place = position_of(state, address);
        assert forall|i: int, j: int| 0 <= i < j < after.len() implies (#[trigger] after[i]).0 != (
        #[trigger] after[j]).0 by {
            assert(after[i].0 == state[i].0);
            assert(after[j].0 == state[j].0);
        }
    } else {
        assert forall|i: int, j: int| 0 <= i < j < after.len() implies (#[trigger] after[i]).0 != (
        #[trigger] after[j]).0 by {
            if j < state.len() {
                assert(state[i].0 != state[j].0);
            } else {
                assert(state[i].0 != address);
            }
        }
    }
}

/// What a bundle says of one address is the same in `a` and in `b`: both
/// hold it with the same effect, or where only one holds it, it says there
/// that nothing has changed.
pub open spec fn says_same(
    a: Map<Address, BundleAccountView>,
    b: Map<Address, BundleAccountView>,
    address: Address,
) -> bool {
    if a.contains_key(address) && b.contains_key(address) {
        same_effect(a[address], b[address])
    } else if a.contains_key(address) {
        a[address].is_pristine()
    } else if b.contains_key(address) {
        b[address].is_pristine()
    } else {
        true
    }
}

/// Every transition of `transitions` starts where the bundle stands, and
/// none loses the info that the account had before it.
pub open spec fn block_starts_from(
    state: Map<Address, BundleAccountView>,
    transitions: TransitionStateView,
) -> bool {
    forall|i: int|
        0 <= i < transitions.len() ==> {
            let held = base_account(
                state,
                (#[trigger] transitions[i]).0,
                transitions[i].1,
            );
            &&& starts_from(transitions[i].1, held)
            &&& keeps_previous_info(held, transitions[i].1)
        }
}

/// The reverts of a block hold each address of the block at most once.
pub proof fn lemma_block_reverts_keys(
    state: Map<Address, BundleAccountView>,
    transitions: TransitionStateView,
)
    requires
        distinct_keys(transitions),
    ensures
        distinct_keys(block_reverts(state, transitions)),
        forall|address: Address|
            has_key(block_reverts(state, transitions), address) ==> has_key(transitions, address),
        block_reverts(state, transitions).len() <= transitions.len(),
    decreases transitions.len(),
{
    if transitions.len() > 0 {
        let earlier = transitions.drop_last();
        let n = transitions.len() - 1;
        lemma_as_map_take_step(transitions, n);
        assert(transitions.take(n) == earlier);
        lemma_block_reverts_keys(state, earlier);
        let before = block_reverts(state, earlier);
        let (address, transition) = transitions.last();
        let after = block_reverts(state, transitions);
        assert forall|a: Address| has_key(after, a) implies has_key(transitions, a) by {
            let p = position_of(after, a);
            assert(0 <= p < after.len() && after[p].0 == a);
            if p < before.len() {
                assert(before[p].0 == a);
                assert(has_key(before, a));
                assert(has_key(earlier, a));
                let q = position_of(earlier, a);
                assert(earlier[q].0 == a);
                assert(transitions[q].0 == a);
            } else {
                assert(transitions[n].0 == a);
            }
        }
        if after.len() > before.len() {
            assert forall|i: int, j: int| 0 <= i < j < after.len() implies (#[trigger] after[i]).0
                != (#[trigger] after[j]).0 by {
                if j < before.len() {
                    assert(before[i].0 != before[j].0);
                } else {
                    if after[i].0 == address {
                        assert(before[i].0 == address);
                        assert(has_key(before, address));
                        assert(has_key(earlier, address));
                        let q = position_of(earlier, address);
                        assert(earlier[q].0 == address);
                        assert(transitions[q].0 != transitions[n].0);
                    }
                }
            }
        }
    }
}

/// What the reverts of a block do to any state, address by address: an
/// address that has a revert in the block is reverted by it, every other
/// address stays as it is.
pub proof fn lemma_reverted_state_at(
    state: Map<Address, BundleAccountView>,
    held: Map<Address, BundleAccountView>,
    transitions: TransitionStateView,
    address: Address,
)
    requires
        distinct_keys(transitions),
    ensures
        ({
            let after = reverted_state(state, block_reverts(held, transitions));
            let revert = if has_key(transitions, address) {
                base_account(held, address, as_map(transitions)[address]).revert_of(
                    as_map(transitions)[address],
                )
            } else {
                None
            };
            let before = if state.contains_key(address) {
                state[address]
            } else {
                unknown_account()
            };
            match revert {
                Some(revert) => after.contains_key(address) && after[address] == before.revert(
                    revert,
                ),
                None => after.contains_key(address) == state.contains_key(address) && (
                state.contains_key(address) ==> after[address] == state[address]),
            }
        }),
    decreases transitions.len(),
{
    if transitions.len() > 0 {
        let earlier = transitions.drop_last();
        let n = transitions.len() - 1;
        lemma_as_map_take_step(transitions, n);
        assert(transitions.take(n) == earlier);
        assert(transitions.take(n + 1) == transitions);
        lemma_reverted_state_at(state, held, earlier, address);
        let (last_address, transition) = transitions.last();
        let before = block_reverts(held, earlier);
        let block = block_reverts(held, transitions);
        lemma_as_map_at(transitions, n);
        if base_account(held, last_address, transition).revert_of(transition) is Some {
            assert(block.drop_last() == before);
        }
        if address != last_address {
            if has_key(transitions, address) {
                let p = position_of(transitions, address);
                assert(earlier[p].0 == address);
                assert(has_key(earlier, address));
            }
            if has_key(earlier, address) {
                let p = position_of(earlier, address);
                assert(transitions[p].0 == address);
            }
        } else {
            assert(!has_key(earlier, address));
        }
    }
}

/// The address has a revert in the block of `transitions`: the block changes
/// it, and what it changes is more than nothing.
pub open spec fn has_revert(
    state: Map<Address, BundleAccountView>,
    transitions: TransitionStateView,
    address: Address,
) -> bool {
    has_key(transitions, address) && base_account(
        state,
        address,
        as_map(transitions)[address],
    ).revert_of(as_map(transitions)[address]) is Some
}

/// Undoing the latest block gives back the bundle as it was before the block.
///
/// Let the transitions of a block start where the bundle stands, and let the
/// block be merged with its reverts kept. Then undoing the block leaves the
/// reverts of the earlier blocks as they were, and of every address the
/// bundle says the same as before: an account that it held has the info,
/// the original info and the changed slots that it had, and an account that
/// it did not hold is absent or says that nothing has changed. An address
/// that has a revert in the block has the status again that it had before
/// the block; where the block changed the status alone, no revert is made
/// and the status stays.
pub proof fn lemma_reverts_restore_bundle(bundle: BundleStateView, transitions: TransitionStateView)
    requires
        distinct_keys(transitions),
        block_starts_from(bundle.state, transitions),
    ensures
        ({
            let undone = bundle.merge(transitions, BundleRetention::Reverts).revert_latest();
            &&& undone.reverts == bundle.reverts
            &&& forall|address: Address| says_same(undone.state, bundle.state, address)
            &&& forall|address: Address|
                #[trigger] has_revert(bundle.state, transitions, address) ==> {
                    &&& undone.state.contains_key(address)
                    &&& undone.state[address].status == base_account(
                        bundle.state,
                        address,
                        as_map(transitions)[address],
                    ).status
                    &&& bundle.state.contains_key(address) ==> undone.state[address].status
                        == bundle.state[address].status
                }
        }),
{
    let merged = bundle.merge(transitions, BundleRetention::Reverts);
    let undone = merged.revert_latest();
    assert(merged.reverts.drop_last() == bundle.reverts);
    assert(merged.reverts.last() == block_reverts(bundle.state, transitions));
    assert forall|address: Address| says_same(undone.state, bundle.state, address) by {
        lemma_reverted_state_at(merged.state, bundle.state, transitions, address);
        if has_key(transitions, address) {
            let p = position_of(transitions, address);
            lemma_as_map_at(transitions, p);
            let transition = transitions[p].1;
            assert(as_map(transitions)[address] == transition);
            let held = base_account(bundle.state, address, transition);
            assert(starts_from(transition, held) && keeps_previous_info(held, transition));
            lemma_revert_undoes_merge(held, transition);
            if !bundle.state.contains_key(address) {
                assert(changed_slots(held.storage) =~= Map::empty());
            }
        }
    }
    assert forall|address: Address| #[trigger]
        has_revert(bundle.state, transitions, address) implies {
        &&& undone.state.contains_key(address)
        &&& undone.state[address].status == base_account(
            bundle.state,
            address,
            as_map(transitions)[address],
        ).status
    } by {
        lemma_reverted_state_at(merged.state, bundle.state, transitions, address);
        let p = position_of(transitions, address);
        lemma_as_map_at(transitions, p);
        let transition = transitions[p].1;
        assert(as_map(transitions)[address] == transition);
        let held = base_account(bundle.state, address, transition);
        assert(starts_from(transition, held) && keeps_previous_info(held, transition));
        lemma_revert_undoes_merge(held, transition);
        assert(merged.state.contains_key(address));
    }
}

/// Where every transition of a block leaves its account as it was, the
/// block has no reverts.
pub proof fn lemma_unchanged_block_has_no_reverts(
    state: Map<Address, BundleAccountView>,
    transitions: TransitionStateView,
)
    requires
        forall|i: int|
            0 <= i < transitions.len() ==> leaves_as_before(
                base_account(state, (#[trigger] transitions[i]).0, transitions[i].1),
                transitions[i].1,
            ),
    ensures
        block_reverts(state, transitions) == Seq::<(Address, AccountRevertView)>::empty(),
    decreases transitions.len(),
{
    if transitions.len() > 0 {
        let earlier = transitions.drop_last();
        assert forall|i: int| 0 <= i < earlier.len() implies leaves_as_before(
            base_account(state, (#[trigger] earlier[i]).0, earlier[i].1),
            earlier[i].1,
        ) by {
            assert(earlier[i] == transitions[i]);
        }
        lemma_unchanged_block_has_no_reverts(state, earlier);
        let (address, transition) = transitions.last();
        assert(transitions[transitions.len() - 1] == (address, transition));
        lemma_unchanged_account_has_no_revert(
            base_account(state, address, transition),
            transition,
        );
    }
}

/// An account that did not exist before the block and does not exist after
/// it, with no slot written, is left as it was where the bundle does not
/// hold it, also where its storage counts as wiped.
pub proof fn lemma_created_and_destroyed_is_unchanged(transition: TransitionAccountView)
    requires
        transition.info is None,
        transition.previous_info is None,
        transition.storage =~= Map::empty(),
    ensures
        leaves_as_before(origin_of(transition), transition),
        origin_of(transition).revert_of(transition) is None,
{
    assert(changed_slots(transition.storage) =~= Map::empty());
    lemma_unchanged_account_has_no_revert(origin_of(transition), transition);
}

/// The contracts after a block are those before it and the new contracts of
/// the block, and none is stored under the hash of the empty code that was
/// not there before.
pub proof fn lemma_merged_contracts_keys(
    contracts: Map<B256, Bytecode>,
    transitions: TransitionStateView,
    hash: B256,
)
    ensures
        merged_contracts(contracts, transitions).contains_key(hash) <==> (contracts.contains_key(
            hash,
        ) || exists|i: int|
            0 <= i < transitions.len() && brings_contract(#[trigger] transitions[i], hash)),
        hash == keccak_empty() ==> (merged_contracts(contracts, transitions).contains_key(hash)
            <==> contracts.contains_key(hash)),
    decreases transitions.len(),
{
    if transitions.len() > 0 {
        let earlier = transitions.drop_last();
        lemma_merged_contracts_keys(contracts, earlier, hash);
        let n = transitions.len() - 1;
        if exists|i: int| 0 <= i < earlier.len() && brings_contract(#[trigger] earlier[i], hash) {
            let i = choose|i: int|
                0 <= i < earlier.len() && brings_contract(#[trigger] earlier[i], hash);
            assert(brings_contract(transitions[i], hash));
        }
        if exists|i: int|
            0 <= i < transitions.len() && brings_contract(#[trigger] transitions[i], hash) {
            let i = choose|i: int|
                0 <= i < transitions.len() && brings_contract(#[trigger] transitions[i], hash);
            if i < n {
                assert(brings_contract(earlier[i], hash));
            }
        }
        if brings_contract(transitions[n], hash) {
            assert(merged_contracts(contracts, transitions).contains_key(hash));
        }
    }
}

/// The transition of `entry` brings in a contract with code hash `hash`.
pub open spec fn brings_contract(entry: (Address, TransitionAccountView), hash: B256) -> bool {
    entry.1.new_contract() is Some && entry.1.new_contract().unwrap().0 == hash
}

/// However many transitions bring in the same code, the bundle stores it
/// once: where every new contract of a block has the hash `hash` and there
/// is at least one, a bundle without contracts holds exactly one afterwards.
pub proof fn lemma_same_code_is_stored_once(transitions: TransitionStateView, hash: B256)
    requires
        forall|i: int|
            0 <= i < transitions.len() && (#[trigger] transitions[i]).1.new_contract() is Some
                ==> brings_contract(transitions[i], hash),
        exists|i: int|
            0 <= i < transitions.len() && brings_contract(#[trigger] transitions[i], hash),
    ensures
        merged_contracts(Map::empty(), transitions).dom() == set![hash],
        merged_contracts(Map::empty(), transitions).len() == 1,
{
    let after = merged_contracts(Map::<B256, Bytecode>::empty(), transitions);
    assert forall|h: B256| after.contains_key(h) <==> h == hash by {
        lemma_merged_contracts_keys(Map::empty(), transitions, h);
        if after.contains_key(h) {
            let i = choose|i: int|
                0 <= i < transitions.len() && brings_contract(#[trigger] transitions[i], h);
            assert(brings_contract(transitions[i], hash));
        }
    }
    assert(after.dom() =~= set![hash]);
}

/// An account that a transaction created with code brings that code in as
/// a new contract, where the account had no code of that hash before and the
/// code is not the empty one.
pub proof fn lemma_created_account_brings_its_code(
    cached: CacheAccountView,
    account: AccountView,
    state_clear: bool,
)
    requires
        !account.selfdestructed,
        account.created,
        account.info.code is Some,
        account.info.code_hash != keccak_empty(),
        cached.info() is None || cached.info().unwrap().code_hash != account.info.code_hash,
    ensures
        cached.applied_transition(account, state_clear).new_contract() == Some(
            (account.info.code_hash, account.info.code.unwrap()),
        ),
{
}

/// Applying accounts to a cache leaves every address that is not among them
/// as it was.
pub proof fn lemma_applied_leaves_others(
    cache: CacheStateView,
    state: Seq<(Address, AccountView)>,
    address: Address,
)
    requires
        !has_key(state, address),
    ensures
        cache.applied(state).accounts.contains_key(address) == cache.accounts.contains_key(
            address,
        ),
        cache.accounts.contains_key(address) ==> cache.applied(state).accounts[address]
            == cache.accounts[address],
    decreases state.len(),
{
    if state.len() > 0 {
        let earlier = state.drop_last();
        if has_key(earlier, address) {
            let p = position_of(earlier, address);
            assert(state[p].0 == address);
        }
        lemma_applied_leaves_others(cache, earlier, address);
        assert(state[state.len() - 1].0 != address);
    }
}

/// The records of applying accounts that are all touched and cached, each
/// address once: one for each account, in order, made from the account as
/// the cache held it before.
pub proof fn lemma_applied_records(cache: CacheStateView, state: Seq<(Address, AccountView)>)
    requires
        distinct_keys(state),
        forall|i: int|
            0 <= i < state.len() ==> (#[trigger] state[i]).1.touched
                && cache.accounts.contains_key(state[i].0),
    ensures
        cache.applied_transitions(state).len() == state.len(),
        forall|i: int|
            0 <= i < state.len() ==> #[trigger] cache.applied_transitions(state)[i] == (
                state[i].0,
                cache.accounts[state[i].0].applied_transition(state[i].1, cache.has_state_clear),
            ),
    decreases state.len(),
{
    if state.len() > 0 {
        let earlier = state.drop_last();
        let n = state.len() - 1;
        lemma_as_map_take_step(state, n);
        assert(state.take(n) == earlier);
        assert forall|i: int| 0 <= i < earlier.len() implies (#[trigger] earlier[i]).1.touched
            && cache.accounts.contains_key(earlier[i].0) by {
            assert(earlier[i] == state[i]);
        }
        lemma_applied_records(cache, earlier);
        let (address, account) = state.last();
        assert(state[n] == (address, account));
        if has_key(earlier, address) {
            let p = position_of(earlier, address);
            assert(state[p].0 != state[n].0);
        }
        lemma_applied_leaves_others(cache, earlier, address);
        let records = cache.applied_transitions(state);
        let before = cache.applied_transitions(earlier);
        assert(records == before.push(
            (
                address,
                cache.applied(earlier).accounts[address].applied_transition(
                    account,
                    cache.has_state_clear,
                ),
            ),
        ));
        assert forall|i: int| 0 <= i < state.len() implies #[trigger] records[i] == (
            state[i].0,
            cache.accounts[state[i].0].applied_transition(state[i].1, cache.has_state_clear),
        ) by {
            if i < n {
                assert(records[i] == before[i]);
                assert(earlier[i] == state[i]);
            }
        }
    }
}

/// Transitions of addresses that are all different, added to none, stand as
/// they are.
pub proof fn lemma_distinct_transitions_stand(records: TransitionStateView)
    requires
        distinct_keys(records),
    ensures
        with_transitions(Seq::empty(), records) == records,
    decreases records.len(),
{
    if records.len() > 0 {
        let earlier = records.drop_last();
        let n = records.len() - 1;
        lemma_as_map_take_step(records, n);
        assert(records.take(n) == earlier);
        lemma_distinct_transitions_stand(earlier);
        if has_key(earlier, records[n].0) {
            let p = position_of(earlier, records[n].0);
            assert(records[p].0 != records[n].0);
        }
        assert(earlier.push(records.last()) =~= records);
    } else {
        assert(records =~= Seq::empty());
    }
}

/// Accounts that one transaction created with the same code, merged into a
/// bundle without contracts, leave exactly that code in it, once.
///
/// The accounts are cached and had no code of that hash before; the code is
/// given and is not the empty one.
pub proof fn lemma_committed_code_is_stored_once(
    cache: CacheStateView,
    changes: Seq<(Address, AccountView)>,
    hash: B256,
)
    requires
        changes.len() > 0,
        distinct_keys(changes),
        hash != keccak_empty(),
        forall|i: int|
            0 <= i < changes.len() ==> {
                let (address, account) = #[trigger] changes[i];
                &&& account.touched
                &&& account.created
                &&& !account.selfdestructed
                &&& account.info.code is Some
                &&& account.info.code_hash == hash
                &&& cache.accounts.contains_key(address)
                &&& cache.accounts[address].info() is None
                    || cache.accounts[address].info().unwrap().code_hash != hash
            },
    ensures
        ({
            let gathered = with_transitions(Seq::empty(), cache.applied_transitions(changes));
            &&& merged_contracts(Map::empty(), gathered).dom() == set![hash]
            &&& merged_contracts(Map::empty(), gathered).len() == 1
        }),
{
    let records = cache.applied_transitions(changes);
    lemma_applied_records(cache, changes);
    assert forall|i: int, j: int| 0 <= i < j < records.len() implies (#[trigger] records[i]).0 != (
    #[trigger] records[j]).0 by {
        assert(changes[i].0 != changes[j].0);
    }
    lemma_distinct_transitions_stand(records);
    assert forall|i: int| 0 <= i < records.len() implies brings_contract(
        #[trigger] records[i],
        hash,
    ) by {
        lemma_created_account_brings_its_code(
            cache.accounts[changes[i].0],
            changes[i].1,
            cache.has_state_clear,
        );
    }
    assert(brings_contract(records[0], hash));
    lemma_same_code_is_stored_once(records, hash);
}

/// An account that is loaded from the database has its data exactly where
/// its status says that it exists.
pub proof fn lemma_loaded_is_consistent(info: Option<AccountInfo>)
    ensures
        CacheAccountView::loaded(info).is_consistent(),
{
}

/// Where all storage of an account is known, a read of any of its slots is
/// answered without the database.
pub proof fn lemma_known_storage_needs_no_database<DB>(
    state: State<DB>,
    address: Address,
    index: StorageKey,
)
    requires
        state.cache@.accounts.contains_key(address),
        state.cache@.accounts[address].status.is_storage_known(),
    ensures
        state.known_slot(address, index) is Some,
        !state.cache@.accounts[address].storage().contains_key(index) ==> state.known_slot(
            address,
            index,
        ) == Some(U256::spec_zero()),
{
}

/// Adding balances to accounts that are all known without the database
/// leaves the database alone, and no account that was cached drops out.
pub proof fn lemma_known_balances_need_no_database<DB: Database>(
    state: State<DB>,
    balances: Seq<(Address, u128)>,
    accounts: Map<Address, CacheAccountView>,
    database: DB,
    records: Seq<(Address, TransitionAccountView)>,
)
    requires
        state.adds_balances(balances, accounts, database, records),
        forall|i: int|
            0 <= i < balances.len() && (#[trigger] balances[i]).1 != 0 ==> state.known_account(
                balances[i].0,
            ) is Some,
    ensures
        database == state.database,
        forall|address: Address|
            state.cache@.accounts.contains_key(address) ==> accounts.contains_key(address),
    decreases balances.len(),
{
    if balances.len() > 0 {
        let earlier_balances = balances.drop_last();
        assert forall|i: int|
            0 <= i < earlier_balances.len() && (#[trigger] earlier_balances[i]).1
                != 0 implies state.known_account(earlier_balances[i].0) is Some by {
            assert(earlier_balances[i] == balances[i]);
        }
        let (address, balance) = balances.last();
        assert(balances[balances.len() - 1] == (address, balance));
        if balance == 0 {
            lemma_known_balances_need_no_database(
                state,
                earlier_balances,
                accounts,
                database,
                records,
            );
        } else {
            let (earlier, earlier_database, loaded) = choose|
                earlier: Map<Address, CacheAccountView>,
                earlier_database: DB,
                loaded: CacheAccountView,
            |
                #![trigger state.loads_in(earlier, earlier_database, address, database, loaded)]
                {
                    let changed = loaded.balance_added(balance, state.cache.has_state_clear);
                    &&& records.len() > 0
                    &&& state.adds_balances(
                        earlier_balances,
                        earlier,
                        earlier_database,
                        records.drop_last(),
                    )
                    &&& state.loads_in(earlier, earlier_database, address, database, loaded)
                    &&& accounts == earlier.insert(address, changed)
                    &&& records.last() == (
                        address,
                        loaded.transition_to(changed, Map::empty(), false),
                    )
                };
            lemma_known_balances_need_no_database(
                state,
                earlier_balances,
                earlier,
                earlier_database,
                records.drop_last(),
            );
            assert(state.known_in(earlier, address) is Some);
        }
    }
}

/// Asking twice for the info of an account gives the same answer, and the
/// second time neither the database nor the cache is touched.
pub proof fn lemma_basic_twice<DB: Database>(
    first: State<DB>,
    second: State<DB>,
    third: State<DB>,
    address: Address,
    first_answer: Result<Option<AccountInfo>, DB::Error>,
    second_answer: Result<Option<AccountInfo>, DB::Error>,
)
    requires
        State::<DB>::answers_basic(&first, address, &second, first_answer),
        first_answer is Ok,
        State::<DB>::answers_basic(&second, address, &third, second_answer),
    ensures
        second_answer == first_answer,
        third.database == second.database,
        third.cache@.accounts == second.cache@.accounts,
{
    assert(second.cache@.accounts.contains_key(address));
    let known = second.cache@.accounts[address];
    assert(second.known_account(address) == Some(known));
    assert(second.cache@.accounts.insert(address, known) =~= second.cache@.accounts);
}

/// After the hash of block `number` was asked for and was not yet kept, no
/// hash of a block more than the window before `number` is kept.
pub proof fn lemma_pruned_keeps_window(hashes: Map<u64, B256>, number: u64, found: B256, n: u64)
    requires
        pruned(hashes.insert(number, found), number).contains_key(n),
    ensures
        n >= oldest_kept(number),
        n + BLOCK_HASH_HISTORY >= number,
{
}

} // verus!
