//! The state of one account as a bundle holds it.
use crate::account_info::{infos_agree, same_infos, AccountInfo};
use crate::account_status::AccountStatus;
use crate::primitives::{clipped, StorageKey, StorageValue, U256};
use crate::reverts::{AccountInfoRevert, AccountRevert, AccountRevertView, RevertToSlot};
use crate::storage::{
    changed_slots, composed_storage, merge_slots, zero_present_values, zeroed, StorageSlot,
    StorageWithOriginalValues,
};
use crate::transition_account::{TransitionAccount, TransitionAccountView};
use crate::vec_map::{as_map, distinct_keys, lemma_as_map_empty, lemma_as_map_take_step, VecMap};
use vstd::prelude::*;

verus! {

/// An account after the blocks that a bundle covers, with what it was before them.
#[derive(Debug, Default, PartialEq, Eq)]
pub struct BundleAccount {
    /// The info now; `None` where the account is gone.
    pub info: Option<AccountInfo>,
    /// The info before the first block of the bundle.
    pub original_info: Option<AccountInfo>,
    /// The slots that the blocks wrote: each with the value it had before the
    /// first of them and the value it has now.
    pub storage: StorageWithOriginalValues,
    pub status: AccountStatus,
}

/// The model of a [`BundleAccount`].
#[verifier::ext_equal]
pub struct BundleAccountView {
    pub info: Option<AccountInfo>,
    pub original_info: Option<AccountInfo>,
    pub storage: Map<StorageKey, StorageSlot>,
    pub status: AccountStatus,
}

/// The account as a bundle that does not hold it yet takes it to be: what
/// `transition` says it was before.
pub open spec fn origin_of(transition: TransitionAccountView) -> BundleAccountView {
    BundleAccountView {
        info: transition.previous_info,
        original_info: transition.previous_info,
        storage: Map::empty(),
        status: transition.previous_status,
    }
}

/// How to undo what `transition` does to the info of `held`.
///
/// An account that did not exist before the transition is deleted. Otherwise
/// the info goes back to the one before the transition where the transition
/// changes it and the bundle has not changed it before: where the original
/// info is missing or is the one before the transition. In every other case
/// nothing is done.
pub open spec fn info_revert(
    held: BundleAccountView,
    transition: TransitionAccountView,
) -> AccountInfoRevert {
    if transition.previous_status is LoadedNotExisting || transition.previous_info is None {
        AccountInfoRevert::DeleteIt
    } else if (held.original_info is None || infos_agree(
        held.original_info,
        transition.previous_info,
    )) && !infos_agree(transition.info, transition.previous_info) {
        AccountInfoRevert::RevertTo(transition.previous_info.unwrap())
    } else {
        AccountInfoRevert::DoNothing
    }
}

/// How to undo what `transition` does to the slots `held`.
///
/// Where the storage was wiped, every slot held whose value is no longer
/// the one held goes back to it, and every slot that is new and changed is
/// dropped. Otherwise every slot that changed goes back to its original
/// value.
pub open spec fn storage_revert(
    held: Map<StorageKey, StorageSlot>,
    transition: TransitionAccountView,
) -> Map<StorageKey, RevertToSlot> {
    if transition.storage_was_destroyed {
        Map::new(
            |key: StorageKey|
                if held.contains_key(key) {
                    value_after_wipe(transition.storage, key) != held[key].present_value
                } else {
                    transition.storage.contains_key(key) && transition.storage[key].is_changed()
                },
            |key: StorageKey|
                if held.contains_key(key) {
                    RevertToSlot::Restore(held[key].present_value)
                } else {
                    RevertToSlot::Destroyed
                },
        )
    } else {
        Map::new(
            |key: StorageKey|
                transition.storage.contains_key(key) && transition.storage[key].is_changed(),
            |key: StorageKey| RevertToSlot::Restore(transition.storage[key].original_value),
        )
    }
}

/// The value of slot `key` once the storage was wiped and the slots of
/// `written` were written: the value written, or zero.
pub open spec fn value_after_wipe(
    written: Map<StorageKey, StorageSlot>,
    key: StorageKey,
) -> StorageValue {
    if written.contains_key(key) {
        written[key].present_value
    } else {
        U256::spec_zero()
    }
}

/// The slots after `transition`. Where the storage was wiped, every slot held
/// reads zero before the slots of the transition are written.
pub open spec fn merged_storage(
    held: Map<StorageKey, StorageSlot>,
    transition: TransitionAccountView,
) -> Map<StorageKey, StorageSlot> {
    composed_storage(
        if transition.storage_was_destroyed {
            zeroed(held)
        } else {
            held
        },
        transition.storage,
        false,
    )
}

/// `transition` leaves `held` as it was: the info is the same, no slot
/// changes, and no storage that might have existed is wiped.
pub open spec fn leaves_unchanged(
    held: BundleAccountView,
    transition: TransitionAccountView,
) -> bool {
    &&& infos_agree(transition.info, transition.previous_info)
    &&& storage_revert(held.storage, transition) =~= Map::empty()
    &&& !(transition.storage_was_destroyed && transition.previous_info is Some)
}

impl BundleAccountView {
    /// The account after `transition`.
    pub open spec fn merge(self, transition: TransitionAccountView) -> BundleAccountView {
        BundleAccountView {
            info: transition.info,
            original_info: self.original_info,
            storage: merged_storage(self.storage, transition),
            status: transition.status,
        }
    }

    /// What undoes `transition`, if it changes anything.
    pub open spec fn revert_of(self, transition: TransitionAccountView) -> Option<
        AccountRevertView,
    > {
        if leaves_unchanged(self, transition) {
            None
        } else {
            Some(
                AccountRevertView {
                    account: info_revert(self, transition),
                    storage: storage_revert(self.storage, transition),
                    previous_status: transition.previous_status,
                    wipe_storage: transition.storage_was_destroyed,
                },
            )
        }
    }

    /// The account after `revert` has been applied.
    pub open spec fn revert(self, revert: AccountRevertView) -> BundleAccountView {
        BundleAccountView {
            info: match revert.account {
                AccountInfoRevert::DoNothing => self.info,
                AccountInfoRevert::DeleteIt => None,
                AccountInfoRevert::RevertTo(info) => Some(info),
            },
            original_info: self.original_info,
            storage: reverted_storage(self.storage, revert.storage),
            status: revert.previous_status,
        }
    }

    /// The account says no more than that nothing has changed: the info is
    /// the original one and no slot has changed.
    pub open spec fn is_pristine(self) -> bool {
        &&& infos_agree(self.info, self.original_info)
        &&& changed_slots(self.storage) =~= Map::empty()
    }
}

/// The slots after the reverts of `reverts` have been applied: a slot to drop
/// is gone, a slot to restore has its old value as present value.
pub open spec fn reverted_storage(
    storage: Map<StorageKey, StorageSlot>,
    reverts: Map<StorageKey, RevertToSlot>,
) -> Map<StorageKey, StorageSlot> {
    Map::new(
        |key: StorageKey|
            if reverts.contains_key(key) {
                reverts[key] is Restore
            } else {
                storage.contains_key(key)
            },
        |key: StorageKey|
            if reverts.contains_key(key) {
                let value = reverts[key]->Restore_0;
                if storage.contains_key(key) {
                    StorageSlot {
                        original_value: storage[key].original_value,
                        present_value: value,
                    }
                } else {
                    StorageSlot { original_value: value, present_value: value }
                }
            } else {
                storage[key]
            },
    )
}

impl BundleAccount {
    pub open spec fn view(&self) -> BundleAccountView {
        BundleAccountView {
            info: self.info,
            original_info: self.original_info,
            storage: self.storage@,
            status: self.status,
        }
    }

    pub fn new(
        original_info: Option<AccountInfo>,
        present_info: Option<AccountInfo>,
        storage: StorageWithOriginalValues,
        status: AccountStatus,
    ) -> (account: Self)
        ensures
            account@ == (BundleAccountView {
                info: present_info,
                original_info,
                storage: storage@,
                status,
            }),
    {
        BundleAccount { info: present_info, original_info, storage, status }
    }

    /// The present value of slot `key`; zero for a slot that is not held but
    /// known to be empty.
    pub fn storage_slot(&self, key: StorageKey) -> (value: Option<StorageValue>)
        ensures
            value == (if self.storage@.contains_key(key) {
                Some(self.storage@[key].present_value)
            } else if self.status.is_storage_known() {
                Some(U256::spec_zero())
            } else {
                None
            }),
    {
        match self.storage.get(&key) {
            Some(slot) => Some(slot.present_value),
            None => if self.status.is_storage_known() {
                Some(U256::zero())
            } else {
                None
            },
        }
    }

    /// The info of the account, if it exists.
    pub fn account_info(&self) -> (info: Option<AccountInfo>)
        ensures
            info == self.info,
    {
        self.info.clone()
    }

    /// The info changed since the first block of the bundle.
    pub fn is_info_changed(&self) -> (r: bool)
        ensures
            r == !infos_agree(self.info, self.original_info),
    {
        !same_infos(&self.info, &self.original_info)
    }

    /// A number that grows with the room the account takes: one for the
    /// account and one for each slot.
    pub fn size_hint(&self) -> (n: usize)
        ensures
            n == clipped(1 + self.storage.entries().len() as int),
    {
        self.storage.len().saturating_add(1)
    }

    /// The account that a bundle which does not hold it yet starts from.
    pub fn origin(transition: &TransitionAccount) -> (account: Self)
        ensures
            account@ == origin_of(transition@),
    {
        BundleAccount {
            info: transition.previous_info.clone(),
            original_info: transition.previous_info.clone(),
            storage: VecMap::new(),
            status: transition.previous_status,
        }
    }

    /// Takes `transition` into the account and says how to undo it, if it
    /// changed anything.
    pub fn update_and_create_revert(&mut self, transition: TransitionAccount) -> (revert: Option<
        AccountRevert,
    >)
        ensures
            final(self)@ == old(self)@.merge(transition@),
            match revert {
                Some(r) => old(self)@.revert_of(transition@) == Some(r@),
                None => old(self)@.revert_of(transition@) is None,
            },
    {
        let account = if transition.previous_status.is_loaded_not_existing()
            || transition.previous_info.is_none() {
            AccountInfoRevert::DeleteIt
        } else if (self.original_info.is_none() || same_infos(
            &self.original_info,
            &transition.previous_info,
        )) && !same_infos(&transition.info, &transition.previous_info) {
            match &transition.previous_info {
                Some(info) => AccountInfoRevert::RevertTo(info.clone()),
                None => AccountInfoRevert::DeleteIt,
            }
        } else {
            AccountInfoRevert::DoNothing
        };
        let storage = slot_reverts(&self.storage, &transition);
        let unchanged = same_infos(&transition.info, &transition.previous_info)
            && storage.is_empty() && !(transition.storage_was_destroyed
            && transition.previous_info.is_some());
        let revert = if unchanged {
            None
        } else {
            Some(
                AccountRevert {
                    account,
                    storage,
                    previous_status: transition.previous_status,
                    wipe_storage: transition.storage_was_destroyed,
                },
            )
        };
        if transition.storage_was_destroyed {
            zero_present_values(&mut self.storage);
        }
        merge_slots(&mut self.storage, &transition.storage);
        self.info = transition.info;
        self.status = transition.status;
        revert
    }

    /// Applies `revert`: the account is again as it was before the block
    /// that the revert was made for.
    pub fn revert(&mut self, revert: AccountRevert)
        ensures
            final(self)@ == old(self)@.revert(revert@),
    {
        let AccountRevert { account, storage, previous_status, wipe_storage: _ } = revert;
        self.status = previous_status;
        match account {
            AccountInfoRevert::DoNothing => {},
            AccountInfoRevert::DeleteIt => {
                self.info = None;
            },
            AccountInfoRevert::RevertTo(info) => {
                self.info = Some(info);
            },
        }
        let ghost before = self.storage@;
        let ghost slots = storage.entries();
        let count = storage.len();
        let mut i: usize = 0;
        proof {
            assert(slots.take(0) =~= Seq::<(StorageKey, RevertToSlot)>::empty());
            lemma_as_map_empty::<StorageKey, RevertToSlot>();
            assert(self.storage@ =~= reverted_storage(before, as_map(slots.take(0))));
        }
        while i < count
            invariant
                i <= count,
                count == slots.len(),
                slots == storage.entries(),
                distinct_keys(slots),
                self.status == revert.previous_status,
                self.original_info == old(self).original_info,
                self.info == old(self)@.revert(revert@).info,
                self.storage@ == reverted_storage(before, as_map(slots.take(i as int))),
            decreases count - i,
        {
            let key = storage.key_at(i);
            let slot = *storage.value_at(i);
            proof {
                lemma_as_map_take_step(slots, i as int);
            }
            match slot {
                RevertToSlot::Restore(value) => {
                    let restored = match self.storage.get(&key) {
                        Some(present) => StorageSlot {
                            original_value: present.original_value,
                            present_value: value,
                        },
                        None => StorageSlot::new(value),
                    };
                    self.storage.insert(key, restored);
                },
                RevertToSlot::Destroyed => {
                    self.storage.remove(&key);
                },
            }
            proof {
                assert(self.storage@ =~= reverted_storage(before, as_map(slots.take(i + 1))));
            }
            i += 1;
        }
        proof {
            assert(slots.take(slots.len() as int) =~= slots);
        }
    }
}

/// How to undo what `transition` does to the slots `held`.
pub fn slot_reverts(held: &StorageWithOriginalValues, transition: &TransitionAccount) -> (reverts:
    VecMap<StorageKey, RevertToSlot>)
    ensures
        reverts@ == storage_revert(held@, transition@),
{
    let mut reverts: VecMap<StorageKey, RevertToSlot> = VecMap::new();
    let ghost written = transition.storage.entries();
    let written_count = transition.storage.len();
    if transition.storage_was_destroyed {
        let ghost slots = held.entries();
        let count = held.len();
        let mut i: usize = 0;
        proof {
            assert(slots.take(0) =~= Seq::<(StorageKey, StorageSlot)>::empty());
            lemma_as_map_empty::<StorageKey, StorageSlot>();
            assert(reverts@ =~= storage_revert(as_map(slots.take(0)), transition@).restrict(
                as_map(slots.take(0)).dom(),
            ));
        }
        while i < count
            invariant
                i <= count,
                count == slots.len(),
                slots == held.entries(),
                distinct_keys(slots),
                transition.storage_was_destroyed,
                reverts@ == storage_revert(as_map(slots.take(i as int)), transition@).restrict(
                    as_map(slots.take(i as int)).dom(),
                ),
            decreases count - i,
        {
            let key = held.key_at(i);
            let slot = *held.value_at(i);
            proof {
                lemma_as_map_take_step(slots, i as int);
            }
            let value_now = match transition.storage.get(&key) {
                Some(written) => written.present_value,
                None => U256::zero(),
            };
            if value_now != slot.present_value {
                reverts.insert(key, RevertToSlot::Restore(slot.present_value));
            }
            proof {
                assert(reverts@ =~= storage_revert(
                    as_map(slots.take(i + 1)),
                    transition@,
                ).restrict(as_map(slots.take(i + 1)).dom()));
            }
            i += 1;
        }
        proof {
            assert(slots.take(slots.len() as int) =~= slots);
        }
        let mut j: usize = 0;
        proof {
            assert(written.take(0) =~= Seq::<(StorageKey, StorageSlot)>::empty());
            lemma_as_map_empty::<StorageKey, StorageSlot>();
            assert(reverts@ =~= storage_revert(held@, transition@).restrict(
                held@.dom() + as_map(written.take(0)).dom(),
            ));
        }
        while j < written_count
            invariant
                j <= written_count,
                written_count == written.len(),
                written == transition.storage.entries(),
                distinct_keys(written),
                transition.storage_was_destroyed,
                reverts@ == storage_revert(held@, transition@).restrict(
                    held@.dom() + as_map(written.take(j as int)).dom(),
                ),
            decreases written_count - j,
        {
            let key = transition.storage.key_at(j);
            let slot = *transition.storage.value_at(j);
            proof {
                lemma_as_map_take_step(written, j as int);
            }
            if !held.contains_key(&key) && slot.is_changed() {
                reverts.insert(key, RevertToSlot::Destroyed);
            }
            proof {
                assert(reverts@ =~= storage_revert(held@, transition@).restrict(
                    held@.dom() + as_map(written.take(j + 1)).dom(),
                ));
            }
            j += 1;
        }
        proof {
            assert(written.take(written.len() as int) =~= written);
            assert(reverts@ =~= storage_revert(held@, transition@));
        }
    } else {
        let mut j: usize = 0;
        proof {
            assert(written.take(0) =~= Seq::<(StorageKey, StorageSlot)>::empty());
            lemma_as_map_empty::<StorageKey, StorageSlot>();
            assert(reverts@ =~= storage_revert(held@, transition@).restrict(
                as_map(written.take(0)).dom(),
            ));
        }
        while j < written_count
            invariant
                j <= written_count,
                written_count == written.len(),
                written == transition.storage.entries(),
                distinct_keys(written),
                !transition.storage_was_destroyed,
                reverts@ == storage_revert(held@, transition@).restrict(
                    as_map(written.take(j as int)).dom(),
                ),
            decreases written_count - j,
        {
            let key = transition.storage.key_at(j);
            let slot = *transition.storage.value_at(j);
            proof {
                lemma_as_map_take_step(written, j as int);
            }
            if slot.is_changed() {
                reverts.insert(key, RevertToSlot::Restore(slot.original_value));
            }
            proof {
                assert(reverts@ =~= storage_revert(held@, transition@).restrict(
                    as_map(written.take(j + 1)).dom(),
                ));
            }
            j += 1;
        }
        proof {
            assert(written.take(written.len() as int) =~= written);
            assert(reverts@ =~= storage_revert(held@, transition@));
        }
    }
    reverts
}

} // verus!
