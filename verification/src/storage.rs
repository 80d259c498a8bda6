//! Storage slots and the maps that hold them.
use crate::primitives::{StorageKey, StorageValue, U256};
use crate::vec_map::{as_map, distinct_keys, lemma_as_map_empty, lemma_as_map_take_step, VecMap};
use vstd::prelude::*;

verus! {

/// The storage of an account as the database would hold it.
pub type PlainStorage = VecMap<StorageKey, StorageValue>;

/// Storage slots that remember the value they had before the change.
pub type StorageWithOriginalValues = VecMap<StorageKey, StorageSlot>;

/// One slot of storage: the value it had and the value it has.
#[derive(Clone, Copy, Debug, PartialEq, Eq, Structural, Hash)]
pub struct StorageSlot {
    /// The value before the change.
    pub original_value: StorageValue,
    /// The value now.
    pub present_value: StorageValue,
}

impl StorageSlot {
    /// A slot that holds `value` and has not changed.
    #[verifier::allow_in_spec]
    pub fn new(value: StorageValue) -> StorageSlot
        returns
            (StorageSlot { original_value: value, present_value: value }),
    {
        StorageSlot { original_value: value, present_value: value }
    }

    /// A slot that went from `original_value` to `present_value`.
    #[verifier::allow_in_spec]
    pub fn new_changed(original_value: StorageValue, present_value: StorageValue) -> StorageSlot
        returns
            (StorageSlot { original_value, present_value }),
    {
        StorageSlot { original_value, present_value }
    }

    /// The present value differs from the original one.
    #[verifier::allow_in_spec]
    pub fn is_changed(&self) -> bool
        returns
            self.original_value != self.present_value,
    {
        self.original_value != self.present_value
    }
}

/// The present value of every slot of `storage`.
pub open spec fn present_values(storage: Map<StorageKey, StorageSlot>) -> Map<
    StorageKey,
    StorageValue,
> {
    storage.map_values(|slot: StorageSlot| slot.present_value)
}

/// The slots of `storage` whose value changed.
pub open spec fn changed_slots(storage: Map<StorageKey, StorageSlot>) -> Map<
    StorageKey,
    StorageSlot,
> {
    storage.restrict(Set::new(|key: U256| storage.contains_key(key) && storage[key].is_changed()))
}

/// The slots of two changes in a row. Where the later change wiped the
/// storage, only its own slots remain. Otherwise a slot that both wrote keeps
/// the original value of the earlier and has the present value of the later.
pub open spec fn composed_storage(
    older: Map<StorageKey, StorageSlot>,
    newer: Map<StorageKey, StorageSlot>,
    wiped: bool,
) -> Map<StorageKey, StorageSlot> {
    if wiped {
        newer
    } else {
        Map::new(
            |key: StorageKey| older.contains_key(key) || newer.contains_key(key),
            |key: StorageKey|
                if !newer.contains_key(key) {
                    older[key]
                } else if older.contains_key(key) {
                    StorageSlot {
                        original_value: older[key].original_value,
                        present_value: newer[key].present_value,
                    }
                } else {
                    newer[key]
                },
        )
    }
}

/// Writes the slots of `newer` over `target`: a slot that `target` holds
/// keeps its original value and takes the present value of `newer`.
pub fn merge_slots(target: &mut StorageWithOriginalValues, newer: &StorageWithOriginalValues)
    ensures
        final(target)@ == composed_storage(old(target)@, newer@, false),
{
    let ghost older = target@;
    let ghost slots = newer.entries();
    let count = newer.len();
    let mut i: usize = 0;
    proof {
        assert(slots.take(0) =~= Seq::<(StorageKey, StorageSlot)>::empty());
        lemma_as_map_empty::<StorageKey, StorageSlot>();
        assert(target@ =~= composed_storage(older, as_map(slots.take(0)), false));
    }
    while i < count
        invariant
            i <= count,
            count == slots.len(),
            slots == newer.entries(),
            distinct_keys(slots),
            target@ == composed_storage(older, as_map(slots.take(i as int)), false),
        decreases count - i,
    {
        let key = newer.key_at(i);
        let slot = *newer.value_at(i);
        proof {
            lemma_as_map_take_step(slots, i as int);
        }
        let merged = match target.get(&key) {
            Some(present) => StorageSlot {
                original_value: present.original_value,
                present_value: slot.present_value,
            },
            None => slot,
        };
        target.insert(key, merged);
        proof {
            assert(target@ =~= composed_storage(older, as_map(slots.take(i + 1)), false));
        }
        i += 1;
    }
    proof {
        assert(slots.take(slots.len() as int) =~= slots);
    }
}

/// Every slot of `storage` with its present value set to zero.
pub open spec fn zeroed(storage: Map<StorageKey, StorageSlot>) -> Map<StorageKey, StorageSlot> {
    storage.map_values(
        |slot: StorageSlot|
            StorageSlot { original_value: slot.original_value, present_value: U256::spec_zero() },
    )
}

/// Sets the present value of every slot to zero.
pub fn zero_present_values(storage: &mut StorageWithOriginalValues)
    ensures
        final(storage)@ == zeroed(old(storage)@),
{
    let ghost slots = storage.entries();
    let count = storage.len();
    let mut wiped: StorageWithOriginalValues = VecMap::new();
    let mut i: usize = 0;
    proof {
        assert(slots.take(0) =~= Seq::<(StorageKey, StorageSlot)>::empty());
        lemma_as_map_empty::<StorageKey, StorageSlot>();
        assert(wiped@ =~= zeroed(as_map(slots.take(0))));
    }
    while i < count
        invariant
            i <= count,
            count == slots.len(),
            slots == storage.entries(),
            distinct_keys(slots),
            wiped@ == zeroed(as_map(slots.take(i as int))),
        decreases count - i,
    {
        let key = storage.key_at(i);
        let slot = *storage.value_at(i);
        proof {
            lemma_as_map_take_step(slots, i as int);
        }
        wiped.insert(
            key,
            StorageSlot { original_value: slot.original_value, present_value: U256::zero() },
        );
        proof {
            assert(wiped@ =~= zeroed(as_map(slots.take(i + 1))));
        }
        i += 1;
    }
    proof {
        assert(slots.take(slots.len() as int) =~= slots);
    }
    *storage = wiped;
}

/// The present value of every slot of `storage`.
pub fn present_values_of(storage: &StorageWithOriginalValues) -> (values: PlainStorage)
    ensures
        values@ == present_values(storage@),
{
    let ghost slots = storage.entries();
    let count = storage.len();
    let mut values: PlainStorage = VecMap::new();
    let mut i: usize = 0;
    proof {
        assert(slots.take(0) =~= Seq::<(StorageKey, StorageSlot)>::empty());
        lemma_as_map_empty::<StorageKey, StorageSlot>();
        assert(values@ =~= present_values(as_map(slots.take(0))));
    }
    while i < count
        invariant
            i <= count,
            count == slots.len(),
            slots == storage.entries(),
            distinct_keys(slots),
            values@ == present_values(as_map(slots.take(i as int))),
        decreases count - i,
    {
        let key = storage.key_at(i);
        let slot = *storage.value_at(i);
        proof {
            lemma_as_map_take_step(slots, i as int);
        }
        values.insert(key, slot.present_value);
        proof {
            assert(values@ =~= present_values(as_map(slots.take(i + 1))));
        }
        i += 1;
    }
    proof {
        assert(slots.take(slots.len() as int) =~= slots);
    }
    values
}

/// `storage` with the values of `values` written over it.
pub fn write_values(storage: &mut PlainStorage, values: &PlainStorage)
    ensures
        final(storage)@ == old(storage)@.union_prefer_right(values@),
{
    let ghost before = storage@;
    let ghost slots = values.entries();
    let count = values.len();
    let mut i: usize = 0;
    proof {
        assert(slots.take(0) =~= Seq::<(StorageKey, StorageValue)>::empty());
        lemma_as_map_empty::<StorageKey, StorageValue>();
        assert(storage@ =~= before.union_prefer_right(as_map(slots.take(0))));
    }
    while i < count
        invariant
            i <= count,
            count == slots.len(),
            slots == values.entries(),
            distinct_keys(slots),
            storage@ == before.union_prefer_right(as_map(slots.take(i as int))),
        decreases count - i,
    {
        let key = values.key_at(i);
        let value = *values.value_at(i);
        proof {
            lemma_as_map_take_step(slots, i as int);
        }
        storage.insert(key, value);
        proof {
            assert(storage@ =~= before.union_prefer_right(as_map(slots.take(i + 1))));
        }
        i += 1;
    }
    proof {
        assert(slots.take(slots.len() as int) =~= slots);
    }
}

/// The slots of `storage` whose value changed.
pub fn changed_slots_of(storage: &StorageWithOriginalValues) -> (changed: StorageWithOriginalValues)
    ensures
        changed@ == changed_slots(storage@),
{
    let ghost slots = storage.entries();
    let count = storage.len();
    let mut changed: StorageWithOriginalValues = VecMap::new();
    let mut i: usize = 0;
    proof {
        assert(slots.take(0) =~= Seq::<(StorageKey, StorageSlot)>::empty());
        lemma_as_map_empty::<StorageKey, StorageSlot>();
        assert(changed@ =~= changed_slots(as_map(slots.take(0))));
    }
    while i < count
        invariant
            i <= count,
            count == slots.len(),
            slots == storage.entries(),
            distinct_keys(slots),
            changed@ == changed_slots(as_map(slots.take(i as int))),
        decreases count - i,
    {
        let key = storage.key_at(i);
        let slot = *storage.value_at(i);
        proof {
            lemma_as_map_take_step(slots, i as int);
        }
        if slot.is_changed() {
            changed.insert(key, slot);
        }
        proof {
            assert(changed@ =~= changed_slots(as_map(slots.take(i + 1))));
        }
        i += 1;
    }
    proof {
        assert(slots.take(slots.len() as int) =~= slots);
    }
    changed
}

} // verus!
