use evm_state::bytecode::Bytecode;
use evm_state::database::{keccak256, DatabaseRef, EmptyDB};
use evm_state::primitives::{empty_code_hash, read_be, Address, B256, U256};
use evm_state::vec_map::VecMap;

#[test]
fn address_from_slice_splits_the_bytes() {
    let mut bytes = [0u8; 20];
    for (i, byte) in bytes.iter_mut().enumerate() {
        *byte = i as u8 + 1;
    }
    let address = Address::from_slice(&bytes);
    assert_eq!(address.hi, 0x0102_0304);
    assert_eq!(address.lo, 0x0506_0708_090a_0b0c_0d0e_0f10_1112_1314);
}

#[test]
fn addresses_order_as_their_bytes() {
    let low = Address::from_slice(&[0x01; 20]);
    let high = Address::from_slice(&[0x02; 20]);
    assert!(low < high);
    assert_eq!(low, Address::from_slice(&[0x01; 20]));
}

#[test]
fn read_be_reads_most_significant_byte_first() {
    assert_eq!(read_be(&[0x12, 0x34, 0x56], 0, 3), 0x12_3456);
    assert_eq!(read_be(&[0x12, 0x34, 0x56], 1, 2), 0x3456);
    assert_eq!(read_be(&[0x12, 0x34, 0x56], 3, 0), 0);
    assert_eq!(read_be(&[0xff; 16], 0, 16), u128::MAX);
}

#[test]
fn hash_from_bytes_splits_in_two_halves() {
    let mut bytes = [0u8; 32];
    bytes[15] = 1;
    bytes[31] = 2;
    assert_eq!(B256::from_be_bytes(&bytes), B256 { hi: 1, lo: 2 });
    assert_eq!(B256::zero(), B256::from_be_bytes(&[0u8; 32]));
}

#[test]
fn empty_code_hash_is_the_hash_of_no_bytes() {
    assert_eq!(keccak256(&[]), empty_code_hash());
    assert_eq!(
        empty_code_hash(),
        B256::from_be_bytes(&alloy_primitives::KECCAK256_EMPTY.0)
    );
}

#[test]
fn keccak256_hashes_its_input() {
    let hash = keccak256(b"hello");
    assert_eq!(
        hash,
        B256::from_be_bytes(&alloy_primitives::keccak256(b"hello").0)
    );
    assert_eq!(hash.hi, 0x1c8a_ff95_0685_c2ed_4bc3_174f_3472_287b);
    assert_eq!(hash.lo, 0x56d9_517b_9c94_8127_319a_09a7_a36d_eac8);
    assert_ne!(hash, keccak256(b"hellp"));
}

#[test]
fn empty_database_hashes_the_decimal_digits_of_the_number() {
    let db = EmptyDB::new();
    assert_eq!(db.block_hash_ref(0).unwrap(), keccak256(b"0"));
    assert_eq!(db.block_hash_ref(7).unwrap(), keccak256(b"7"));
    assert_eq!(db.block_hash_ref(10).unwrap(), keccak256(b"10"));
    assert_eq!(db.block_hash_ref(12345).unwrap(), keccak256(b"12345"));
    assert_eq!(
        db.block_hash_ref(u64::MAX).unwrap(),
        keccak256(b"18446744073709551615")
    );
}

#[test]
fn empty_database_holds_nothing() {
    let db = EmptyDB::new();
    let address = Address::from_slice(&[0x11; 20]);
    assert_eq!(db.basic_ref(address).unwrap(), None);
    assert!(db.code_by_hash_ref(B256::zero()).unwrap().is_empty());
    assert_eq!(
        db.storage_ref(address, U256::from_u64(3)).unwrap(),
        U256::zero()
    );
}

#[test]
fn u256_saturating_add_without_carry() {
    let sum = U256::from_u64(5).saturating_add(U256::from_u128(10));
    assert_eq!(sum, U256::from_u64(15));
}

#[test]
fn u256_saturating_add_carries_into_the_upper_half() {
    let sum = U256 { hi: 1, lo: u128::MAX }.saturating_add(U256 { hi: 2, lo: 3 });
    assert_eq!(sum, U256 { hi: 4, lo: 2 });
    let sum = U256 { hi: 0, lo: u128::MAX }.saturating_add(U256::from_u64(1));
    assert_eq!(sum, U256 { hi: 1, lo: 0 });
}

#[test]
fn u256_saturating_add_stops_at_the_largest_value() {
    let largest = U256 { hi: u128::MAX, lo: u128::MAX };
    assert_eq!(largest.saturating_add(U256::from_u64(1)), largest);
    assert_eq!(
        U256 { hi: u128::MAX, lo: 5 }.saturating_add(U256 { hi: 1, lo: 0 }),
        largest
    );
    assert_eq!(
        U256 { hi: u128::MAX, lo: u128::MAX - 1 }.saturating_add(U256::from_u64(1)),
        largest
    );
    assert_eq!(
        U256 { hi: u128::MAX - 1, lo: u128::MAX }.saturating_add(U256::from_u64(1)),
        U256 { hi: u128::MAX, lo: 0 }
    );
}

#[test]
fn u256_zero_is_zero() {
    assert!(U256::zero().is_zero());
    assert!(!U256::from_u64(1).is_zero());
    assert!(!U256 { hi: 1, lo: 0 }.is_zero());
    assert_eq!(U256::from_u128(u128::MAX), U256 { hi: 0, lo: u128::MAX });
}

#[test]
fn bytecode_clone_shares_the_bytes() {
    let code = Bytecode::new(vec![0x60, 0x00, 0xf3]);
    let copy = code.clone();
    assert_eq!(copy, code);
    assert_eq!(copy.to_vec(), vec![0x60, 0x00, 0xf3]);
    assert_eq!(copy.len(), 3);
    assert_eq!(copy.byte_at(2), 0xf3);
    assert!(!copy.is_empty());
    assert!(Bytecode::new(Vec::new()).is_empty());
}

#[test]
fn vec_map_keeps_insertion_order() {
    let mut map: VecMap<u64, u64> = VecMap::new();
    assert!(map.is_empty());
    assert_eq!(map.insert(3, 30), None);
    assert_eq!(map.insert(1, 10), None);
    assert_eq!(map.insert(2, 20), None);
    assert_eq!(map.insert(1, 11), Some(10));
    assert_eq!(map.len(), 3);
    assert_eq!(map.key_at(0), 3);
    assert_eq!(map.key_at(1), 1);
    assert_eq!(*map.value_at(1), 11);
    assert_eq!(map.position(&2), Some(2));
    assert_eq!(map.into_entries(), vec![(3, 30), (1, 11), (2, 20)]);
}

#[test]
fn vec_map_remove_closes_the_gap() {
    let mut map = VecMap::from_entries(vec![(1u64, 10u64), (2, 20), (3, 30)]);
    assert_eq!(map.remove(&2), Some(20));
    assert_eq!(map.remove(&2), None);
    assert!(!map.contains_key(&2));
    assert_eq!(map.get(&3), Some(&30));
    assert_eq!(map.into_entries(), vec![(1, 10), (3, 30)]);
}

#[test]
fn vec_map_get_mut_changes_the_value_in_place() {
    let mut map = VecMap::from_entries(vec![(1u64, 10u64), (2, 20)]);
    if let Some(value) = map.get_mut(&1) {
        *value = 15;
    }
    assert!(map.get_mut(&9).is_none());
    assert_eq!(map.into_entries(), vec![(1, 15), (2, 20)]);
}

#[test]
fn vec_map_equality_ignores_the_order() {
    let a = VecMap::from_entries(vec![(1u64, 10u64), (2, 20)]);
    let b = VecMap::from_entries(vec![(2u64, 20u64), (1, 10)]);
    let c = VecMap::from_entries(vec![(1u64, 10u64), (2, 21)]);
    let d = VecMap::from_entries(vec![(1u64, 10u64)]);
    assert_eq!(a, b);
    assert_ne!(a, c);
    assert_ne!(a, d);
    assert_ne!(d, a);
    assert_eq!(a.clone(), a);
}

#[test]
fn vec_map_from_entries_lets_the_later_entry_win() {
    let map = VecMap::from_entries(vec![(1u64, 10u64), (2, 20), (1, 12)]);
    assert_eq!(map.into_entries(), vec![(1, 12), (2, 20)]);
}

#[test]
fn vec_map_take_leaves_it_empty() {
    let mut map = VecMap::from_entries(vec![(1u64, 10u64)]);
    let taken = map.take();
    assert!(map.is_empty());
    assert_eq!(taken.into_entries(), vec![(1, 10)]);
}
