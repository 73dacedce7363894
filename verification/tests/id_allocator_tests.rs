use radix_engine::id_allocator::{IdAllocator, IdAllocatorError, IdSpace};
use radix_engine::types::{Bid, Rid, H256};

fn hash(byte: u8) -> H256 {
    H256::new(vec![byte; 32])
}

#[test]
fn counters_hand_out_the_partition_in_order() {
    let mut sys = IdAllocator::new(IdSpace::System);
    assert_eq!(sys.new_bid().unwrap(), Bid(0));
    assert_eq!(sys.new_rid().unwrap(), Rid(1));
    assert_eq!(sys.new_bid().unwrap(), Bid(2));

    let mut app = IdAllocator::new(IdSpace::Application);
    assert_eq!(app.new_bid().unwrap(), Bid(1024));
}

#[test]
fn exhausted_allocator_reports_out_of_id() {
    let mut txn = IdAllocator::new(IdSpace::Transaction);
    for i in 0..512u32 {
        assert_eq!(txn.new_bid().unwrap(), Bid(512 + i));
    }
    assert_eq!(txn.new_bid(), Err(IdAllocatorError::OutOfID));
}

#[test]
fn allocation_is_deterministic_in_hash_and_order() {
    let mut a = IdAllocator::new(IdSpace::Application);
    let mut b = IdAllocator::new(IdSpace::Application);
    let h = hash(9);
    let pa = a.new_package_address(&h).unwrap();
    let pb = b.new_package_address(&h).unwrap();
    assert!(pa.equals(&pb));
    let ca = a.new_component_address(&h).unwrap();
    let cb = b.new_component_address(&h).unwrap();
    assert!(ca.equals(&cb));
    assert_eq!(a.new_uuid(&h).unwrap(), b.new_uuid(&h).unwrap());
    assert!(pa.is_package());
    assert!(ca.is_component());
}

#[test]
fn vault_ids_carry_the_transaction_hash() {
    let mut a = IdAllocator::new(IdSpace::Application);
    let v = a.new_vid(&hash(3)).unwrap();
    assert_eq!(v.1, 1024);
    assert_eq!(v.0.to_vec(), vec![3u8; 32]);
}
