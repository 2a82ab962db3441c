use evm_core::gas::Gas;
use evm_core::journal::JournaledState;
use evm_core::state::InMemoryDb;
use evm_core::word::{Address, U256};

#[test]
fn checkpoint_revert_restores_storage_and_logs() {
    let mut db = InMemoryDb::new();
    let a = Address::from_u64(7);
    db.insert_storage(a, U256::from_u64(7), U256::from_u64(1));
    let mut j = JournaledState::new(db);
    let (before, _cold) = j.sload(a, U256::from_u64(7));
    assert_eq!(before.lo, 1);
    let cp = j.checkpoint();
    let _ = j.sstore(a, U256::from_u64(7), U256::from_u64(0x42));
    let (mid, _) = j.sload(a, U256::from_u64(7));
    assert_eq!(mid.lo, 0x42);
    j.revert_to(cp);
    let (after, _) = j.sload(a, U256::from_u64(7));
    assert_eq!(after.lo, 1);
    assert_eq!(j.logs_len(), 0);
}

#[test]
fn gas_meter_conserves_and_caps_refund() {
    let mut g = Gas::new(100_000);
    assert!(g.record_cost(40_000));
    assert_eq!(g.spent() + g.remaining(), g.limit());
    g.record_refund(19_900);
    g.set_final_refund(true);
    assert_eq!(g.refunded(), 8_000);
}

#[test]
fn wrapping_word_arithmetic() {
    let a = U256::from_u64(5);
    let b = U256::from_u64(3);
    let s = a.wrapping_add(&b);
    assert_eq!(s.lo, 8);
    let d = s.wrapping_sub(&b);
    assert_eq!(d.lo, 5);
    assert!(b.lt(&a));
}
