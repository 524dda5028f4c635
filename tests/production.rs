use massa_bootstrap::production::{FinalProductions, Production};
use massa_bootstrap::status::DiscardReason;

fn block(creator: u64, period: u64, thread: u8, block: u64) -> Production {
    Production { creator, period, thread, block }
}

#[test]
fn second_block_for_one_slot_is_discarded() {
    let mut f = FinalProductions::new();
    assert_eq!(f.finalize(block(1, 5, 0, 10)), Ok(()));
    assert_eq!(f.check(block(1, 5, 0, 11)), Err(DiscardReason::DoubleProduction));
    assert_eq!(f.finalize(block(1, 5, 0, 11)), Err(DiscardReason::DoubleProduction));
    assert_eq!(f.len(), 1);
}

#[test]
fn same_block_finalised_again_is_recorded_once() {
    let mut f = FinalProductions::new();
    assert_eq!(f.finalize(block(1, 5, 0, 10)), Ok(()));
    assert_eq!(f.finalize(block(1, 5, 0, 10)), Ok(()));
    assert_eq!(f.len(), 1);
}

#[test]
fn other_slots_and_creators_are_independent() {
    let mut f = FinalProductions::new();
    assert_eq!(f.finalize(block(1, 5, 0, 10)), Ok(()));
    assert_eq!(f.finalize(block(1, 5, 1, 11)), Ok(()));
    assert_eq!(f.finalize(block(1, 6, 0, 12)), Ok(()));
    assert_eq!(f.finalize(block(2, 5, 0, 13)), Ok(()));
    assert_eq!(f.len(), 4);
    assert_eq!(f.check(block(3, 5, 0, 14)), Ok(()));
}
