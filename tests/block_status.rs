use massa_bootstrap::status::{BlockStatus, DiscardReason, StatusEvent};
use massa_bootstrap::wishlist::Wishlist;

const P: u64 = 100;
const Q: u64 = 101;

#[test]
fn missing_parent_is_wished_then_block_becomes_active() {
    let mut status = BlockStatus::Incoming;
    let mut wishlist = Wishlist::new(1000, 3);
    status.apply(&StatusEvent::Checked(vec![P]));
    match &status {
        BlockStatus::WaitingForDependencies(missing) => assert_eq!(missing, &vec![P]),
        other => panic!("expected a waiting block, got {:?}", other),
    }
    assert!(wishlist.note_missing(P, 0));
    assert_eq!(wishlist.get(P).map(|e| e.block), Some(P));
    status.apply(&StatusEvent::DependencyArrived(P));
    assert!(wishlist.resolve(P));
    assert!(matches!(status, BlockStatus::ActiveInBlockGraph));
    assert_eq!(wishlist.len(), 0);
}

#[test]
fn block_with_parents_present_is_active_at_once() {
    let mut status = BlockStatus::Incoming;
    status.apply(&StatusEvent::Checked(vec![]));
    assert!(matches!(status, BlockStatus::ActiveInBlockGraph));
}

#[test]
fn block_waits_until_its_last_parent_arrives() {
    let mut status = BlockStatus::Incoming;
    status.apply(&StatusEvent::Checked(vec![P, Q, P]));
    status.apply(&StatusEvent::DependencyArrived(P));
    match &status {
        BlockStatus::WaitingForDependencies(missing) => assert_eq!(missing, &vec![Q]),
        other => panic!("expected a waiting block, got {:?}", other),
    }
    status.apply(&StatusEvent::DependencyArrived(7));
    assert!(matches!(status, BlockStatus::WaitingForDependencies(_)));
    status.apply(&StatusEvent::DependencyArrived(Q));
    assert!(matches!(status, BlockStatus::ActiveInBlockGraph));
}

#[test]
fn final_block_ignores_every_event() {
    let mut status = BlockStatus::ActiveInBlockGraph;
    status.apply(&StatusEvent::Finalized);
    assert!(status.is_final());
    status.apply(&StatusEvent::Discard(DiscardReason::Stale));
    status.apply(&StatusEvent::Checked(vec![P]));
    status.apply(&StatusEvent::DependencyArrived(P));
    status.apply(&StatusEvent::Finalized);
    assert!(status.is_final());
}

#[test]
fn competing_block_is_discarded_as_stale() {
    let mut status = BlockStatus::ActiveInBlockGraph;
    status.apply(&StatusEvent::Discard(DiscardReason::Stale));
    assert!(matches!(status, BlockStatus::Discarded(DiscardReason::Stale)));
    status.apply(&StatusEvent::Finalized);
    assert!(matches!(status, BlockStatus::Discarded(DiscardReason::Stale)));
    assert!(!status.is_final());
}

#[test]
fn waiting_block_is_not_finalised() {
    let mut status = BlockStatus::WaitingForDependencies(vec![P]);
    status.apply(&StatusEvent::Finalized);
    assert!(matches!(status, BlockStatus::WaitingForDependencies(_)));
    status.apply(&StatusEvent::Discard(DiscardReason::UnresolvableDependency));
    assert!(matches!(status, BlockStatus::Discarded(DiscardReason::UnresolvableDependency)));
}
