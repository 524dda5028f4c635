use massa_bootstrap::wishlist::{WishEntry, Wishlist};

#[test]
fn one_request_per_missing_block() {
    let mut w = Wishlist::new(500, 2);
    assert!(w.note_missing(1, 10));
    assert!(!w.note_missing(1, 20));
    assert!(w.note_missing(2, 20));
    assert_eq!(w.len(), 2);
    assert_eq!(w.get(1), Some(WishEntry { block: 1, requested_at: 10, retries: 0 }));
}

#[test]
fn resolving_an_unknown_block() {
    let mut w = Wishlist::new(500, 2);
    assert!(!w.resolve(9));
    assert!(w.note_missing(9, 0));
    assert!(w.resolve(9));
    assert_eq!(w.get(9), None);
}

#[test]
fn tick_renews_due_requests_only() {
    let mut w = Wishlist::new(500, 2);
    w.note_missing(1, 0);
    w.note_missing(2, 400);
    let (again, dropped) = w.tick(499);
    assert!(again.is_empty() && dropped.is_empty());
    let (again, dropped) = w.tick(500);
    assert_eq!(again, vec![1]);
    assert!(dropped.is_empty());
    assert_eq!(w.get(1), Some(WishEntry { block: 1, requested_at: 500, retries: 1 }));
    assert_eq!(w.get(2), Some(WishEntry { block: 2, requested_at: 400, retries: 0 }));
}

#[test]
fn block_is_given_up_after_the_retry_bound() {
    let mut w = Wishlist::new(100, 2);
    w.note_missing(7, 0);
    assert_eq!(w.tick(100), (vec![7], vec![]));
    assert_eq!(w.tick(200), (vec![7], vec![]));
    assert_eq!(w.get(7).map(|e| e.retries), Some(2));
    assert_eq!(w.tick(300), (vec![], vec![7]));
    assert_eq!(w.len(), 0);
    // a block given up can be wished again later
    assert!(w.note_missing(7, 400));
}

#[test]
fn no_retries_gives_up_at_first_expiry() {
    let mut w = Wishlist::new(0, 0);
    w.note_missing(3, 5);
    assert_eq!(w.tick(5), (vec![], vec![3]));
}

#[test]
fn tick_with_a_clock_behind_the_request() {
    let mut w = Wishlist::new(10, 1);
    w.note_missing(4, 1000);
    assert_eq!(w.tick(0), (vec![], vec![]));
    assert_eq!(w.len(), 1);
}
