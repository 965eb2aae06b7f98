use sovereign::pool::KeyPool;

#[test]
fn rotates_and_bans() {
    let mut p = KeyPool::from_csv("a, b , c");
    assert_eq!(p.available(), 3);
    let first = p.next_key().unwrap();
    p.ban_last();
    assert_eq!(p.available(), 2);
    // banned key never returned again
    for _ in 0..10 {
        assert_ne!(p.next_key().unwrap(), first);
    }
}

#[test]
fn empty_pool_is_exhausted() {
    let mut p = KeyPool::from_csv("");
    assert!(p.is_exhausted());
    assert_eq!(p.next_key(), None);
}

#[test]
fn round_robin_order_and_trimmed_keys() {
    let mut p = KeyPool::from_csv(" k1 ,,k2,  ,k3,");
    assert_eq!(p.available(), 3);
    assert_eq!(p.next_key().as_deref(), Some("k1"));
    assert_eq!(p.next_key().as_deref(), Some("k2"));
    assert_eq!(p.next_key().as_deref(), Some("k3"));
    assert_eq!(p.next_key().as_deref(), Some("k1"));
}

#[test]
fn banning_every_key_exhausts_the_pool() {
    let mut p = KeyPool::new(vec!["x".to_string(), "y".to_string()]);
    p.next_key();
    p.ban_last();
    p.next_key();
    p.ban_last();
    assert!(p.is_exhausted());
    assert_eq!(p.next_key(), None);
    // a second ban without a pending key changes nothing
    p.ban_last();
    assert_eq!(p.available(), 0);
}

#[test]
fn clone_is_independent() {
    let mut a = KeyPool::from_csv("a,b");
    let b = a.clone();
    a.next_key();
    a.ban_last();
    assert_eq!(a.available(), 1);
    assert_eq!(b.available(), 2);
    assert!(KeyPool::default().is_exhausted());
}
