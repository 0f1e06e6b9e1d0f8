use mootrade::pool::KeyLeasePool;

fn two_key_pool() -> KeyLeasePool {
    KeyLeasePool::from_keys(&vec![vec![1u8, 2, 3], vec![4u8, 5, 6]])
}

fn free_count(pool: &KeyLeasePool) -> usize {
    pool.slots.iter().filter(|s| !s.in_use).count()
}

#[test]
fn take_release_round_trip_restores_pool() {
    let mut pool = two_key_pool();
    for _ in 0..10 {
        let key = pool.take().expect("a key must be free");
        assert_eq!(free_count(&pool), 1);
        pool.release(key);
        assert_eq!(free_count(&pool), 2);
        assert_eq!(pool.slots.len(), 2);
        assert!(pool.slots.iter().all(|s| !s.in_use));
    }
}

#[test]
fn take_exhausts_and_returns_none() {
    let mut pool = two_key_pool();
    let k1 = pool.take().expect("first key");
    let k2 = pool.take().expect("second key");
    assert_ne!(k1, k2);
    assert!(pool.take().is_none());
    assert_eq!(free_count(&pool), 0);
}

#[test]
fn release_unknown_key_is_a_no_op() {
    let mut pool = two_key_pool();
    pool.release(vec![9u8, 9, 9]);
    assert_eq!(pool.slots.len(), 2);
    assert!(pool.slots.iter().all(|s| !s.in_use));
}

#[test]
fn take_returns_a_tracked_key() {
    let mut pool = two_key_pool();
    let key = pool.take().expect("a key");
    assert!(key == vec![1u8, 2, 3] || key == vec![4u8, 5, 6]);
}

#[test]
fn empty_pool_has_nothing_to_lease() {
    let mut pool = KeyLeasePool::from_keys(&Vec::new());
    assert!(pool.take().is_none());
}
