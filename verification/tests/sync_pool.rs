use zallocator::pool::sync::AllocatorPool;

#[test]
fn sync_test_allocator_pool() {
    let mut pool = AllocatorPool::new(2);
    let a = pool.fetch(1024, "a").unwrap();
    let b = pool.fetch(1024, "b").unwrap();
    let c = pool.fetch(1024, "c").unwrap();
    pool.put(a);
    pool.put(b);
    pool.put(c);
    assert_eq!(2, pool.idle_allocators());
}

#[test]
fn sync_fetch_reuses_and_resets() {
    let mut pool = AllocatorPool::new(2);
    let mut a = pool.fetch(1024, "a").unwrap();
    a.allocate(10).unwrap();
    pool.put(a);
    assert_eq!(pool.idle_allocators(), 1);
    let a = pool.fetch(64, "again").unwrap();
    assert_eq!(a.get_tag(), "again");
    assert_eq!(a.size(), 0);
    assert_eq!(pool.idle_allocators(), 0);
    assert_eq!(pool.num_fetches(), 2);
}

#[test]
fn sync_zero_capacity_pool_keeps_nothing() {
    let mut pool = AllocatorPool::new(0);
    let a = pool.fetch(512, "a").unwrap();
    pool.put(a);
    assert_eq!(pool.idle_allocators(), 0);
}

#[test]
fn sync_release_idle_and_all() {
    let mut pool = AllocatorPool::new(4);
    for _ in 0..3 {
        let a = pool.fetch(512, "x").unwrap();
        let b = pool.fetch(512, "y").unwrap();
        pool.put(a);
        pool.put(b);
    }
    assert_eq!(pool.idle_allocators(), 2);
    assert!(pool.release_idle());
    assert_eq!(pool.idle_allocators(), 1);
    pool.release_all();
    assert_eq!(pool.idle_allocators(), 0);
    assert!(!pool.release_idle());
}

#[test]
fn sync_fetch_too_large_fails() {
    let mut pool = AllocatorPool::new(1);
    let r = pool.fetch((1usize << 30) + 1, "big");
    assert_eq!(r.unwrap_err(), zallocator::Error::Overflow((1u64 << 30) + 1));
}
