use zallocator::pool::{AllocatorPool, FreeupAction, FreeupEvent, FreeupProcessor, Handle};

#[test]
fn pool_test_allocator_pool() {
    let mut pool = AllocatorPool::new(2);
    let a = pool.fetch(1024, "a").unwrap();
    let b = pool.fetch(1024, "b").unwrap();
    let c = pool.fetch(1024, "c").unwrap();
    pool.put(a);
    pool.put(b);
    pool.put(c);

    assert_eq!(2, pool.idles());
}

#[test]
fn pool_fetch_reuses_oldest_idle_allocator() {
    let mut pool = AllocatorPool::new(2);
    let mut a = pool.fetch(1024, "a").unwrap();
    let b = pool.fetch(2048, "b").unwrap();
    a.allocate(100).unwrap();
    assert_eq!(a.size(), 100);
    pool.put(a);
    pool.put(b);
    assert_eq!(pool.idles(), 2);

    let first = pool.fetch(10, "first").unwrap();
    assert_eq!(first.get_tag(), "first");
    assert_eq!(first.size(), 0);
    // The oldest idle allocator, the one made for 1024 bytes, comes back first.
    let mut first = first;
    let buf = first.allocate(1024).unwrap();
    assert_eq!((buf.page, buf.offset), (0, 0));
    let buf = first.allocate(1).unwrap();
    assert_eq!(buf.page, 1);
    assert_eq!(pool.idles(), 1);

    let mut second = pool.fetch(10, "second").unwrap();
    assert_eq!(second.get_tag(), "second");
    let buf = second.allocate(2048).unwrap();
    assert_eq!((buf.page, buf.offset), (0, 0));
    assert_eq!(pool.idles(), 0);
}

#[test]
fn pool_fetch_on_empty_pool_creates() {
    let mut pool = AllocatorPool::new(1);
    let a = pool.fetch(100, "fresh").unwrap();
    assert_eq!(a.get_tag(), "fresh");
    assert_eq!(a.size(), 0);
    assert_eq!(pool.num_fetches(), 1);
    assert_eq!(pool.idles(), 0);
}

#[test]
fn pool_fetch_too_large_fails() {
    let mut pool = AllocatorPool::new(1);
    let r = pool.fetch((1usize << 30) + 1, "big");
    assert_eq!(r.unwrap_err(), zallocator::Error::Overflow((1u64 << 30) + 1));
    assert_eq!(pool.num_fetches(), 1);
}

#[test]
fn pool_put_on_full_pool_drops() {
    let mut pool = AllocatorPool::new(1);
    let a = pool.fetch(512, "a").unwrap();
    let b = pool.fetch(512, "b").unwrap();
    pool.put(a);
    assert_eq!(pool.idles(), 1);
    pool.put(b);
    assert_eq!(pool.idles(), 1);
    let back = pool.fetch(512, "c").unwrap();
    assert_eq!(back.get_tag(), "c");
    assert_eq!(pool.idles(), 0);
}

#[test]
fn pool_release_idle_and_all() {
    let mut pool = AllocatorPool::new(3);
    for _ in 0..3 {
        let a = zallocator::pool::Allocator::new(512, "x").unwrap();
        pool.put(a);
    }
    assert_eq!(pool.idles(), 3);
    assert!(pool.release_idle());
    assert_eq!(pool.idles(), 2);
    pool.release_all();
    assert_eq!(pool.idles(), 0);
    assert!(!pool.release_idle());
}

#[test]
fn pool_fetch_count_wraps_never_needed_but_counts() {
    let mut pool = AllocatorPool::new(2);
    for i in 0..5u64 {
        assert_eq!(pool.num_fetches(), i);
        let a = pool.fetch(512, "n").unwrap();
        pool.put(a);
    }
    assert_eq!(pool.num_fetches(), 5);
    assert_eq!(pool.idles(), 1);
}

#[test]
fn freeup_waits_while_fetches_happen() {
    let mut p = FreeupProcessor::new();
    // No fetch since the start: release.
    assert_eq!(p.step(FreeupEvent::Tick(0)), FreeupAction::ReleaseOne);
    // Three fetches were made: wait.
    assert_eq!(p.step(FreeupEvent::Tick(3)), FreeupAction::Wait);
    // None since: release, and again.
    assert_eq!(p.step(FreeupEvent::Tick(3)), FreeupAction::ReleaseOne);
    assert_eq!(p.step(FreeupEvent::Tick(3)), FreeupAction::ReleaseOne);
    assert_eq!(p.step(FreeupEvent::Tick(4)), FreeupAction::Wait);
    assert_eq!(p.step(FreeupEvent::Closed), FreeupAction::ReleaseAllAndStop);
}

#[test]
fn freeup_drives_a_pool_like_the_background_task() {
    // The scenario of the pool's documentation: two idle allocators, one
    // fetch; the next tick sees the fetch and waits, later quiet ticks free
    // one idle allocator each.
    let mut pool = AllocatorPool::new(2);
    let mut p = FreeupProcessor::new();
    let a = pool.fetch(1024, "a").unwrap();
    let b = pool.fetch(1024, "b").unwrap();
    pool.put(a);
    pool.put(b);
    assert_eq!(2, pool.idles());
    assert_eq!(p.step(FreeupEvent::Tick(pool.num_fetches())), FreeupAction::Wait);
    pool.fetch(1024, "c").unwrap();
    assert_eq!(p.step(FreeupEvent::Tick(pool.num_fetches())), FreeupAction::Wait);
    assert_eq!(1, pool.idles());
    assert_eq!(p.step(FreeupEvent::Tick(pool.num_fetches())), FreeupAction::ReleaseOne);
    assert!(pool.release_idle());
    assert_eq!(0, pool.idles());
    assert_eq!(p.step(FreeupEvent::Closed), FreeupAction::ReleaseAllAndStop);
    pool.release_all();
    assert_eq!(0, pool.idles());
}

#[test]
fn freeup_awaiting_task_waits_for_an_idle_allocator() {
    let mut p = FreeupProcessor::awaiting();
    assert_eq!(p.step(FreeupEvent::Tick(0)), FreeupAction::AwaitAndReleaseOne);
    assert_eq!(p.step(FreeupEvent::Tick(2)), FreeupAction::Wait);
    assert_eq!(p.step(FreeupEvent::Tick(2)), FreeupAction::AwaitAndReleaseOne);
    assert_eq!(p.step(FreeupEvent::Closed), FreeupAction::ReleaseAllAndStop);
}

#[test]
fn freeup_quiet_pool_drains_within_one_tick_more_than_idle() {
    let mut pool = AllocatorPool::new(4);
    let mut p = FreeupProcessor::new();
    let allocs: Vec<_> = (0..4).map(|_| pool.fetch(512, "x").unwrap()).collect();
    for a in allocs {
        pool.put(a);
    }
    assert_eq!(pool.idles(), 4);
    let mut ticks = 0;
    while pool.idles() > 0 {
        ticks += 1;
        if p.step(FreeupEvent::Tick(pool.num_fetches())) == FreeupAction::ReleaseOne {
            pool.release_idle();
        }
    }
    assert_eq!(ticks, 5);
}

#[test]
fn unit_handle_aborts() {
    ().abort();
}

#[test]
fn sync_sender_handle_never_waits() {
    // A zero-capacity channel whose receiver never receives: aborting returns.
    let (tx, _rx) = std::sync::mpsc::sync_channel::<()>(0);
    tx.abort();
    // A channel of one slot: the close signal lands in it.
    let (tx, rx) = std::sync::mpsc::sync_channel::<()>(1);
    tx.abort();
    assert!(rx.try_recv().is_ok());
}
