use mohu::pool::{size_class, BufferPool, PoolGrant, ThreadCache, TL_MAX_BYTES, TL_SLOTS};

/// Takes a block of at least `n` bytes: a cached one, else a fresh one of
/// the size the pool names.
fn take(pool: &mut BufferPool<Vec<u8>>, n: usize) -> Vec<u8> {
    match pool.acquire(n) {
        PoolGrant::Cached(h) => h,
        PoolGrant::Allocate(m) => vec![0u8; m],
    }
}

fn give(pool: &mut BufferPool<Vec<u8>>, h: Vec<u8>) {
    let len = h.len();
    pool.release(h, len);
}

#[test]
fn pool_acquire_returns_sufficient_size() {
    let mut pool = BufferPool::new(256 * 1024 * 1024);
    let handle = take(&mut pool, 4096);
    assert!(handle.len() >= 4096);
    give(&mut pool, handle);
    let stats = pool.stats();
    assert!(stats.cached_bytes > 0);
}

#[test]
fn pool_hit_after_release() {
    let mut pool = BufferPool::new(256 * 1024 * 1024);
    let h1 = take(&mut pool, 8192);
    give(&mut pool, h1);
    let stats_before = pool.stats();
    let h2 = take(&mut pool, 8192);
    let stats_after = pool.stats();
    assert!(stats_after.hit_count >= stats_before.hit_count);
    assert_eq!(stats_after.hit_count, stats_before.hit_count + 1);
    assert_eq!(stats_after.cached_bytes, 0);
    give(&mut pool, h2);
}

#[test]
fn pool_sizes_requests_by_power_of_two() {
    assert_eq!(size_class(0), 1);
    assert_eq!(size_class(1), 1);
    assert_eq!(size_class(3000), 4096);
    assert_eq!(size_class(4096), 4096);
    assert_eq!(size_class(4097), 8192);
    let mut pool: BufferPool<Vec<u8>> = BufferPool::new(1 << 20);
    assert!(matches!(pool.acquire(0), PoolGrant::Allocate(0)));
    assert!(matches!(pool.acquire(3000), PoolGrant::Allocate(4096)));
    assert_eq!(pool.stats().miss_count, 1);
}

#[test]
fn pool_returns_most_recent_handle_of_a_class() {
    let mut pool: BufferPool<Vec<u8>> = BufferPool::new(1 << 20);
    pool.release(vec![1u8; 4096], 4096);
    pool.release(vec![2u8; 4096], 4096);
    pool.release(vec![3u8; 64], 64);
    match pool.acquire(4000) {
        PoolGrant::Cached(h) => assert_eq!(h[0], 2),
        PoolGrant::Allocate(_) => panic!("expected a cached handle"),
    }
    let s = pool.stats();
    assert_eq!(s.cached_bytes, 4096 + 64);
    assert_eq!(s.cached_blocks, 2);
    assert_eq!(s.hit_count, 1);
    assert_eq!(s.return_count, 3);
    assert_eq!(s.size_classes, 2);
    let per = pool.size_class_stats();
    assert_eq!(per.len(), 2);
    assert_eq!((per[0].size_class, per[0].cached_handles, per[0].cached_bytes), (64, 1, 64));
    assert_eq!((per[1].size_class, per[1].cached_handles, per[1].cached_bytes), (4096, 1, 4096));
}

#[test]
fn pool_drops_what_exceeds_its_cap() {
    let mut pool: BufferPool<Vec<u8>> = BufferPool::new(5000);
    pool.release(vec![0u8; 4096], 4096);
    pool.release(vec![0u8; 4096], 4096);
    let s = pool.stats();
    assert_eq!(s.cached_bytes, 4096);
    assert_eq!(s.cached_blocks, 1);
    assert_eq!(s.return_count, 2);
    // An empty handle is dropped and not counted.
    pool.release(Vec::new(), 0);
    assert_eq!(pool.stats().return_count, 2);
    assert_eq!(pool.cached_bytes(), 4096);
    assert_eq!(pool.max_cached_bytes(), 5000);
}

#[test]
fn pool_warms_until_full() {
    let mut pool: BufferPool<Vec<u8>> = BufferPool::new(3 * 1024);
    assert!(pool.warm_one(1000, vec![0u8; 1024], 1024));
    assert!(pool.warm_one(1000, vec![0u8; 1024], 1024));
    assert!(pool.warm_one(1000, vec![0u8; 1024], 1024));
    assert!(!pool.warm_one(1000, vec![0u8; 1024], 1024));
    let s = pool.stats();
    assert_eq!(s.cached_blocks, 3);
    assert_eq!(s.return_count, 3);
    assert_eq!(pool.size_class_stats()[0].size_class, 1024);
}

#[test]
fn pool_trims_largest_class_first_and_clears() {
    let mut pool: BufferPool<Vec<u8>> = BufferPool::new(1 << 20);
    pool.release(vec![0u8; 64], 64);
    pool.release(vec![0u8; 8192], 8192);
    pool.release(vec![0u8; 1024], 1024);
    pool.trim(2000);
    let s = pool.stats();
    assert_eq!(s.cached_bytes, 64 + 1024);
    assert_eq!(s.cached_blocks, 2);
    pool.trim(100);
    assert_eq!(pool.cached_bytes(), 64);
    pool.clear();
    let s = pool.stats();
    assert_eq!((s.cached_bytes, s.cached_blocks, s.size_classes), (0, 0, 0));
    assert_eq!(s.return_count, 3);
}

#[test]
fn thread_cache_holds_small_handles() {
    let mut c: ThreadCache<Vec<u8>> = ThreadCache::new();
    assert!(c.take(100).is_none());
    assert_eq!(c.stats().misses, 1);
    assert!(c.offer(vec![7u8; 128], 128).is_none());
    assert!(c.offer(vec![8u8; 100], 100).is_none());
    // The first held handle of the size class comes out.
    let h = c.take(120).unwrap();
    assert_eq!(h[0], 7);
    let s = c.stats();
    assert_eq!((s.hits, s.misses, s.returns, s.cached_bytes), (1, 1, 2, 100));
    // Size classes above the cache's limit are neither held nor counted.
    assert!(c.offer(vec![0u8; 1], TL_MAX_BYTES + 1).is_some());
    assert!(c.take(TL_MAX_BYTES + 1).is_none());
    assert_eq!(c.stats().misses, 1);
    let held = c.drain();
    assert_eq!(held.len(), 1);
    assert_eq!(held[0].0, 100);
    assert_eq!(held[0].1[0], 8);
    let s = c.stats();
    assert_eq!((s.hits, s.returns, s.cached_bytes), (1, 2, 0));
}

#[test]
fn thread_cache_limits() {
    let mut c: ThreadCache<Vec<u8>> = ThreadCache::new();
    for _ in 0..TL_SLOTS {
        assert!(c.offer(vec![0u8; 1], 1).is_none());
    }
    assert!(c.offer(vec![0u8; 1], 1).is_some());
    let mut d: ThreadCache<Vec<u8>> = ThreadCache::new();
    assert!(d.offer(Vec::new(), TL_MAX_BYTES).is_none());
    assert!(d.offer(Vec::new(), 1).is_some());
    // An empty handle is dropped without a count.
    assert!(d.offer(Vec::new(), 0).is_none());
    assert_eq!(d.stats().returns, 1);
}
