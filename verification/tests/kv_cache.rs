use fuse::error::FuseError;
use fuse::inference::kv_cache::{KvCache, KvCacheEntry, PageConfig, PagePool, PagedKvCache, PagedKvCacheEntry};

/// `seq_len` tokens of width `dim`: keys all zero, values all one.
fn make_kv(seq_len: usize, dim: usize) -> Vec<(Vec<f32>, Vec<f32>)> {
    (0..seq_len).map(|_| (vec![0.0; dim], vec![1.0; dim])).collect()
}

#[test]
fn test_paged_kv_entry_append() {
    let config = PageConfig { page_size: 4, max_pages: 16 };
    let mut pool = PagePool::new(config.max_pages);
    let mut entry: PagedKvCacheEntry<Vec<f32>> = PagedKvCacheEntry::new(config);

    assert_eq!(entry.seq_len(), 0);
    assert!(entry.key().is_none());

    entry.append(&mut pool, make_kv(1, 8)).unwrap();
    assert_eq!(entry.seq_len(), 1);
    assert_eq!(entry.pages_used(), 1);

    entry.append(&mut pool, make_kv(2, 8)).unwrap();
    assert_eq!(entry.seq_len(), 3);

    let key = entry.key().unwrap();
    assert_eq!(key.len(), 3);
    assert!(key.iter().all(|k| k.len() == 8));
}

#[test]
fn test_paged_kv_entry_page_boundary() {
    let config = PageConfig { page_size: 2, max_pages: 16 };
    let mut pool = PagePool::new(config.max_pages);
    let mut entry: PagedKvCacheEntry<Vec<f32>> = PagedKvCacheEntry::new(config);

    for _ in 0..5 {
        entry.append(&mut pool, make_kv(1, 4)).unwrap();
    }

    assert_eq!(entry.seq_len(), 5);
    assert_eq!(entry.pages_used(), 3);

    let key = entry.key().unwrap();
    assert_eq!(key.len(), 5);
    assert!(key.iter().all(|k| k.len() == 4));
}

#[test]
fn test_paged_kv_cache_multi_layer() {
    let config = PageConfig { page_size: 4, max_pages: 64 };
    let mut cache: PagedKvCache<Vec<f32>> = PagedKvCache::new(3, config);
    assert_eq!(cache.num_layers(), 3);
    assert_eq!(cache.seq_len(), 0);

    cache.append(0, make_kv(2, 8)).unwrap();
    cache.append(1, make_kv(2, 8)).unwrap();

    assert_eq!(cache.layer(0).seq_len(), 2);
    assert_eq!(cache.layer(1).seq_len(), 2);
    assert_eq!(cache.layer(2).seq_len(), 0);
}

#[test]
fn test_paged_kv_cache_clear() {
    let config = PageConfig { page_size: 4, max_pages: 64 };
    let mut cache: PagedKvCache<Vec<f32>> = PagedKvCache::new(2, config);

    cache.append(0, make_kv(3, 8)).unwrap();
    cache.append(1, make_kv(3, 8)).unwrap();

    let pages_before = cache.pages_used();
    assert!(pages_before > 0);

    let (alloc_before, _, _) = cache.pool_stats();
    assert!(alloc_before > 0);

    cache.clear();
    assert_eq!(cache.seq_len(), 0);
    assert_eq!(cache.pages_used(), 0);

    let (alloc_after, free_after, total) = cache.pool_stats();
    assert_eq!(alloc_after, 0);
    assert_eq!(free_after, total);
}

#[test]
fn test_backward_compat() {
    let mut cache: KvCache<Vec<f32>> = KvCache::new(4);
    assert_eq!(cache.num_layers(), 4);
    assert_eq!(cache.seq_len(), 0);

    cache.append(0, make_kv(1, 8)).unwrap();
    assert_eq!(cache.seq_len(), 1);

    cache.clear();
    assert_eq!(cache.seq_len(), 0);
}

#[test]
fn test_backward_compat_entry() {
    let mut entry: KvCacheEntry<Vec<f32>> = KvCacheEntry::new();
    assert_eq!(entry.seq_len(), 0);

    entry.append(make_kv(1, 8)).unwrap();
    assert_eq!(entry.seq_len(), 1);

    let key = entry.key_owned().unwrap();
    assert_eq!(key.len(), 1);
    assert_eq!(key[0].len(), 8);
    assert!(entry.key().is_none());

    entry.clear();
    assert_eq!(entry.seq_len(), 0);
}

#[test]
fn paged_entry_keeps_keys_and_values_in_order() {
    let config = PageConfig { page_size: 2, max_pages: 8 };
    let mut pool = PagePool::new(config.max_pages);
    let mut entry: PagedKvCacheEntry<u32> = PagedKvCacheEntry::new(config);
    entry.append(&mut pool, vec![(1, 10), (2, 20), (3, 30)]).unwrap();
    entry.append(&mut pool, vec![(4, 40)]).unwrap();
    let keys: Vec<u32> = entry.key().unwrap().into_iter().copied().collect();
    let values: Vec<u32> = entry.value().unwrap().into_iter().copied().collect();
    assert_eq!(keys, vec![1, 2, 3, 4]);
    assert_eq!(values, vec![10, 20, 30, 40]);
    assert_eq!(entry.pages_used(), 2);
    assert_eq!(pool.allocated(), 2);
    assert_eq!(pool.free_count(), 6);
}

#[test]
fn paged_entry_pool_exhaustion_keeps_what_fits() {
    let config = PageConfig { page_size: 2, max_pages: 2 };
    let mut pool = PagePool::new(config.max_pages);
    let mut entry: PagedKvCacheEntry<u32> = PagedKvCacheEntry::new(config);
    let r = entry.append(&mut pool, vec![(1, 1), (2, 2), (3, 3), (4, 4), (5, 5)]);
    match r {
        Err(FuseError::InferenceError(m)) => assert_eq!(m, "page pool exhausted"),
        other => panic!("unexpected {:?}", other),
    }
    assert_eq!(entry.seq_len(), 4);
    assert_eq!(entry.pages_used(), 2);
    assert_eq!(pool.free_count(), 0);
}

#[test]
fn paged_entry_zero_page_size_takes_a_page_per_token() {
    let config = PageConfig { page_size: 0, max_pages: 8 };
    let mut pool = PagePool::new(config.max_pages);
    let mut entry: PagedKvCacheEntry<u32> = PagedKvCacheEntry::new(config);
    entry.append(&mut pool, vec![(1, 1), (2, 2), (3, 3)]).unwrap();
    assert_eq!(entry.pages_used(), 3);
}

#[test]
fn paged_entry_clear_returns_pages_in_table_order() {
    let config = PageConfig { page_size: 1, max_pages: 3 };
    let mut pool = PagePool::new(config.max_pages);
    let mut entry: PagedKvCacheEntry<u32> = PagedKvCacheEntry::new(config);
    entry.append(&mut pool, vec![(1, 1), (2, 2)]).unwrap();
    assert_eq!(pool.allocated(), 2);
    entry.clear(&mut pool);
    assert_eq!(pool.allocated(), 0);
    assert_eq!(pool.free_count(), 3);
    // Page 1 was taken last and given back last: it is on top again.
    assert_eq!(pool.allocate(), Some(1));
}

#[test]
fn pool_counts_add_up_over_any_sequence() {
    let mut pool = fuse::inference::kv_cache::PagePool::new(8);
    let mut held: Vec<usize> = Vec::new();
    let mut x: u32 = 7;
    for _ in 0..500 {
        x = x.wrapping_mul(1664525).wrapping_add(1013904223);
        if x % 3 != 0 {
            if let Some(p) = pool.allocate() {
                held.push(p);
            }
        } else if let Some(p) = held.pop() {
            pool.free(p);
        }
        assert_eq!(pool.allocated() + pool.free_count(), pool.total());
        assert_eq!(pool.allocated(), held.len());
        assert_eq!(pool.total(), 8);
    }
}
