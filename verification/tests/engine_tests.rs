use dcache::cell::CellState;
use dcache::dto::empty_data;
use dcache::dto::error_data;
use dcache::dto::UserData;
use dcache::engine::CacheError;
use dcache::engine::GlobalCache;
use dcache::repo::MemoryDataRepo;

fn row(id: i32, name: &str) -> UserData {
    UserData { id: Some(id), name: Some(name.to_string()) }
}

fn engine(num_shard: usize) -> GlobalCache {
    GlobalCache::new(num_shard, 100).unwrap()
}

#[test]
fn new_rejects_zero_shards() {
    assert!(matches!(GlobalCache::new(0, 100), Err(CacheError::InvalidConfig)));
}

#[test]
fn new_rejects_zero_capacity() {
    assert!(matches!(GlobalCache::new(4, 0), Err(CacheError::InvalidConfig)));
}

#[test]
fn new_accepts_positive_config() {
    assert!(GlobalCache::new(4, 100).is_ok());
}

#[test]
fn get_returns_row_and_caches_it() {
    // shards=4, source holds {id:10, val:"a"}
    let mut cache = engine(4);
    let mut repo = MemoryDataRepo::new(vec![row(10, "a"), row(20, "b"), row(30, "c")]);

    let first = cache.find_by_key(&mut repo, 10);
    assert_eq!(first, row(10, "a"));
    assert_eq!(repo.loads_issued(), 1);
    assert_eq!(repo.last_load(), Some(10));

    // the second lookup is served from the cache: same value, no new load
    let second = cache.find_by_key(&mut repo, 10);
    assert_eq!(second, row(10, "a"));
    assert_eq!(repo.loads_issued(), 1);
}

#[test]
fn negative_cache_is_durable() {
    let mut cache = engine(4);
    let mut repo = MemoryDataRepo::new(vec![row(10, "a")]);

    // the source confirms 99 missing: empty record, cached durably
    assert_eq!(cache.find_by_key(&mut repo, 99), empty_data());
    assert_eq!(repo.loads_issued(), 1);
    assert_eq!(cache.find_by_key(&mut repo, 99), empty_data());
    assert_eq!(cache.find_by_key(&mut repo, 99), empty_data());
    assert_eq!(repo.loads_issued(), 1);

    // only an explicit invalidation makes the next lookup load again
    assert!(cache.invalid(99));
    assert_eq!(cache.find_by_key(&mut repo, 99), empty_data());
    assert_eq!(repo.loads_issued(), 2);
}

#[test]
fn source_error_is_purged_and_retried() {
    // source raises for key 5: the error is observed once, then the cached
    // state for 5 is absent again, and a healthy source serves the real row
    let mut cache = engine(4);
    let mut repo = MemoryDataRepo::new(vec![row(5, "five")]);
    repo.set_fail(true);

    assert_eq!(cache.find_by_key(&mut repo, 5), error_data());
    assert_eq!(repo.loads_issued(), 1);
    // immediately after the call the key has no cell
    assert!(matches!(cache.probe(5), None));
    assert!(!cache.invalid(5));

    repo.set_fail(false);
    assert_eq!(cache.find_by_key(&mut repo, 5), row(5, "five"));
    assert_eq!(repo.loads_issued(), 2);
}

#[test]
fn invalidate_uncached_is_noop() {
    let mut cache = engine(4);
    assert!(!cache.invalid(10));
}

#[test]
fn invalidate_cached_removes_and_reloads() {
    let mut cache = engine(4);
    let mut repo = MemoryDataRepo::new(vec![row(10, "a")]);

    assert_eq!(cache.find_by_key(&mut repo, 10), row(10, "a"));
    assert!(cache.invalid(10));
    assert!(matches!(cache.probe(10), None));
    assert_eq!(cache.find_by_key(&mut repo, 10), row(10, "a"));
    assert_eq!(repo.loads_issued(), 2);
}

#[test]
fn get_many_cold_issues_one_batch_load() {
    // source has 10 but not 99: one multi-key load with [10, 99]
    let mut cache = engine(4);
    let mut repo = MemoryDataRepo::new(vec![row(10, "a")]);

    let out = cache.find_by_keys(&mut repo, &vec![10, 99]);
    assert_eq!(out.len(), 2);
    assert_eq!(out[0].key, 10);
    assert_eq!(out[0].value, Some(row(10, "a")));
    assert_eq!(out[1].key, 99);
    assert_eq!(out[1].value, Some(empty_data()));

    assert_eq!(repo.loads_issued(), 0);
    assert_eq!(repo.batch_loads_issued(), 1);
    assert_eq!(repo.last_batch(), Some(vec![10, 99]));
}

#[test]
fn get_many_warm_loads_only_the_missing() {
    // with 10 already cached, the one multi-key load asks for [99] alone
    let mut cache = engine(4);
    let mut repo = MemoryDataRepo::new(vec![row(10, "a")]);

    assert_eq!(cache.find_by_key(&mut repo, 10), row(10, "a"));
    let out = cache.find_by_keys(&mut repo, &vec![10, 99]);
    assert_eq!(out[0].value, Some(row(10, "a")));
    assert_eq!(out[1].value, Some(empty_data()));
    assert_eq!(repo.batch_loads_issued(), 1);
    assert_eq!(repo.last_batch(), Some(vec![99]));
    assert_eq!(repo.loads_issued(), 1);
}

#[test]
fn get_many_fully_cached_issues_no_load() {
    let mut cache = engine(4);
    let mut repo = MemoryDataRepo::new(vec![row(10, "a"), row(20, "b")]);

    cache.find_by_key(&mut repo, 10);
    cache.find_by_key(&mut repo, 20);
    let out = cache.find_by_keys(&mut repo, &vec![10, 20]);
    assert_eq!(out[0].value, Some(row(10, "a")));
    assert_eq!(out[1].value, Some(row(20, "b")));
    assert_eq!(repo.batch_loads_issued(), 0);
    assert_eq!(repo.loads_issued(), 2);
}

#[test]
fn get_many_empty_request() {
    let mut cache = engine(4);
    let mut repo = MemoryDataRepo::new(vec![row(10, "a")]);
    let out = cache.find_by_keys(&mut repo, &vec![]);
    assert!(out.is_empty());
    assert_eq!(repo.batch_loads_issued(), 0);
}

#[test]
fn get_many_duplicate_keys_load_once() {
    let mut cache = engine(4);
    let mut repo = MemoryDataRepo::new(vec![row(10, "a")]);
    let out = cache.find_by_keys(&mut repo, &vec![10, 10, 99]);
    assert_eq!(out.len(), 3);
    assert_eq!(out[0].value, Some(row(10, "a")));
    assert_eq!(out[1].value, Some(row(10, "a")));
    assert_eq!(out[2].value, Some(empty_data()));
    assert_eq!(repo.last_batch(), Some(vec![10, 99]));
}

#[test]
fn get_after_batch_is_a_hit() {
    // the batch's cell serves a later single-key lookup: no single load ever
    let mut cache = engine(4);
    let mut repo = MemoryDataRepo::new(vec![row(10, "a")]);

    cache.find_by_keys(&mut repo, &vec![10]);
    assert_eq!(cache.find_by_key(&mut repo, 10), row(10, "a"));
    assert_eq!(repo.loads_issued(), 0);
    assert_eq!(repo.batch_loads_issued(), 1);
}

#[test]
fn batch_after_get_skips_the_cached_key() {
    let mut cache = engine(4);
    let mut repo = MemoryDataRepo::new(vec![row(10, "a"), row(20, "b")]);

    cache.find_by_key(&mut repo, 10);
    let out = cache.find_by_keys(&mut repo, &vec![10, 20]);
    assert_eq!(out[0].value, Some(row(10, "a")));
    assert_eq!(out[1].value, Some(row(20, "b")));
    assert_eq!(repo.loads_issued(), 1);
    assert_eq!(repo.last_batch(), Some(vec![20]));
}

#[test]
fn batch_failure_is_total_and_purged() {
    let mut cache = engine(4);
    let mut repo = MemoryDataRepo::new(vec![row(1, "x"), row(2, "y")]);
    repo.set_fail(true);

    let out = cache.find_by_keys(&mut repo, &vec![1, 2]);
    assert_eq!(out[0].value, Some(error_data()));
    assert_eq!(out[1].value, Some(error_data()));
    assert_eq!(repo.batch_loads_issued(), 1);
    // both keys were purged on read: nothing is cached
    assert!(matches!(cache.probe(1), None));
    assert!(matches!(cache.probe(2), None));

    repo.set_fail(false);
    assert_eq!(cache.find_by_key(&mut repo, 1), row(1, "x"));
}

#[test]
fn shards_are_independent() {
    // keys of different shards: an operation on one never touches the other
    let mut cache = engine(4);
    let mut repo = MemoryDataRepo::new(vec![row(10, "a"), row(20, "b"), row(30, "c")]);

    let mut other: Option<i32> = None;
    for k in [20, 30] {
        if cache.get_shard(k) != cache.get_shard(10) {
            other = Some(k);
        }
    }
    cache.find_by_key(&mut repo, 10);
    if let Some(k) = other {
        cache.find_by_key(&mut repo, k);
        let before = repo.loads_issued();
        assert!(cache.invalid(10));
        // the other shard's entry is untouched: still a cache hit
        assert!(matches!(cache.probe(k), Some(CellState::Resolved(_))));
        cache.find_by_key(&mut repo, k);
        assert_eq!(repo.loads_issued(), before);
    }
}

#[test]
fn shard_resolution_is_stable_and_in_range() {
    let cache = engine(7);
    for k in [-5, -1, 0, 1, 42, 1000, i32::MAX, i32::MIN] {
        let s = cache.get_shard(k);
        assert!(s < 7);
        assert_eq!(s, cache.get_shard(k));
    }
    assert_eq!(cache.shard_count(), 7);
}
