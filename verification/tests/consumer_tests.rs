use dcache::dto::UserData;
use dcache::engine::GlobalCache;
use dcache::mq_consumer::decode_invalidation;
use dcache::mq_consumer::handle_invalidation_event;
use dcache::repo::MemoryDataRepo;

fn row(id: i32, name: &str) -> UserData {
    UserData { id: Some(id), name: Some(name.to_string()) }
}

#[test]
fn decode_event_with_id() {
    assert_eq!(decode_invalidation(b"{\"id\":10}"), Some(10));
    assert_eq!(decode_invalidation(b"{\"id\":-3}"), Some(-3));
    assert_eq!(decode_invalidation(b"{\"id\":2147483647}"), Some(i32::MAX));
}

#[test]
fn decode_event_without_id() {
    assert_eq!(decode_invalidation(b"{}"), None);
    assert_eq!(decode_invalidation(b"{\"id\":null}"), None);
    assert_eq!(decode_invalidation(b"{\"other\":1}"), None);
}

#[test]
fn decode_malformed_event() {
    assert_eq!(decode_invalidation(b"not json"), None);
    assert_eq!(decode_invalidation(b""), None);
    assert_eq!(decode_invalidation(b"{\"id\":\"ten\"}"), None);
    assert_eq!(decode_invalidation(b"[1,2,3]"), None);
}

#[test]
fn decode_out_of_key_range() {
    assert_eq!(decode_invalidation(b"{\"id\":2147483648}"), None);
    assert_eq!(decode_invalidation(b"{\"id\":-2147483649}"), None);
}

#[test]
fn event_invalidates_cached_key() {
    let mut cache = GlobalCache::new(4, 100).unwrap();
    let mut repo = MemoryDataRepo::new(vec![row(10, "a")]);

    cache.find_by_key(&mut repo, 10);
    assert_eq!(repo.loads_issued(), 1);

    let event = decode_invalidation(b"{\"id\":10}");
    assert!(handle_invalidation_event(&mut cache, event));

    // the cell is gone: the next lookup loads afresh
    cache.find_by_key(&mut repo, 10);
    assert_eq!(repo.loads_issued(), 2);
}

#[test]
fn absent_event_is_dropped() {
    let mut cache = GlobalCache::new(4, 100).unwrap();
    let mut repo = MemoryDataRepo::new(vec![row(10, "a")]);
    cache.find_by_key(&mut repo, 10);

    assert!(!handle_invalidation_event(&mut cache, decode_invalidation(b"{}")));
    assert!(!handle_invalidation_event(&mut cache, decode_invalidation(b"garbage")));

    // the cache is untouched: still a hit
    cache.find_by_key(&mut repo, 10);
    assert_eq!(repo.loads_issued(), 1);
}

#[test]
fn event_for_uncached_key_is_noop() {
    let mut cache = GlobalCache::new(4, 100).unwrap();
    assert!(!handle_invalidation_event(&mut cache, Some(77)));
}
