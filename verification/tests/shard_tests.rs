use dcache::cell::CellState;
use dcache::dto::Outcome;
use dcache::dto::UserData;
use dcache::engine::GlobalCache;
use dcache::repo::MemoryDataRepo;
use dcache::shard_map::hash_key;
use dcache::shard_map::shard_of;

fn row(id: i32, name: &str) -> UserData {
    UserData { id: Some(id), name: Some(name.to_string()) }
}

#[test]
fn hash_is_stable() {
    for k in [i32::MIN, -7, 0, 1, 12345, i32::MAX] {
        assert_eq!(hash_key(k), hash_key(k));
    }
}

#[test]
fn one_shard_takes_every_key() {
    for k in [i32::MIN, -1, 0, 1, i32::MAX] {
        assert_eq!(shard_of(k, 1), 0);
    }
}

#[test]
fn shard_is_always_in_range() {
    for n in [1usize, 2, 3, 8, 13] {
        for k in [-100, -1, 0, 1, 7, 10_000, i32::MAX, i32::MIN] {
            assert!(shard_of(k, n) < n);
        }
    }
}

#[test]
fn batch_loader_settles_every_requested_cell() {
    let mut cache = GlobalCache::new(4, 100).unwrap();
    let mut repo = MemoryDataRepo::new(vec![row(1, "x")]);

    cache.find_values_from_repo(&mut repo, &vec![1, 2]);

    assert_eq!(repo.batch_loads_issued(), 1);
    assert_eq!(repo.last_batch(), Some(vec![1, 2]));
    assert_eq!(cache.probe(1), Some(CellState::Resolved(Outcome::Value(row(1, "x")))));
    assert_eq!(cache.probe(2), Some(CellState::Resolved(Outcome::Empty)));
    assert_eq!(cache.probe(3), None);
}

#[test]
fn batch_loader_failure_settles_error_cells() {
    let mut cache = GlobalCache::new(4, 100).unwrap();
    let mut repo = MemoryDataRepo::new(vec![row(1, "x")]);
    repo.set_fail(true);

    cache.find_values_from_repo(&mut repo, &vec![1, 2]);

    assert_eq!(cache.probe(1), Some(CellState::Resolved(Outcome::Error)));
    assert_eq!(cache.probe(2), Some(CellState::Resolved(Outcome::Error)));
}
