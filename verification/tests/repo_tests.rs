use dcache::dto::UserData;
use dcache::repo::BatchReply;
use dcache::repo::LoadReply;
use dcache::repo::MemoryDataRepo;

fn row(id: i32, name: &str) -> UserData {
    UserData { id: Some(id), name: Some(name.to_string()) }
}

#[test]
fn single_load_replies_and_logs() {
    let mut repo = MemoryDataRepo::new(vec![row(1, "a"), row(2, "b")]);
    assert_eq!(repo.find_by_key(1), LoadReply::Found(row(1, "a")));
    assert_eq!(repo.find_by_key(3), LoadReply::NotFound);
    assert_eq!(repo.loads_issued(), 2);
    assert_eq!(repo.last_load(), Some(3));
    assert_eq!(repo.batch_loads_issued(), 0);
}

#[test]
fn single_load_fails_when_switched() {
    let mut repo = MemoryDataRepo::new(vec![row(1, "a")]);
    repo.set_fail(true);
    assert_eq!(repo.find_by_key(1), LoadReply::Failed);
    repo.set_fail(false);
    assert_eq!(repo.find_by_key(1), LoadReply::Found(row(1, "a")));
}

#[test]
fn batch_load_returns_only_requested_rows_in_table_order() {
    let mut repo = MemoryDataRepo::new(vec![row(1, "a"), row(2, "b"), row(3, "c")]);
    let reply = repo.find_by_mul_key(&vec![3, 1, 99]);
    assert_eq!(reply, BatchReply::Rows(vec![row(1, "a"), row(3, "c")]));
    assert_eq!(repo.batch_loads_issued(), 1);
    assert_eq!(repo.last_batch(), Some(vec![3, 1, 99]));
    assert_eq!(repo.loads_issued(), 0);
}

#[test]
fn batch_load_fails_as_a_whole() {
    let mut repo = MemoryDataRepo::new(vec![row(1, "a")]);
    repo.set_fail(true);
    assert_eq!(repo.find_by_mul_key(&vec![1, 2]), BatchReply::Failed);
    assert_eq!(repo.batch_loads_issued(), 1);
}
