use dcache::dto::empty_data;
use dcache::dto::error_data;
use dcache::dto::GetCacheByListKeyRequest;
use dcache::dto::InvalidCache;
use dcache::dto::KeyValue;
use dcache::dto::Outcome;
use dcache::dto::UserData;
use dcache::getP;

#[test]
fn sentinels_have_the_reserved_shapes() {
    let empty = empty_data();
    assert_eq!(empty.id, None);
    assert_eq!(empty.name, None);

    let error = error_data();
    assert_eq!(error.id, Some(-1));
    assert_eq!(error.name, None);

    assert_ne!(empty, error);
}

#[test]
fn outcome_flattens_to_records() {
    let u = UserData { id: Some(7), name: Some("seven".to_string()) };
    assert_eq!(Outcome::Value(u.clone()).to_record(), u);
    assert_eq!(Outcome::Empty.to_record(), empty_data());
    assert_eq!(Outcome::Error.to_record(), error_data());
}

#[test]
fn outcome_error_detection() {
    assert!(Outcome::Error.is_error());
    assert!(!Outcome::Empty.is_error());
    assert!(!Outcome::Value(empty_data()).is_error());
}

#[test]
fn user_data_clone_is_deep_equal() {
    let u = UserData { id: Some(3), name: Some("three".to_string()) };
    assert_eq!(u.clone(), u);
    let bare = UserData { id: None, name: None };
    assert_eq!(bare.clone(), bare);
}

#[test]
fn request_and_result_shapes() {
    let req = GetCacheByListKeyRequest { keys: vec![1, 2, 3] };
    assert_eq!(req.keys, vec![1, 2, 3]);

    let kv = KeyValue { key: 9, value: Some(empty_data()) };
    assert_eq!(kv.key, 9);
    assert_eq!(kv.value, Some(empty_data()));

    let ev = InvalidCache { id: Some(4) };
    assert_eq!(ev.id, Some(4));
}

#[test]
fn get_p_positive() {
    assert_eq!(getP(3), Some(3));
    assert_eq!(getP(1), Some(1));
}

#[test]
fn get_p_zero() {
    assert_eq!(getP(0), None);
}
