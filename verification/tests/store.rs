use role_tokens::time::Timestamp;
use role_tokens::tokens::{
    _get_token, add_token, create_db, load_db, rem_token, set_token, snapshot, TokenData,
    TokenError, TokenKey,
};
use uuid::Uuid;

fn at(secs: u64) -> Timestamp {
    Timestamp { secs_since_epoch: secs, nanos_since_epoch: 0 }
}

fn record(roles: Vec<u64>, limit: u32, secs: u64) -> TokenData {
    TokenData { roles, limit, expiration: at(secs) }
}

#[test]
fn new_store_is_empty() {
    let db = create_db();
    assert_eq!(snapshot(&db).len(), 0);
    assert_eq!(_get_token(&db, 1), Err(TokenError::NotFound));
}

#[test]
fn set_then_get_gives_the_record() {
    let mut db = create_db();
    set_token(&mut db, 42, record(vec![5, 6], 3, 1000));
    assert_eq!(_get_token(&db, 42), Ok(record(vec![5, 6], 3, 1000)));
    assert_eq!(_get_token(&db, 43), Err(TokenError::NotFound));
}

#[test]
fn get_does_not_change_the_store() {
    let mut db = create_db();
    set_token(&mut db, 42, record(vec![5], 1, 1000));
    assert_eq!(_get_token(&db, 42), Ok(record(vec![5], 1, 1000)));
    assert_eq!(_get_token(&db, 42), Ok(record(vec![5], 1, 1000)));
    assert_eq!(snapshot(&db).len(), 1);
}

#[test]
fn set_overwrites() {
    let mut db = create_db();
    set_token(&mut db, 42, record(vec![5, 6], 3, 1000));
    set_token(&mut db, 42, record(vec![7], 1, 2000));
    assert_eq!(_get_token(&db, 42), Ok(record(vec![7], 1, 2000)));
    assert_eq!(snapshot(&db).len(), 1);
}

#[test]
fn set_keeps_duplicate_roles_and_their_order() {
    let mut db = create_db();
    set_token(&mut db, 1, record(vec![9, 3, 9, 3], 1, 10));
    assert_eq!(_get_token(&db, 1).unwrap().roles, vec![9, 3, 9, 3]);
}

#[test]
fn revoke_removes_the_record() {
    let mut db = create_db();
    set_token(&mut db, 42, record(vec![5], 3, 1000));
    set_token(&mut db, 43, record(vec![6], 3, 1000));
    rem_token(&mut db, 42);
    assert_eq!(_get_token(&db, 42), Err(TokenError::NotFound));
    assert_eq!(_get_token(&db, 43), Ok(record(vec![6], 3, 1000)));
}

#[test]
fn revoke_of_absent_key_changes_nothing() {
    let mut db = create_db();
    set_token(&mut db, 43, record(vec![6], 3, 1000));
    rem_token(&mut db, 42);
    assert_eq!(snapshot(&db).len(), 1);
    assert_eq!(_get_token(&db, 43), Ok(record(vec![6], 3, 1000)));
}

#[test]
fn revoke_on_empty_store_succeeds() {
    let mut db = create_db();
    rem_token(&mut db, 0);
    rem_token(&mut db, u128::MAX);
    assert_eq!(snapshot(&db).len(), 0);
}

#[test]
fn revoke_twice_is_revoke_once() {
    let mut db = create_db();
    set_token(&mut db, 42, record(vec![5], 3, 1000));
    set_token(&mut db, 43, record(vec![6], 3, 1000));
    rem_token(&mut db, 42);
    let once = sorted(snapshot(&db));
    rem_token(&mut db, 42);
    let twice = sorted(snapshot(&db));
    assert_eq!(once, twice);
}

fn sorted(mut entries: Vec<(TokenKey, TokenData)>) -> Vec<(TokenKey, TokenData)> {
    entries.sort_by_key(|e| e.0);
    entries
}

#[test]
fn snapshot_lists_every_record_once() {
    let mut db = create_db();
    set_token(&mut db, 3, record(vec![30], 3, 300));
    set_token(&mut db, 1, record(vec![10, 11], 1, 100));
    set_token(&mut db, 2, record(vec![], 2, 200));
    let entries = sorted(snapshot(&db));
    assert_eq!(
        entries,
        vec![
            (1, record(vec![10, 11], 1, 100)),
            (2, record(vec![], 2, 200)),
            (3, record(vec![30], 3, 300)),
        ]
    );
}

#[test]
fn snapshot_reads_back_as_the_same_store() {
    let mut db = create_db();
    set_token(&mut db, 3, record(vec![30], 3, 300));
    set_token(&mut db, 1, record(vec![10, 11], 1, 100));
    set_token(&mut db, u128::MAX, record(vec![u64::MAX], u32::MAX, u64::MAX));
    rem_token(&mut db, 3);
    let reloaded = load_db(snapshot(&db));
    assert_eq!(sorted(snapshot(&reloaded)), sorted(snapshot(&db)));
    assert_eq!(_get_token(&reloaded, 1), Ok(record(vec![10, 11], 1, 100)));
    assert_eq!(_get_token(&reloaded, 3), Err(TokenError::NotFound));
    assert_eq!(
        _get_token(&reloaded, u128::MAX),
        Ok(record(vec![u64::MAX], u32::MAX, u64::MAX))
    );
}

#[test]
fn snapshot_keeps_the_nanoseconds() {
    let mut db = create_db();
    let expiration = Timestamp { secs_since_epoch: 17, nanos_since_epoch: 123_456_789 };
    set_token(&mut db, 1, TokenData { roles: vec![1], limit: 1, expiration });
    let reloaded = load_db(snapshot(&db));
    assert_eq!(_get_token(&reloaded, 1).unwrap().expiration, expiration);
}

#[test]
fn load_of_no_entries_is_the_empty_store() {
    let db = load_db(Vec::new());
    assert_eq!(snapshot(&db).len(), 0);
}

#[test]
fn load_lets_the_later_entry_win() {
    let db = load_db(vec![
        (1, record(vec![10], 1, 100)),
        (2, record(vec![20], 2, 200)),
        (1, record(vec![11], 5, 500)),
    ]);
    assert_eq!(_get_token(&db, 1), Ok(record(vec![11], 5, 500)));
    assert_eq!(_get_token(&db, 2), Ok(record(vec![20], 2, 200)));
    assert_eq!(snapshot(&db).len(), 2);
}

#[test]
fn add_token_stores_the_record_under_the_returned_key() {
    let mut db = create_db();
    let key = add_token(&mut db, record(vec![5, 6], 3, 1000));
    assert_eq!(_get_token(&db, key), Ok(record(vec![5, 6], 3, 1000)));
    assert_eq!(snapshot(&db).len(), 1);
}

#[test]
fn add_token_keys_are_random_uuids() {
    let mut db = create_db();
    for _ in 0..32 {
        let key = add_token(&mut db, record(vec![1], 1, 1));
        assert_eq!(
            key & 0x0000_0000_0000_f000_c000_0000_0000_0000,
            0x0000_0000_0000_4000_8000_0000_0000_0000
        );
        assert_eq!(Uuid::from_u128(key).get_version_num(), 4);
    }
}

#[test]
fn add_token_keys_differ() {
    let mut db = create_db();
    let a = add_token(&mut db, record(vec![1], 1, 1));
    let b = add_token(&mut db, record(vec![2], 1, 1));
    assert_ne!(a, b);
    assert_eq!(snapshot(&db).len(), 2);
    assert_eq!(_get_token(&db, a).unwrap().roles, vec![1]);
    assert_eq!(_get_token(&db, b).unwrap().roles, vec![2]);
}

#[test]
fn add_token_accepts_a_token_without_uses() {
    let mut db = create_db();
    let key = add_token(&mut db, record(vec![1], 0, 1000));
    assert_eq!(_get_token(&db, key), Ok(record(vec![1], 0, 1000)));
}

#[test]
fn clone_of_a_record_is_equal() {
    let source = record(vec![4, 5, 4], 9, 77);
    let copy = source.clone();
    assert_eq!(copy, source);
}

#[test]
fn error_messages() {
    assert_eq!(TokenError::NotFound.message(), "token not found");
    assert_eq!(TokenError::Expired.message(), "token expired");
}
