use sms4::db::Database;
use sms4::model::interest::{add_interest, list_interests, remove_interest};
use sms4::model::user::create_user;

fn fresh() -> Database {
    Database::new("2026-01-01 00:00:00".to_string())
}

#[test]
fn interest_test_add_and_list() {
    let mut db = fresh();
    let uid = create_user(&mut db, "alice", "Alice", None).unwrap();
    let id1 = add_interest(&mut db, uid, "爬山").unwrap();
    let id2 = add_interest(&mut db, uid, "攝影").unwrap();
    assert!(id1 > 0);
    assert!(id2 > 0);
    let list = list_interests(&db, uid);
    assert_eq!(list.len(), 2);
}

#[test]
fn test_remove() {
    let mut db = fresh();
    let uid = create_user(&mut db, "bob", "Bob", None).unwrap();
    add_interest(&mut db, uid, "咖啡").unwrap();
    assert!(remove_interest(&mut db, uid, "咖啡"));
    assert!(!remove_interest(&mut db, uid, "咖啡"));
    assert_eq!(list_interests(&db, uid).len(), 0);
}

#[test]
fn test_duplicate_ignored() {
    let mut db = fresh();
    let uid = create_user(&mut db, "carol", "Carol", None).unwrap();
    add_interest(&mut db, uid, "美食").unwrap();
    add_interest(&mut db, uid, "美食").unwrap();
    assert_eq!(list_interests(&db, uid).len(), 1);
}
