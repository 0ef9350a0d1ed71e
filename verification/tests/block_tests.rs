use sms4::db::Database;
use sms4::model::block::{block_user, either_blocked, is_blocked, list_blocked_users, unblock_user};
use sms4::model::user::create_user;

fn fresh() -> Database {
    Database::new("2026-01-01 00:00:00".to_string())
}

#[test]
fn test_block_unblock() {
    let mut db = fresh();
    let u1 = create_user(&mut db, "alice", "Alice", None).unwrap();
    let u2 = create_user(&mut db, "bob", "Bob", None).unwrap();

    block_user(&mut db, u1, u2).unwrap();
    assert!(is_blocked(&db, u1, u2));

    assert!(unblock_user(&mut db, u1, u2));
    assert!(!is_blocked(&db, u1, u2));
}

#[test]
fn test_block_self_fails() {
    let mut db = fresh();
    let u1 = create_user(&mut db, "alice", "Alice", None).unwrap();
    assert!(block_user(&mut db, u1, u1).is_err());
}

#[test]
fn test_either_blocked() {
    let mut db = fresh();
    let u1 = create_user(&mut db, "alice", "Alice", None).unwrap();
    let u2 = create_user(&mut db, "bob", "Bob", None).unwrap();

    block_user(&mut db, u1, u2).unwrap();
    assert!(either_blocked(&db, u1, u2));
    assert!(either_blocked(&db, u2, u1));
}

#[test]
fn test_list_blocked() {
    let mut db = fresh();
    let u1 = create_user(&mut db, "alice", "Alice", None).unwrap();
    let u2 = create_user(&mut db, "bob", "Bob", None).unwrap();
    let u3 = create_user(&mut db, "carol", "Carol", None).unwrap();

    block_user(&mut db, u1, u2).unwrap();
    block_user(&mut db, u1, u3).unwrap();

    let blocked = list_blocked_users(&db, u1);
    assert_eq!(blocked.len(), 2);
}
