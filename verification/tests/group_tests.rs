use sms4::db::Database;
use sms4::model::group::{create, get, join, leave};
use sms4::model::user::create_user;

fn fresh() -> Database {
    Database::new("2026-01-01 00:00:00".to_string())
}

#[test]
fn group_test_create_and_get() {
    let mut db = fresh();
    let uid = create_user(&mut db, "alice", "Alice", None).unwrap();
    let g = create(&mut db, uid, "攝影愛好者", Some("喜歡拍照的朋友一起來")).unwrap();
    assert_eq!(g.name, "攝影愛好者");
    assert_eq!(g.member_count, 1);
    let got = get(&db, g.id).unwrap();
    assert_eq!(got.id, g.id);
}

#[test]
fn test_join_and_leave() {
    let mut db = fresh();
    let uid1 = create_user(&mut db, "alice", "Alice", None).unwrap();
    let uid2 = create_user(&mut db, "bob", "Bob", None).unwrap();
    let g = create(&mut db, uid1, "測試社團", None).unwrap();
    assert!(join(&mut db, g.id, uid2).unwrap());
    assert_eq!(get(&db, g.id).unwrap().member_count, 2);
    assert!(leave(&mut db, g.id, uid2).unwrap());
    assert_eq!(get(&db, g.id).unwrap().member_count, 1);
}

#[test]
fn test_duplicate_join_fails() {
    let mut db = fresh();
    let uid1 = create_user(&mut db, "alice", "Alice", None).unwrap();
    let uid2 = create_user(&mut db, "bob", "Bob", None).unwrap();
    let g = create(&mut db, uid1, "社團", None).unwrap();
    join(&mut db, g.id, uid2).unwrap();
    assert!(join(&mut db, g.id, uid2).is_err());
}

#[test]
fn test_owner_cannot_leave() {
    let mut db = fresh();
    let uid = create_user(&mut db, "alice", "Alice", None).unwrap();
    let g = create(&mut db, uid, "社團", None).unwrap();
    assert!(leave(&mut db, g.id, uid).is_err());
}
