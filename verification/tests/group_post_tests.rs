use sms4::db::Database;
use sms4::model::group;
use sms4::model::group_post::{get, list};
use sms4::model::user::create_user;

fn fresh() -> Database {
    Database::new("2026-01-01 00:00:00".to_string())
}

#[test]
fn group_post_test_add_and_list() {
    let mut db = fresh();
    let uid = create_user(&mut db, "alice", "Alice", None).unwrap();
    let g = group::create(&mut db, uid, "社團", None).unwrap();
    let p = sms4::model::group_post::add(&mut db, g.id, uid, "大家好！").unwrap();
    assert_eq!(p.content, "大家好！");
    let posts = list(&db, g.id);
    assert_eq!(posts.len(), 1);
}

#[test]
fn test_non_member_cannot_post() {
    let mut db = fresh();
    let uid1 = create_user(&mut db, "alice", "Alice", None).unwrap();
    let uid2 = create_user(&mut db, "bob", "Bob", None).unwrap();
    let g = group::create(&mut db, uid1, "社團", None).unwrap();
    assert!(sms4::model::group_post::add(&mut db, g.id, uid2, "hello").is_err());
}

#[test]
fn group_post_test_delete() {
    let mut db = fresh();
    let uid = create_user(&mut db, "alice", "Alice", None).unwrap();
    let g = group::create(&mut db, uid, "社團", None).unwrap();
    let p = sms4::model::group_post::add(&mut db, g.id, uid, "test").unwrap();
    assert!(sms4::model::group_post::group_post_has_group(&db, p.id));
    assert!(sms4::model::group_post::delete(&mut db, p.id, uid).unwrap());
    assert!(get(&db, p.id).is_none());
}
