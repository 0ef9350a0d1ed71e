use sms4::db::Database;
use sms4::model::like::{is_liked, like_post, unlike_post};
use sms4::model::post::{create_post, get_post};
use sms4::model::user::create_user;

fn fresh() -> Database {
    Database::new("2026-01-01 00:00:00".to_string())
}

#[test]
fn test_like_unlike() {
    let mut db = fresh();
    let uid = create_user(&mut db, "alice", "Alice", None).unwrap();
    let pid = create_post(&mut db, uid, "Hello!", None).unwrap();
    assert!(like_post(&mut db, uid, pid).unwrap());
    assert!(is_liked(&db, uid, pid));
    let p = get_post(&db, pid).unwrap();
    assert_eq!(p.likes_count, 1);
    assert!(unlike_post(&mut db, uid, pid));
    assert!(!is_liked(&db, uid, pid));
}

#[test]
fn test_like_duplicate() {
    let mut db = fresh();
    let uid = create_user(&mut db, "alice", "Alice", None).unwrap();
    let pid = create_post(&mut db, uid, "Hello!", None).unwrap();
    assert!(like_post(&mut db, uid, pid).unwrap());
    assert!(!like_post(&mut db, uid, pid).unwrap());
    let p = get_post(&db, pid).unwrap();
    assert_eq!(p.likes_count, 1);
}
