use sms4::db::Database;
use sms4::model::follow::{follow_user, list_followers, list_following, unfollow_user};
use sms4::model::user::create_user;

fn fresh() -> Database {
    Database::new("2026-01-01 00:00:00".to_string())
}

#[test]
fn test_follow_and_list() {
    let mut db = fresh();
    let u1 = create_user(&mut db, "alice", "Alice", None).unwrap();
    let u2 = create_user(&mut db, "bob", "Bob", None).unwrap();
    follow_user(&mut db, u1, u2).unwrap();
    let followers = list_followers(&db, u2);
    assert_eq!(followers.len(), 1);
    assert_eq!(followers[0].username, "alice");
    let following = list_following(&db, u1);
    assert_eq!(following.len(), 1);
    assert_eq!(following[0].username, "bob");
}

#[test]
fn test_unfollow() {
    let mut db = fresh();
    let u1 = create_user(&mut db, "alice", "Alice", None).unwrap();
    let u2 = create_user(&mut db, "bob", "Bob", None).unwrap();
    follow_user(&mut db, u1, u2).unwrap();
    assert!(unfollow_user(&mut db, u1, u2));
    assert_eq!(list_followers(&db, u2).len(), 0);
}

#[test]
fn test_follow_self_fails() {
    let mut db = fresh();
    let u1 = create_user(&mut db, "alice", "Alice", None).unwrap();
    assert!(follow_user(&mut db, u1, u1).is_err());
}
