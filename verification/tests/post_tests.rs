use sms4::db::Database;
use sms4::model::post::{create_post, get_post, list_posts, list_replies};
use sms4::model::user::create_user;

fn fresh() -> Database {
    Database::new("2026-01-01 00:00:00".to_string())
}

#[test]
fn post_test_create_and_list() {
    let mut db = fresh();
    let uid = create_user(&mut db, "alice", "Alice", None).unwrap();
    let _pid = create_post(&mut db, uid, "Hello world!", None).unwrap();
    let posts = list_posts(&db, None, 10, 0);
    assert_eq!(posts.len(), 1);
    assert_eq!(posts[0].content, "Hello world!");
    assert_eq!(posts[0].username, "alice");
}

#[test]
fn test_reply() {
    let mut db = fresh();
    let uid = create_user(&mut db, "alice", "Alice", None).unwrap();
    let pid = create_post(&mut db, uid, "First!", None).unwrap();
    let _rid = create_post(&mut db, uid, "Reply!", Some(pid)).unwrap();
    let p = get_post(&db, pid).unwrap();
    assert_eq!(p.replies_count, 1);
    let replies = list_replies(&db, pid);
    assert_eq!(replies.len(), 1);
    assert_eq!(replies[0].content, "Reply!");
}
