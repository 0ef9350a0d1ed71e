use sms4::db::Database;
use sms4::model::message::{get_unread_count, list_conversations, list_messages, mark_read, send_message};
use sms4::model::user::create_user;

fn fresh() -> Database {
    Database::new("2026-01-01 00:00:00".to_string())
}

#[test]
fn message_test_send_and_list() {
    let mut db = fresh();
    let u1 = create_user(&mut db, "alice", "Alice", None).unwrap();
    let u2 = create_user(&mut db, "bob", "Bob", None).unwrap();
    let mid = send_message(&mut db, u1, u2, "哈囉！").unwrap();
    assert!(mid > 0);
    let convs = list_conversations(&db, u1);
    assert_eq!(convs.len(), 1);
    assert_eq!(convs[0].other_username, "bob");
    assert_eq!(convs[0].last_message, "哈囉！");
    let msgs = list_messages(&db, u1, u2);
    assert_eq!(msgs.len(), 1);
    assert_eq!(msgs[0].content, "哈囉！");
}

#[test]
fn test_unread_and_mark_read() {
    let mut db = fresh();
    let u1 = create_user(&mut db, "alice", "Alice", None).unwrap();
    let u2 = create_user(&mut db, "bob", "Bob", None).unwrap();
    send_message(&mut db, u2, u1, "嗨 alice").unwrap();
    assert_eq!(get_unread_count(&db, u1), 1);
    mark_read(&mut db, u1, u2);
    assert_eq!(get_unread_count(&db, u1), 0);
}
