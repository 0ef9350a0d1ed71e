use sms4::db::Database;
use sms4::model::user::{create_user, delete_user, get_user, list_users};

fn fresh() -> Database {
    Database::new("2026-01-01 00:00:00".to_string())
}

#[test]
fn user_test_create_and_get() {
    let mut db = fresh();
    let id = create_user(&mut db, "alice", "Alice", Some("Hello!")).unwrap();
    let u = get_user(&db, id).unwrap();
    assert_eq!(u.username, "alice");
    assert_eq!(u.display_name, "Alice");
    assert_eq!(u.bio.unwrap(), "Hello!");
}

#[test]
fn test_list_search() {
    let mut db = fresh();
    create_user(&mut db, "alice", "Alice", None).unwrap();
    create_user(&mut db, "bob", "Bob", None).unwrap();
    let res = list_users(&db, Some("alice"));
    assert_eq!(res.len(), 1);
    let res = list_users(&db, None);
    assert_eq!(res.len(), 2);
}

#[test]
fn user_test_delete() {
    let mut db = fresh();
    let id = create_user(&mut db, "temp", "Temp", None).unwrap();
    assert!(delete_user(&mut db, id));
    assert!(get_user(&db, id).is_none());
}
