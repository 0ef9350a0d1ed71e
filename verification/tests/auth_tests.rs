use sms4::db::Database;
use sms4::model::auth::{get_user_by_token, is_username_taken, login, logout, register};

fn fresh() -> Database {
    Database::new("2026-01-01 00:00:00".to_string())
}

#[test]
fn test_register_and_login() {
    let mut db = fresh();
    let id = register(&mut db, "alice", "secret123", "Alice").unwrap();
    assert!(id > 0);

    let token = login(&mut db, "alice", "secret123").unwrap();
    assert!(!token.is_empty());

    let uid = get_user_by_token(&db, &token).unwrap();
    assert_eq!(uid, id);
}

#[test]
fn test_login_wrong_password() {
    let mut db = fresh();
    register(&mut db, "bob", "goodpass", "Bob").unwrap();
    assert!(login(&mut db, "bob", "wrongpass").is_err());
}

#[test]
fn test_login_nonexistent_user() {
    let mut db = fresh();
    assert!(login(&mut db, "nobody", "x").is_err());
}

#[test]
fn test_logout() {
    let mut db = fresh();
    register(&mut db, "carol", "pass", "Carol").unwrap();
    let token = login(&mut db, "carol", "pass").unwrap();
    assert!(get_user_by_token(&db, &token).is_some());

    assert!(logout(&mut db, &token));
    assert!(get_user_by_token(&db, &token).is_none());
}

#[test]
fn test_username_taken() {
    let mut db = fresh();
    register(&mut db, "dave", "p", "Dave").unwrap();
    assert!(is_username_taken(&db, "dave"));
    assert!(!is_username_taken(&db, "eve"));
}
