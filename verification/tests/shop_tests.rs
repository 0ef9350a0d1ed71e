use sms4::db::Database;
use sms4::model::shop::{close_shop, get_shop_by_user, open_shop};
use sms4::model::user::create_user;

fn fresh() -> Database {
    Database::new("2026-01-01 00:00:00".to_string())
}

#[test]
fn test_open_and_get() {
    let mut db = fresh();
    let uid = create_user(&mut db, "alice", "Alice", None).unwrap();
    let shop = open_shop(&mut db, uid, "Alice 的小店", Some("歡迎光臨")).unwrap();
    assert_eq!(shop.name, "Alice 的小店");

    let got = get_shop_by_user(&db, uid).unwrap();
    assert_eq!(got.id, shop.id);
}

#[test]
fn test_duplicate_shop_fails() {
    let mut db = fresh();
    let uid = create_user(&mut db, "alice", "Alice", None).unwrap();
    open_shop(&mut db, uid, "Shop", None).unwrap();
    assert!(open_shop(&mut db, uid, "Shop 2", None).is_err());
}

#[test]
fn test_close() {
    let mut db = fresh();
    let uid = create_user(&mut db, "alice", "Alice", None).unwrap();
    open_shop(&mut db, uid, "Shop", None).unwrap();
    assert!(close_shop(&mut db, uid));
    assert!(get_shop_by_user(&db, uid).is_none());
}
