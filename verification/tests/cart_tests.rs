use sms4::db::Database;
use sms4::model::cart::{add, checkout, list};
use sms4::model::product::{add_product, get_product};
use sms4::model::shop::open_shop;
use sms4::model::user::create_user;

fn fresh() -> Database {
    Database::new("2026-01-01 00:00:00".to_string())
}

fn setup() -> (Database, i64, i64) {
    let mut db = fresh();
    let uid = create_user(&mut db, "alice", "Alice", None).unwrap();
    let s = open_shop(&mut db, uid, "Shop", None).unwrap();
    let p = add_product(&mut db, s.id, "咖啡豆", 299, 10, None).unwrap();
    (db, uid, p.id)
}

#[test]
fn cart_test_add_and_list() {
    let (mut db, uid, pid) = setup();
    let item = add(&mut db, uid, pid, 2).unwrap();
    assert_eq!(item.quantity, 2);
    let items = list(&db, uid).unwrap();
    assert_eq!(items.len(), 1);
    assert_eq!(items[0].total_price, 598);
}

#[test]
fn test_add_duplicate_increases_quantity() {
    let (mut db, uid, pid) = setup();
    add(&mut db, uid, pid, 2).unwrap();
    add(&mut db, uid, pid, 3).unwrap();
    let items = list(&db, uid).unwrap();
    assert_eq!(items[0].quantity, 5);
}

#[test]
fn test_checkout() {
    let (mut db, uid, pid) = setup();
    add(&mut db, uid, pid, 2).unwrap();
    let ids = checkout(&mut db, uid).unwrap();
    assert_eq!(ids.len(), 1);
    assert!(list(&db, uid).unwrap().is_empty());
    let p = get_product(&db, pid).unwrap();
    assert_eq!(p.stock, 8);
}

#[test]
fn test_empty_cart_checkout_fails() {
    let mut db = fresh();
    let uid = create_user(&mut db, "bob", "Bob", None).unwrap();
    assert!(checkout(&mut db, uid).is_err());
}
