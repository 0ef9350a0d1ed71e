use sms4::db::Database;
use sms4::model::order::{create_order, list_orders, order_total_ok};
use sms4::model::product::add_product;
use sms4::model::shop::open_shop;
use sms4::model::user::create_user;

fn fresh() -> Database {
    Database::new("2026-01-01 00:00:00".to_string())
}

#[test]
fn order_test_create_and_list() {
    let mut db = fresh();
    let uid = create_user(&mut db, "alice", "Alice", None).unwrap();
    let s = open_shop(&mut db, uid, "Shop", None).unwrap();
    let p = add_product(&mut db, s.id, "咖啡豆", 299, 10, None).unwrap();

    let buyer = create_user(&mut db, "bob", "Bob", None).unwrap();
    assert!(order_total_ok(&db, p.id, 2));
    let order = create_order(&mut db, buyer, p.id, 2).unwrap();
    assert_eq!(order.total_price, 598);
    assert_eq!(order.status, "pending");

    let list = list_orders(&db, buyer);
    assert_eq!(list.len(), 1);
    assert_eq!(list[0].product_name, "咖啡豆");
}

#[test]
fn test_insufficient_stock() {
    let mut db = fresh();
    let uid = create_user(&mut db, "alice", "Alice", None).unwrap();
    let s = open_shop(&mut db, uid, "Shop", None).unwrap();
    let p = add_product(&mut db, s.id, "咖啡豆", 299, 3, None).unwrap();
    let buyer = create_user(&mut db, "bob", "Bob", None).unwrap();
    assert!(order_total_ok(&db, p.id, 10));
    assert!(create_order(&mut db, buyer, p.id, 10).is_err());
}
