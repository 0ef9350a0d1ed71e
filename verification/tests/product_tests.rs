use sms4::db::Database;
use sms4::model::product::{add_product, decrement_stock, get_product, list_products, search_products};
use sms4::model::shop::open_shop;
use sms4::model::user::create_user;

fn fresh() -> Database {
    Database::new("2026-01-01 00:00:00".to_string())
}

fn setup_shop(db: &mut Database) -> (i64, i64) {
    let uid = create_user(db, "alice", "Alice", None).unwrap();
    let s = open_shop(db, uid, "Alice 的小店", None).unwrap();
    (uid, s.id)
}

#[test]
fn product_test_add_and_list() {
    let mut db = fresh();
    let (_uid, sid) = setup_shop(&mut db);
    let p = add_product(&mut db, sid, "咖啡豆", 299, 10, Some("衣索比亞")).unwrap();
    assert_eq!(p.price, 299);
    let list = list_products(&db, sid);
    assert_eq!(list.len(), 1);
}

#[test]
fn test_search() {
    let mut db = fresh();
    let (_uid1, sid1) = setup_shop(&mut db);
    let uid2 = create_user(&mut db, "bob", "Bob", None).unwrap();
    let s2 = open_shop(&mut db, uid2, "Bob 的店", None).unwrap();
    add_product(&mut db, sid1, "咖啡豆", 299, 10, None).unwrap();
    add_product(&mut db, s2.id, "茶葉", 199, 20, None).unwrap();

    let res = search_products(&db, Some("咖啡"), None, None);
    assert_eq!(res.len(), 1);
    assert_eq!(res[0].shop_name, "Alice 的小店");

    let res = search_products(&db, None, Some(200), Some(300));
    assert_eq!(res.len(), 1);
}

#[test]
fn test_decrement_stock() {
    let mut db = fresh();
    let (_uid, sid) = setup_shop(&mut db);
    let p = add_product(&mut db, sid, "咖啡豆", 299, 5, None).unwrap();
    assert!(decrement_stock(&mut db, p.id, 2).unwrap());
    let p2 = get_product(&db, p.id).unwrap();
    assert_eq!(p2.stock, 3);
    assert!(!decrement_stock(&mut db, p.id, 10).unwrap());
}
