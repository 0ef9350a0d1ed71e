use sms4::db::Database;
use sms4::error::ModelError;
use sms4::model::cart;
use sms4::model::group;
use sms4::model::group_post;
use sms4::model::product::{add_product, remove_product};
use sms4::model::shop::open_shop;
use sms4::model::user::create_user;

fn fresh() -> Database {
    Database::new("2026-01-01 00:00:00".to_string())
}

#[test]
fn messages_of_the_errors() {
    assert_eq!(ModelError::CannotFollowSelf.message(), "不能追蹤自己");
    assert_eq!(ModelError::InvalidCredentials.message(), "帳號或密碼錯誤");
    assert_eq!(
        ModelError::InsufficientStock { product_id: 4, stock: 3 }.message(),
        "庫存不足（剩 3）"
    );
    assert_eq!(ModelError::ProductGone(12).message(), "商品 12 已不存在");
    assert_eq!(
        ModelError::OutOfStock { name: "茶葉".to_string(), stock: 0 }.message(),
        "商品「茶葉」庫存不足（剩 0）"
    );
    assert_eq!(
        ModelError::InsufficientStock { product_id: 1, stock: -42 }.message(),
        "庫存不足（剩 -42）"
    );
    assert_eq!(
        ModelError::ProductGone(i64::MIN).message(),
        "商品 -9223372036854775808 已不存在"
    );
    assert_eq!(
        ModelError::ProductGone(i64::MAX).message(),
        "商品 9223372036854775807 已不存在"
    );
    assert_eq!(ModelError::UsernameTaken.message(), "UNIQUE constraint failed: users.username");
}

#[test]
fn username_taken_and_full_tables() {
    let mut db = fresh();
    create_user(&mut db, "x", "X", None).unwrap();
    assert_eq!(create_user(&mut db, "x", "Other", None), Err(ModelError::UsernameTaken));
    db.next_user_id = i64::MAX;
    assert_eq!(create_user(&mut db, "y", "Y", None), Err(ModelError::TableFull));
    assert_eq!(db.users.len(), 1);
}

#[test]
fn cart_refusals() {
    let mut db = fresh();
    let u = create_user(&mut db, "u", "U", None).unwrap();
    let s = open_shop(&mut db, u, "S", None).unwrap();
    let p = add_product(&mut db, s.id, "P", 1, i64::MAX, None).unwrap();
    assert_eq!(cart::add(&mut db, u, p.id, 0).unwrap_err(), ModelError::QuantityNotPositive);
    assert_eq!(cart::add(&mut db, u, 77, 1).unwrap_err(), ModelError::ProductNotFound(77));
    let small = add_product(&mut db, s.id, "Q", 1, 2, None).unwrap();
    assert_eq!(
        cart::add(&mut db, u, small.id, 3).unwrap_err(),
        ModelError::InsufficientStock { product_id: small.id, stock: 2 }
    );
    cart::add(&mut db, u, p.id, i64::MAX).unwrap();
    assert_eq!(cart::add(&mut db, u, p.id, 1).unwrap_err(), ModelError::Overflow);
    assert_eq!(cart::count(&db, u), Ok(i64::MAX));
}

#[test]
fn checkout_of_a_removed_product() {
    let mut db = fresh();
    let u = create_user(&mut db, "u", "U", None).unwrap();
    let s = open_shop(&mut db, u, "S", None).unwrap();
    let p = add_product(&mut db, s.id, "P", 5, 5, None).unwrap();
    cart::add(&mut db, u, p.id, 1).unwrap();
    assert!(remove_product(&mut db, p.id));
    assert!(cart::list(&db, u).unwrap().is_empty());
    assert_eq!(cart::checkout(&mut db, u), Err(ModelError::CartEmpty));
}

#[test]
fn shop_and_group_refusals() {
    let mut db = fresh();
    let a = create_user(&mut db, "a", "A", None).unwrap();
    let b = create_user(&mut db, "b", "B", None).unwrap();
    open_shop(&mut db, a, "S", None).unwrap();
    assert_eq!(open_shop(&mut db, a, "T", None).unwrap_err(), ModelError::ShopExists);
    let g = group::create(&mut db, a, "G", None).unwrap();
    assert_eq!(group::update(&mut db, g.id, b, Some("H"), None), Err(ModelError::NotGroupAdmin));
    assert_eq!(group::delete(&mut db, g.id, b), Err(ModelError::NotGroupOwner));
    assert_eq!(group::update(&mut db, g.id, a, Some("H"), None), Ok(true));
    assert_eq!(group::get(&db, g.id).unwrap().name, "H");
    assert_eq!(
        group_post::add(&mut db, g.id, b, "hi").unwrap_err(),
        ModelError::NotGroupMember
    );
    group::join(&mut db, g.id, b).unwrap();
    let post = group_post::add(&mut db, g.id, a, "owner's post").unwrap();
    assert!(group_post::group_post_has_group(&db, post.id));
    assert_eq!(group_post::delete(&mut db, post.id, b), Err(ModelError::NotAuthorOrOwner));
    let bpost = group_post::add(&mut db, g.id, b, "b's post").unwrap();
    assert_eq!(group_post::delete(&mut db, bpost.id, a), Ok(true));
    assert_eq!(group::delete(&mut db, g.id, a), Ok(true));
    assert!(group::get(&db, g.id).is_none());
    assert_eq!(group::delete(&mut db, g.id, a), Ok(false));
}
