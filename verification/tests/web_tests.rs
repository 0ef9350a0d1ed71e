use sms4::db::Database;
use sms4::model::order::order_total_ok;
use sms4::model::user::create_user;
use sms4::web::error::AppError;
use sms4::web::routes::{auth, block, cart, order, post, product, shop, user};

fn fresh() -> Database {
    Database::new("2026-01-01 00:00:00".to_string())
}

fn msg(e: AppError) -> (u8, String) {
    match e {
        AppError::BadRequest(m) => (0, m),
        AppError::NotFound(m) => (1, m),
        AppError::Internal(m) => (2, m),
    }
}

#[test]
fn register_checks_its_input() {
    let mut db = fresh();
    let weak = auth::RegisterPayload { username: "amy".to_string(), password: "abc".to_string(), display_name: None };
    assert_eq!(msg(auth::register(&mut db, &weak).unwrap_err()), (0, "密碼長度至少需 4 個字元".to_string()));
    let blank = auth::RegisterPayload { username: "  ".to_string(), password: "abcd".to_string(), display_name: None };
    assert_eq!(msg(auth::register(&mut db, &blank).unwrap_err()).0, 0);
    let wide = auth::RegisterPayload { username: "amy".to_string(), password: "密碼".to_string(), display_name: None };
    let u = auth::register(&mut db, &wide).unwrap();
    assert_eq!(u.display_name, "amy");
    assert_eq!(msg(auth::register(&mut db, &wide).unwrap_err()), (0, "帳號已被使用".to_string()));

    let bad = auth::LoginPayload { username: "amy".to_string(), password: "nope".to_string() };
    assert_eq!(msg(auth::login_user(&mut db, &bad).unwrap_err()), (2, "帳號或密碼錯誤".to_string()));
    let good = auth::LoginPayload { username: "amy".to_string(), password: "密碼".to_string() };
    let reply = auth::login_user(&mut db, &good).unwrap();
    assert_eq!(reply.user.id, u.id);
    let out = auth::LogoutPayload { token: reply.token.clone() };
    assert!(auth::logout(&mut db, &out).is_ok());
    assert_eq!(msg(auth::logout(&mut db, &out).unwrap_err()), (0, "Token 無效".to_string()));
}

#[test]
fn block_needs_both_users() {
    let mut db = fresh();
    let a = create_user(&mut db, "a", "A", None).unwrap();
    let p = block::BlockPayload { blocker_id: 99, blocked_id: a };
    assert_eq!(msg(block::block(&mut db, &p).unwrap_err()), (1, "封鎖者不存在".to_string()));
    let p = block::BlockPayload { blocker_id: a, blocked_id: 99 };
    assert_eq!(msg(block::block(&mut db, &p).unwrap_err()), (1, "被封鎖者不存在".to_string()));
    let p = block::BlockPayload { blocker_id: a, blocked_id: a };
    assert_eq!(msg(block::block(&mut db, &p).unwrap_err()), (2, "不能封鎖自己".to_string()));
    assert_eq!(msg(block::unblock(&mut db, &p).unwrap_err()), (1, "封鎖記錄不存在".to_string()));
}

#[test]
fn owners_only_change_their_shop_and_products() {
    let mut db = fresh();
    let a = create_user(&mut db, "a", "A", None).unwrap();
    let b = create_user(&mut db, "b", "B", None).unwrap();
    let s = shop::open(&mut db, &shop::OpenShopBody { user_id: a, name: "S".to_string(), description: None }).unwrap();
    let body = product::AddProductBody { user_id: b, name: "P".to_string(), price: 10, stock: 0, description: None };
    assert_eq!(msg(product::add(&mut db, s.id, &body).unwrap_err()), (0, "這不是你的商店".to_string()));
    let body = product::AddProductBody { user_id: a, name: "P".to_string(), price: 10, stock: 0, description: None };
    assert_eq!(msg(product::add(&mut db, 42, &body).unwrap_err()), (1, "商店不存在".to_string()));
    let p = product::add(&mut db, s.id, &body).unwrap();
    let edit = product::UpdateProductBody { user_id: b, name: None, price: Some(1), stock: None, description: None };
    assert_eq!(msg(product::update(&mut db, p.id, &edit).unwrap_err()), (0, "這不是你的商品".to_string()));
    let edit = product::UpdateProductBody { user_id: a, name: None, price: Some(12), stock: Some(3), description: None };
    let q = product::update(&mut db, p.id, &edit).unwrap();
    assert_eq!((q.price, q.stock, q.name.as_str()), (12, 3, "P"));
    let upd = shop::UpdateShopBody { user_id: a, name: Some("S2".to_string()), description: None };
    assert_eq!(shop::update(&mut db, s.id, &upd).unwrap().name, "S2");
    let upd = shop::UpdateShopBody { user_id: b, name: Some("X".to_string()), description: None };
    assert_eq!(msg(shop::update(&mut db, s.id, &upd).unwrap_err()), (0, "這不是你的商店".to_string()));
    assert_eq!(msg(product::remove(&mut db, p.id, &product::RemoveProductBody { user_id: b }).unwrap_err()).0, 0);
    assert!(product::remove(&mut db, p.id, &product::RemoveProductBody { user_id: a }).is_ok());
    assert_eq!(msg(product::get(&db, p.id).unwrap_err()), (1, "商品不存在".to_string()));
    assert_eq!(msg(shop::my_shop(&db, &shop::GetByUser { user_id: b }).unwrap_err()), (1, "該使用者沒有商店".to_string()));
}

#[test]
fn orders_and_cart_through_the_handlers() {
    let mut db = fresh();
    let a = create_user(&mut db, "a", "A", None).unwrap();
    let b = create_user(&mut db, "b", "B", None).unwrap();
    let s = shop::open(&mut db, &shop::OpenShopBody { user_id: a, name: "S".to_string(), description: None }).unwrap();
    let p = product::add(&mut db, s.id, &product::AddProductBody { user_id: a, name: "P".to_string(), price: 7, stock: 5, description: None }).unwrap();
    let body = order::CreateOrderBody { buyer_id: b, product_id: p.id, quantity: order::default_quantity() };
    assert!(order_total_ok(&db, p.id, body.quantity));
    let o = order::create(&mut db, &body).unwrap();
    assert_eq!((o.quantity, o.total_price), (1, 7));
    assert_eq!(order::get(&db, o.id, &order::GetOrderQuery { user_id: b }).unwrap().id, o.id);
    assert_eq!(msg(order::get(&db, o.id, &order::GetOrderQuery { user_id: a }).unwrap_err()), (0, "這不是你的訂單".to_string()));
    assert_eq!(msg(order::get(&db, 99, &order::GetOrderQuery { user_id: a }).unwrap_err()), (1, "訂單不存在".to_string()));
    let big = order::CreateOrderBody { buyer_id: b, product_id: p.id, quantity: 9 };
    assert_eq!(msg(order::create(&mut db, &big).unwrap_err()), (0, "庫存不足（剩 4）".to_string()));

    let add = cart::AddBody { user_id: b, product_id: p.id, quantity: cart::default_qty() };
    assert_eq!(add.quantity, 1);
    cart::add(&mut db, &add).unwrap();
    assert_eq!(cart::count(&db, &cart::CountQuery { user_id: b }).unwrap(), 1);
    let item = cart::list(&db, &cart::ListQuery { user_id: b }).unwrap()[0].id;
    assert!(cart::update_quantity(&mut db, item, &cart::UpdateQtyBody { user_id: b, quantity: 3 }).is_ok());
    assert_eq!(cart::count(&db, &cart::CountQuery { user_id: b }).unwrap(), 3);
    assert_eq!(msg(cart::remove(&mut db, item, &cart::RemoveBody { user_id: a }).unwrap_err()), (1, "購物車項目不存在".to_string()));
    let ids = cart::checkout(&mut db, &cart::CheckoutBody { user_id: b }).unwrap();
    assert_eq!(ids.len(), 1);
    assert_eq!(msg(cart::checkout(&mut db, &cart::CheckoutBody { user_id: b }).unwrap_err()), (0, "購物車是空的".to_string()));
}

#[test]
fn posts_and_users_through_the_handlers() {
    let mut db = fresh();
    let u = user::create(&mut db, &user::CreatePayload { username: "a".to_string(), display_name: "A".to_string(), bio: None }).unwrap();
    let p = post::create(&mut db, &post::CreatePayload { user_id: u.id, content: "hi".to_string() }).unwrap();
    let r = post::reply(&mut db, p.id, &post::ReplyPayload { user_id: u.id, content: "re".to_string() }).unwrap();
    assert_eq!(r.parent_id, Some(p.id));
    let d = post::get(&db, p.id).unwrap();
    assert_eq!(d.post.replies_count, 1);
    assert_eq!(d.replies.len(), 1);
    assert_eq!(msg(post::get(&db, 5).unwrap_err()), (1, "貼文 #5 不存在".to_string()));
    assert_eq!(msg(post::reply(&mut db, 5, &post::ReplyPayload { user_id: u.id, content: "x".to_string() }).unwrap_err()), (1, "貼文 #5 不存在".to_string()));
    let ghost = post::create(&mut db, &post::CreatePayload { user_id: 77, content: "who".to_string() });
    assert_eq!(msg(ghost.unwrap_err()), (2, "建立後查詢失敗".to_string()));
    let page = post::list(&db, &post::ListParams { user_id: None, limit: None, offset: None });
    assert_eq!(page.len(), 1);
    assert_eq!(user::timeline(&db, u.id).len(), 1);
    let detail = user::get(&db, u.id).unwrap();
    assert_eq!((detail.followers_count, detail.following_count), (0, 0));
    assert_eq!(msg(user::get(&db, 8).unwrap_err()), (1, "使用者 #8 不存在".to_string()));
    let up = user::update(&mut db, u.id, &user::UpdatePayload { display_name: Some("Z".to_string()), bio: None }).unwrap();
    assert_eq!(up.display_name, "Z");
    assert!(post::delete(&mut db, p.id).is_ok());
    assert!(user::delete(&mut db, u.id).is_ok());
    assert_eq!(msg(user::delete(&mut db, u.id).unwrap_err()), (1, format!("使用者 #{} 不存在", u.id)));
}
