use sms4::db::{get_password_hash, set_password, Database};
use sms4::error::ModelError;
use sms4::model::auth::{
    check_credentials, get_user_by_token, login, logout, open_session, password_verdict, register,
};
use sms4::model::block::{block_user, either_blocked, unblock_user};
use sms4::model::cart;
use sms4::model::follow::{follow_user, unfollow_user};
use sms4::model::group;
use sms4::model::like::{like_post, unlike_post};
use sms4::model::message::{get_unread_count, list_messages, mark_read, send_message};
use sms4::model::order::{create_order, get_order};
use sms4::model::post::{create_post, delete_post, get_post};
use sms4::model::product::{add_product, get_product};
use sms4::model::profile::{get_profile, upsert_profile, Profile};
use sms4::model::shop::{close_shop, get_shop_by_user, open_shop};
use sms4::model::user::{create_user, delete_user, get_followers_count, get_following_count, get_user};

fn fresh() -> Database {
    Database::new("2026-01-01 00:00:00".to_string())
}

#[test]
fn registered_password_passes_check_and_hash_is_not_the_password() {
    let mut db = fresh();
    let id = register(&mut db, "zoe", "hunter22", "Zoe").unwrap();
    assert_eq!(check_credentials(&db, "zoe", "hunter22").unwrap(), id);
    assert_eq!(check_credentials(&db, "zoe", "hunter23"), Err(ModelError::InvalidCredentials));
    assert_eq!(check_credentials(&db, "nobody", "hunter22"), Err(ModelError::InvalidCredentials));
    let hash = get_password_hash(&db, id).unwrap();
    assert_eq!(hash.chars().count(), 60);
    assert_ne!(hash, "hunter22");
}

#[test]
fn login_token_names_the_user_and_logout_revokes_it() {
    let mut db = fresh();
    let id = register(&mut db, "amy", "pw1234", "Amy").unwrap();
    let t1 = login(&mut db, "amy", "pw1234").unwrap();
    assert_eq!(t1.chars().count(), 36);
    assert_ne!(t1, "pw1234");
    let t2 = login(&mut db, "amy", "pw1234").unwrap();
    assert_ne!(t1, t2);
    assert_eq!(get_user_by_token(&db, &t1), Some(id));
    assert_eq!(get_user_by_token(&db, &t2), Some(id));
    assert!(logout(&mut db, &t1));
    assert_eq!(get_user_by_token(&db, &t1), None);
    assert_eq!(get_user_by_token(&db, &t2), Some(id));
    assert!(!logout(&mut db, &t1));
}

#[test]
fn account_without_password_cannot_log_in() {
    let mut db = fresh();
    create_user(&mut db, "nopw", "No Password", None).unwrap();
    assert_eq!(login(&mut db, "nopw", "anything"), Err(ModelError::InvalidCredentials));
    assert!(db.sessions.is_empty());
}

#[test]
fn malformed_stored_hash_fails_the_check() {
    let mut db = fresh();
    let id = create_user(&mut db, "odd", "Odd", None).unwrap();
    set_password(&mut db, id, "not-a-bcrypt-hash");
    assert_eq!(get_password_hash(&db, id).unwrap(), "not-a-bcrypt-hash");
    assert_eq!(
        login(&mut db, "odd", "x"),
        Err(ModelError::HashFailed(
            "Invalid hash: the hash format is malformed; expected 60 ASCII bytes".to_string()
        ))
    );
}

#[test]
fn password_verdict_for_each_answer() {
    assert_eq!(password_verdict(7, Ok(true)), Ok(7));
    assert_eq!(password_verdict(7, Ok(false)), Err(ModelError::InvalidCredentials));
    assert_eq!(
        password_verdict(7, Err("hasher broke".to_string())),
        Err(ModelError::HashFailed("hasher broke".to_string()))
    );
}

#[test]
fn a_token_in_use_is_refused() {
    let mut db = fresh();
    let id = create_user(&mut db, "tok", "Tok", None).unwrap();
    assert_eq!(open_session(&mut db, id, "abc".to_string()), Ok("abc".to_string()));
    assert_eq!(open_session(&mut db, id, "abc".to_string()), Err(ModelError::TokenTaken));
    assert_eq!(db.sessions.len(), 1);
}

#[test]
fn follow_counts_go_up_once_and_back_down() {
    let mut db = fresh();
    let a = create_user(&mut db, "a", "A", None).unwrap();
    let b = create_user(&mut db, "b", "B", None).unwrap();
    follow_user(&mut db, a, b).unwrap();
    follow_user(&mut db, a, b).unwrap();
    assert_eq!(get_followers_count(&db, b), 1);
    assert_eq!(get_following_count(&db, a), 1);
    assert_eq!(get_followers_count(&db, a), 0);
    assert!(unfollow_user(&mut db, a, b));
    assert_eq!(get_followers_count(&db, b), 0);
    assert!(!unfollow_user(&mut db, a, b));
    assert_eq!(follow_user(&mut db, a, a), Err(ModelError::CannotFollowSelf));
}

#[test]
fn block_is_seen_both_ways_until_lifted() {
    let mut db = fresh();
    let a = create_user(&mut db, "a", "A", None).unwrap();
    let b = create_user(&mut db, "b", "B", None).unwrap();
    assert!(!either_blocked(&db, a, b));
    block_user(&mut db, b, a).unwrap();
    assert!(either_blocked(&db, a, b));
    assert!(unblock_user(&mut db, b, a));
    assert!(!either_blocked(&db, b, a));
    assert_eq!(block_user(&mut db, a, a), Err(ModelError::CannotBlockSelf));
}

#[test]
fn like_count_follows_likes() {
    let mut db = fresh();
    let a = create_user(&mut db, "a", "A", None).unwrap();
    let b = create_user(&mut db, "b", "B", None).unwrap();
    let p = create_post(&mut db, a, "hi", None).unwrap();
    assert_eq!(like_post(&mut db, a, p), Ok(true));
    assert_eq!(like_post(&mut db, b, p), Ok(true));
    assert_eq!(get_post(&db, p).unwrap().likes_count, 2);
    assert!(unlike_post(&mut db, a, p));
    assert_eq!(get_post(&db, p).unwrap().likes_count, 1);
    assert!(!unlike_post(&mut db, a, p));
    assert_eq!(get_post(&db, p).unwrap().likes_count, 1);
}

#[test]
fn cart_quantities_accumulate_and_checkout_empties_the_cart() {
    let mut db = fresh();
    let seller = create_user(&mut db, "s", "S", None).unwrap();
    let buyer = create_user(&mut db, "b", "B", None).unwrap();
    let shop = open_shop(&mut db, seller, "Shop", None).unwrap();
    let tea = add_product(&mut db, shop.id, "茶", 100, 10, None).unwrap();
    let cup = add_product(&mut db, shop.id, "杯", 50, 10, None).unwrap();
    assert_eq!(cart::add(&mut db, buyer, tea.id, 1).unwrap().quantity, 1);
    assert_eq!(cart::add(&mut db, buyer, tea.id, 4).unwrap().quantity, 5);
    cart::add(&mut db, buyer, cup.id, 2).unwrap();
    assert_eq!(cart::count(&db, buyer), Ok(7));
    let items = cart::list(&db, buyer).unwrap();
    assert_eq!(items.len(), 2);
    assert_eq!(items[0].product_id, cup.id);
    assert_eq!(items[1].total_price, 500);
    let ids = cart::checkout(&mut db, buyer).unwrap();
    assert_eq!(ids.len(), 2);
    assert!(cart::list(&db, buyer).unwrap().is_empty());
    assert_eq!(cart::count(&db, buyer), Ok(0));
    assert_eq!(get_order(&db, ids[0]).unwrap().product_id, cup.id);
    assert_eq!(get_order(&db, ids[1]).unwrap().total_price, 500);
    assert_eq!(get_product(&db, tea.id).unwrap().stock, 5);
    assert_eq!(get_product(&db, cup.id).unwrap().stock, 8);
}

#[test]
fn checkout_stops_at_the_first_item_that_cannot_be_ordered() {
    let mut db = fresh();
    let seller = create_user(&mut db, "s", "S", None).unwrap();
    let buyer = create_user(&mut db, "b", "B", None).unwrap();
    let shop = open_shop(&mut db, seller, "Shop", None).unwrap();
    let tea = add_product(&mut db, shop.id, "茶", 100, 3, None).unwrap();
    cart::add(&mut db, buyer, tea.id, 3).unwrap();
    create_order(&mut db, seller, tea.id, 2).unwrap();
    assert_eq!(
        cart::checkout(&mut db, buyer),
        Err(ModelError::OutOfStock { name: "茶".to_string(), stock: 1 })
    );
    assert_eq!(cart::list(&db, buyer).unwrap().len(), 1);
}

#[test]
fn orders_take_stock_and_price_it() {
    let mut db = fresh();
    let seller = create_user(&mut db, "s", "S", None).unwrap();
    let shop = open_shop(&mut db, seller, "Shop", None).unwrap();
    let p = add_product(&mut db, shop.id, "豆", 299, 10, None).unwrap();
    let o = create_order(&mut db, seller, p.id, 3).unwrap();
    assert_eq!(o.total_price, 897);
    assert_eq!(get_product(&db, p.id).unwrap().stock, 7);
    assert_eq!(
        create_order(&mut db, seller, p.id, 8).unwrap_err(),
        ModelError::InsufficientStock { product_id: p.id, stock: 7 }
    );
    assert_eq!(create_order(&mut db, seller, p.id, 0).unwrap_err(), ModelError::QuantityNotPositive);
    assert_eq!(create_order(&mut db, seller, 999, 1).unwrap_err(), ModelError::ProductNotFound(999));
}

#[test]
fn opening_a_conversation_reads_it() {
    let mut db = fresh();
    let a = create_user(&mut db, "a", "A", None).unwrap();
    let b = create_user(&mut db, "b", "B", None).unwrap();
    let c = create_user(&mut db, "c", "C", None).unwrap();
    send_message(&mut db, b, a, "1").unwrap();
    send_message(&mut db, b, a, "2").unwrap();
    send_message(&mut db, c, a, "3").unwrap();
    assert_eq!(get_unread_count(&db, a), 3);
    mark_read(&mut db, a, b);
    assert_eq!(get_unread_count(&db, a), 1);
    let msgs = list_messages(&db, a, b);
    assert_eq!(msgs.len(), 2);
    assert!(msgs.iter().all(|m| m.read == 1));
}

#[test]
fn deleted_things_are_gone() {
    let mut db = fresh();
    let a = create_user(&mut db, "a", "A", None).unwrap();
    let p = create_post(&mut db, a, "x", None).unwrap();
    assert!(delete_post(&mut db, p));
    assert!(get_post(&db, p).is_none());
    assert!(!delete_post(&mut db, p));
    open_shop(&mut db, a, "Shop", None).unwrap();
    assert!(close_shop(&mut db, a));
    assert!(get_shop_by_user(&db, a).is_none());
    assert!(delete_user(&mut db, a));
    assert!(get_user(&db, a).is_none());
}

#[test]
fn saved_profile_reads_back_with_the_clock() {
    let mut db = fresh();
    let a = create_user(&mut db, "a", "A", None).unwrap();
    let p = Profile {
        user_id: 999,
        birthday: Some("1990-02-03".to_string()),
        gender: Some("F".to_string()),
        city: None,
        occupation: None,
        education: None,
        height: Some(160),
        looking_for: None,
        about_me: None,
        updated_at: String::new(),
    };
    upsert_profile(&mut db, a, &p);
    db.set_clock("2026-02-02 00:00:00".to_string());
    let mut p2 = p.clone();
    p2.height = Some(161);
    upsert_profile(&mut db, a, &p2);
    assert_eq!(db.profiles.len(), 1);
    let got = get_profile(&db, a).unwrap();
    assert_eq!(got.user_id, a);
    assert_eq!(got.height, Some(161));
    assert_eq!(got.updated_at, "2026-02-02 00:00:00");
}

#[test]
fn group_membership_follows_join_and_leave() {
    let mut db = fresh();
    let a = create_user(&mut db, "a", "A", None).unwrap();
    let b = create_user(&mut db, "b", "B", None).unwrap();
    let g = group::create(&mut db, a, "G", None).unwrap();
    assert!(group::is_member(&db, g.id, a));
    assert!(!group::is_member(&db, g.id, b));
    group::join(&mut db, g.id, b).unwrap();
    assert!(group::is_member(&db, g.id, b));
    assert_eq!(group::join(&mut db, g.id, b), Err(ModelError::AlreadyMember));
    assert_eq!(group::leave(&mut db, g.id, b), Ok(true));
    assert!(!group::is_member(&db, g.id, b));
    assert_eq!(group::leave(&mut db, g.id, b), Ok(false));
    assert_eq!(group::leave(&mut db, g.id, a), Err(ModelError::OwnerCannotLeave));
}
