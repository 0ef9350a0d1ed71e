use sms4::db::Database;
use sms4::model::shop::open_shop;
use sms4::model::shop_message::{list_for_shop, send};
use sms4::model::user::create_user;

fn fresh() -> Database {
    Database::new("2026-01-01 00:00:00".to_string())
}

#[test]
fn shop_message_test_send_and_list() {
    let mut db = fresh();
    let uid1 = create_user(&mut db, "alice", "Alice", None).unwrap();
    let uid2 = create_user(&mut db, "bob", "Bob", None).unwrap();
    let s = open_shop(&mut db, uid1, "Alice 的小店", None).unwrap();

    let msg = send(&mut db, s.id, uid2, uid1, "請問有營業嗎？").unwrap();
    assert_eq!(msg.content, "請問有營業嗎？");

    let reply = send(&mut db, s.id, uid1, uid2, "有的，每天 10-20").unwrap();
    assert_eq!(reply.content, "有的，每天 10-20");

    let msgs = list_for_shop(&db, s.id, uid2, uid1);
    assert_eq!(msgs.len(), 2);
}
