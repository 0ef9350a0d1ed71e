use sms4::db::Database;
use sms4::error::ModelError;
use sms4::model::follow::{follow_user, list_followers};
use sms4::model::like::{like_post, unlike_post};
use sms4::model::message::{list_conversations, list_messages, send_message};
use sms4::model::post::{create_post, get_post, get_timeline, list_posts, list_replies};
use sms4::model::user::create_user;

fn at(time: &str) -> Database {
    Database::new(time.to_string())
}

#[test]
fn timeline_follows_the_stamps_when_the_clock_steps_back() {
    let mut db = at("2024-01-02 00:00:00");
    let u = create_user(&mut db, "u", "U", None).unwrap();
    let first = create_post(&mut db, u, "later stamp", None).unwrap();
    db.set_clock("2024-01-01 00:00:00".to_string());
    let second = create_post(&mut db, u, "earlier stamp", None).unwrap();
    let ids: Vec<i64> = get_timeline(&db, u, 10, 0).iter().map(|p| p.id).collect();
    assert_eq!(ids, vec![first, second]);
    let ids: Vec<i64> = list_posts(&db, None, 10, 0).iter().map(|p| p.id).collect();
    assert_eq!(ids, vec![first, second]);
}

#[test]
fn posts_stamped_alike_come_latest_made_first() {
    let mut db = at("2024-01-01 00:00:00");
    let u = create_user(&mut db, "u", "U", None).unwrap();
    let a = create_post(&mut db, u, "a", None).unwrap();
    let b = create_post(&mut db, u, "b", None).unwrap();
    let ids: Vec<i64> = get_timeline(&db, u, 10, 0).iter().map(|p| p.id).collect();
    assert_eq!(ids, vec![b, a]);
}

#[test]
fn replies_come_earliest_stamped_first() {
    let mut db = at("2024-01-05 00:00:00");
    let u = create_user(&mut db, "u", "U", None).unwrap();
    let p = create_post(&mut db, u, "root", None).unwrap();
    let r1 = create_post(&mut db, u, "r1", Some(p)).unwrap();
    db.set_clock("2024-01-03 00:00:00".to_string());
    let r2 = create_post(&mut db, u, "r2", Some(p)).unwrap();
    let ids: Vec<i64> = list_replies(&db, p).iter().map(|x| x.id).collect();
    assert_eq!(ids, vec![r2, r1]);
}

#[test]
fn messages_and_conversations_follow_the_stamps() {
    let mut db = at("2024-02-02 00:00:00");
    let a = create_user(&mut db, "a", "A", None).unwrap();
    let b = create_user(&mut db, "b", "B", None).unwrap();
    let c = create_user(&mut db, "c", "C", None).unwrap();
    let m1 = send_message(&mut db, a, b, "first").unwrap();
    db.set_clock("2024-02-01 00:00:00".to_string());
    let m2 = send_message(&mut db, b, a, "second").unwrap();
    send_message(&mut db, a, c, "to c").unwrap();
    let ids: Vec<i64> = list_messages(&db, a, b).iter().map(|m| m.id).collect();
    assert_eq!(ids, vec![m2, m1]);
    let others: Vec<i64> = list_conversations(&db, a).iter().map(|c| c.other_user_id).collect();
    // both conversations end with a message stamped 2024-02-01; the later sent comes first
    assert_eq!(others, vec![c, b]);
}

#[test]
fn followers_follow_the_stamps() {
    let mut db = at("2024-03-03 00:00:00");
    let a = create_user(&mut db, "a", "A", None).unwrap();
    let b = create_user(&mut db, "b", "B", None).unwrap();
    let c = create_user(&mut db, "c", "C", None).unwrap();
    follow_user(&mut db, b, a).unwrap();
    db.set_clock("2024-03-01 00:00:00".to_string());
    follow_user(&mut db, c, a).unwrap();
    let ids: Vec<i64> = list_followers(&db, a).iter().map(|u| u.id).collect();
    assert_eq!(ids, vec![b, c]);
}

#[test]
fn like_counts_match_the_likes() {
    let mut db = at("2024-01-01 00:00:00");
    let a = create_user(&mut db, "a", "A", None).unwrap();
    let b = create_user(&mut db, "b", "B", None).unwrap();
    let p = create_post(&mut db, a, "p", None).unwrap();
    assert_eq!(like_post(&mut db, a, p), Ok(true));
    assert_eq!(like_post(&mut db, b, p), Ok(true));
    assert_eq!(like_post(&mut db, b, p), Ok(false));
    assert_eq!(get_post(&db, p).unwrap().likes_count, 2);
    assert_eq!(db.likes.iter().filter(|l| l.post_id == p).count(), 2);
    assert!(unlike_post(&mut db, a, p));
    assert!(!unlike_post(&mut db, a, p));
    assert_eq!(get_post(&db, p).unwrap().likes_count, 1);
    assert_eq!(db.likes.iter().filter(|l| l.post_id == p).count(), 1);
}

#[test]
fn well_formedness_is_checked() {
    let mut db = at("2024-01-01 00:00:00");
    assert!(db.check_wf());
    create_user(&mut db, "a", "A", None).unwrap();
    create_user(&mut db, "b", "B", None).unwrap();
    assert!(db.check_wf());
    db.users[1].username = "a".to_string();
    assert!(!db.check_wf());
    db.users[1].username = "b".to_string();
    db.next_user_id = 2;
    assert!(!db.check_wf());
}

#[test]
fn a_hasher_failure_shows_the_hasher_message() {
    let e = ModelError::HashFailed("Invalid hash: the hash format is malformed".to_string());
    assert_eq!(e.message(), "Invalid hash: the hash format is malformed");
}
