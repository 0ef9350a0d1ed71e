use sms4::db::Database;
use sms4::model::interest::add_interest;
use sms4::model::profile::{get_age, search_profiles, upsert_profile, Profile, ProfileSearch};
use sms4::model::user::create_user;

fn fresh() -> Database {
    Database::new("2026-01-01 00:00:00".to_string())
}

fn profile(birthday: Option<&str>, gender: Option<&str>, city: Option<&str>, height: Option<i64>, about: Option<&str>) -> Profile {
    Profile {
        user_id: 0,
        birthday: birthday.map(|s| s.to_string()),
        gender: gender.map(|s| s.to_string()),
        city: city.map(|s| s.to_string()),
        occupation: Some("Engineer".to_string()),
        education: Some("大學".to_string()),
        height,
        looking_for: Some("friends".to_string()),
        about_me: about.map(|s| s.to_string()),
        updated_at: String::new(),
    }
}

fn empty_search() -> ProfileSearch {
    ProfileSearch {
        gender: None,
        age_min: None,
        age_max: None,
        city: None,
        occupation: None,
        education: None,
        height_min: None,
        height_max: None,
        looking_for: None,
        tags: None,
        q: None,
    }
}

#[test]
fn ages_from_birthdays() {
    assert_eq!(get_age("1990-05-01"), Some(36));
    assert_eq!(get_age("2026-01-01"), Some(0));
    assert_eq!(get_age("+2000-1-1"), Some(26));
    assert_eq!(get_age("1990/05/01"), None);
    assert_eq!(get_age("1990-05"), None);
    assert_eq!(get_age("1990-05-01-02"), None);
    assert_eq!(get_age("abcd-05-01"), None);
    assert_eq!(get_age("-05-01"), None);
    assert_eq!(get_age(""), None);
    assert_eq!(get_age("9223372036854775807-1-1"), Some(2026 - 9223372036854775807));
    assert_eq!(get_age("9223372036854775808-1-1"), None);
}

fn town(db: &mut Database) -> (i64, i64, i64) {
    let a = create_user(db, "ann", "Ann Lee", None).unwrap();
    let b = create_user(db, "ben", "Ben", None).unwrap();
    let c = create_user(db, "cat", "Cat", None).unwrap();
    upsert_profile(db, a, &profile(Some("1990-05-01"), Some("F"), Some("Taipei City"), Some(165), Some("I love hiking")));
    upsert_profile(db, b, &profile(Some("2000-01-01"), Some("M"), Some("Tainan"), Some(180), None));
    (a, b, c)
}

#[test]
fn search_without_criteria_lists_everyone_by_id() {
    let mut db = fresh();
    let (a, b, c) = town(&mut db);
    let r = search_profiles(&db, &empty_search());
    assert_eq!(r.iter().map(|p| p.user_id).collect::<Vec<_>>(), vec![a, b, c]);
    assert_eq!(r[0].age, Some(36));
    assert_eq!(r[1].age, Some(26));
    assert_eq!(r[2].birthday, None);
    assert!(r[0].tags.is_empty());
}

#[test]
fn search_criteria_each_narrow_the_list() {
    let mut db = fresh();
    let (a, b, _c) = town(&mut db);
    let mut s = empty_search();
    s.gender = Some("F".to_string());
    assert_eq!(search_profiles(&db, &s).iter().map(|p| p.user_id).collect::<Vec<_>>(), vec![a]);

    let mut s = empty_search();
    s.city = Some("tai".to_string());
    assert_eq!(search_profiles(&db, &s).len(), 2);
    s.city = Some("taipei".to_string());
    assert_eq!(search_profiles(&db, &s).iter().map(|p| p.user_id).collect::<Vec<_>>(), vec![a]);

    let mut s = empty_search();
    s.height_min = Some(170);
    assert_eq!(search_profiles(&db, &s).iter().map(|p| p.user_id).collect::<Vec<_>>(), vec![b]);
    s.height_max = Some(175);
    assert!(search_profiles(&db, &s).is_empty());

    let mut s = empty_search();
    s.age_max = Some(30);
    assert_eq!(search_profiles(&db, &s).iter().map(|p| p.user_id).collect::<Vec<_>>(), vec![b]);
    let mut s = empty_search();
    s.age_min = Some(30);
    assert_eq!(search_profiles(&db, &s).iter().map(|p| p.user_id).collect::<Vec<_>>(), vec![a]);

    let mut s = empty_search();
    s.q = Some("HIKING".to_string());
    assert_eq!(search_profiles(&db, &s).iter().map(|p| p.user_id).collect::<Vec<_>>(), vec![a]);
    s.q = Some("cat".to_string());
    assert_eq!(search_profiles(&db, &s).len(), 1);
    s.q = Some("e_".to_string());
    assert_eq!(search_profiles(&db, &s).len(), 2);
}

#[test]
fn search_by_tags_shows_all_tags_of_the_match() {
    let mut db = fresh();
    let (a, b, c) = town(&mut db);
    add_interest(&mut db, a, "hiking").unwrap();
    add_interest(&mut db, a, "coffee").unwrap();
    add_interest(&mut db, c, "chess").unwrap();
    let mut s = empty_search();
    s.tags = Some(" coffee , ,chess,".to_string());
    let r = search_profiles(&db, &s);
    assert_eq!(r.iter().map(|p| p.user_id).collect::<Vec<_>>(), vec![a, c]);
    assert_eq!(r[0].tags, vec!["hiking".to_string(), "coffee".to_string()]);
    assert_eq!(r[1].tags, vec!["chess".to_string()]);
    s.tags = Some(" , ".to_string());
    assert_eq!(search_profiles(&db, &s).len(), 3);
    s.tags = Some("Coffee".to_string());
    assert!(search_profiles(&db, &s).is_empty());
    let _ = b;
}

#[test]
fn birth_year_is_read_from_the_first_four_characters() {
    let mut db = fresh();
    let d = create_user(&mut db, "dan", "Dan", None).unwrap();
    let e = create_user(&mut db, "eve", "Eve", None).unwrap();
    upsert_profile(&mut db, d, &profile(Some(" 1999-01-01"), None, None, None, None));
    upsert_profile(&mut db, e, &profile(Some("19x9-01-01"), None, None, None, None));
    let mut s = empty_search();
    s.age_min = Some(2000);
    assert_eq!(search_profiles(&db, &s).iter().map(|p| p.user_id).collect::<Vec<_>>(), vec![e]);
    s.age_min = Some(2026 - 199);
    assert_eq!(search_profiles(&db, &s).iter().map(|p| p.user_id).collect::<Vec<_>>(), vec![d, e]);
    s.age_min = Some(2026 - 19);
    assert_eq!(search_profiles(&db, &s).iter().map(|p| p.user_id).collect::<Vec<_>>(), vec![e]);
    s.age_min = Some(2026 - 18);
    assert!(search_profiles(&db, &s).is_empty());
}
