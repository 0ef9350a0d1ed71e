use vstd::prelude::*;
use crate::db::Database;
use crate::model::interest::{Interest, interest_of, list_interests, tag_le};
use crate::model::profile::{Profile, get_profile, profile_upserted, upsert_profile};
use crate::seqs::lookup;
use crate::text::dup_opt;
use crate::web::error::{AppError, AppErrorView, fails_with, not_found};
use vstd::relations::sorted_by;

verus! {

/// The fields of a profile to save.
#[derive(Clone, Debug)]
pub struct ProfileUpdate {
    pub birthday: Option<String>,
    pub gender: Option<String>,
    pub city: Option<String>,
    pub occupation: Option<String>,
    pub education: Option<String>,
    pub height: Option<i64>,
    pub looking_for: Option<String>,
    pub about_me: Option<String>,
}

/// A profile with the user's interest tags.
#[derive(Clone, Debug)]
pub struct ProfileDetail {
    pub profile: Profile,
    pub tags: Vec<String>,
}

/// The user's profile and interest tags, the tags in order.
pub fn get(db: &Database, user_id: i64) -> (r: Result<ProfileDetail, AppError>)
    ensures
        match lookup(db@.profiles, user_id) {
            None => fails_with(r, AppErrorView::NotFound("該使用者尚無交友資料"@)),
            Some(p) => r matches Ok(d) && d.profile == p && exists|tags: Seq<Interest>|
                #![trigger sorted_by(tags, tag_le())]
                sorted_by(tags, tag_le()) && tags.to_multiset() == db@.interests.filter_map(
                    interest_of(user_id),
                ).to_multiset() && d.tags@.len() == tags.len() && forall|k: int|
                    0 <= k < tags.len() ==> #[trigger] d.tags@[k] == tags[k].tag,
        },
{
    let profile = match get_profile(db, user_id) {
        Some(p) => p,
        None => return Err(not_found("該使用者尚無交友資料")),
    };
    let interests = list_interests(db, user_id);
    let mut tags: Vec<String> = Vec::new();
    let mut i: usize = 0;
    while i < interests.len()
        invariant
            i <= interests@.len(),
            tags@.len() == i,
            forall|k: int| 0 <= k < i ==> #[trigger] tags@[k] == interests@[k].tag,
        decreases interests@.len() - i,
    {
        tags.push(interests[i].tag.clone());
        i = i + 1;
    }
    assert(sorted_by(interests@, tag_le()));
    Ok(ProfileDetail { profile, tags })
}

/// The profile the update saves for the user.
pub open spec fn profile_of_update(user_id: i64, u: ProfileUpdate, now: String) -> Profile {
    Profile {
        user_id: user_id,
        birthday: u.birthday,
        gender: u.gender,
        city: u.city,
        occupation: u.occupation,
        education: u.education,
        height: u.height,
        looking_for: u.looking_for,
        about_me: u.about_me,
        updated_at: now,
    }
}

/// Saves the user's profile.
pub fn update(db: &mut Database, user_id: i64, payload: &ProfileUpdate) -> (r: Result<(), AppError>)
    requires
        old(db).wf(),
    ensures
        final(db).wf(),
        profile_upserted(old(db)@, final(db)@, user_id, profile_of_update(user_id, *payload, old(db)@.now)),
        r == Ok::<(), AppError>(()),
{
    let p = Profile {
        user_id,
        birthday: dup_opt(&payload.birthday),
        gender: dup_opt(&payload.gender),
        city: dup_opt(&payload.city),
        occupation: dup_opt(&payload.occupation),
        education: dup_opt(&payload.education),
        height: payload.height,
        looking_for: dup_opt(&payload.looking_for),
        about_me: dup_opt(&payload.about_me),
        updated_at: String::new(),
    };
    upsert_profile(db, user_id, &p);
    Ok(())
}

} // verus!
