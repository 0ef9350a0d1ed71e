use vstd::prelude::*;
use crate::seqs::by_stamp;
use crate::db::Database;
use crate::error::{ModelError, decimal};
use crate::model::follow::{Follow, follow_by, follow_of};
use crate::model::post::{PostWithUser, get_timeline, timeline_of};
use crate::model::user::{
    User, create_user, delete_user, get_followers_count, get_following_count, get_user,
    law_created_user_found, opt_str_view, update_user, user_by_id, user_created, user_deleted,
    user_edited, user_of,
};
use crate::seqs::{count_where, lemma_lookup_position, lemma_lookup_unique, lookup, newest_first, page, position};
use crate::web::error::{AppError, AppErrorView, fails_with, internal, internal_text, not_found_numbered, ok_if};

verus! {

/// A user search.
#[derive(Clone, Debug)]
pub struct ListParams {
    pub search: Option<String>,
}

/// An account to create.
#[derive(Clone, Debug)]
pub struct CreatePayload {
    pub username: String,
    pub display_name: String,
    pub bio: Option<String>,
}

/// The fields of an account to change.
#[derive(Clone, Debug)]
pub struct UpdatePayload {
    pub display_name: Option<String>,
    pub bio: Option<String>,
}

/// An account with its follower counts.
#[derive(Clone, Debug)]
pub struct UserDetail {
    pub id: i64,
    pub username: String,
    pub display_name: String,
    pub bio: Option<String>,
    pub avatar: Option<String>,
    pub followers_count: i64,
    pub following_count: i64,
    pub created_at: String,
    pub updated_at: String,
}

/// The message for a missing account.
pub open spec fn user_missing(id: i64) -> AppErrorView {
    AppErrorView::NotFound("使用者 #"@ + decimal(id as int) + " 不存在"@)
}

/// The text an optional string holds.
pub open spec fn opt_text(o: Option<String>) -> Option<Seq<char>> {
    match o {
        Some(s) => Some(s@),
        None => None,
    }
}

fn as_opt_str(o: &Option<String>) -> (r: Option<&str>)
    ensures
        opt_str_view(r) == opt_text(*o),
{
    match o {
        Some(s) => Some(s.as_str()),
        None => None,
    }
}

/// The account with its follower counts.
pub fn get(db: &Database, id: i64) -> (r: Result<UserDetail, AppError>)
    requires
        db.wf(),
    ensures
        match user_by_id(db@.users, id) {
            None => fails_with(r, user_missing(id)),
            Some(u) => r matches Ok(d) && d == (UserDetail {
                id: u.id,
                username: u.username,
                display_name: u.display_name,
                bio: u.bio,
                avatar: u.avatar,
                followers_count: count_where(db@.follows, follow_of(id)) as i64,
                following_count: count_where(db@.follows, follow_by(id)) as i64,
                created_at: u.created_at,
                updated_at: u.updated_at,
            }),
        },
{
    let u = match get_user(db, id) {
        Some(u) => u,
        None => return Err(not_found_numbered("使用者 #", id, " 不存在")),
    };
    let followers = get_followers_count(db, id);
    let following = get_following_count(db, id);
    Ok(UserDetail {
        id: u.id,
        username: u.username,
        display_name: u.display_name,
        bio: u.bio,
        avatar: u.avatar,
        followers_count: followers,
        following_count: following,
        created_at: u.created_at,
        updated_at: u.updated_at,
    })
}

/// Creates the account; answers with it.
pub fn create(db: &mut Database, payload: &CreatePayload) -> (r: Result<User, AppError>)
    requires
        old(db).wf(),
    ensures
        final(db).wf(),
        exists|mr: Result<i64, ModelError>|
            #[trigger] user_created(
                old(db)@,
                final(db)@,
                mr,
                payload.username@,
                payload.display_name@,
                opt_text(payload.bio),
                None,
            ) && match mr {
                Err(e) => fails_with(r, AppErrorView::Internal(e.text())),
                Ok(id) => r == Ok::<User, AppError>(user_of(final(db)@.users.last())),
            },
{
    let ghost old_db = db@;
    let mr = create_user(db, payload.username.as_str(), payload.display_name.as_str(), as_opt_str(&payload.bio));
    assert(user_created(old_db, db@, mr, payload.username@, payload.display_name@, opt_text(payload.bio), None));
    let id = match mr {
        Ok(id) => id,
        Err(e) => return Err(internal(&e)),
    };
    proof {
        law_created_user_found(old_db, db@, mr, payload.username@, payload.display_name@, opt_text(payload.bio), None);
    }
    match get_user(db, id) {
        Some(u) => Ok(u),
        None => Err(internal_text("建立後查詢失敗")),
    }
}

/// Changes the account; answers with the account as it is now, or refuses when
/// there is none with this id.
pub fn update(db: &mut Database, id: i64, payload: &UpdatePayload) -> (r: Result<User, AppError>)
    requires
        old(db).wf(),
    ensures
        final(db).wf(),
        user_edited(
            old(db)@,
            final(db)@,
            lookup(old(db)@.users, id) is Some,
            id,
            opt_text(payload.display_name),
            opt_text(payload.bio),
        ),
        lookup(old(db)@.users, id) is None ==> fails_with(r, user_missing(id)),
        lookup(old(db)@.users, id) is Some ==> (user_by_id(final(db)@.users, id) matches Some(u) && r
            == Ok::<User, AppError>(u)),
{
    let ghost old_db = db@;
    let found = update_user(db, id, as_opt_str(&payload.display_name), as_opt_str(&payload.bio));
    if !found {
        return Err(not_found_numbered("使用者 #", id, " 不存在"));
    }
    proof {
        lemma_lookup_position(old_db.users, id);
        lemma_lookup_unique(db@.users, position(old_db.users, id));
    }
    match get_user(db, id) {
        Some(u) => Ok(u),
        None => Err(internal_text("更新後查詢失敗")),
    }
}

/// Deletes the account; refused when there is none with this id.
pub fn delete(db: &mut Database, id: i64) -> (r: Result<(), AppError>)
    requires
        old(db).wf(),
    ensures
        final(db).wf(),
        exists|found: bool| #[trigger] user_deleted(old(db)@, final(db)@, found, id) && ok_if(found, r, user_missing(id)),
{
    let ghost old_db = db@;
    let found = delete_user(db, id);
    assert(user_deleted(old_db, db@, found, id));
    if found {
        Ok(())
    } else {
        Err(not_found_numbered("使用者 #", id, " 不存在"))
    }
}

/// The first 50 posts of the user's timeline.
pub fn timeline(db: &Database, id: i64) -> (r: Vec<PostWithUser>)
    ensures
        r@ == page(newest_first(by_stamp(db@.posts, false), timeline_of(db@.users, db@.follows, id)), 50, 0),
{
    get_timeline(db, id, 50, 0)
}

} // verus!
