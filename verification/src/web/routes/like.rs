use vstd::prelude::*;
use crate::db::Database;
use crate::error::ModelError;
use crate::model::like::{like_done, like_post, like_withdrawn, likes, unlike_post};
use crate::web::error::{AppError, AppErrorView, fails_with, internal, not_found, passes_on};

verus! {

/// A like of a post by a user.
#[derive(Clone, Debug)]
pub struct LikePayload {
    pub user_id: i64,
    pub post_id: i64,
}

/// Likes the post; answers true for a new like and false when the user liked it
/// already.
pub fn like(db: &mut Database, payload: &LikePayload) -> (r: Result<bool, AppError>)
    requires
        old(db).wf(),
    ensures
        final(db).wf(),
        exists|mr: Result<bool, ModelError>|
            #[trigger] like_done(old(db)@, final(db)@, mr, payload.user_id, payload.post_id)
                && passes_on(mr, r),
{
    let ghost old_db = db@;
    let mr = like_post(db, payload.user_id, payload.post_id);
    assert(like_done(old_db, db@, mr, payload.user_id, payload.post_id));
    match mr {
        Ok(b) => Ok(b),
        Err(e) => Err(internal(&e)),
    }
}

/// Withdraws the like; refused when there was none.
pub fn unlike(db: &mut Database, payload: &LikePayload) -> (r: Result<(), AppError>)
    requires
        old(db).wf(),
    ensures
        final(db).wf(),
        like_withdrawn(
            old(db)@,
            final(db)@,
            likes(old(db)@, payload.user_id, payload.post_id),
            payload.user_id,
            payload.post_id,
        ),
        likes(old(db)@, payload.user_id, payload.post_id) ==> r == Ok::<(), AppError>(()),
        !likes(old(db)@, payload.user_id, payload.post_id) ==> fails_with(
            r,
            AppErrorView::NotFound("尚未按讚"@),
        ),
{
    if unlike_post(db, payload.user_id, payload.post_id) {
        Ok(())
    } else {
        Err(not_found("尚未按讚"))
    }
}

} // verus!
