use vstd::prelude::*;
use crate::db::Database;
use crate::error::ModelError;
use crate::model::follow::{follow_done, follow_ended, follow_user, follows, unfollow_user};
use crate::web::error::{AppError, AppErrorView, bad_request, fails_with, not_found, refused_as_bad};

verus! {

/// A follow of one user by another.
#[derive(Clone, Debug)]
pub struct FollowPayload {
    pub follower_id: i64,
    pub followee_id: i64,
}

/// Follows; the store's refusal is a bad request.
pub fn follow(db: &mut Database, payload: &FollowPayload) -> (r: Result<(), AppError>)
    requires
        old(db).wf(),
    ensures
        final(db).wf(),
        exists|mr: Result<(), ModelError>|
            #[trigger] follow_done(old(db)@, final(db)@, mr, payload.follower_id, payload.followee_id)
                && refused_as_bad(mr, r),
{
    let ghost old_db = db@;
    let mr = follow_user(db, payload.follower_id, payload.followee_id);
    assert(follow_done(old_db, db@, mr, payload.follower_id, payload.followee_id));
    match mr {
        Ok(()) => Ok(()),
        Err(e) => Err(bad_request(&e)),
    }
}

/// Unfollows; refused when there was no follow.
pub fn unfollow(db: &mut Database, payload: &FollowPayload) -> (r: Result<(), AppError>)
    requires
        old(db).wf(),
    ensures
        final(db).wf(),
        follow_ended(
            old(db)@,
            final(db)@,
            follows(old(db)@, payload.follower_id, payload.followee_id),
            payload.follower_id,
            payload.followee_id,
        ),
        follows(old(db)@, payload.follower_id, payload.followee_id) ==> r == Ok::<(), AppError>(()),
        !follows(old(db)@, payload.follower_id, payload.followee_id) ==> fails_with(
            r,
            AppErrorView::NotFound("尚無此追蹤關係"@),
        ),
{
    if unfollow_user(db, payload.follower_id, payload.followee_id) {
        Ok(())
    } else {
        Err(not_found("尚無此追蹤關係"))
    }
}

} // verus!
