use vstd::prelude::*;
use crate::db::Database;
use crate::error::ModelError;
use crate::model::interest::{add_interest, has_interest, interest_added, interest_removed, remove_interest};
use crate::web::error::{AppError, AppErrorView, fails_with, internal, not_found, passes_on};

verus! {

/// An interest tag to add to a user.
#[derive(Clone, Debug)]
pub struct InterestPayload {
    pub user_id: i64,
    pub tag: String,
}

/// An interest tag to remove from a user.
#[derive(Clone, Debug)]
pub struct InterestRemove {
    pub user_id: i64,
    pub tag: String,
}

/// Adds the interest tag; answers with the id of the user's interest.
pub fn add(db: &mut Database, payload: &InterestPayload) -> (r: Result<i64, AppError>)
    requires
        old(db).wf(),
    ensures
        final(db).wf(),
        exists|mr: Result<i64, ModelError>|
            #[trigger] interest_added(old(db)@, final(db)@, mr, payload.user_id, payload.tag@)
                && passes_on(mr, r),
{
    let ghost old_db = db@;
    let mr = add_interest(db, payload.user_id, payload.tag.as_str());
    assert(interest_added(old_db, db@, mr, payload.user_id, payload.tag@));
    match mr {
        Ok(id) => Ok(id),
        Err(e) => Err(internal(&e)),
    }
}

/// Removes the interest tag; refused when the user does not have it.
pub fn remove(db: &mut Database, payload: &InterestRemove) -> (r: Result<(), AppError>)
    requires
        old(db).wf(),
    ensures
        final(db).wf(),
        interest_removed(
            old(db)@,
            final(db)@,
            has_interest(old(db)@, payload.user_id, payload.tag@),
            payload.user_id,
            payload.tag@,
        ),
        has_interest(old(db)@, payload.user_id, payload.tag@) ==> r == Ok::<(), AppError>(()),
        !has_interest(old(db)@, payload.user_id, payload.tag@) ==> fails_with(
            r,
            AppErrorView::NotFound("興趣標籤不存在"@),
        ),
{
    if remove_interest(db, payload.user_id, payload.tag.as_str()) {
        Ok(())
    } else {
        Err(not_found("興趣標籤不存在"))
    }
}

} // verus!
