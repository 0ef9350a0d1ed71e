use vstd::prelude::*;
use crate::db::Database;
use crate::error::ModelError;
use crate::model::block::{block_done, block_ended, block_user, blocks, unblock_user};
use crate::model::user::{get_user, user_by_id};
use crate::web::error::{AppError, AppErrorView, fails_with, internal, not_found, passes_on};

verus! {

/// A block between two users.
#[derive(Clone, Debug)]
pub struct BlockPayload {
    pub blocker_id: i64,
    pub blocked_id: i64,
}

/// Blocks, once both users are known to exist.
pub fn block(db: &mut Database, payload: &BlockPayload) -> (r: Result<(), AppError>)
    requires
        old(db).wf(),
    ensures
        final(db).wf(),
        user_by_id(old(db)@.users, payload.blocker_id) is None ==> final(db)@ == old(db)@ && fails_with(
            r,
            AppErrorView::NotFound("封鎖者不存在"@),
        ),
        user_by_id(old(db)@.users, payload.blocker_id) is Some && user_by_id(
            old(db)@.users,
            payload.blocked_id,
        ) is None ==> final(db)@ == old(db)@ && fails_with(r, AppErrorView::NotFound("被封鎖者不存在"@)),
        user_by_id(old(db)@.users, payload.blocker_id) is Some && user_by_id(
            old(db)@.users,
            payload.blocked_id,
        ) is Some ==> exists|mr: Result<(), ModelError>|
            #[trigger] block_done(old(db)@, final(db)@, mr, payload.blocker_id, payload.blocked_id)
                && passes_on(mr, r),
{
    if get_user(db, payload.blocker_id).is_none() {
        return Err(not_found("封鎖者不存在"));
    }
    if get_user(db, payload.blocked_id).is_none() {
        return Err(not_found("被封鎖者不存在"));
    }
    let ghost old_db = db@;
    let mr = block_user(db, payload.blocker_id, payload.blocked_id);
    assert(block_done(old_db, db@, mr, payload.blocker_id, payload.blocked_id));
    match mr {
        Ok(()) => Ok(()),
        Err(e) => Err(internal(&e)),
    }
}

/// Unblocks; refused when there was no block.
pub fn unblock(db: &mut Database, payload: &BlockPayload) -> (r: Result<(), AppError>)
    requires
        old(db).wf(),
    ensures
        final(db).wf(),
        block_ended(
            old(db)@,
            final(db)@,
            blocks(old(db)@, payload.blocker_id, payload.blocked_id),
            payload.blocker_id,
            payload.blocked_id,
        ),
        blocks(old(db)@, payload.blocker_id, payload.blocked_id) ==> r == Ok::<(), AppError>(()),
        !blocks(old(db)@, payload.blocker_id, payload.blocked_id) ==> fails_with(
            r,
            AppErrorView::NotFound("封鎖記錄不存在"@),
        ),
{
    if unblock_user(db, payload.blocker_id, payload.blocked_id) {
        Ok(())
    } else {
        Err(not_found("封鎖記錄不存在"))
    }
}

} // verus!
