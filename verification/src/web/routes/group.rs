use vstd::prelude::*;
use crate::db::Database;
use crate::error::ModelError;
use crate::model::group::{
    Group, create as create_group, get as get_group, group_created, group_deleted, group_edited,
    group_joined, group_left, join as join_group, leave as leave_group,
};
use crate::model::group_post::{
    GroupPost, group_post_added, group_post_deleted, post_has_group,
};
use crate::model::user::opt_str_view;
use crate::seqs::lookup;
use crate::web::error::{
    AppError, AppErrorView, bad_request, fails_with, internal, not_found, passes_on, refused_as_bad,
};

verus! {

/// A group to create.
#[derive(Clone, Debug)]
pub struct CreateBody {
    pub user_id: i64,
    pub name: String,
    pub description: Option<String>,
}

/// A group search.
#[derive(Clone, Debug)]
pub struct ListQuery {
    pub search: Option<String>,
}

/// Whose groups to list.
#[derive(Clone, Debug)]
pub struct MineQuery {
    pub user_id: i64,
}

/// The fields of a group to change.
#[derive(Clone, Debug)]
pub struct UpdateBody {
    pub user_id: i64,
    pub name: Option<String>,
    pub description: Option<String>,
}

/// Who asks to delete a group.
#[derive(Clone, Debug)]
pub struct DeleteBody {
    pub user_id: i64,
}

/// Who joins or leaves a group.
#[derive(Clone, Debug)]
pub struct JoinBody {
    pub user_id: i64,
}

/// A post to add to a group.
#[derive(Clone, Debug)]
pub struct AddPostBody {
    pub user_id: i64,
    pub content: String,
}

/// Who asks to delete a group post.
#[derive(Clone, Debug)]
pub struct DeletePostBody {
    pub user_id: i64,
}

/// The text an optional string holds.
pub open spec fn opt_text(o: Option<String>) -> Option<Seq<char>> {
    match o {
        Some(s) => Some(s@),
        None => None,
    }
}

fn as_opt_str(o: &Option<String>) -> (r: Option<&str>)
    ensures
        opt_str_view(r) == opt_text(*o),
{
    match o {
        Some(s) => Some(s.as_str()),
        None => None,
    }
}

/// Creates the group; answers with it.
pub fn create(db: &mut Database, body: &CreateBody) -> (r: Result<Group, AppError>)
    requires
        old(db).wf(),
    ensures
        final(db).wf(),
        exists|mr: Result<Group, ModelError>|
            #[trigger] group_created(old(db)@, final(db)@, mr, body.user_id, body.name@, opt_text(body.description))
                && passes_on(mr, r),
{
    let ghost old_db = db@;
    let mr = create_group(db, body.user_id, body.name.as_str(), as_opt_str(&body.description));
    assert(group_created(old_db, db@, mr, body.user_id, body.name@, opt_text(body.description)));
    match mr {
        Ok(g) => Ok(g),
        Err(e) => Err(internal(&e)),
    }
}

/// The group with this id.
pub fn get(db: &Database, id: i64) -> (r: Result<Group, AppError>)
    ensures
        match lookup(db@.groups, id) {
            None => fails_with(r, AppErrorView::NotFound("社團不存在"@)),
            Some(g) => r == Ok::<Group, AppError>(g),
        },
{
    match get_group(db, id) {
        Some(g) => Ok(g),
        None => Err(not_found("社團不存在")),
    }
}

/// Changes the group; answers with the group as it is now.
pub fn update(db: &mut Database, id: i64, body: &UpdateBody) -> (r: Result<Group, AppError>)
    requires
        old(db).wf(),
    ensures
        final(db).wf(),
        exists|mr: Result<bool, ModelError>|
            #[trigger] group_edited(
                old(db)@,
                final(db)@,
                mr,
                id,
                body.user_id,
                opt_text(body.name),
                opt_text(body.description),
            ) && match mr {
                Err(e) => fails_with(r, AppErrorView::Internal(e.text())),
                Ok(_) => match lookup(final(db)@.groups, id) {
                    None => fails_with(r, AppErrorView::NotFound("社團不存在"@)),
                    Some(g) => r == Ok::<Group, AppError>(g),
                },
            },
{
    let ghost old_db = db@;
    let mr = crate::model::group::update(db, id, body.user_id, as_opt_str(&body.name), as_opt_str(&body.description));
    assert(group_edited(old_db, db@, mr, id, body.user_id, opt_text(body.name), opt_text(body.description)));
    match mr {
        Ok(_) => {},
        Err(e) => return Err(internal(&e)),
    }
    match get_group(db, id) {
        Some(g) => Ok(g),
        None => Err(not_found("社團不存在")),
    }
}

/// Deletes the group, for its owner only; refused when there is none.
pub fn delete(db: &mut Database, id: i64, body: &DeleteBody) -> (r: Result<(), AppError>)
    requires
        old(db).wf(),
    ensures
        final(db).wf(),
        exists|mr: Result<bool, ModelError>|
            #[trigger] group_deleted(old(db)@, final(db)@, mr, id, body.user_id) && match mr {
                Err(e) => fails_with(r, AppErrorView::Internal(e.text())),
                Ok(true) => r == Ok::<(), AppError>(()),
                Ok(false) => fails_with(r, AppErrorView::NotFound("社團不存在"@)),
            },
{
    let ghost old_db = db@;
    let mr = crate::model::group::delete(db, id, body.user_id);
    assert(group_deleted(old_db, db@, mr, id, body.user_id));
    match mr {
        Ok(true) => Ok(()),
        Ok(false) => Err(not_found("社團不存在")),
        Err(e) => Err(internal(&e)),
    }
}

/// Joins the group; the store's refusal is a bad request.
pub fn join(db: &mut Database, id: i64, body: &JoinBody) -> (r: Result<(), AppError>)
    requires
        old(db).wf(),
    ensures
        final(db).wf(),
        exists|mr: Result<bool, ModelError>|
            #[trigger] group_joined(old(db)@, final(db)@, mr, id, body.user_id) && match mr {
                Err(e) => fails_with(r, AppErrorView::BadRequest(e.text())),
                Ok(_) => r == Ok::<(), AppError>(()),
            },
{
    let ghost old_db = db@;
    let mr = join_group(db, id, body.user_id);
    assert(group_joined(old_db, db@, mr, id, body.user_id));
    match mr {
        Ok(_) => Ok(()),
        Err(e) => Err(bad_request(&e)),
    }
}

/// Leaves the group; refused when the user is not in it, and the store's refusal
/// is a bad request.
pub fn leave(db: &mut Database, id: i64, body: &JoinBody) -> (r: Result<(), AppError>)
    requires
        old(db).wf(),
    ensures
        final(db).wf(),
        exists|mr: Result<bool, ModelError>|
            #[trigger] group_left(old(db)@, final(db)@, mr, id, body.user_id) && match mr {
                Err(e) => fails_with(r, AppErrorView::BadRequest(e.text())),
                Ok(true) => r == Ok::<(), AppError>(()),
                Ok(false) => fails_with(r, AppErrorView::NotFound("你不在這個社團中"@)),
            },
{
    let ghost old_db = db@;
    let mr = leave_group(db, id, body.user_id);
    assert(group_left(old_db, db@, mr, id, body.user_id));
    match mr {
        Ok(true) => Ok(()),
        Ok(false) => Err(not_found("你不在這個社團中")),
        Err(e) => Err(bad_request(&e)),
    }
}

/// Posts in the group; the store's refusal is a bad request.
pub fn add_post(db: &mut Database, id: i64, body: &AddPostBody) -> (r: Result<GroupPost, AppError>)
    requires
        old(db).wf(),
    ensures
        final(db).wf(),
        exists|mr: Result<GroupPost, ModelError>|
            #[trigger] group_post_added(old(db)@, final(db)@, mr, id, body.user_id, body.content@)
                && refused_as_bad(mr, r),
{
    let ghost old_db = db@;
    let mr = crate::model::group_post::add(db, id, body.user_id, body.content.as_str());
    assert(group_post_added(old_db, db@, mr, id, body.user_id, body.content@));
    match mr {
        Ok(p) => Ok(p),
        Err(e) => Err(bad_request(&e)),
    }
}

/// Deletes the group post; refused when there is none with this id.
pub fn delete_post(db: &mut Database, post_id: i64, body: &DeletePostBody) -> (r: Result<(), AppError>)
    requires
        old(db).wf(),
        post_has_group(old(db)@, post_id),
    ensures
        final(db).wf(),
        exists|mr: Result<bool, ModelError>|
            #[trigger] group_post_deleted(old(db)@, final(db)@, mr, post_id, body.user_id) && match mr {
                Err(e) => fails_with(r, AppErrorView::Internal(e.text())),
                Ok(true) => r == Ok::<(), AppError>(()),
                Ok(false) => fails_with(r, AppErrorView::NotFound("貼文不存在"@)),
            },
{
    let ghost old_db = db@;
    let mr = crate::model::group_post::delete(db, post_id, body.user_id);
    assert(group_post_deleted(old_db, db@, mr, post_id, body.user_id));
    match mr {
        Ok(true) => Ok(()),
        Ok(false) => Err(not_found("貼文不存在")),
        Err(e) => Err(internal(&e)),
    }
}

} // verus!
