use vstd::prelude::*;
use crate::seqs::by_stamp;
use crate::db::Database;
use crate::error::{ModelError, decimal};
use crate::model::post::{
    PostWithUser, create_post, delete_post, get_post, list_posts, list_replies, post_by_id,
    post_created, post_deleted, reply_of, top_level_of,
};
use crate::seqs::{lookup, newest_first, page};
use crate::web::error::{
    AppError, AppErrorView, fails_with, internal, internal_text, not_found_numbered, ok_if,
};

verus! {

/// Which posts to list, and which page of them.
#[derive(Clone, Debug)]
pub struct ListParams {
    pub user_id: Option<i64>,
    pub limit: Option<i64>,
    pub offset: Option<i64>,
}

/// A post to create.
#[derive(Clone, Debug)]
pub struct CreatePayload {
    pub user_id: i64,
    pub content: String,
}

/// A reply to create.
#[derive(Clone, Debug)]
pub struct ReplyPayload {
    pub user_id: i64,
    pub content: String,
}

/// A post with its replies.
#[derive(Clone, Debug)]
pub struct PostDetail {
    pub post: PostWithUser,
    pub replies: Vec<PostWithUser>,
}

/// The message for a missing post.
pub open spec fn post_missing(id: i64) -> AppErrorView {
    AppErrorView::NotFound("貼文 #"@ + decimal(id as int) + " 不存在"@)
}

/// The page of top-level posts asked for: 50 posts from the first unless the
/// request says otherwise.
pub fn list(db: &Database, params: &ListParams) -> (r: Vec<PostWithUser>)
    ensures
        r@ == page(
            newest_first(by_stamp(db@.posts, false), top_level_of(db@.users, params.user_id)),
            match params.limit {
                Some(l) => l,
                None => 50,
            },
            match params.offset {
                Some(o) => o,
                None => 0,
            },
        ),
{
    let limit = match params.limit {
        Some(l) => l,
        None => 50,
    };
    let offset = match params.offset {
        Some(o) => o,
        None => 0,
    };
    list_posts(db, params.user_id, limit, offset)
}

/// The post with its replies.
pub fn get(db: &Database, id: i64) -> (r: Result<PostDetail, AppError>)
    ensures
        match post_by_id(db@, id) {
            None => fails_with(r, post_missing(id)),
            Some(p) => r matches Ok(d) && d.post == p && d.replies@ == by_stamp(db@.posts, false).filter_map(
                reply_of(db@.users, id),
            ),
        },
{
    let post = match get_post(db, id) {
        Some(p) => p,
        None => return Err(not_found_numbered("貼文 #", id, " 不存在")),
    };
    let replies = list_replies(db, id);
    Ok(PostDetail { post, replies })
}

/// Creates a top-level post; answers with it.
pub fn create(db: &mut Database, payload: &CreatePayload) -> (r: Result<PostWithUser, AppError>)
    requires
        old(db).wf(),
    ensures
        final(db).wf(),
        exists|mr: Result<i64, ModelError>|
            #[trigger] post_created(old(db)@, final(db)@, mr, payload.user_id, payload.content@, None)
                && match mr {
                Err(e) => fails_with(r, AppErrorView::Internal(e.text())),
                Ok(id) => match post_by_id(final(db)@, id) {
                    Some(p) => r == Ok::<PostWithUser, AppError>(p),
                    None => fails_with(r, AppErrorView::Internal("建立後查詢失敗"@)),
                },
            },
{
    let ghost old_db = db@;
    let mr = create_post(db, payload.user_id, payload.content.as_str(), None);
    assert(post_created(old_db, db@, mr, payload.user_id, payload.content@, None));
    let id = match mr {
        Ok(id) => id,
        Err(e) => return Err(internal(&e)),
    };
    match get_post(db, id) {
        Some(p) => Ok(p),
        None => Err(internal_text("建立後查詢失敗")),
    }
}

/// Deletes the post; refused when there is none with this id.
pub fn delete(db: &mut Database, id: i64) -> (r: Result<(), AppError>)
    requires
        old(db).wf(),
    ensures
        final(db).wf(),
        exists|found: bool| #[trigger] post_deleted(old(db)@, final(db)@, found, id) && ok_if(found, r, post_missing(id)),
{
    let ghost old_db = db@;
    let found = delete_post(db, id);
    assert(post_deleted(old_db, db@, found, id));
    if found {
        Ok(())
    } else {
        Err(not_found_numbered("貼文 #", id, " 不存在"))
    }
}

/// Replies to the post; answers with the reply.
pub fn reply(db: &mut Database, id: i64, payload: &ReplyPayload) -> (r: Result<PostWithUser, AppError>)
    requires
        old(db).wf(),
    ensures
        final(db).wf(),
        post_by_id(old(db)@, id) is None ==> final(db)@ == old(db)@ && fails_with(r, post_missing(id)),
        post_by_id(old(db)@, id) is Some ==> exists|mr: Result<i64, ModelError>|
            #[trigger] post_created(old(db)@, final(db)@, mr, payload.user_id, payload.content@, Some(id))
                && match mr {
                Err(e) => fails_with(r, AppErrorView::Internal(e.text())),
                Ok(rid) => match post_by_id(final(db)@, rid) {
                    Some(p) => r == Ok::<PostWithUser, AppError>(p),
                    None => fails_with(r, AppErrorView::Internal("建立回覆後查詢失敗"@)),
                },
            },
{
    if get_post(db, id).is_none() {
        return Err(not_found_numbered("貼文 #", id, " 不存在"));
    }
    let ghost old_db = db@;
    let mr = create_post(db, payload.user_id, payload.content.as_str(), Some(id));
    assert(post_created(old_db, db@, mr, payload.user_id, payload.content@, Some(id)));
    let rid = match mr {
        Ok(rid) => rid,
        Err(e) => return Err(internal(&e)),
    };
    match get_post(db, rid) {
        Some(p) => Ok(p),
        None => Err(internal_text("建立回覆後查詢失敗")),
    }
}

} // verus!
