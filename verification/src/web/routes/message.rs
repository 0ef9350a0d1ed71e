use vstd::prelude::*;
use crate::seqs::by_stamp;
use crate::db::{Database, DbView};
use crate::error::ModelError;
use crate::model::message::{
    Conversation, MessageWithUser, conversations as conversations_of, list_conversations,
    list_messages, mark_read, marked_read, message_between, message_sent, send_message,
};
use crate::model::user::{get_user, user_by_id};
use crate::web::error::{AppError, AppErrorView, fails_with, internal, not_found, passes_on};

verus! {

/// A message from one user to another.
#[derive(Clone, Debug)]
pub struct SendPayload {
    pub sender_id: i64,
    pub receiver_id: i64,
    pub content: String,
}

/// Sends the message, once both users are known to exist; answers with its id.
pub fn send(db: &mut Database, payload: &SendPayload) -> (r: Result<i64, AppError>)
    requires
        old(db).wf(),
    ensures
        final(db).wf(),
        user_by_id(old(db)@.users, payload.sender_id) is None ==> final(db)@ == old(db)@ && fails_with(
            r,
            AppErrorView::NotFound("使用者不存在"@),
        ),
        user_by_id(old(db)@.users, payload.sender_id) is Some && user_by_id(
            old(db)@.users,
            payload.receiver_id,
        ) is None ==> final(db)@ == old(db)@ && fails_with(r, AppErrorView::NotFound("接收者不存在"@)),
        user_by_id(old(db)@.users, payload.sender_id) is Some && user_by_id(
            old(db)@.users,
            payload.receiver_id,
        ) is Some ==> exists|mr: Result<i64, ModelError>|
            #[trigger] message_sent(
                old(db)@,
                final(db)@,
                mr,
                payload.sender_id,
                payload.receiver_id,
                payload.content@,
            ) && passes_on(mr, r),
{
    if get_user(db, payload.sender_id).is_none() {
        return Err(not_found("使用者不存在"));
    }
    if get_user(db, payload.receiver_id).is_none() {
        return Err(not_found("接收者不存在"));
    }
    let ghost old_db = db@;
    let mr = send_message(db, payload.sender_id, payload.receiver_id, payload.content.as_str());
    assert(message_sent(old_db, db@, mr, payload.sender_id, payload.receiver_id, payload.content@));
    match mr {
        Ok(id) => Ok(id),
        Err(e) => Err(internal(&e)),
    }
}

/// The user's conversations, once the user is known to exist.
pub fn conversations(db: &Database, user_id: i64) -> (r: Result<Vec<Conversation>, AppError>)
    requires
        db.wf(),
    ensures
        user_by_id(db@.users, user_id) is None ==> fails_with(r, AppErrorView::NotFound("使用者不存在"@)),
        user_by_id(db@.users, user_id) is Some ==> (r matches Ok(v) && v@ == conversations_of(db@, user_id)),
{
    if get_user(db, user_id).is_none() {
        return Err(not_found("使用者不存在"));
    }
    Ok(list_conversations(db, user_id))
}

/// Opens the conversation of the two users: once both are known to exist, the
/// messages from the other user are marked read and the conversation is listed.
pub fn messages(db: &mut Database, user_id: i64, other_id: i64) -> (r: Result<Vec<MessageWithUser>, AppError>)
    requires
        old(db).wf(),
    ensures
        final(db).wf(),
        user_by_id(old(db)@.users, user_id) is None ==> final(db)@ == old(db)@ && fails_with(
            r,
            AppErrorView::NotFound("使用者不存在"@),
        ),
        user_by_id(old(db)@.users, user_id) is Some && user_by_id(old(db)@.users, other_id) is None
            ==> final(db)@ == old(db)@ && fails_with(r, AppErrorView::NotFound("對方使用者不存在"@)),
        user_by_id(old(db)@.users, user_id) is Some && user_by_id(old(db)@.users, other_id) is Some ==> {
            &&& final(db)@ == (DbView {
                messages: old(db)@.messages.map_values(marked_read(user_id, other_id)),
                ..old(db)@
            })
            &&& (r matches Ok(v) && v@ == by_stamp(final(db)@.messages, false).filter_map(
                message_between(final(db)@.users, user_id, other_id),
            ))
        },
{
    if get_user(db, user_id).is_none() {
        return Err(not_found("使用者不存在"));
    }
    if get_user(db, other_id).is_none() {
        return Err(not_found("對方使用者不存在"));
    }
    mark_read(db, user_id, other_id);
    Ok(list_messages(db, user_id, other_id))
}

} // verus!
