use vstd::prelude::*;
use crate::db::Database;
use crate::error::ModelError;
use crate::model::shop_message::{ShopMessage, send as send_message, shop_message_sent};
use crate::web::error::{AppError, internal, passes_on};

verus! {

/// A message about a shop, from one user to another.
#[derive(Clone, Debug)]
pub struct SendBody {
    pub sender_id: i64,
    pub receiver_id: i64,
    pub shop_id: i64,
    pub content: String,
}

/// The conversation about a shop between two users.
#[derive(Clone, Debug)]
pub struct ListQuery {
    pub user_id: i64,
    pub other_id: i64,
}

/// Whose shop conversations to list.
#[derive(Clone, Debug)]
pub struct ConvQuery {
    pub user_id: i64,
}

/// Sends the message about the shop; answers with it.
pub fn send(db: &mut Database, body: &SendBody) -> (r: Result<ShopMessage, AppError>)
    requires
        old(db).wf(),
    ensures
        final(db).wf(),
        exists|mr: Result<ShopMessage, ModelError>|
            #[trigger] shop_message_sent(
                old(db)@,
                final(db)@,
                mr,
                body.shop_id,
                body.sender_id,
                body.receiver_id,
                body.content@,
            ) && passes_on(mr, r),
{
    let ghost old_db = db@;
    let mr = send_message(db, body.shop_id, body.sender_id, body.receiver_id, body.content.as_str());
    assert(shop_message_sent(old_db, db@, mr, body.shop_id, body.sender_id, body.receiver_id, body.content@));
    match mr {
        Ok(m) => Ok(m),
        Err(e) => Err(internal(&e)),
    }
}

} // verus!
