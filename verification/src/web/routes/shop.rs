use vstd::prelude::*;
use crate::db::{Database, DbView, shop_owner_rel};
use crate::error::ModelError;
use crate::model::shop::{
    Shop, close_shop, get_shop_by_id, get_shop_by_user, open_shop, owned_by, shop_closed,
    shop_edited, shop_of_user, shop_opened, update_shop,
};
use crate::model::user::opt_str_view;
use crate::seqs::{
    exists_where, last_where, lemma_last_where, lemma_last_where_unique, lemma_lookup_position,
    lemma_lookup_unique, lookup, position,
};
use crate::web::error::{
    AppError, AppErrorView, bad_request, bad_request_text, fails_with, not_found, ok_if,
    refused_as_bad,
};

verus! {

/// A shop to open.
#[derive(Clone, Debug)]
pub struct OpenShopBody {
    pub user_id: i64,
    pub name: String,
    pub description: Option<String>,
}

/// Whose shop to show.
#[derive(Clone, Debug)]
pub struct GetByUser {
    pub user_id: i64,
}

/// The fields of a shop to change.
#[derive(Clone, Debug)]
pub struct UpdateShopBody {
    pub user_id: i64,
    pub name: Option<String>,
    pub description: Option<String>,
}

/// Whose shop to close.
#[derive(Clone, Debug)]
pub struct CloseShopBody {
    pub user_id: i64,
}

/// The text an optional string holds.
pub open spec fn opt_text(o: Option<String>) -> Option<Seq<char>> {
    match o {
        Some(s) => Some(s@),
        None => None,
    }
}

fn as_opt_str(o: &Option<String>) -> (r: Option<&str>)
    ensures
        opt_str_view(r) == opt_text(*o),
{
    match o {
        Some(s) => Some(s.as_str()),
        None => None,
    }
}

/// Opens the shop; the store's refusal is a bad request.
pub fn open(db: &mut Database, body: &OpenShopBody) -> (r: Result<Shop, AppError>)
    requires
        old(db).wf(),
    ensures
        final(db).wf(),
        exists|mr: Result<Shop, ModelError>|
            #[trigger] shop_opened(old(db)@, final(db)@, mr, body.user_id, body.name@, opt_text(body.description))
                && refused_as_bad(mr, r),
{
    let ghost old_db = db@;
    let mr = open_shop(db, body.user_id, body.name.as_str(), as_opt_str(&body.description));
    assert(shop_opened(old_db, db@, mr, body.user_id, body.name@, opt_text(body.description)));
    match mr {
        Ok(s) => Ok(s),
        Err(e) => Err(bad_request(&e)),
    }
}

/// The user's shop.
pub fn my_shop(db: &Database, query: &GetByUser) -> (r: Result<Shop, AppError>)
    ensures
        match shop_of_user(db@.shops, query.user_id) {
            None => fails_with(r, AppErrorView::NotFound("該使用者沒有商店"@)),
            Some(s) => r == Ok::<Shop, AppError>(s),
        },
{
    match get_shop_by_user(db, query.user_id) {
        Some(s) => Ok(s),
        None => Err(not_found("該使用者沒有商店")),
    }
}

/// The shop with this id.
pub fn get(db: &Database, id: i64) -> (r: Result<Shop, AppError>)
    ensures
        match lookup(db@.shops, id) {
            None => fails_with(r, AppErrorView::NotFound("商店不存在"@)),
            Some(s) => r == Ok::<Shop, AppError>(s),
        },
{
    match get_shop_by_id(db, id) {
        Some(s) => Ok(s),
        None => Err(not_found("商店不存在")),
    }
}

/// Changes the shop, for its owner only; answers with the shop as it is now.
pub fn update(db: &mut Database, id: i64, body: &UpdateShopBody) -> (r: Result<Shop, AppError>)
    requires
        old(db).wf(),
    ensures
        final(db).wf(),
        match lookup(old(db)@.shops, id) {
            None => final(db)@ == old(db)@ && fails_with(r, AppErrorView::NotFound("商店不存在"@)),
            Some(s) => if s.user_id != body.user_id {
                final(db)@ == old(db)@ && fails_with(r, AppErrorView::BadRequest("這不是你的商店"@))
            } else {
                &&& shop_edited(
                    old(db)@,
                    final(db)@,
                    true,
                    body.user_id,
                    opt_text(body.name),
                    opt_text(body.description),
                )
                &&& (lookup(final(db)@.shops, id) matches Some(t) && r == Ok::<Shop, AppError>(t))
            },
        },
{
    let s = match get_shop_by_id(db, id) {
        Some(s) => s,
        None => return Err(not_found("商店不存在")),
    };
    if s.user_id != body.user_id {
        return Err(bad_request_text("這不是你的商店"));
    }
    let ghost old_db = db@;
    proof {
        lemma_lookup_position(old_db.shops, id);
        let j = position(old_db.shops, id);
        assert(owned_by(body.user_id)(old_db.shops[j]));
        assert forall|a: int, b: int|
            0 <= a < b < old_db.shops.len() && owned_by(body.user_id)(old_db.shops[a]) implies !owned_by(
                body.user_id,
            )(old_db.shops[b]) by {
            assert(shop_owner_rel()(old_db.shops[a], old_db.shops[b]));
        }
        lemma_last_where_unique(old_db.shops, owned_by(body.user_id), j);
    }
    let _ = update_shop(db, body.user_id, as_opt_str(&body.name), as_opt_str(&body.description));
    proof {
        let j = position(old_db.shops, id);
        lemma_lookup_unique(db@.shops, j);
    }
    match get_shop_by_id(db, id) {
        Some(t) => Ok(t),
        None => Err(not_found("商店不存在")),
    }
}

/// Closes the user's shop; refused when the user has none.
pub fn close(db: &mut Database, body: &CloseShopBody) -> (r: Result<(), AppError>)
    requires
        old(db).wf(),
    ensures
        final(db).wf(),
        exists|found: bool|
            #[trigger] shop_closed(old(db)@, final(db)@, found, body.user_id) && ok_if(
                found,
                r,
                AppErrorView::NotFound("該使用者沒有商店"@),
            ),
{
    let ghost old_db = db@;
    let found = close_shop(db, body.user_id);
    assert(shop_closed(old_db, db@, found, body.user_id));
    if found {
        Ok(())
    } else {
        Err(not_found("該使用者沒有商店"))
    }
}

} // verus!
