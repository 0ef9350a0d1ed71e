use vstd::prelude::*;
use crate::db::Database;
use crate::error::ModelError;
use crate::model::product::{
    Product, add_product, get_product, product_added, product_edited, product_removed,
    remove_product, update_product,
};
use crate::model::shop::get_shop_by_id;
use crate::model::user::opt_str_view;
use crate::seqs::{lemma_lookup_position, lemma_lookup_unique, lookup, position};
use crate::web::error::{AppError, AppErrorView, bad_request_text, fails_with, internal, not_found, passes_on};

verus! {

/// A product to add to a shop.
#[derive(Clone, Debug)]
pub struct AddProductBody {
    pub user_id: i64,
    pub name: String,
    pub price: i64,
    pub stock: i64,
    pub description: Option<String>,
}

/// The fields of a product to change.
#[derive(Clone, Debug)]
pub struct UpdateProductBody {
    pub user_id: i64,
    pub name: Option<String>,
    pub price: Option<i64>,
    pub stock: Option<i64>,
    pub description: Option<String>,
}

/// Who asks to remove a product.
#[derive(Clone, Debug)]
pub struct RemoveProductBody {
    pub user_id: i64,
}

/// A product search.
#[derive(Clone, Debug)]
pub struct SearchParams {
    pub q: Option<String>,
    pub min_price: Option<i64>,
    pub max_price: Option<i64>,
}

/// The text an optional string holds.
pub open spec fn opt_text(o: Option<String>) -> Option<Seq<char>> {
    match o {
        Some(s) => Some(s@),
        None => None,
    }
}

fn as_opt_str(o: &Option<String>) -> (r: Option<&str>)
    ensures
        opt_str_view(r) == opt_text(*o),
{
    match o {
        Some(s) => Some(s.as_str()),
        None => None,
    }
}

/// Adds the product to the shop, for the shop's owner only; answers with it.
pub fn add(db: &mut Database, shop_id: i64, body: &AddProductBody) -> (r: Result<Product, AppError>)
    requires
        old(db).wf(),
    ensures
        final(db).wf(),
        match lookup(old(db)@.shops, shop_id) {
            None => final(db)@ == old(db)@ && fails_with(r, AppErrorView::NotFound("商店不存在"@)),
            Some(s) => if s.user_id != body.user_id {
                final(db)@ == old(db)@ && fails_with(r, AppErrorView::BadRequest("這不是你的商店"@))
            } else {
                exists|mr: Result<Product, ModelError>|
                    #[trigger] product_added(
                        old(db)@,
                        final(db)@,
                        mr,
                        shop_id,
                        body.name@,
                        body.price,
                        body.stock,
                        opt_text(body.description),
                    ) && passes_on(mr, r)
            },
        },
{
    let s = match get_shop_by_id(db, shop_id) {
        Some(s) => s,
        None => return Err(not_found("商店不存在")),
    };
    if s.user_id != body.user_id {
        return Err(bad_request_text("這不是你的商店"));
    }
    let ghost old_db = db@;
    let mr = add_product(db, shop_id, body.name.as_str(), body.price, body.stock, as_opt_str(&body.description));
    assert(product_added(old_db, db@, mr, shop_id, body.name@, body.price, body.stock, opt_text(body.description)));
    match mr {
        Ok(p) => Ok(p),
        Err(e) => Err(internal(&e)),
    }
}

/// The product with this id.
pub fn get(db: &Database, id: i64) -> (r: Result<Product, AppError>)
    ensures
        match lookup(db@.products, id) {
            None => fails_with(r, AppErrorView::NotFound("商品不存在"@)),
            Some(p) => r == Ok::<Product, AppError>(p),
        },
{
    match get_product(db, id) {
        Some(p) => Ok(p),
        None => Err(not_found("商品不存在")),
    }
}

/// The owner check of the product changes: the product and its shop exist and the
/// shop belongs to the user.
pub open spec fn owner_check(db: crate::db::DbView, id: i64, user_id: i64) -> Option<AppErrorView> {
    match lookup(db.products, id) {
        None => Some(AppErrorView::NotFound("商品不存在"@)),
        Some(p) => match lookup(db.shops, p.shop_id) {
            None => Some(AppErrorView::NotFound("商店不存在"@)),
            Some(s) => if s.user_id != user_id {
                Some(AppErrorView::BadRequest("這不是你的商品"@))
            } else {
                None
            },
        },
    }
}

fn check_owner(db: &Database, id: i64, user_id: i64) -> (r: Result<(), AppError>)
    ensures
        match owner_check(db@, id, user_id) {
            Some(e) => fails_with(r, e),
            None => r == Ok::<(), AppError>(()),
        },
{
    let p = match get_product(db, id) {
        Some(p) => p,
        None => return Err(not_found("商品不存在")),
    };
    let s = match get_shop_by_id(db, p.shop_id) {
        Some(s) => s,
        None => return Err(not_found("商店不存在")),
    };
    if s.user_id != user_id {
        return Err(bad_request_text("這不是你的商品"));
    }
    Ok(())
}

/// Changes the product, for its shop's owner only; answers with the product as it
/// is now.
pub fn update(db: &mut Database, id: i64, body: &UpdateProductBody) -> (r: Result<Product, AppError>)
    requires
        old(db).wf(),
    ensures
        final(db).wf(),
        owner_check(old(db)@, id, body.user_id) matches Some(e) ==> final(db)@ == old(db)@ && fails_with(r, e),
        owner_check(old(db)@, id, body.user_id) is None ==> {
            &&& product_edited(
                old(db)@,
                final(db)@,
                true,
                id,
                opt_text(body.name),
                body.price,
                body.stock,
                opt_text(body.description),
            )
            &&& (lookup(final(db)@.products, id) matches Some(p) && r == Ok::<Product, AppError>(p))
        },
{
    match check_owner(db, id, body.user_id) {
        Ok(()) => {},
        Err(e) => return Err(e),
    }
    let ghost old_db = db@;
    let edited = update_product(db, id, as_opt_str(&body.name), body.price, body.stock, as_opt_str(&body.description));
    proof {
        lemma_lookup_position(old_db.products, id);
        let k = position(old_db.products, id);
        lemma_lookup_unique(db@.products, k);
    }
    match get_product(db, id) {
        Some(p) => Ok(p),
        None => Err(not_found("商品不存在")),
    }
}

/// Removes the product, for its shop's owner only.
pub fn remove(db: &mut Database, id: i64, body: &RemoveProductBody) -> (r: Result<(), AppError>)
    requires
        old(db).wf(),
    ensures
        final(db).wf(),
        owner_check(old(db)@, id, body.user_id) matches Some(e) ==> final(db)@ == old(db)@ && fails_with(r, e),
        owner_check(old(db)@, id, body.user_id) is None ==> product_removed(old(db)@, final(db)@, true, id)
            && r == Ok::<(), AppError>(()),
{
    match check_owner(db, id, body.user_id) {
        Ok(()) => {},
        Err(e) => return Err(e),
    }
    let _ = remove_product(db, id);
    Ok(())
}

} // verus!
