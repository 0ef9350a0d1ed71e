use vstd::prelude::*;
use crate::db::Database;
use crate::error::ModelError;
use crate::model::cart::{
    CartItem, CartItemWithDetails, cart_added, cart_item_removed, cart_listing,
    cart_quantity_set, checked_out, checkout as check_out, count as count_items, list as list_items,
    quantity_sum, remove as remove_item, update_quantity as set_quantity,
};
use crate::web::error::{
    AppError, AppErrorView, bad_request, fails_with, internal, not_found, ok_if, passes_on,
    refused_as_bad,
};

verus! {

/// Items of a product to put in a user's cart.
#[derive(Clone, Debug)]
pub struct AddBody {
    pub user_id: i64,
    pub product_id: i64,
    pub quantity: i64,
}

/// The quantity put in the cart when the request names none.
pub fn default_qty() -> (r: i64)
    ensures
        r == 1,
{
    1
}

/// Whose cart to list.
#[derive(Clone, Debug)]
pub struct ListQuery {
    pub user_id: i64,
}

/// Whose cart item to remove.
#[derive(Clone, Debug)]
pub struct RemoveBody {
    pub user_id: i64,
}

/// A new quantity for a cart item.
#[derive(Clone, Debug)]
pub struct UpdateQtyBody {
    pub user_id: i64,
    pub quantity: i64,
}

/// Whose cart to check out.
#[derive(Clone, Debug)]
pub struct CheckoutBody {
    pub user_id: i64,
}

/// Whose cart to count.
#[derive(Clone, Debug)]
pub struct CountQuery {
    pub user_id: i64,
}

/// Puts the items in the cart; the store's refusal is a bad request.
pub fn add(db: &mut Database, body: &AddBody) -> (r: Result<CartItem, AppError>)
    requires
        old(db).wf(),
    ensures
        final(db).wf(),
        exists|mr: Result<CartItem, ModelError>|
            #[trigger] cart_added(old(db)@, final(db)@, mr, body.user_id, body.product_id, body.quantity)
                && refused_as_bad(mr, r),
{
    let ghost old_db = db@;
    let mr = crate::model::cart::add(db, body.user_id, body.product_id, body.quantity);
    assert(cart_added(old_db, db@, mr, body.user_id, body.product_id, body.quantity));
    match mr {
        Ok(item) => Ok(item),
        Err(e) => Err(bad_request(&e)),
    }
}

/// The user's cart, the latest item first.
pub fn list(db: &Database, query: &ListQuery) -> (r: Result<Vec<CartItemWithDetails>, AppError>)
    ensures
        match cart_listing(db@, query.user_id) {
            Ok(items) => r matches Ok(v) && v@ == items,
            Err(e) => fails_with(r, AppErrorView::Internal(e.text())),
        },
{
    match list_items(db, query.user_id) {
        Ok(v) => Ok(v),
        Err(e) => Err(internal(&e)),
    }
}

/// Removes the user's cart item; refused when the user has no item with this id.
pub fn remove(db: &mut Database, id: i64, body: &RemoveBody) -> (r: Result<(), AppError>)
    requires
        old(db).wf(),
    ensures
        final(db).wf(),
        exists|found: bool|
            #[trigger] cart_item_removed(old(db)@, final(db)@, found, id, body.user_id) && ok_if(
                found,
                r,
                AppErrorView::NotFound("購物車項目不存在"@),
            ),
{
    let ghost old_db = db@;
    let found = remove_item(db, id, body.user_id);
    assert(cart_item_removed(old_db, db@, found, id, body.user_id));
    if found {
        Ok(())
    } else {
        Err(not_found("購物車項目不存在"))
    }
}

/// Sets the quantity of the user's cart item; answers alike whether or not it
/// changed anything.
pub fn update_quantity(db: &mut Database, id: i64, body: &UpdateQtyBody) -> (r: Result<(), AppError>)
    requires
        old(db).wf(),
    ensures
        final(db).wf(),
        exists|changed: bool| #[trigger] cart_quantity_set(old(db)@, final(db)@, changed, id, body.user_id, body.quantity),
        r == Ok::<(), AppError>(()),
{
    let ghost old_db = db@;
    let changed = set_quantity(db, id, body.user_id, body.quantity);
    assert(cart_quantity_set(old_db, db@, changed, id, body.user_id, body.quantity));
    Ok(())
}

/// Turns the user's cart into orders; answers with their ids. The store's refusal
/// is a bad request.
pub fn checkout(db: &mut Database, body: &CheckoutBody) -> (r: Result<Vec<i64>, AppError>)
    requires
        old(db).wf(),
    ensures
        final(db).wf(),
        exists|mr: Result<Seq<i64>, ModelError>|
            #[trigger] checked_out(old(db)@, final(db)@, mr, body.user_id) && match mr {
                Ok(ids) => r matches Ok(v) && v@ == ids,
                Err(e) => fails_with(r, AppErrorView::BadRequest(e.text())),
            },
{
    let ghost old_db = db@;
    let mr = check_out(db, body.user_id);
    let ghost mrv = match &mr {
        Ok(v) => Ok::<Seq<i64>, ModelError>(v@),
        Err(e) => Err::<Seq<i64>, ModelError>(*e),
    };
    assert(checked_out(old_db, db@, mrv, body.user_id));
    match mr {
        Ok(ids) => Ok(ids),
        Err(e) => Err(bad_request(&e)),
    }
}

/// How many items the user's cart holds.
pub fn count(db: &Database, query: &CountQuery) -> (r: Result<i64, AppError>)
    requires
        db.wf(),
    ensures
        quantity_sum(db@.cart_items, query.user_id) <= i64::MAX ==> r == Ok::<i64, AppError>(
            quantity_sum(db@.cart_items, query.user_id) as i64,
        ),
        quantity_sum(db@.cart_items, query.user_id) > i64::MAX ==> fails_with(
            r,
            AppErrorView::Internal(ModelError::Overflow.text()),
        ),
{
    match count_items(db, query.user_id) {
        Ok(n) => Ok(n),
        Err(e) => Err(internal(&e)),
    }
}

} // verus!
