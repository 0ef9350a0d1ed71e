use vstd::prelude::*;
use crate::db::Database;
use crate::error::ModelError;
use crate::model::order::{Order, create_order, get_order, order_created, order_total_fits};
use crate::seqs::lookup;
use crate::web::error::{AppError, AppErrorView, bad_request, bad_request_text, fails_with, not_found, refused_as_bad};

verus! {

/// An order of a product.
#[derive(Clone, Debug)]
pub struct CreateOrderBody {
    pub buyer_id: i64,
    pub product_id: i64,
    pub quantity: i64,
}

/// The quantity ordered when the request names none.
pub fn default_quantity() -> (r: i64)
    ensures
        r == 1,
{
    1
}

/// Whose orders to list.
#[derive(Clone, Debug)]
pub struct ListOrdersQuery {
    pub user_id: i64,
}

/// Who asks for an order.
#[derive(Clone, Debug)]
pub struct GetOrderQuery {
    pub user_id: i64,
}

/// Places the order; the store's refusal is a bad request.
pub fn create(db: &mut Database, body: &CreateOrderBody) -> (r: Result<Order, AppError>)
    requires
        old(db).wf(),
        order_total_fits(old(db)@.products, body.product_id, body.quantity),
    ensures
        final(db).wf(),
        exists|mr: Result<Order, ModelError>|
            #[trigger] order_created(old(db)@, final(db)@, mr, body.buyer_id, body.product_id, body.quantity)
                && refused_as_bad(mr, r),
{
    let ghost old_db = db@;
    let mr = create_order(db, body.buyer_id, body.product_id, body.quantity);
    assert(order_created(old_db, db@, mr, body.buyer_id, body.product_id, body.quantity));
    match mr {
        Ok(o) => Ok(o),
        Err(e) => Err(bad_request(&e)),
    }
}

/// The order, shown to its buyer only.
pub fn get(db: &Database, id: i64, query: &GetOrderQuery) -> (r: Result<Order, AppError>)
    ensures
        match lookup(db@.orders, id) {
            None => fails_with(r, AppErrorView::NotFound("訂單不存在"@)),
            Some(o) => if o.buyer_id != query.user_id {
                fails_with(r, AppErrorView::BadRequest("這不是你的訂單"@))
            } else {
                r == Ok::<Order, AppError>(o)
            },
        },
{
    let o = match get_order(db, id) {
        Some(o) => o,
        None => return Err(not_found("訂單不存在")),
    };
    if o.buyer_id != query.user_id {
        return Err(bad_request_text("這不是你的訂單"));
    }
    Ok(o)
}

} // verus!
