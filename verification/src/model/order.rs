use vstd::prelude::*;
use crate::db::{Database, DbView};
use crate::error::ModelError;
use crate::model::product::{Product, decrement_stock};
use crate::model::shop::Shop;
use crate::seqs::{Stamped, by_stamp, rows_by_stamp, 
    Row, collect_newest, find_by_key, get_by_key, lemma_lookup_position, lemma_push_ok, lookup,
    newest_first, position,
};

verus! {

/// An order of a product.
#[derive(Clone, Debug)]
pub struct Order {
    pub id: i64,
    pub buyer_id: i64,
    pub product_id: i64,
    pub quantity: i64,
    pub total_price: i64,
    pub status: String,
    pub created_at: String,
    pub updated_at: String,
}

impl Stamped for Order {
    open spec fn stamp(&self) -> Seq<char> {
        self.created_at@
    }

    fn stamp_text(&self) -> (r: &str) {
        self.created_at.as_str()
    }
}

impl Row for Order {
    open spec fn key(&self) -> i64 {
        self.id
    }

    fn row_key(&self) -> (r: i64) {
        self.id
    }

    fn dup(&self) -> (r: Self) {
        Order {
            id: self.id,
            buyer_id: self.buyer_id,
            product_id: self.product_id,
            quantity: self.quantity,
            total_price: self.total_price,
            status: self.status.clone(),
            created_at: self.created_at.clone(),
            updated_at: self.updated_at.clone(),
        }
    }
}

/// An order joined with its product and shop.
#[derive(Clone, Debug)]
pub struct OrderWithDetails {
    pub id: i64,
    pub buyer_id: i64,
    pub product_id: i64,
    pub product_name: String,
    pub shop_name: String,
    pub shop_user_id: i64,
    pub quantity: i64,
    pub total_price: i64,
    pub status: String,
    pub created_at: String,
}

/// `row` is the order placed with these fields at time `now`, still pending.
pub open spec fn is_new_order(
    row: Order,
    id: i64,
    buyer_id: i64,
    product_id: i64,
    quantity: i64,
    total_price: int,
    now: String,
) -> bool {
    &&& row.id == id
    &&& row.buyer_id == buyer_id
    &&& row.product_id == product_id
    &&& row.quantity == quantity
    &&& row.total_price == total_price
    &&& row.status@ == "pending"@
    &&& row.created_at == now
    &&& row.updated_at == now
}

/// The price of the order fits in an `i64` whenever the order can be placed.
pub open spec fn order_total_fits(products: Seq<Product>, product_id: i64, quantity: i64) -> bool {
    match lookup(products, product_id) {
        Some(p) => quantity > 0 && p.stock >= quantity ==> i64::MIN <= p.price * quantity <= i64::MAX,
        None => true,
    }
}

/// The products after `quantity` items of the product left its stock at time `now`.
pub open spec fn stock_taken(products: Seq<Product>, product_id: i64, quantity: i64, now: String) -> Seq<Product> {
    match lookup(products, product_id) {
        Some(p) => products.update(
            position(products, product_id),
            Product { stock: (p.stock - quantity) as i64, updated_at: now, ..p },
        ),
        None => products,
    }
}

/// Tells whether the order's total fits in an `i64`.
pub fn order_total_ok(db: &Database, product_id: i64, quantity: i64) -> (r: bool)
    ensures
        r == order_total_fits(db@.products, product_id, quantity),
{
    match get_by_key(&db.products, product_id) {
        Some(p) => {
            if quantity > 0 && p.stock >= quantity {
                p.price.checked_mul(quantity).is_some()
            } else {
                true
            }
        },
        None => true,
    }
}

/// What placing an order does, and what comes back.
pub open spec fn order_created(
    old_db: DbView,
    new_db: DbView,
    r: Result<Order, ModelError>,
    buyer_id: i64,
    product_id: i64,
    quantity: i64,
) -> bool {
    &&& (quantity <= 0 ==> r == Err::<Order, ModelError>(ModelError::QuantityNotPositive)
            && new_db == old_db)
    &&& (quantity > 0 ==> match lookup(old_db.products, product_id) {
            None => r == Err::<Order, ModelError>(ModelError::ProductNotFound(product_id))
                && new_db == old_db,
            Some(p) => if p.stock < quantity {
                r == Err::<Order, ModelError>(
                    ModelError::InsufficientStock { product_id, stock: p.stock },
                ) && new_db == old_db
            } else if old_db.next_order_id == i64::MAX {
                r == Err::<Order, ModelError>(ModelError::TableFull) && new_db == old_db
            } else {
                &&& new_db == (DbView {
                    orders: new_db.orders,
                    next_order_id: (old_db.next_order_id + 1) as i64,
                    products: stock_taken(old_db.products, product_id, quantity, old_db.now),
                    ..old_db
                })
                &&& new_db.orders.len() == old_db.orders.len() + 1
                &&& new_db.orders.drop_last() == old_db.orders
                &&& is_new_order(
                    new_db.orders.last(),
                    old_db.next_order_id,
                    buyer_id,
                    product_id,
                    quantity,
                    p.price * quantity,
                    old_db.now,
                )
                &&& r == Ok::<Order, ModelError>(new_db.orders.last())
            },
        })
}

/// Places an order: refused for a quantity of zero or less, a missing product, or a
/// stock that holds fewer items; otherwise the items leave the stock and the order
/// is recorded at the product's price. Gives back the order.
pub fn create_order(db: &mut Database, buyer_id: i64, product_id: i64, quantity: i64) -> (r: Result<
    Order,
    ModelError,
>)
    requires
        old(db).wf(),
        order_total_fits(old(db)@.products, product_id, quantity),
    ensures
        final(db).wf(),
        order_created(old(db)@, final(db)@, r, buyer_id, product_id, quantity),
{
    let ghost old_db = db@;
    if quantity <= 0 {
        return Err(ModelError::QuantityNotPositive);
    }
    proof {
        lemma_lookup_position(db@.products, product_id);
    }
    let k = match find_by_key(&db.products, product_id) {
        Some(k) => k,
        None => return Err(ModelError::ProductNotFound(product_id)),
    };
    let stock = db.products[k].stock;
    let price = db.products[k].price;
    if stock < quantity {
        return Err(ModelError::InsufficientStock { product_id, stock });
    }
    if db.next_order_id == i64::MAX {
        return Err(ModelError::TableFull);
    }
    let total_price = price * quantity;
    let id = db.next_order_id;
    let status = "pending".to_owned();
    proof {
        reveal_strlit("pending");
    }
    let row = Order {
        id,
        buyer_id,
        product_id,
        quantity,
        total_price,
        status,
        created_at: db.now.clone(),
        updated_at: db.now.clone(),
    };
    let result = row.dup();
    proof {
        lemma_push_ok(db.orders@, id, row);
    }
    db.orders.push(row);
    db.next_order_id = id + 1;
    let ghost mid = db@;
    let _ = decrement_stock(db, product_id, quantity);
    assert(db@.orders.drop_last() =~= old_db.orders);
    Ok(result)
}

/// The order with this id, if there is one.
pub fn get_order(db: &Database, id: i64) -> (r: Option<Order>)
    ensures
        r == lookup(db@.orders, id),
{
    match get_by_key(&db.orders, id) {
        Some(o) => Some(o.dup()),
        None => None,
    }
}

/// An order of the buyer joined with its product and shop, when both exist.
pub open spec fn order_of_buyer(products: Seq<Product>, shops: Seq<Shop>, buyer_id: i64) -> spec_fn(Order) -> Option<OrderWithDetails> {
    |o: Order|
        if o.buyer_id == buyer_id {
            match lookup(products, o.product_id) {
                Some(p) => match lookup(shops, p.shop_id) {
                    Some(s) => Some(
                        OrderWithDetails {
                            id: o.id,
                            buyer_id: o.buyer_id,
                            product_id: o.product_id,
                            product_name: p.name,
                            shop_name: s.name,
                            shop_user_id: s.user_id,
                            quantity: o.quantity,
                            total_price: o.total_price,
                            status: o.status,
                            created_at: o.created_at,
                        },
                    ),
                    None => None,
                },
                None => None,
            }
        } else {
            None
        }
}

fn order_entry(products: &Vec<Product>, shops: &Vec<Shop>, o: &Order, buyer_id: i64) -> (r: Option<OrderWithDetails>)
    ensures
        r == order_of_buyer(products@, shops@, buyer_id)(*o),
{
    if o.buyer_id != buyer_id {
        return None;
    }
    match get_by_key(products, o.product_id) {
        Some(p) => match get_by_key(shops, p.shop_id) {
            Some(s) => Some(
                OrderWithDetails {
                    id: o.id,
                    buyer_id: o.buyer_id,
                    product_id: o.product_id,
                    product_name: p.name.clone(),
                    shop_name: s.name.clone(),
                    shop_user_id: s.user_id,
                    quantity: o.quantity,
                    total_price: o.total_price,
                    status: o.status.clone(),
                    created_at: o.created_at.clone(),
                },
            ),
            None => None,
        },
        None => None,
    }
}

/// The buyer's orders, latest stamped first (orders stamped alike: the latest made first).
pub fn list_orders(db: &Database, buyer_id: i64) -> (r: Vec<OrderWithDetails>)
    ensures
        r@ == newest_first(by_stamp(db@.orders, false), order_of_buyer(db@.products, db@.shops, buyer_id)),
{
    let ghost products = db@.products;
    let ghost shops = db@.shops;
    let sorted = rows_by_stamp(&db.orders);
    collect_newest(
        &sorted,
        |o: &Order| -> (r: Option<OrderWithDetails>) ensures r == order_of_buyer(products, shops, buyer_id)(*o) { order_entry(&db.products, &db.shops, o, buyer_id) },
        Ghost(order_of_buyer(products, shops, buyer_id)),
    )
}

/// Placing an order takes its quantity from the product's stock and stamps the
/// product; nothing else about the product changes.
pub proof fn law_order_takes_stock(products: Seq<Product>, product_id: i64, quantity: i64, now: String)
    requires
        crate::seqs::keys_increasing(products),
    ensures
        match lookup(products, product_id) {
            Some(p) => lookup(stock_taken(products, product_id, quantity, now), product_id) == Some(
                Product { stock: (p.stock - quantity) as i64, updated_at: now, ..p },
            ),
            None => stock_taken(products, product_id, quantity, now) == products,
        },
{
    crate::seqs::lemma_lookup_position(products, product_id);
    if lookup(products, product_id) is Some {
        let k = position(products, product_id);
        let p = products[k];
        let after = products.update(k, Product { stock: (p.stock - quantity) as i64, updated_at: now, ..p });
        assert(crate::seqs::keys_increasing(after));
        crate::seqs::lemma_lookup_unique(after, k);
    }
}

/// Every order listed for a buyer was placed by that buyer.
pub proof fn law_orders_are_the_buyers(db: DbView, buyer_id: i64)
    ensures
        forall|k: int| 0 <= k < newest_first(by_stamp(db.orders, false), order_of_buyer(db.products, db.shops, buyer_id)).len() ==> {
            let x = #[trigger] newest_first(by_stamp(db.orders, false), order_of_buyer(db.products, db.shops, buyer_id))[k];
            x.buyer_id == buyer_id
        },
{
    crate::seqs::lemma_newest_first_origin(by_stamp(db.orders, false), order_of_buyer(db.products, db.shops, buyer_id));
    assert forall|k: int| 0 <= k < newest_first(by_stamp(db.orders, false), order_of_buyer(db.products, db.shops, buyer_id)).len() implies {
        let x = #[trigger] newest_first(by_stamp(db.orders, false), order_of_buyer(db.products, db.shops, buyer_id))[k];
        x.buyer_id == buyer_id
    } by {
        let b = by_stamp(db.orders, false);
        let a = choose|a: int| 0 <= a < b.len() && order_of_buyer(db.products, db.shops, buyer_id)(b[a]) == Some(newest_first(by_stamp(db.orders, false), order_of_buyer(db.products, db.shops, buyer_id))[k]);
        
    }
}

} // verus!
