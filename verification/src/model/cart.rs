use vstd::prelude::*;
use crate::db::{Database, DbView, cart_rel};
use crate::error::ModelError;
use crate::model::order::{Order, is_new_order, stock_taken};
use crate::model::product::{Product, decrement_stock};
use crate::model::shop::Shop;
use crate::seqs::{Stamped, by_stamp, rows_by_stamp, 
    Row, any_row, collect_newest, exists_where, find_where, get_by_key, last_where,
    lemma_last_where, lemma_push_ok, lemma_push_pairwise, lemma_retained_ok,
    lemma_retained_pairwise, lemma_retained_sub, lemma_update_ok, lemma_update_pairwise, lookup,
    newest_first, retain_rows, retained, lemma_retained_excludes,
};

verus! {

/// A product in a user's cart, with the quantity wanted.
#[derive(Clone, Debug)]
pub struct CartItem {
    pub id: i64,
    pub user_id: i64,
    pub product_id: i64,
    pub quantity: i64,
    pub created_at: String,
}

impl Stamped for CartItem {
    open spec fn stamp(&self) -> Seq<char> {
        self.created_at@
    }

    fn stamp_text(&self) -> (r: &str) {
        self.created_at.as_str()
    }
}

impl Row for CartItem {
    open spec fn key(&self) -> i64 {
        self.id
    }

    fn row_key(&self) -> (r: i64) {
        self.id
    }

    fn dup(&self) -> (r: Self) {
        CartItem {
            id: self.id,
            user_id: self.user_id,
            product_id: self.product_id,
            quantity: self.quantity,
            created_at: self.created_at.clone(),
        }
    }
}

/// A cart item joined with its product and shop.
#[derive(Clone, Debug)]
pub struct CartItemWithDetails {
    pub id: i64,
    pub user_id: i64,
    pub product_id: i64,
    pub product_name: String,
    pub price: i64,
    pub stock: i64,
    pub quantity: i64,
    pub total_price: i64,
    pub shop_id: i64,
    pub shop_name: String,
    pub created_at: String,
}

/// The cart item of `user_id` for `product_id`.
pub open spec fn is_cart_entry(user_id: i64, product_id: i64) -> spec_fn(CartItem) -> bool {
    |c: CartItem| c.user_id == user_id && c.product_id == product_id
}

/// What adding `quantity` of the product to the user's cart does. Refused for a
/// quantity of zero or less, a missing product, or a stock below the quantity.
/// When the cart holds the product, its quantity grows; otherwise the product is
/// added under the next id. Gives back the cart item.
pub open spec fn cart_added(old_db: DbView, new_db: DbView, r: Result<CartItem, ModelError>, user_id: i64, product_id: i64, quantity: i64) -> bool {
    if quantity <= 0 {
        r == Err::<CartItem, ModelError>(ModelError::QuantityNotPositive) && new_db == old_db
    } else {
        match lookup(old_db.products, product_id) {
            None => r == Err::<CartItem, ModelError>(ModelError::ProductNotFound(product_id)) && new_db == old_db,
            Some(p) => if p.stock < quantity {
                r == Err::<CartItem, ModelError>(ModelError::InsufficientStock { product_id, stock: p.stock }) && new_db == old_db
            } else {
                let k = last_where(old_db.cart_items, is_cart_entry(user_id, product_id));
                if k != -1 {
                    let c = old_db.cart_items[k];
                    if c.quantity + quantity > i64::MAX {
                        r == Err::<CartItem, ModelError>(ModelError::Overflow) && new_db == old_db
                    } else {
                        let c2 = CartItem { quantity: (c.quantity + quantity) as i64, ..c };
                        &&& new_db == (DbView { cart_items: old_db.cart_items.update(k, c2), ..old_db })
                        &&& r == Ok::<CartItem, ModelError>(c2)
                    }
                } else if old_db.next_cart_item_id == i64::MAX {
                    r == Err::<CartItem, ModelError>(ModelError::TableFull) && new_db == old_db
                } else {
                    let c = CartItem {
                        id: old_db.next_cart_item_id,
                        user_id,
                        product_id,
                        quantity,
                        created_at: old_db.now,
                    };
                    &&& new_db == (DbView {
                        cart_items: old_db.cart_items.push(c),
                        next_cart_item_id: (old_db.next_cart_item_id + 1) as i64,
                        ..old_db
                    })
                    &&& r == Ok::<CartItem, ModelError>(c)
                }
            },
        }
    }
}

/// Puts `quantity` of the product in the user's cart.
pub fn add(db: &mut Database, user_id: i64, product_id: i64, quantity: i64) -> (r: Result<CartItem, ModelError>)
    requires
        old(db).wf(),
    ensures
        final(db).wf(),
        cart_added(old(db)@, final(db)@, r, user_id, product_id, quantity),
{
    if quantity <= 0 {
        return Err(ModelError::QuantityNotPositive);
    }
    let stock = match get_by_key(&db.products, product_id) {
        Some(p) => p.stock,
        None => return Err(ModelError::ProductNotFound(product_id)),
    };
    if stock < quantity {
        return Err(ModelError::InsufficientStock { product_id, stock });
    }
    proof {
        lemma_last_where(db@.cart_items, is_cart_entry(user_id, product_id));
    }
    let found = find_where(
        &db.cart_items,
        |c: &CartItem| -> (b: bool) ensures b == is_cart_entry(user_id, product_id)(*c) { c.user_id == user_id && c.product_id == product_id },
        Ghost(is_cart_entry(user_id, product_id)),
    );
    match found {
        Some(k) => {
            let q = db.cart_items[k].quantity;
            if q > i64::MAX - quantity {
                return Err(ModelError::Overflow);
            }
            let mut c = db.cart_items[k].dup();
            c.quantity = q + quantity;
            let result = c.dup();
            proof {
                lemma_update_ok(db.cart_items@, db.next_cart_item_id, k as int, c);
                assert forall|i: int| 0 <= i < k implies #[trigger] cart_rel()(db.cart_items@[i], c) by {
                    assert(cart_rel()(db.cart_items@[i], db.cart_items@[k as int]));
                }
                assert forall|i: int| k < i < db.cart_items@.len() implies #[trigger] cart_rel()(c, db.cart_items@[i]) by {
                    assert(cart_rel()(db.cart_items@[k as int], db.cart_items@[i]));
                }
                lemma_update_pairwise(db.cart_items@, k as int, c, cart_rel());
            }
            db.cart_items.set(k, c);
            Ok(result)
        },
        None => {
            if db.next_cart_item_id == i64::MAX {
                return Err(ModelError::TableFull);
            }
            let id = db.next_cart_item_id;
            let c = CartItem { id, user_id, product_id, quantity, created_at: db.now.clone() };
            let result = c.dup();
            proof {
                lemma_push_ok(db.cart_items@, id, c);
                assert forall|i: int| 0 <= i < db.cart_items@.len() implies #[trigger] cart_rel()(db.cart_items@[i], c) by {
                    if !cart_rel()(db.cart_items@[i], c) {
                        assert(is_cart_entry(user_id, product_id)(db.cart_items@[i]));
                    }
                }
                lemma_push_pairwise(db.cart_items@, c, cart_rel());
            }
            db.cart_items.push(c);
            db.next_cart_item_id = id + 1;
            Ok(result)
        },
    }
}

/// The cart item with this id, if there is one.
pub fn get(db: &Database, id: i64) -> (r: Option<CartItem>)
    ensures
        r == lookup(db@.cart_items, id),
{
    match get_by_key(&db.cart_items, id) {
        Some(c) => Some(c.dup()),
        None => None,
    }
}

/// `a * b`, where it fits in an `i64`; listing a cart whose total does not fit is
/// refused, so no listed total is ever the 0 given otherwise.
pub open spec fn product_or_zero(a: i64, b: i64) -> i64 {
    if i64::MIN <= a * b <= i64::MAX {
        (a * b) as i64
    } else {
        0
    }
}

/// A cart item of the user joined with its product and shop, when both exist;
/// its total is the product's price times the quantity.
pub open spec fn cart_entry(products: Seq<Product>, shops: Seq<Shop>, user_id: i64) -> spec_fn(CartItem) -> Option<CartItemWithDetails> {
    |c: CartItem|
        if c.user_id == user_id {
            match lookup(products, c.product_id) {
                Some(p) => match lookup(shops, p.shop_id) {
                    Some(s) => Some(
                        CartItemWithDetails {
                            id: c.id,
                            user_id: c.user_id,
                            product_id: c.product_id,
                            product_name: p.name,
                            price: p.price,
                            stock: p.stock,
                            quantity: c.quantity,
                            total_price: product_or_zero(p.price, c.quantity),
                            shop_id: p.shop_id,
                            shop_name: s.name,
                            created_at: c.created_at,
                        },
                    ),
                    None => None,
                },
                None => None,
            }
        } else {
            None
        }
}

/// A cart item of the user, listed with its product and shop, whose total leaves
/// the range of `i64`.
pub open spec fn total_overflows(products: Seq<Product>, shops: Seq<Shop>, user_id: i64) -> spec_fn(CartItem) -> bool {
    |c: CartItem|
        c.user_id == user_id && match lookup(products, c.product_id) {
            Some(p) => lookup(shops, p.shop_id) is Some && !(i64::MIN <= p.price * c.quantity <= i64::MAX),
            None => false,
        }
}

fn cart_entry_exec(products: &Vec<Product>, shops: &Vec<Shop>, c: &CartItem, user_id: i64) -> (r: Option<CartItemWithDetails>)
    ensures
        r == cart_entry(products@, shops@, user_id)(*c),
{
    if c.user_id != user_id {
        return None;
    }
    match get_by_key(products, c.product_id) {
        Some(p) => match get_by_key(shops, p.shop_id) {
            Some(s) => {
                let total = match p.price.checked_mul(c.quantity) {
                    Some(t) => t,
                    None => 0,
                };
                Some(
                    CartItemWithDetails {
                        id: c.id,
                        user_id: c.user_id,
                        product_id: c.product_id,
                        product_name: p.name.clone(),
                        price: p.price,
                        stock: p.stock,
                        quantity: c.quantity,
                        total_price: total,
                        shop_id: p.shop_id,
                        shop_name: s.name.clone(),
                        created_at: c.created_at.clone(),
                    },
                )
            },
            None => None,
        },
        None => None,
    }
}

/// The user's cart: its items with their products and shops, latest stamped
/// first (items stamped alike: the latest added first). Refused when an item's total leaves the range of `i64`.
pub open spec fn cart_listing(db: DbView, user_id: i64) -> Result<Seq<CartItemWithDetails>, ModelError> {
    if exists_where(db.cart_items, total_overflows(db.products, db.shops, user_id)) {
        Err(ModelError::Overflow)
    } else {
        Ok(newest_first(by_stamp(db.cart_items, false), cart_entry(db.products, db.shops, user_id)))
    }
}

fn overflows_exec(products: &Vec<Product>, shops: &Vec<Shop>, c: &CartItem, user_id: i64) -> (r: bool)
    ensures
        r == total_overflows(products@, shops@, user_id)(*c),
{
    if c.user_id != user_id {
        return false;
    }
    match get_by_key(products, c.product_id) {
        Some(p) => get_by_key(shops, p.shop_id).is_some() && p.price.checked_mul(c.quantity).is_none(),
        None => false,
    }
}

/// The user's cart, by the time each item was stamped, the latest stamped first (rows stamped alike: the latest made first).
pub fn list(db: &Database, user_id: i64) -> (r: Result<Vec<CartItemWithDetails>, ModelError>)
    ensures
        match r {
            Ok(v) => cart_listing(db@, user_id) == Ok::<Seq<CartItemWithDetails>, ModelError>(v@),
            Err(e) => cart_listing(db@, user_id) == Err::<Seq<CartItemWithDetails>, ModelError>(e),
        },
{
    let ghost products = db@.products;
    let ghost shops = db@.shops;
    let bad = any_row(
        &db.cart_items,
        |c: &CartItem| -> (b: bool) ensures b == total_overflows(products, shops, user_id)(*c) { overflows_exec(&db.products, &db.shops, c, user_id) },
        Ghost(total_overflows(products, shops, user_id)),
    );
    if bad {
        return Err(ModelError::Overflow);
    }
    let sorted = rows_by_stamp(&db.cart_items);
    let v = collect_newest(
        &sorted,
        |c: &CartItem| -> (r: Option<CartItemWithDetails>) ensures r == cart_entry(products, shops, user_id)(*c) { cart_entry_exec(&db.products, &db.shops, c, user_id) },
        Ghost(cart_entry(products, shops, user_id)),
    );
    Ok(v)
}

/// The item with this id in the user's cart.
pub open spec fn is_item(id: i64, user_id: i64) -> spec_fn(CartItem) -> bool {
    |c: CartItem| c.id == id && c.user_id == user_id
}

/// Any cart item but the one with this id in the user's cart.
pub open spec fn not_item(id: i64, user_id: i64) -> spec_fn(CartItem) -> bool {
    |c: CartItem| !(c.id == id && c.user_id == user_id)
}

/// What removing a cart item does, and what comes back.
pub open spec fn cart_item_removed(
    old_db: DbView,
    new_db: DbView,
    r: bool,
    id: i64,
    user_id: i64,
) -> bool {
    &&& (r == exists_where(old_db.cart_items, is_item(id, user_id)))
    &&& (new_db == (DbView { cart_items: retained(old_db.cart_items, not_item(id, user_id)), ..old_db }))
}

/// Takes the item out of the user's cart; false when the user's cart holds no item
/// with this id.
pub fn remove(db: &mut Database, id: i64, user_id: i64) -> (r: bool)
    requires
        old(db).wf(),
    ensures
        final(db).wf(),
        cart_item_removed(old(db)@, final(db)@, r, id, user_id),
{
    proof {
        lemma_retained_ok(db.cart_items@, db.next_cart_item_id, not_item(id, user_id));
        lemma_retained_pairwise(db.cart_items@, not_item(id, user_id), cart_rel());
        lemma_retained_sub(db.cart_items@, not_item(id, user_id));
    }
    let dropped = retain_rows(
        &mut db.cart_items,
        |c: &CartItem| -> (b: bool) ensures b == not_item(id, user_id)(*c) { !(c.id == id && c.user_id == user_id) },
        Ghost(not_item(id, user_id)),
    );
    proof {
        let r = retained(old(db)@.cart_items, not_item(id, user_id));
        assert forall|i: int| 0 <= i < r.len() implies #[trigger] r[i].quantity > 0 by {
            let j = choose|j: int| 0 <= j < old(db)@.cart_items.len() && old(db)@.cart_items[j] == #[trigger] r[i] && not_item(id, user_id)(old(db)@.cart_items[j]);
        }
        if dropped {
            let i = choose|i: int| 0 <= i < old(db)@.cart_items.len() && !not_item(id, user_id)(old(db)@.cart_items[i]);
            assert(is_item(id, user_id)(old(db)@.cart_items[i]));
        }
        if exists_where(old(db)@.cart_items, is_item(id, user_id)) {
            let i = choose|i: int| 0 <= i < old(db)@.cart_items.len() && #[trigger] is_item(id, user_id)(old(db)@.cart_items[i]);
            assert(!not_item(id, user_id)(old(db)@.cart_items[i]));
        }
    }
    dropped
}

/// What setting a cart quantity does, and what comes back.
pub open spec fn cart_quantity_set(
    old_db: DbView,
    new_db: DbView,
    r: bool,
    id: i64,
    user_id: i64,
    quantity: i64,
) -> bool {
    &&& (r == exists_where(old_db.cart_items, is_item(id, user_id)))
    &&& (quantity <= 0 ==> new_db == (DbView {
            cart_items: retained(old_db.cart_items, not_item(id, user_id)),
            ..old_db
        }))
    &&& (quantity > 0 && !r ==> new_db == old_db)
    &&& (quantity > 0 && r ==> {
            let k = last_where(old_db.cart_items, is_item(id, user_id));
            new_db == (DbView {
                cart_items: old_db.cart_items.update(k, CartItem { quantity, ..old_db.cart_items[k] }),
                ..old_db
            })
        })
}

/// Sets the quantity of the item in the user's cart; a quantity of zero or less
/// takes the item out. False when the user's cart holds no item with this id.
pub fn update_quantity(db: &mut Database, id: i64, user_id: i64, quantity: i64) -> (r: bool)
    requires
        old(db).wf(),
    ensures
        final(db).wf(),
        cart_quantity_set(old(db)@, final(db)@, r, id, user_id, quantity),
{
    if quantity <= 0 {
        return remove(db, id, user_id);
    }
    proof {
        lemma_last_where(db@.cart_items, is_item(id, user_id));
    }
    let found = find_where(
        &db.cart_items,
        |c: &CartItem| -> (b: bool) ensures b == is_item(id, user_id)(*c) { c.id == id && c.user_id == user_id },
        Ghost(is_item(id, user_id)),
    );
    match found {
        Some(k) => {
            let mut c = db.cart_items[k].dup();
            c.quantity = quantity;
            proof {
                lemma_update_ok(db.cart_items@, db.next_cart_item_id, k as int, c);
                assert forall|i: int| 0 <= i < k implies #[trigger] cart_rel()(db.cart_items@[i], c) by {
                    assert(cart_rel()(db.cart_items@[i], db.cart_items@[k as int]));
                }
                assert forall|i: int| k < i < db.cart_items@.len() implies #[trigger] cart_rel()(c, db.cart_items@[i]) by {
                    assert(cart_rel()(db.cart_items@[k as int], db.cart_items@[i]));
                }
                lemma_update_pairwise(db.cart_items@, k as int, c, cart_rel());
            }
            db.cart_items.set(k, c);
            true
        },
        None => false,
    }
}

/// Sum of the quantities in the user's cart.
pub open spec fn quantity_sum(s: Seq<CartItem>, user_id: i64) -> int
    decreases s.len(),
{
    if s.len() == 0 {
        0
    } else {
        quantity_sum(s.drop_last(), user_id) + if s.last().user_id == user_id {
            s.last().quantity as int
        } else {
            0
        }
    }
}

/// Number of items in the user's cart, counting each as often as its quantity;
/// refused when the sum leaves the range of `i64`.
pub fn count(db: &Database, user_id: i64) -> (r: Result<i64, ModelError>)
    requires
        db.wf(),
    ensures
        quantity_sum(db@.cart_items, user_id) <= i64::MAX ==> r == Ok::<i64, ModelError>(
            quantity_sum(db@.cart_items, user_id) as i64,
        ),
        quantity_sum(db@.cart_items, user_id) > i64::MAX ==> r == Err::<i64, ModelError>(
            ModelError::Overflow,
        ),
{
    let ghost s = db@.cart_items;
    let mut total: i64 = 0;
    let mut i: usize = 0;
    assert(s.take(0) =~= Seq::<CartItem>::empty());
    while i < db.cart_items.len()
        invariant
            s == db@.cart_items,
            i <= s.len(),
            forall|m: int| 0 <= m < s.len() ==> #[trigger] s[m].quantity > 0,
            total == quantity_sum(s.take(i as int), user_id),
            total >= 0,
        decreases s.len() - i,
    {
        assert(s.take(i + 1).drop_last() =~= s.take(i as int));
        let c = &db.cart_items[i];
        if c.user_id == user_id {
            if total > i64::MAX - c.quantity {
                proof {
                    lemma_quantity_sum_grows(s, user_id, i + 1);
                }
                return Err(ModelError::Overflow);
            }
            total = total + c.quantity;
        }
        i = i + 1;
    }
    assert(s.take(s.len() as int) =~= s);
    Ok(total)
}

/// With positive quantities, the sum over a prefix is at most the whole sum.
proof fn lemma_quantity_sum_grows(s: Seq<CartItem>, user_id: i64, k: int)
    requires
        0 <= k <= s.len(),
        forall|m: int| 0 <= m < s.len() ==> #[trigger] s[m].quantity > 0,
    ensures
        quantity_sum(s.take(k), user_id) <= quantity_sum(s, user_id),
    decreases s.len() - k,
{
    if k < s.len() {
        lemma_quantity_sum_grows(s, user_id, k + 1);
        assert(s.take(k + 1).drop_last() =~= s.take(k));
    } else {
        assert(s.take(k) =~= s);
    }
}

/// The products after the first `k` cart items left their stocks at time `now`.
pub open spec fn products_after(ps: Seq<Product>, items: Seq<CartItemWithDetails>, k: int, now: String) -> Seq<Product>
    decreases k,
{
    if k <= 0 {
        ps
    } else {
        stock_taken(
            products_after(ps, items, k - 1, now),
            items[k - 1].product_id,
            items[k - 1].quantity,
            now,
        )
    }
}

/// The price of the `k`th cart item's product when checkout comes to it.
pub open spec fn price_at(ps: Seq<Product>, items: Seq<CartItemWithDetails>, k: int, now: String) -> int {
    match lookup(products_after(ps, items, k, now), items[k].product_id) {
        Some(p) => p.price as int,
        None => 0,
    }
}

/// Why checkout stops at the `k`th cart item, if it does: the product is gone, its
/// stock holds fewer items, the order ids are used up, or a number leaves `i64`.
pub open spec fn step_error(ps: Seq<Product>, next_order: i64, items: Seq<CartItemWithDetails>, k: int, now: String) -> Option<ModelError> {
    item_error(
        products_after(ps, items, k, now),
        (next_order + k) as i64,
        items[k].product_id,
        items[k].quantity,
    )
}

/// Why the cart item cannot become an order now, if it cannot.
pub open spec fn item_error(products: Seq<Product>, next_order: i64, product_id: i64, quantity: i64) -> Option<ModelError> {
    match lookup(products, product_id) {
        None => Some(ModelError::ProductGone(product_id)),
        Some(p) => if p.stock < quantity {
            Some(ModelError::OutOfStock { name: p.name, stock: p.stock })
        } else if next_order >= i64::MAX {
            Some(ModelError::TableFull)
        } else if !(i64::MIN <= p.price * quantity <= i64::MAX) || p.stock - quantity > i64::MAX {
            Some(ModelError::Overflow)
        } else {
            None
        },
    }
}

fn check_item(db: &Database, product_id: i64, quantity: i64) -> (r: Result<i64, ModelError>)
    ensures
        match r {
            Err(e) => item_error(db@.products, db@.next_order_id, product_id, quantity) == Some(e),
            Ok(t) => item_error(db@.products, db@.next_order_id, product_id, quantity) is None
                && lookup(db@.products, product_id) is Some
                && t == lookup(db@.products, product_id).unwrap().price * quantity,
        },
{
    let (stock, price) = match get_by_key(&db.products, product_id) {
        Some(p) => {
            if p.stock < quantity {
                return Err(ModelError::OutOfStock { name: p.name.clone(), stock: p.stock });
            }
            (p.stock, p.price)
        },
        None => return Err(ModelError::ProductGone(product_id)),
    };
    if db.next_order_id == i64::MAX {
        return Err(ModelError::TableFull);
    }
    let total = match price.checked_mul(quantity) {
        Some(t) => t,
        None => return Err(ModelError::Overflow),
    };
    if quantity < 0 && stock > i64::MAX + quantity {
        return Err(ModelError::Overflow);
    }
    Ok(total)
}

/// Index of the first cart item from `k` on at which checkout stops, or the number
/// of items when it stops at none.
pub open spec fn first_failure(ps: Seq<Product>, next_order: i64, items: Seq<CartItemWithDetails>, k: int, now: String) -> int
    decreases items.len() - k,
{
    if k >= items.len() {
        items.len() as int
    } else if step_error(ps, next_order, items, k, now) is Some {
        k
    } else {
        first_failure(ps, next_order, items, k + 1, now)
    }
}

/// Any cart item of another user.
pub open spec fn not_users_item(user_id: i64) -> spec_fn(CartItem) -> bool {
    |c: CartItem| c.user_id != user_id
}

/// What checkout does: the cart is listed as `cart_listing` gives it; each item in turn
/// becomes an order at its product's price and leaves the product's stock. At the
/// first item that cannot, checkout stops with its error, keeping the orders placed
/// before it; when all succeed, the cart is emptied and the new orders' ids come back.
pub open spec fn checked_out(old_db: DbView, new_db: DbView, r: Result<Seq<i64>, ModelError>, user_id: i64) -> bool {
    match cart_listing(old_db, user_id) {
        Err(e) => r == Err::<Seq<i64>, ModelError>(e) && new_db == old_db,
        Ok(items) => if items.len() == 0 {
            r == Err::<Seq<i64>, ModelError>(ModelError::CartEmpty) && new_db == old_db
        } else {
            let j = first_failure(old_db.products, old_db.next_order_id, items, 0, old_db.now);
            let n0 = old_db.orders.len();
            let added = new_db.orders.subrange(n0 as int, new_db.orders.len() as int);
            &&& 0 <= j <= items.len()
            &&& new_db.products == products_after(old_db.products, items, j, old_db.now)
            &&& new_db.next_order_id == old_db.next_order_id + j
            &&& new_db.orders.len() == n0 + j
            &&& new_db.orders.subrange(0, n0 as int) == old_db.orders
            &&& forall|m: int|
                0 <= m < j ==> is_new_order(
                    #[trigger] added[m],
                    (old_db.next_order_id + m) as i64,
                    user_id,
                    items[m].product_id,
                    items[m].quantity,
                    price_at(old_db.products, items, m, old_db.now) * items[m].quantity,
                    old_db.now,
                )
            &&& if j < items.len() {
                &&& r == Err::<Seq<i64>, ModelError>(
                    step_error(old_db.products, old_db.next_order_id, items, j, old_db.now).unwrap(),
                )
                &&& new_db == (DbView {
                    orders: new_db.orders,
                    next_order_id: new_db.next_order_id,
                    products: new_db.products,
                    ..old_db
                })
            } else {
                &&& r == Ok::<Seq<i64>, ModelError>(
                    Seq::new(items.len(), |m: int| (old_db.next_order_id + m) as i64),
                )
                &&& new_db == (DbView {
                    orders: new_db.orders,
                    next_order_id: new_db.next_order_id,
                    products: new_db.products,
                    cart_items: retained(old_db.cart_items, not_users_item(user_id)),
                    ..old_db
                })
            }
        },
    }
}

/// Turns the user's cart into orders.
pub fn checkout(db: &mut Database, user_id: i64) -> (r: Result<Vec<i64>, ModelError>)
    requires
        old(db).wf(),
    ensures
        final(db).wf(),
        checked_out(
            old(db)@,
            final(db)@,
            match r {
                Ok(v) => Ok::<Seq<i64>, ModelError>(v@),
                Err(e) => Err::<Seq<i64>, ModelError>(e),
            },
            user_id,
        ),
{
    let ghost old_db = db@;
    let items = match list(db, user_id) {
        Ok(v) => v,
        Err(e) => return Err(e),
    };
    if items.len() == 0 {
        return Err(ModelError::CartEmpty);
    }
    let ghost its = items@;
    let ghost n0 = old_db.orders.len();
    let ghost next0 = old_db.next_order_id;
    let ghost now = old_db.now;
    let mut ids: Vec<i64> = Vec::new();
    let mut k: usize = 0;
    proof {
        lemma_table_len_orders(old_db);
    }
    while k < items.len()
        invariant
            items@ == its,
            old_db == old(db)@,
            next0 == old_db.next_order_id,
            now == old_db.now,
            n0 == old_db.orders.len(),
            its.len() > 0,
            cart_listing(old_db, user_id) == Ok::<Seq<CartItemWithDetails>, ModelError>(its),
            k <= its.len(),
            db.wf(),
            db@ == (DbView {
                orders: db@.orders,
                next_order_id: db@.next_order_id,
                products: db@.products,
                ..old_db
            }),
            db@.next_order_id == next0 + k,
            db@.products == products_after(old_db.products, its, k as int, now),
            db@.orders.len() == n0 + k,
            db@.orders.subrange(0, n0 as int) == old_db.orders,
            forall|m: int|
                0 <= m < k ==> is_new_order(
                    #[trigger] db@.orders.subrange(n0 as int, db@.orders.len() as int)[m],
                    (next0 + m) as i64,
                    user_id,
                    its[m].product_id,
                    its[m].quantity,
                    price_at(old_db.products, its, m, now) * its[m].quantity,
                    now,
                ),
            ids@ == Seq::new(k as nat, |m: int| (next0 + m) as i64),
            first_failure(old_db.products, next0, its, 0, now) == first_failure(
                old_db.products,
                next0,
                its,
                k as int,
                now,
            ),
        decreases its.len() - k,
    {
        let pid = items[k].product_id;
        let qty = items[k].quantity;
        let total = match check_item(db, pid, qty) {
            Ok(t) => t,
            Err(e) => {
                proof {
                    assert(step_error(old_db.products, next0, its, k as int, now) == Some(e));
                    assert(first_failure(old_db.products, next0, its, k as int, now) == k);
                    assert(cart_listing(old_db, user_id) == Ok::<Seq<CartItemWithDetails>, ModelError>(its));
                    let j = first_failure(old_db.products, next0, its, 0, now);
                    assert(j == k);
                    assert(db@.products == products_after(old_db.products, its, j, now));
                    assert(db@.next_order_id == next0 + j);
                    assert(db@ == (DbView { orders: db@.orders, next_order_id: db@.next_order_id, products: db@.products, ..old_db }));
                    let added = db@.orders.subrange(n0 as int, db@.orders.len() as int);
                    assert(forall|m: int| 0 <= m < j ==> is_new_order(
                        #[trigger] added[m],
                        (old_db.next_order_id + m) as i64,
                        user_id,
                        its[m].product_id,
                        its[m].quantity,
                        price_at(old_db.products, its, m, old_db.now) * its[m].quantity,
                        old_db.now,
                    ));
                    assert(j < its.len());
                    assert(step_error(old_db.products, old_db.next_order_id, its, j, old_db.now).unwrap() == e);
                    assert(checked_out(old_db, db@, Err::<Seq<i64>, ModelError>(e), user_id));
                }
                return Err(e);
            },
        };
        let id = db.next_order_id;
        let status = "pending".to_owned();
        proof {
            reveal_strlit("pending");
        }
        let row = Order {
            id,
            buyer_id: user_id,
            product_id: pid,
            quantity: qty,
            total_price: total,
            status,
            created_at: db.now.clone(),
            updated_at: db.now.clone(),
        };
        let ghost before = db@.orders;
        let ghost prod_before = db@.products;
        let ghost grow = row;
        proof {
            lemma_push_ok(db.orders@, id, row);
        }
        db.orders.push(row);
        db.next_order_id = id + 1;
        let _ = decrement_stock(db, pid, qty);
        ids.push(id);
        proof {
            assert(db@.orders.subrange(0, n0 as int) =~= old_db.orders);
            assert forall|m: int| 0 <= m < k + 1 implies is_new_order(
                #[trigger] db@.orders.subrange(n0 as int, db@.orders.len() as int)[m],
                (next0 + m) as i64,
                user_id,
                its[m].product_id,
                its[m].quantity,
                price_at(old_db.products, its, m, now) * its[m].quantity,
                now,
            ) by {
                if m < k {
                    assert(db@.orders.subrange(n0 as int, db@.orders.len() as int)[m] == before.subrange(n0 as int, before.len() as int)[m]);
                } else {
                    assert(db@.orders.subrange(n0 as int, db@.orders.len() as int)[m] == grow);
                    assert(prod_before == products_after(old_db.products, its, k as int, now));
                    assert(total == price_at(old_db.products, its, k as int, now) * its[k as int].quantity);
                }
            }
            assert(ids@ =~= Seq::new((k + 1) as nat, |m: int| (next0 + m) as i64));
        }
        k = k + 1;
    }
    proof {
        lemma_retained_ok(db.cart_items@, db.next_cart_item_id, not_users_item(user_id));
        lemma_retained_pairwise(db.cart_items@, not_users_item(user_id), cart_rel());
        lemma_retained_sub(db.cart_items@, not_users_item(user_id));
        let r = retained(db.cart_items@, not_users_item(user_id));
        assert forall|i: int| 0 <= i < r.len() implies #[trigger] r[i].quantity > 0 by {
            let j = choose|j: int| 0 <= j < db.cart_items@.len() && db.cart_items@[j] == #[trigger] r[i] && not_users_item(user_id)(db.cart_items@[j]);
        }
    }
    retain_rows(
        &mut db.cart_items,
        |c: &CartItem| -> (b: bool) ensures b == not_users_item(user_id)(*c) { c.user_id != user_id },
        Ghost(not_users_item(user_id)),
    );
    Ok(ids)
}

proof fn lemma_table_len_orders(db: DbView)
    requires
        db.wf(),
    ensures
        db.orders.len() < i64::MAX,
{
    crate::seqs::lemma_table_len(db.orders, db.next_order_id);
}

/// How many of the product the user's cart holds.
pub open spec fn cart_quantity(items: Seq<CartItem>, user_id: i64, product_id: i64) -> int {
    let k = last_where(items, is_cart_entry(user_id, product_id));
    if k == -1 {
        0
    } else {
        items[k].quantity as int
    }
}

/// A cart item of the user.
pub open spec fn users_item(user_id: i64) -> spec_fn(CartItem) -> bool {
    |c: CartItem| c.user_id == user_id
}

/// Adding to the cart adds up: once it succeeded, the cart holds the quantity it
/// held before plus the quantity added, and the item handed back says so.
pub proof fn law_cart_add_accumulates(
    old_db: DbView,
    new_db: DbView,
    r: Result<CartItem, ModelError>,
    user_id: i64,
    product_id: i64,
    quantity: i64,
)
    requires
        cart_added(old_db, new_db, r, user_id, product_id, quantity),
        r is Ok,
    ensures
        cart_quantity(new_db.cart_items, user_id, product_id) == cart_quantity(
            old_db.cart_items,
            user_id,
            product_id,
        ) + quantity,
        r->Ok_0.quantity == cart_quantity(new_db.cart_items, user_id, product_id),
{
    let p = is_cart_entry(user_id, product_id);
    let s = old_db.cart_items;
    lemma_last_where(s, p);
    let k = last_where(s, p);
    let t = new_db.cart_items;
    lemma_last_where(t, p);
    if k != -1 {
        assert(p(t[k]));
        let lw = last_where(t, p);
        if lw != k {
            if lw > k {
                assert(t[lw] == s[lw]);
            }
        }
    } else {
        assert(p(t[s.len() as int]));
    }
}

/// After a checkout that succeeded, the user's cart is empty, and one order id came
/// back for every item it held.
pub proof fn law_checkout_empties_cart(
    old_db: DbView,
    new_db: DbView,
    ids: Seq<i64>,
    user_id: i64,
)
    requires
        checked_out(old_db, new_db, Ok(ids), user_id),
    ensures
        !exists_where(new_db.cart_items, users_item(user_id)),
        cart_listing(old_db, user_id) matches Ok(items) && ids.len() == items.len(),
{
    lemma_retained_excludes(old_db.cart_items, not_users_item(user_id), users_item(user_id));
}

/// The products listed for checkout are all different.
proof fn lemma_listing_distinct(db: DbView, user_id: i64)
    requires
        db.wf(),
    ensures
        forall|i: int, j: int|
            0 <= i < j < newest_first(by_stamp(db.cart_items, false), cart_entry(db.products, db.shops, user_id)).len()
                ==> #[trigger] newest_first(by_stamp(db.cart_items, false), cart_entry(db.products, db.shops, user_id))[i].product_id
                != #[trigger] newest_first(by_stamp(db.cart_items, false), cart_entry(db.products, db.shops, user_id))[j].product_id,
{
    crate::seqs::lemma_by_stamp_pairwise(db.cart_items, false, cart_rel());
    lemma_distinct_rec(by_stamp(db.cart_items, false), db.products, db.shops, user_id);
}

proof fn lemma_distinct_rec(s: Seq<CartItem>, products: Seq<Product>, shops: Seq<Shop>, user_id: i64)
    requires
        crate::db::cart_pairs_unique(s),
    ensures
        forall|i: int, j: int|
            0 <= i < j < newest_first(s, cart_entry(products, shops, user_id)).len()
                ==> #[trigger] newest_first(s, cart_entry(products, shops, user_id))[i].product_id
                != #[trigger] newest_first(s, cart_entry(products, shops, user_id))[j].product_id,
    decreases s.len(),
{
    let f = cart_entry(products, shops, user_id);
    if s.len() > 0 {
        let t = s.drop_last();
        assert(crate::db::cart_pairs_unique(t)) by {
            assert forall|a: int, b: int| 0 <= a < b < t.len() implies #[trigger] cart_rel()(t[a], t[b]) by {
                assert(cart_rel()(s[a], s[b]));
            }
        }
        lemma_distinct_rec(t, products, shops, user_id);
        crate::seqs::lemma_newest_first_origin(t, f);
        let r = newest_first(s, f);
        match f(s.last()) {
            Some(u) => {
                assert forall|i: int, j: int| 0 <= i < j < r.len() implies #[trigger] r[i].product_id != #[trigger] r[j].product_id by {
                    if i == 0 {
                        let x = newest_first(t, f)[j - 1];
                        assert(r[j] == x);
                        let b = choose|b: int| 0 <= b < t.len() && f(t[b]) == Some(newest_first(t, f)[j - 1]);
                        assert(cart_rel()(s[b], s[s.len() - 1]));
                    } else {
                        assert(r[i] == newest_first(t, f)[i - 1]);
                        assert(r[j] == newest_first(t, f)[j - 1]);
                    }
                }
            },
            None => {},
        }
    }
}

/// Taking stock of one product leaves every other product as it was.
proof fn lemma_stock_taken_other(ps: Seq<Product>, product_id: i64, quantity: i64, now: String, other: i64)
    requires
        crate::seqs::keys_increasing(ps),
        other != product_id,
    ensures
        lookup(stock_taken(ps, product_id, quantity, now), other) == lookup(ps, other),
        crate::seqs::keys_increasing(stock_taken(ps, product_id, quantity, now)),
{
    crate::seqs::lemma_lookup_position(ps, product_id);
    crate::seqs::lemma_lookup_position(ps, other);
    let after = stock_taken(ps, product_id, quantity, now);
    if lookup(ps, product_id) is Some {
        let k = crate::seqs::position(ps, product_id);
        assert(crate::seqs::keys_increasing(after));
        crate::seqs::lemma_lookup_position(after, other);
        if lookup(ps, other) is Some {
            let j = crate::seqs::position(ps, other);
            assert(after[j] == ps[j]);
            crate::seqs::lemma_lookup_unique(after, j);
        } else {
            assert forall|i: int| 0 <= i < after.len() implies after[i].key() != other by {
                if i != k {
                    assert(after[i] == ps[i]);
                }
            }
        }
    }
}

/// After the first `k` items, each product of those items has lost its quantity
/// once, and every other product is as it was.
proof fn lemma_products_after(ps: Seq<Product>, items: Seq<CartItemWithDetails>, k: int, now: String)
    requires
        crate::seqs::keys_increasing(ps),
        0 <= k <= items.len(),
        forall|i: int, j: int| 0 <= i < j < items.len() ==> #[trigger] items[i].product_id != #[trigger] items[j].product_id,
    ensures
        crate::seqs::keys_increasing(products_after(ps, items, k, now)),
        forall|pid: i64|
            (forall|m: int| 0 <= m < k ==> items[m].product_id != pid) ==> #[trigger] lookup(
                products_after(ps, items, k, now),
                pid,
            ) == lookup(ps, pid),
        forall|m: int|
            0 <= m < k ==> #[trigger] lookup(products_after(ps, items, k, now), items[m].product_id) == lookup(
                stock_taken(ps, items[m].product_id, items[m].quantity, now),
                items[m].product_id,
            ),
    decreases k,
{
    if k > 0 {
        lemma_products_after(ps, items, k - 1, now);
        let before = products_after(ps, items, k - 1, now);
        let pid = items[k - 1].product_id;
        let q = items[k - 1].quantity;
        crate::model::order::law_order_takes_stock(before, pid, q, now);
        crate::model::order::law_order_takes_stock(ps, pid, q, now);
        crate::seqs::lemma_lookup_position(before, pid);
        if lookup(before, pid) is Some {
            let kk = crate::seqs::position(before, pid);
            assert(crate::seqs::keys_increasing(stock_taken(before, pid, q, now)));
        }
        assert forall|other: i64|
            (forall|m: int| 0 <= m < k ==> items[m].product_id != other) implies #[trigger] lookup(
                products_after(ps, items, k, now),
                other,
            ) == lookup(ps, other) by {
            assert(items[k - 1].product_id != other);
            lemma_stock_taken_other(before, pid, q, now, other);
        }
        assert forall|m: int| 0 <= m < k implies #[trigger] lookup(products_after(ps, items, k, now), items[m].product_id)
            == lookup(stock_taken(ps, items[m].product_id, items[m].quantity, now), items[m].product_id) by {
            if m < k - 1 {
                assert(items[m].product_id != pid);
                lemma_stock_taken_other(before, pid, q, now, items[m].product_id);
            } else {
                assert(forall|n: int| 0 <= n < k - 1 ==> items[n].product_id != pid);
                assert(lookup(before, pid) == lookup(ps, pid));
            }
        }
    }
}

/// After a checkout that succeeded, every product of the cart has lost exactly the
/// quantity the cart held of it, and was stamped with the time of checkout.
pub proof fn law_checkout_takes_stock(old_db: DbView, new_db: DbView, ids: Seq<i64>, user_id: i64)
    requires
        old_db.wf(),
        checked_out(old_db, new_db, Ok(ids), user_id),
    ensures
        cart_listing(old_db, user_id) matches Ok(items) && forall|m: int|
            0 <= m < items.len() ==> (lookup(old_db.products, #[trigger] items[m].product_id) matches Some(p)
                && lookup(new_db.products, items[m].product_id) == Some(
                Product { stock: (p.stock - items[m].quantity) as i64, updated_at: old_db.now, ..p },
            )),
{
    let items = cart_listing(old_db, user_id)->Ok_0;
    lemma_listing_distinct(old_db, user_id);
    lemma_products_after(old_db.products, items, items.len() as int, old_db.now);
    crate::seqs::lemma_newest_first_origin(by_stamp(old_db.cart_items, false), cart_entry(old_db.products, old_db.shops, user_id));
    assert forall|m: int| 0 <= m < items.len() implies (lookup(old_db.products, #[trigger] items[m].product_id) matches Some(p)
        && lookup(new_db.products, items[m].product_id) == Some(
        Product { stock: (p.stock - items[m].quantity) as i64, updated_at: old_db.now, ..p },
    )) by {
        let f = cart_entry(old_db.products, old_db.shops, user_id);
        let sorted = by_stamp(old_db.cart_items, false);
        let a = choose|a: int| 0 <= a < sorted.len() && f(sorted[a]) == Some(items[m]);
        crate::model::order::law_order_takes_stock(old_db.products, items[m].product_id, items[m].quantity, old_db.now);
    }
}

/// Every item in a user's cart listing is the user's, and shows the price, the
/// stock and the name of the product it holds and the name of that product's shop.
pub proof fn law_cart_listing_is_the_users(db: DbView, user_id: i64)
    ensures
        forall|k: int| 0 <= k < newest_first(by_stamp(db.cart_items, false), cart_entry(db.products, db.shops, user_id)).len() ==> {
            let x = #[trigger] newest_first(by_stamp(db.cart_items, false), cart_entry(db.products, db.shops, user_id))[k];
            &&& x.user_id == user_id
            &&& lookup(db.products, x.product_id) matches Some(p) && p.price == x.price && p.stock == x.stock
                && p.name == x.product_name && p.shop_id == x.shop_id
            &&& lookup(db.shops, x.shop_id) matches Some(s) && s.name == x.shop_name
        },
{
    let f = cart_entry(db.products, db.shops, user_id);
    crate::seqs::lemma_newest_first_origin(by_stamp(db.cart_items, false), f);
    assert forall|k: int| 0 <= k < newest_first(by_stamp(db.cart_items, false), cart_entry(db.products, db.shops, user_id)).len() implies {
        let x = #[trigger] newest_first(by_stamp(db.cart_items, false), cart_entry(db.products, db.shops, user_id))[k];
        &&& x.user_id == user_id
        &&& lookup(db.products, x.product_id) matches Some(p) && p.price == x.price && p.stock == x.stock
            && p.name == x.product_name && p.shop_id == x.shop_id
        &&& lookup(db.shops, x.shop_id) matches Some(s) && s.name == x.shop_name
    } by {
        let b = by_stamp(db.cart_items, false);
        let a = choose|a: int| 0 <= a < b.len() && f(b[a]) == Some(newest_first(by_stamp(db.cart_items, false), cart_entry(db.products, db.shops, user_id))[k]);
    }
}

} // verus!
