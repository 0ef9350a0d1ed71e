use vstd::prelude::*;
use crate::db::{Database, DbView};
use crate::error::ModelError;
use crate::model::shop::Shop;
use crate::model::user::{opt_str_view, opt_string_view, owned_opt, search_pattern};
use crate::seqs::{Stamped, by_stamp, rows_by_stamp, 
    Row, collect_newest, find_by_key, get_by_key, lemma_lookup_position, lemma_push_ok,
    lemma_retained_ok, lemma_update_ok, lookup, newest_first, position, retain_rows, retained,
};
use crate::text::{containing, containing_pattern, dup_opt, like_match, opt_like, opt_str_like, str_like};

verus! {

/// A product offered by a shop.
#[derive(Clone, Debug)]
pub struct Product {
    pub id: i64,
    pub shop_id: i64,
    pub name: String,
    pub description: Option<String>,
    pub price: i64,
    pub stock: i64,
    pub image: Option<String>,
    pub created_at: String,
    pub updated_at: String,
}

impl Stamped for Product {
    open spec fn stamp(&self) -> Seq<char> {
        self.created_at@
    }

    fn stamp_text(&self) -> (r: &str) {
        self.created_at.as_str()
    }
}

impl Row for Product {
    open spec fn key(&self) -> i64 {
        self.id
    }

    fn row_key(&self) -> (r: i64) {
        self.id
    }

    fn dup(&self) -> (r: Self) {
        Product {
            id: self.id,
            shop_id: self.shop_id,
            name: self.name.clone(),
            description: dup_opt(&self.description),
            price: self.price,
            stock: self.stock,
            image: dup_opt(&self.image),
            created_at: self.created_at.clone(),
            updated_at: self.updated_at.clone(),
        }
    }
}

/// A product joined with its shop.
#[derive(Clone, Debug)]
pub struct ProductWithShop {
    pub id: i64,
    pub shop_id: i64,
    pub shop_name: String,
    pub shop_user_id: i64,
    pub name: String,
    pub description: Option<String>,
    pub price: i64,
    pub stock: i64,
    pub image: Option<String>,
    pub created_at: String,
}

/// `row` is the product added with these fields at time `now`, without an image.
pub open spec fn is_new_product(
    row: Product,
    id: i64,
    shop_id: i64,
    name: Seq<char>,
    price: i64,
    stock: i64,
    description: Option<Seq<char>>,
    now: String,
) -> bool {
    &&& row.id == id
    &&& row.shop_id == shop_id
    &&& row.name@ == name
    &&& opt_string_view(row.description) == description
    &&& row.price == price
    &&& row.stock == stock
    &&& row.image is None
    &&& row.created_at == now
    &&& row.updated_at == now
}

/// What adding a product does, and what comes back.
pub open spec fn product_added(
    old_db: DbView,
    new_db: DbView,
    r: Result<Product, ModelError>,
    shop_id: i64,
    name: Seq<char>,
    price: i64,
    stock: i64,
    description: Option<Seq<char>>,
) -> bool {
    &&& (old_db.next_product_id == i64::MAX ==> r == Err::<Product, ModelError>(
            ModelError::TableFull,
        ) && new_db == old_db)
    &&& (old_db.next_product_id < i64::MAX ==> {
            &&& new_db == (DbView {
                products: new_db.products,
                next_product_id: (old_db.next_product_id + 1) as i64,
                ..old_db
            })
            &&& new_db.products.len() == old_db.products.len() + 1
            &&& new_db.products.drop_last() == old_db.products
            &&& is_new_product(
                new_db.products.last(),
                old_db.next_product_id,
                shop_id,
                name,
                price,
                stock,
                description,
                old_db.now,
            )
            &&& r == Ok::<Product, ModelError>(new_db.products.last())
        })
}

/// Adds a product to the shop; gives back the product.
pub fn add_product(
    db: &mut Database,
    shop_id: i64,
    name: &str,
    price: i64,
    stock: i64,
    description: Option<&str>,
) -> (r: Result<Product, ModelError>)
    requires
        old(db).wf(),
    ensures
        final(db).wf(),
        product_added(old(db)@, final(db)@, r, shop_id, name@, price, stock, opt_str_view(description)),
{
    let ghost old_db = db@;
    if db.next_product_id == i64::MAX {
        return Err(ModelError::TableFull);
    }
    let id = db.next_product_id;
    let row = Product {
        id,
        shop_id,
        name: name.to_owned(),
        description: owned_opt(description),
        price,
        stock,
        image: None,
        created_at: db.now.clone(),
        updated_at: db.now.clone(),
    };
    let result = row.dup();
    proof {
        lemma_push_ok(db.products@, id, row);
    }
    db.products.push(row);
    db.next_product_id = id + 1;
    assert(db@.products.drop_last() =~= old_db.products);
    Ok(result)
}

/// `new_row` is `old_row` with the fields replaced where given, stamped at `now`.
pub open spec fn product_updated(
    old_row: Product,
    new_row: Product,
    name: Option<Seq<char>>,
    price: Option<i64>,
    stock: Option<i64>,
    description: Option<Seq<char>>,
    now: String,
) -> bool {
    &&& new_row.id == old_row.id
    &&& new_row.shop_id == old_row.shop_id
    &&& match name {
        Some(n) => new_row.name@ == n,
        None => new_row.name == old_row.name,
    }
    &&& new_row.price == match price {
        Some(p) => p,
        None => old_row.price,
    }
    &&& new_row.stock == match stock {
        Some(s) => s,
        None => old_row.stock,
    }
    &&& match description {
        Some(d) => opt_string_view(new_row.description) == Some(d),
        None => new_row.description == old_row.description,
    }
    &&& new_row.image == old_row.image
    &&& new_row.created_at == old_row.created_at
    &&& new_row.updated_at == now
}

/// What editing a product does, and what comes back.
pub open spec fn product_edited(
    old_db: DbView,
    new_db: DbView,
    r: bool,
    id: i64,
    name: Option<Seq<char>>,
    price: Option<i64>,
    stock: Option<i64>,
    description: Option<Seq<char>>,
) -> bool {
    &&& (r == (lookup(old_db.products, id) is Some))
    &&& (!r ==> new_db == old_db)
    &&& (r ==> {
            let k = position(old_db.products, id);
            &&& new_db == (DbView { products: new_db.products, ..old_db })
            &&& new_db.products.len() == old_db.products.len()
            &&& forall|i: int|
                0 <= i < old_db.products.len() && i != k ==> new_db.products[i]
                    == old_db.products[i]
            &&& product_updated(
                old_db.products[k],
                new_db.products[k],
                name,
                price,
                stock,
                description,
                old_db.now,
            )
        })
}

/// Replaces the product's fields where given; false when no product has this id.
pub fn update_product(
    db: &mut Database,
    id: i64,
    name: Option<&str>,
    price: Option<i64>,
    stock: Option<i64>,
    description: Option<&str>,
) -> (r: bool)
    requires
        old(db).wf(),
    ensures
        final(db).wf(),
        product_edited(old(db)@, final(db)@, r, id, opt_str_view(name), price, stock, opt_str_view(description)),
{
    proof {
        lemma_lookup_position(db@.products, id);
    }
    let k = match find_by_key(&db.products, id) {
        Some(k) => k,
        None => return false,
    };
    let old_row = &db.products[k];
    let new_row = Product {
        id: old_row.id,
        shop_id: old_row.shop_id,
        name: match name {
            Some(n) => n.to_owned(),
            None => old_row.name.clone(),
        },
        description: match description {
            Some(d) => Some(d.to_owned()),
            None => dup_opt(&old_row.description),
        },
        price: match price {
            Some(p) => p,
            None => old_row.price,
        },
        stock: match stock {
            Some(s) => s,
            None => old_row.stock,
        },
        image: dup_opt(&old_row.image),
        created_at: old_row.created_at.clone(),
        updated_at: db.now.clone(),
    };
    proof {
        lemma_update_ok(db.products@, db.next_product_id, k as int, new_row);
    }
    db.products.set(k, new_row);
    true
}

/// Any product but the one with this id.
pub open spec fn other_product(id: i64) -> spec_fn(Product) -> bool {
    |p: Product| p.id != id
}

/// What removing a product does, and what comes back.
pub open spec fn product_removed(
    old_db: DbView,
    new_db: DbView,
    r: bool,
    id: i64,
) -> bool {
    &&& (r == (lookup(old_db.products, id) is Some))
    &&& (new_db == (DbView { products: retained(old_db.products, other_product(id)), ..old_db }))
}

/// Removes the product; false when no product has this id.
pub fn remove_product(db: &mut Database, id: i64) -> (r: bool)
    requires
        old(db).wf(),
    ensures
        final(db).wf(),
        product_removed(old(db)@, final(db)@, r, id),
{
    proof {
        lemma_lookup_position(db@.products, id);
        lemma_retained_ok(db.products@, db.next_product_id, other_product(id));
    }
    retain_rows(
        &mut db.products,
        |p: &Product| -> (b: bool) ensures b == other_product(id)(*p) { p.id != id },
        Ghost(other_product(id)),
    )
}

/// The product with this id, if there is one.
pub fn get_product(db: &Database, id: i64) -> (r: Option<Product>)
    ensures
        r == lookup(db@.products, id),
{
    match get_by_key(&db.products, id) {
        Some(p) => Some(p.dup()),
        None => None,
    }
}

/// A product of the shop.
pub open spec fn product_of_shop(shop_id: i64) -> spec_fn(Product) -> Option<Product> {
    |p: Product|
        if p.shop_id == shop_id {
            Some(p)
        } else {
            None
        }
}

/// The shop's products, by stamp, the latest stamped first (rows stamped alike: the latest made first).
pub fn list_products(db: &Database, shop_id: i64) -> (r: Vec<Product>)
    ensures
        r@ == newest_first(by_stamp(db@.products, false), product_of_shop(shop_id)),
{
    let sorted = rows_by_stamp(&db.products);
    collect_newest(
        &sorted,
        |p: &Product| -> (r: Option<Product>) ensures r == product_of_shop(shop_id)(*p) { if p.shop_id == shop_id { Some(p.dup()) } else { None } },
        Ghost(product_of_shop(shop_id)),
    )
}

/// A product joined with its shop.
pub open spec fn product_with_shop(p: Product, s: Shop) -> ProductWithShop {
    ProductWithShop {
        id: p.id,
        shop_id: p.shop_id,
        shop_name: s.name,
        shop_user_id: s.user_id,
        name: p.name,
        description: p.description,
        price: p.price,
        stock: p.stock,
        image: p.image,
        created_at: p.created_at,
    }
}

/// The product is in stock and meets the search: its name or description holds the
/// text, and its price lies between the bounds given.
pub open spec fn product_matches(
    p: Product,
    pattern: Option<Seq<char>>,
    min_price: Option<i64>,
    max_price: Option<i64>,
) -> bool {
    &&& p.stock > 0
    &&& match pattern {
        Some(q) => like_match(q, p.name@) || opt_like(p.description, q),
        None => true,
    }
    &&& match min_price {
        Some(m) => p.price >= m,
        None => true,
    }
    &&& match max_price {
        Some(m) => p.price <= m,
        None => true,
    }
}

/// A product that meets the search, joined with its shop.
pub open spec fn product_found(
    shops: Seq<Shop>,
    pattern: Option<Seq<char>>,
    min_price: Option<i64>,
    max_price: Option<i64>,
) -> spec_fn(Product) -> Option<ProductWithShop> {
    |p: Product|
        if product_matches(p, pattern, min_price, max_price) {
            match lookup(shops, p.shop_id) {
                Some(s) => Some(product_with_shop(p, s)),
                None => None,
            }
        } else {
            None
        }
}

fn product_entry(
    shops: &Vec<Shop>,
    p: &Product,
    pattern: &Option<Vec<char>>,
    min_price: Option<i64>,
    max_price: Option<i64>,
) -> (r: Option<ProductWithShop>)
    ensures
        r == product_found(
            shops@,
            match pattern {
                Some(v) => Some(v@),
                None => None,
            },
            min_price,
            max_price,
        )(*p),
{
    let text_ok = match pattern {
        Some(q) => str_like(p.name.as_str(), q) || opt_str_like(&p.description, q),
        None => true,
    };
    let min_ok = match min_price {
        Some(m) => p.price >= m,
        None => true,
    };
    let max_ok = match max_price {
        Some(m) => p.price <= m,
        None => true,
    };
    if p.stock > 0 && text_ok && min_ok && max_ok {
        match get_by_key(shops, p.shop_id) {
            Some(s) => Some(
                ProductWithShop {
                    id: p.id,
                    shop_id: p.shop_id,
                    shop_name: s.name.clone(),
                    shop_user_id: s.user_id,
                    name: p.name.clone(),
                    description: dup_opt(&p.description),
                    price: p.price,
                    stock: p.stock,
                    image: dup_opt(&p.image),
                    created_at: p.created_at.clone(),
                },
            ),
            None => None,
        }
    } else {
        None
    }
}

/// The products in stock that meet the search, joined with their shops, latest
/// stamped first (products stamped alike: the latest made first).
pub fn search_products(db: &Database, q: Option<&str>, min_price: Option<i64>, max_price: Option<i64>) -> (r:
    Vec<ProductWithShop>)
    ensures
        r@ == product_search(db@, q, min_price, max_price),
{
    let pattern: Option<Vec<char>> = match q {
        Some(s) => Some(containing_pattern(s)),
        None => None,
    };
    let ghost shops = db@.shops;
    let ghost sp = search_pattern(q);
    let sorted = rows_by_stamp(&db.products);
    collect_newest(
        &sorted,
        |p: &Product| -> (r: Option<ProductWithShop>) ensures r == product_found(shops, sp, min_price, max_price)(*p) { product_entry(&db.shops, p, &pattern, min_price, max_price) },
        Ghost(product_found(shops, sp, min_price, max_price)),
    )
}

/// Takes `quantity` items out of the product's stock, when it holds that many.
/// Ok(false), with nothing changed, when the product is missing or holds fewer.
pub fn decrement_stock(db: &mut Database, product_id: i64, quantity: i64) -> (r: Result<bool, ModelError>)
    requires
        old(db).wf(),
    ensures
        final(db).wf(),
        match lookup(old(db)@.products, product_id) {
            None => r == Ok::<bool, ModelError>(false) && final(db)@ == old(db)@,
            Some(p) => if p.stock < quantity {
                r == Ok::<bool, ModelError>(false) && final(db)@ == old(db)@
            } else if p.stock - quantity > i64::MAX {
                r == Err::<bool, ModelError>(ModelError::Overflow) && final(db)@ == old(db)@
            } else {
                r == Ok::<bool, ModelError>(true) && final(db)@ == (DbView {
                    products: old(db)@.products.update(
                        position(old(db)@.products, product_id),
                        Product {
                            stock: (p.stock - quantity) as i64,
                            updated_at: old(db)@.now,
                            ..p
                        },
                    ),
                    ..old(db)@
                })
            },
        },
{
    proof {
        lemma_lookup_position(db@.products, product_id);
    }
    let k = match find_by_key(&db.products, product_id) {
        Some(k) => k,
        None => return Ok(false),
    };
    let stock = db.products[k].stock;
    if stock < quantity {
        return Ok(false);
    }
    if quantity < 0 && stock > i64::MAX + quantity {
        return Err(ModelError::Overflow);
    }
    let mut p = db.products[k].dup();
    p.stock = stock - quantity;
    p.updated_at = db.now.clone();
    proof {
        lemma_update_ok(db.products@, db.next_product_id, k as int, p);
    }
    db.products.set(k, p);
    Ok(true)
}

/// What a product search returns, before it is copied out.
pub open spec fn product_search(db: DbView, q: Option<&str>, min_price: Option<i64>, max_price: Option<i64>) -> Seq<ProductWithShop> {
    newest_first(by_stamp(db.products, false), product_found(db.shops, search_pattern(q), min_price, max_price))
}

/// Every product a search returns is in stock, priced within the bounds given, and
/// holds the search text (as SQL `LIKE '%text%'` finds it) in its name or description.
pub proof fn law_product_search_within_bounds(db: DbView, q: Option<&str>, min_price: Option<i64>, max_price: Option<i64>)
    ensures
        forall|k: int| 0 <= k < product_search(db, q, min_price, max_price).len() ==> {
            let x = #[trigger] product_search(db, q, min_price, max_price)[k];
            &&& x.stock > 0
            &&& (min_price matches Some(n) ==> x.price >= n)
            &&& (max_price matches Some(m) ==> x.price <= m)
            &&& (q matches Some(t) ==> like_match(containing(t@), x.name@) || opt_like(x.description, containing(t@)))
        },
{
    let f = product_found(db.shops, search_pattern(q), min_price, max_price);
    crate::seqs::lemma_listed_by_stamp_origin(db.products, f);
    assert forall|k: int| 0 <= k < product_search(db, q, min_price, max_price).len() implies {
        let x = #[trigger] product_search(db, q, min_price, max_price)[k];
        &&& x.stock > 0
        &&& (min_price matches Some(n) ==> x.price >= n)
        &&& (max_price matches Some(m) ==> x.price <= m)
        &&& (q matches Some(t) ==> like_match(containing(t@), x.name@) || opt_like(x.description, containing(t@)))
    } by {
        let l = product_search(db, q, min_price, max_price);
        let a = choose|a: int| 0 <= a < db.products.len() && f(db.products[a]) == Some(l[k]);
    }
}

/// A product in stock, of a shop that exists, priced within the bounds given, whose
/// name or description holds the search text, is returned by the search.
pub proof fn law_product_search_finds(db: DbView, q: Option<&str>, min_price: Option<i64>, max_price: Option<i64>, i: int)
    requires
        0 <= i < db.products.len(),
        db.products[i].stock > 0,
        min_price matches Some(n) ==> db.products[i].price >= n,
        max_price matches Some(m) ==> db.products[i].price <= m,
        q matches Some(t) ==> like_match(containing(t@), db.products[i].name@) || opt_like(db.products[i].description, containing(t@)),
        lookup(db.shops, db.products[i].shop_id) is Some,
    ensures
        exists|k: int| 0 <= k < product_search(db, q, min_price, max_price).len()
            && (#[trigger] product_search(db, q, min_price, max_price)[k]).id == db.products[i].id,
{
    let f = product_found(db.shops, search_pattern(q), min_price, max_price);
    crate::seqs::lemma_listed_by_stamp(db.products, f, i);
    let l = product_search(db, q, min_price, max_price);
    let k = choose|k: int| 0 <= k < l.len() && l[k] == f(db.products[i])->Some_0;
    assert(l[k].id == db.products[i].id);
}

/// Every product listed for a shop belongs to that shop.
pub proof fn law_products_are_the_shops(db: DbView, shop_id: i64)
    ensures
        forall|k: int| 0 <= k < newest_first(by_stamp(db.products, false), product_of_shop(shop_id)).len() ==> {
            let x = #[trigger] newest_first(by_stamp(db.products, false), product_of_shop(shop_id))[k];
            x.shop_id == shop_id
        },
{
    crate::seqs::lemma_newest_first_origin(by_stamp(db.products, false), product_of_shop(shop_id));
    assert forall|k: int| 0 <= k < newest_first(by_stamp(db.products, false), product_of_shop(shop_id)).len() implies {
        let x = #[trigger] newest_first(by_stamp(db.products, false), product_of_shop(shop_id))[k];
        x.shop_id == shop_id
    } by {
        let b = by_stamp(db.products, false);
        let a = choose|a: int| 0 <= a < b.len() && product_of_shop(shop_id)(b[a]) == Some(newest_first(by_stamp(db.products, false), product_of_shop(shop_id))[k]);
        
    }
}

} // verus!
