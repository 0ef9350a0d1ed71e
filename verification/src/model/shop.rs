use vstd::prelude::*;
use crate::db::{Database, DbView, shop_owner_rel};
use crate::error::ModelError;
use crate::model::user::{opt_str_view, opt_string_view, owned_opt};
use crate::seqs::{
    Row, exists_where, find_where, get_by_key, last_where, lemma_last_where,
    lemma_last_where_unique, lemma_push_ok, lemma_push_pairwise, lemma_retained_ok,
    lemma_retained_pairwise, lemma_update_ok, lemma_update_pairwise, lookup, retain_rows, retained,
};
use crate::text::dup_opt;

verus! {

/// A user's shop; a user has at most one.
#[derive(Clone, Debug)]
pub struct Shop {
    pub id: i64,
    pub user_id: i64,
    pub name: String,
    pub description: Option<String>,
    pub created_at: String,
    pub updated_at: String,
}

impl Row for Shop {
    open spec fn key(&self) -> i64 {
        self.id
    }

    fn row_key(&self) -> (r: i64) {
        self.id
    }

    fn dup(&self) -> (r: Self) {
        Shop {
            id: self.id,
            user_id: self.user_id,
            name: self.name.clone(),
            description: dup_opt(&self.description),
            created_at: self.created_at.clone(),
            updated_at: self.updated_at.clone(),
        }
    }
}

/// A shop of the user.
pub open spec fn owned_by(user_id: i64) -> spec_fn(Shop) -> bool {
    |s: Shop| s.user_id == user_id
}

/// Any shop but the user's.
pub open spec fn not_owned_by(user_id: i64) -> spec_fn(Shop) -> bool {
    |s: Shop| s.user_id != user_id
}

/// The user's shop, if the user has one.
pub open spec fn shop_of_user(shops: Seq<Shop>, user_id: i64) -> Option<Shop> {
    let k = last_where(shops, owned_by(user_id));
    if k == -1 {
        None
    } else {
        Some(shops[k])
    }
}

/// `row` is the shop opened with these fields at time `now`.
pub open spec fn is_new_shop(
    row: Shop,
    id: i64,
    user_id: i64,
    name: Seq<char>,
    description: Option<Seq<char>>,
    now: String,
) -> bool {
    &&& row.id == id
    &&& row.user_id == user_id
    &&& row.name@ == name
    &&& opt_string_view(row.description) == description
    &&& row.created_at == now
    &&& row.updated_at == now
}

/// What opening a shop does, and what comes back.
pub open spec fn shop_opened(
    old_db: DbView,
    new_db: DbView,
    r: Result<Shop, ModelError>,
    user_id: i64,
    name: Seq<char>,
    description: Option<Seq<char>>,
) -> bool {
    &&& (exists_where(old_db.shops, owned_by(user_id)) ==> r == Err::<Shop, ModelError>(
            ModelError::ShopExists,
        ) && new_db == old_db)
    &&& (!exists_where(old_db.shops, owned_by(user_id)) && old_db.next_shop_id == i64::MAX ==> r
            == Err::<Shop, ModelError>(ModelError::TableFull) && new_db == old_db)
    &&& (!exists_where(old_db.shops, owned_by(user_id)) && old_db.next_shop_id < i64::MAX ==> {
            &&& new_db == (DbView {
                shops: new_db.shops,
                next_shop_id: (old_db.next_shop_id + 1) as i64,
                ..old_db
            })
            &&& new_db.shops.len() == old_db.shops.len() + 1
            &&& new_db.shops.drop_last() == old_db.shops
            &&& is_new_shop(
                new_db.shops.last(),
                old_db.next_shop_id,
                user_id,
                name,
                description,
                old_db.now,
            )
            &&& r == Ok::<Shop, ModelError>(new_db.shops.last())
            &&& shop_of_user(new_db.shops, user_id) == Some(new_db.shops.last())
        })
}

/// Opens a shop for the user; refused when the user has one. Gives back the shop.
pub fn open_shop(db: &mut Database, user_id: i64, name: &str, description: Option<&str>) -> (r: Result<
    Shop,
    ModelError,
>)
    requires
        old(db).wf(),
    ensures
        final(db).wf(),
        shop_opened(old(db)@, final(db)@, r, user_id, name@, opt_str_view(description)),
{
    let ghost old_db = db@;
    proof {
        lemma_last_where(db@.shops, owned_by(user_id));
    }
    let found = find_where(
        &db.shops,
        |s: &Shop| -> (b: bool) ensures b == owned_by(user_id)(*s) { s.user_id == user_id },
        Ghost(owned_by(user_id)),
    );
    if found.is_some() {
        return Err(ModelError::ShopExists);
    }
    if db.next_shop_id == i64::MAX {
        return Err(ModelError::TableFull);
    }
    let id = db.next_shop_id;
    let row = Shop {
        id,
        user_id,
        name: name.to_owned(),
        description: owned_opt(description),
        created_at: db.now.clone(),
        updated_at: db.now.clone(),
    };
    let result = row.dup();
    proof {
        lemma_push_ok(db.shops@, id, row);
        assert forall|i: int| 0 <= i < db.shops@.len() implies #[trigger] shop_owner_rel()(db.shops@[i], row) by {
            if !shop_owner_rel()(db.shops@[i], row) {
                assert(owned_by(user_id)(db.shops@[i]));
            }
        }
        lemma_push_pairwise(db.shops@, row, shop_owner_rel());
    }
    db.shops.push(row);
    db.next_shop_id = id + 1;
    assert(db@.shops.drop_last() =~= old_db.shops);
    proof {
        assert forall|a: int, b: int| 0 <= a < b < db@.shops.len() && owned_by(user_id)(db@.shops[a]) implies !owned_by(user_id)(db@.shops[b]) by {
            assert(shop_owner_rel()(db@.shops[a], db@.shops[b]));
        }
        lemma_last_where_unique(db@.shops, owned_by(user_id), db@.shops.len() - 1);
    }
    Ok(result)
}

/// `new_row` is `old_row` with the name and description replaced where given,
/// stamped at `now`.
pub open spec fn shop_updated(
    old_row: Shop,
    new_row: Shop,
    name: Option<Seq<char>>,
    description: Option<Seq<char>>,
    now: String,
) -> bool {
    &&& new_row.id == old_row.id
    &&& new_row.user_id == old_row.user_id
    &&& match name {
        Some(n) => new_row.name@ == n,
        None => new_row.name == old_row.name,
    }
    &&& match description {
        Some(d) => opt_string_view(new_row.description) == Some(d),
        None => new_row.description == old_row.description,
    }
    &&& new_row.created_at == old_row.created_at
    &&& new_row.updated_at == now
}

/// What editing a shop does, and what comes back.
pub open spec fn shop_edited(
    old_db: DbView,
    new_db: DbView,
    r: bool,
    user_id: i64,
    name: Option<Seq<char>>,
    description: Option<Seq<char>>,
) -> bool {
    &&& (r == exists_where(old_db.shops, owned_by(user_id)))
    &&& (!r ==> new_db == old_db)
    &&& (r ==> {
            let k = last_where(old_db.shops, owned_by(user_id));
            &&& new_db == (DbView { shops: new_db.shops, ..old_db })
            &&& new_db.shops.len() == old_db.shops.len()
            &&& forall|i: int|
                0 <= i < old_db.shops.len() && i != k ==> new_db.shops[i] == old_db.shops[i]
            &&& shop_updated(
                old_db.shops[k],
                new_db.shops[k],
                name,
                description,
                old_db.now,
            )
        })
}

/// Replaces the name and the description of the user's shop where given; false
/// when the user has no shop.
pub fn update_shop(db: &mut Database, user_id: i64, name: Option<&str>, description: Option<&str>) -> (r:
    bool)
    requires
        old(db).wf(),
    ensures
        final(db).wf(),
        shop_edited(old(db)@, final(db)@, r, user_id, opt_str_view(name), opt_str_view(description)),
{
    proof {
        lemma_last_where(db@.shops, owned_by(user_id));
    }
    let k = match find_where(
        &db.shops,
        |s: &Shop| -> (b: bool) ensures b == owned_by(user_id)(*s) { s.user_id == user_id },
        Ghost(owned_by(user_id)),
    ) {
        Some(k) => k,
        None => return false,
    };
    let old_row = &db.shops[k];
    let new_row = Shop {
        id: old_row.id,
        user_id: old_row.user_id,
        name: match name {
            Some(n) => n.to_owned(),
            None => old_row.name.clone(),
        },
        description: match description {
            Some(d) => Some(d.to_owned()),
            None => dup_opt(&old_row.description),
        },
        created_at: old_row.created_at.clone(),
        updated_at: db.now.clone(),
    };
    proof {
        lemma_update_ok(db.shops@, db.next_shop_id, k as int, new_row);
        assert forall|i: int| 0 <= i < k implies #[trigger] shop_owner_rel()(db.shops@[i], new_row) by {
            assert(shop_owner_rel()(db.shops@[i], db.shops@[k as int]));
        }
        assert forall|i: int| k < i < db.shops@.len() implies #[trigger] shop_owner_rel()(new_row, db.shops@[i]) by {
            assert(shop_owner_rel()(db.shops@[k as int], db.shops@[i]));
        }
        lemma_update_pairwise(db.shops@, k as int, new_row, shop_owner_rel());
    }
    db.shops.set(k, new_row);
    true
}

/// What closing a shop does, and what comes back.
pub open spec fn shop_closed(
    old_db: DbView,
    new_db: DbView,
    r: bool,
    user_id: i64,
) -> bool {
    &&& (r == exists_where(old_db.shops, owned_by(user_id)))
    &&& (new_db == (DbView { shops: retained(old_db.shops, not_owned_by(user_id)), ..old_db }))
}

/// Closes the user's shop; false when the user has none.
pub fn close_shop(db: &mut Database, user_id: i64) -> (r: bool)
    requires
        old(db).wf(),
    ensures
        final(db).wf(),
        shop_closed(old(db)@, final(db)@, r, user_id),
{
    proof {
        lemma_retained_ok(db.shops@, db.next_shop_id, not_owned_by(user_id));
        lemma_retained_pairwise(db.shops@, not_owned_by(user_id), shop_owner_rel());
    }
    let dropped = retain_rows(
        &mut db.shops,
        |s: &Shop| -> (b: bool) ensures b == not_owned_by(user_id)(*s) { s.user_id != user_id },
        Ghost(not_owned_by(user_id)),
    );
    proof {
        if dropped {
            let i = choose|i: int| 0 <= i < old(db)@.shops.len() && !not_owned_by(user_id)(old(db)@.shops[i]);
            assert(owned_by(user_id)(old(db)@.shops[i]));
        }
        if exists_where(old(db)@.shops, owned_by(user_id)) {
            let i = choose|i: int| 0 <= i < old(db)@.shops.len() && #[trigger] owned_by(user_id)(old(db)@.shops[i]);
            assert(!not_owned_by(user_id)(old(db)@.shops[i]));
        }
    }
    dropped
}

/// The user's shop, if the user has one.
pub fn get_shop_by_user(db: &Database, user_id: i64) -> (r: Option<Shop>)
    ensures
        r == shop_of_user(db@.shops, user_id),
{
    proof {
        lemma_last_where(db@.shops, owned_by(user_id));
    }
    match find_where(
        &db.shops,
        |s: &Shop| -> (b: bool) ensures b == owned_by(user_id)(*s) { s.user_id == user_id },
        Ghost(owned_by(user_id)),
    ) {
        Some(k) => Some(db.shops[k].dup()),
        None => None,
    }
}

/// The shop with this id, if there is one.
pub fn get_shop_by_id(db: &Database, id: i64) -> (r: Option<Shop>)
    ensures
        r == lookup(db@.shops, id),
{
    match get_by_key(&db.shops, id) {
        Some(s) => Some(s.dup()),
        None => None,
    }
}

/// Once a user's shop is closed, the user has no shop.
pub proof fn law_close_shop_ends(shops: Seq<Shop>, user_id: i64)
    ensures
        shop_of_user(retained(shops, not_owned_by(user_id)), user_id) is None,
{
    let kept = retained(shops, not_owned_by(user_id));
    crate::seqs::lemma_retained_excludes(shops, not_owned_by(user_id), owned_by(user_id));
    lemma_last_where(kept, owned_by(user_id));
}

/// Once a shop is opened, it is the user's shop, and it is the shop that came back.
pub proof fn law_open_shop_found(
    old_db: DbView,
    new_db: DbView,
    r: Result<Shop, ModelError>,
    user_id: i64,
    name: Seq<char>,
    description: Option<Seq<char>>,
)
    requires
        shop_opened(old_db, new_db, r, user_id, name, description),
        r is Ok,
    ensures
        shop_of_user(new_db.shops, user_id) == Some(r->Ok_0),
        r->Ok_0.user_id == user_id,
        r->Ok_0.name@ == name,
{
}

} // verus!
