use vstd::prelude::*;
use crate::seqs::{
    Row, find_by_key, keys_distinct_exec, pairwise_exec, table_ok_exec, get_by_key, keys_distinct, lemma_lookup_position, lemma_update_ok,
    lemma_update_pairwise, lookup, pairwise, position, table_ok,
};
use crate::text::{dup_opt, str_eq};
use crate::model::auth::Session;
use crate::model::block::Block;
use crate::model::cart::CartItem;
use crate::model::follow::Follow;
use crate::model::group::{Group, Membership};
use crate::model::group_post::GroupPost;
use crate::model::interest::Interest;
use crate::model::like::Like;
use crate::model::message::Message;
use crate::model::order::Order;
use crate::model::post::Post;
use crate::model::product::Product;
use crate::model::profile::Profile;
use crate::model::shop::Shop;
use crate::model::shop_message::ShopMessage;

verus! {

/// A stored user account, with its password hash.
#[derive(Clone, Debug)]
pub struct UserRow {
    pub id: i64,
    pub username: String,
    pub display_name: String,
    pub bio: Option<String>,
    pub avatar: Option<String>,
    pub password_hash: Option<String>,
    pub created_at: String,
    pub updated_at: String,
}

impl Row for UserRow {
    open spec fn key(&self) -> i64 {
        self.id
    }

    fn row_key(&self) -> (r: i64) {
        self.id
    }

    fn dup(&self) -> (r: Self) {
        UserRow {
            id: self.id,
            username: self.username.clone(),
            display_name: self.display_name.clone(),
            bio: dup_opt(&self.bio),
            avatar: dup_opt(&self.avatar),
            password_hash: dup_opt(&self.password_hash),
            created_at: self.created_at.clone(),
            updated_at: self.updated_at.clone(),
        }
    }
}

/// The store: one table per kind of record, each kept in the order its rows were
/// created, with a counter per table that hands out ids, and the clock that stamps
/// the rows.
pub struct Database {
    pub users: Vec<UserRow>,
    pub sessions: Vec<Session>,
    pub posts: Vec<Post>,
    pub follows: Vec<Follow>,
    pub likes: Vec<Like>,
    pub messages: Vec<Message>,
    pub profiles: Vec<Profile>,
    pub interests: Vec<Interest>,
    pub blocks: Vec<Block>,
    pub shops: Vec<Shop>,
    pub products: Vec<Product>,
    pub orders: Vec<Order>,
    pub cart_items: Vec<CartItem>,
    pub groups: Vec<Group>,
    pub memberships: Vec<Membership>,
    pub group_posts: Vec<GroupPost>,
    pub shop_messages: Vec<ShopMessage>,
    pub next_user_id: i64,
    pub next_session_id: i64,
    pub next_post_id: i64,
    pub next_follow_id: i64,
    pub next_like_id: i64,
    pub next_message_id: i64,
    pub next_interest_id: i64,
    pub next_block_id: i64,
    pub next_shop_id: i64,
    pub next_product_id: i64,
    pub next_order_id: i64,
    pub next_cart_item_id: i64,
    pub next_group_id: i64,
    pub next_membership_id: i64,
    pub next_group_post_id: i64,
    pub next_shop_message_id: i64,
    /// The time stamped on rows created or updated now.
    pub now: String,
}

/// The contents of the store: its tables, counters and clock.
pub ghost struct DbView {
    pub users: Seq<UserRow>,
    pub sessions: Seq<Session>,
    pub posts: Seq<Post>,
    pub follows: Seq<Follow>,
    pub likes: Seq<Like>,
    pub messages: Seq<Message>,
    pub profiles: Seq<Profile>,
    pub interests: Seq<Interest>,
    pub blocks: Seq<Block>,
    pub shops: Seq<Shop>,
    pub products: Seq<Product>,
    pub orders: Seq<Order>,
    pub cart_items: Seq<CartItem>,
    pub groups: Seq<Group>,
    pub memberships: Seq<Membership>,
    pub group_posts: Seq<GroupPost>,
    pub shop_messages: Seq<ShopMessage>,
    pub next_user_id: i64,
    pub next_session_id: i64,
    pub next_post_id: i64,
    pub next_follow_id: i64,
    pub next_like_id: i64,
    pub next_message_id: i64,
    pub next_interest_id: i64,
    pub next_block_id: i64,
    pub next_shop_id: i64,
    pub next_product_id: i64,
    pub next_order_id: i64,
    pub next_cart_item_id: i64,
    pub next_group_id: i64,
    pub next_membership_id: i64,
    pub next_group_post_id: i64,
    pub next_shop_message_id: i64,
    pub now: String,
}

impl View for Database {
    type V = DbView;

    open spec fn view(&self) -> DbView {
        DbView {
            users: self.users@,
            sessions: self.sessions@,
            posts: self.posts@,
            follows: self.follows@,
            likes: self.likes@,
            messages: self.messages@,
            profiles: self.profiles@,
            interests: self.interests@,
            blocks: self.blocks@,
            shops: self.shops@,
            products: self.products@,
            orders: self.orders@,
            cart_items: self.cart_items@,
            groups: self.groups@,
            memberships: self.memberships@,
            group_posts: self.group_posts@,
            shop_messages: self.shop_messages@,
            next_user_id: self.next_user_id,
            next_session_id: self.next_session_id,
            next_post_id: self.next_post_id,
            next_follow_id: self.next_follow_id,
            next_like_id: self.next_like_id,
            next_message_id: self.next_message_id,
            next_interest_id: self.next_interest_id,
            next_block_id: self.next_block_id,
            next_shop_id: self.next_shop_id,
            next_product_id: self.next_product_id,
            next_order_id: self.next_order_id,
            next_cart_item_id: self.next_cart_item_id,
            next_group_id: self.next_group_id,
            next_membership_id: self.next_membership_id,
            next_group_post_id: self.next_group_post_id,
            next_shop_message_id: self.next_shop_message_id,
            now: self.now,
        }
    }
}

impl DbView {
    /// Every table is ordered by id, with ids below its counter, and the
    /// uniqueness constraints of the schema hold.
    pub open spec fn wf(&self) -> bool {
        &&& table_ok(self.users, self.next_user_id)
        &&& table_ok(self.sessions, self.next_session_id)
        &&& table_ok(self.posts, self.next_post_id)
        &&& table_ok(self.follows, self.next_follow_id)
        &&& table_ok(self.likes, self.next_like_id)
        &&& table_ok(self.messages, self.next_message_id)
        &&& keys_distinct(self.profiles)
        &&& table_ok(self.interests, self.next_interest_id)
        &&& table_ok(self.blocks, self.next_block_id)
        &&& table_ok(self.shops, self.next_shop_id)
        &&& table_ok(self.products, self.next_product_id)
        &&& table_ok(self.orders, self.next_order_id)
        &&& table_ok(self.cart_items, self.next_cart_item_id)
        &&& table_ok(self.groups, self.next_group_id)
        &&& table_ok(self.memberships, self.next_membership_id)
        &&& table_ok(self.group_posts, self.next_group_post_id)
        &&& table_ok(self.shop_messages, self.next_shop_message_id)
        &&& usernames_unique(self.users)
        &&& tokens_unique(self.sessions)
        &&& follow_pairs_unique(self.follows)
        &&& like_pairs_unique(self.likes)
        &&& interest_pairs_unique(self.interests)
        &&& block_pairs_unique(self.blocks)
        &&& shop_owners_unique(self.shops)
        &&& cart_pairs_unique(self.cart_items)
        &&& membership_pairs_unique(self.memberships)
        &&& forall|i: int| 0 <= i < self.cart_items.len() ==> #[trigger] self.cart_items[i].quantity > 0
    }

}

/// The store with no rows, every counter at 1, and its clock at `now`.
pub open spec fn empty_store(now: String) -> DbView {
    DbView {
        users: Seq::empty(),
        sessions: Seq::empty(),
        posts: Seq::empty(),
        follows: Seq::empty(),
        likes: Seq::empty(),
        messages: Seq::empty(),
        profiles: Seq::empty(),
        interests: Seq::empty(),
        blocks: Seq::empty(),
        shops: Seq::empty(),
        products: Seq::empty(),
        orders: Seq::empty(),
        cart_items: Seq::empty(),
        groups: Seq::empty(),
        memberships: Seq::empty(),
        group_posts: Seq::empty(),
        shop_messages: Seq::empty(),
        next_user_id: 1,
        next_session_id: 1,
        next_post_id: 1,
        next_follow_id: 1,
        next_like_id: 1,
        next_message_id: 1,
        next_interest_id: 1,
        next_block_id: 1,
        next_shop_id: 1,
        next_product_id: 1,
        next_order_id: 1,
        next_cart_item_id: 1,
        next_group_id: 1,
        next_membership_id: 1,
        next_group_post_id: 1,
        next_shop_message_id: 1,
        now: now,
    }
}

impl Database {
    /// The store is well formed.
    pub open spec fn wf(&self) -> bool {
        self@.wf()
    }

    /// An empty store whose clock reads `now`, every counter at 1.
    pub fn new(now: String) -> (db: Database)
        ensures
            db.wf(),
            db@ == empty_store(now),
    {
        Database {
            users: Vec::new(),
            sessions: Vec::new(),
            posts: Vec::new(),
            follows: Vec::new(),
            likes: Vec::new(),
            messages: Vec::new(),
            profiles: Vec::new(),
            interests: Vec::new(),
            blocks: Vec::new(),
            shops: Vec::new(),
            products: Vec::new(),
            orders: Vec::new(),
            cart_items: Vec::new(),
            groups: Vec::new(),
            memberships: Vec::new(),
            group_posts: Vec::new(),
            shop_messages: Vec::new(),
            next_user_id: 1,
            next_session_id: 1,
            next_post_id: 1,
            next_follow_id: 1,
            next_like_id: 1,
            next_message_id: 1,
            next_interest_id: 1,
            next_block_id: 1,
            next_shop_id: 1,
            next_product_id: 1,
            next_order_id: 1,
            next_cart_item_id: 1,
            next_group_id: 1,
            next_membership_id: 1,
            next_group_post_id: 1,
            next_shop_message_id: 1,
            now,
        }
    }

    /// Whether the store is well formed, as a store read back from elsewhere must be
    /// before any operation is run on it.
    pub fn check_wf(&self) -> (r: bool)
        ensures
            r == self.wf(),
    {
        let tables = table_ok_exec(&self.users, self.next_user_id)
            && table_ok_exec(&self.sessions, self.next_session_id)
            && table_ok_exec(&self.posts, self.next_post_id)
            && table_ok_exec(&self.follows, self.next_follow_id)
            && table_ok_exec(&self.likes, self.next_like_id)
            && table_ok_exec(&self.messages, self.next_message_id)
            && keys_distinct_exec(&self.profiles)
            && table_ok_exec(&self.interests, self.next_interest_id)
            && table_ok_exec(&self.blocks, self.next_block_id)
            && table_ok_exec(&self.shops, self.next_shop_id)
            && table_ok_exec(&self.products, self.next_product_id)
            && table_ok_exec(&self.orders, self.next_order_id)
            && table_ok_exec(&self.cart_items, self.next_cart_item_id)
            && table_ok_exec(&self.groups, self.next_group_id)
            && table_ok_exec(&self.memberships, self.next_membership_id)
            && table_ok_exec(&self.group_posts, self.next_group_post_id)
            && table_ok_exec(&self.shop_messages, self.next_shop_message_id);
        if !tables {
            return false;
        }
        let unique = pairwise_exec(
            &self.users,
            |a: &UserRow, b: &UserRow| -> (r: bool) ensures r == username_rel()(*a, *b) { !str_eq(a.username.as_str(), b.username.as_str()) },
            Ghost(username_rel()),
        ) && pairwise_exec(
            &self.sessions,
            |a: &Session, b: &Session| -> (r: bool) ensures r == token_rel()(*a, *b) { !str_eq(a.token.as_str(), b.token.as_str()) },
            Ghost(token_rel()),
        ) && pairwise_exec(
            &self.follows,
            |a: &Follow, b: &Follow| -> (r: bool) ensures r == follow_rel()(*a, *b) { !(a.follower_id == b.follower_id && a.followee_id == b.followee_id) },
            Ghost(follow_rel()),
        ) && pairwise_exec(
            &self.likes,
            |a: &Like, b: &Like| -> (r: bool) ensures r == like_rel()(*a, *b) { !(a.user_id == b.user_id && a.post_id == b.post_id) },
            Ghost(like_rel()),
        ) && pairwise_exec(
            &self.interests,
            |a: &Interest, b: &Interest| -> (r: bool) ensures r == interest_rel()(*a, *b) { !(a.user_id == b.user_id && str_eq(a.tag.as_str(), b.tag.as_str())) },
            Ghost(interest_rel()),
        ) && pairwise_exec(
            &self.blocks,
            |a: &Block, b: &Block| -> (r: bool) ensures r == block_rel()(*a, *b) { !(a.blocker_id == b.blocker_id && a.blocked_id == b.blocked_id) },
            Ghost(block_rel()),
        ) && pairwise_exec(
            &self.shops,
            |a: &Shop, b: &Shop| -> (r: bool) ensures r == shop_owner_rel()(*a, *b) { a.user_id != b.user_id },
            Ghost(shop_owner_rel()),
        ) && pairwise_exec(
            &self.cart_items,
            |a: &CartItem, b: &CartItem| -> (r: bool) ensures r == cart_rel()(*a, *b) { !(a.user_id == b.user_id && a.product_id == b.product_id) },
            Ghost(cart_rel()),
        ) && pairwise_exec(
            &self.memberships,
            |a: &Membership, b: &Membership| -> (r: bool) ensures r == membership_rel()(*a, *b) { !(a.group_id == b.group_id && a.user_id == b.user_id) },
            Ghost(membership_rel()),
        );
        if !unique {
            return false;
        }
        let mut i: usize = 0;
        while i < self.cart_items.len()
            invariant
                i <= self.cart_items@.len(),
                forall|k: int| 0 <= k < i ==> #[trigger] self.cart_items@[k].quantity > 0,
            decreases self.cart_items@.len() - i,
        {
            if self.cart_items[i].quantity <= 0 {
                return false;
            }
            i = i + 1;
        }
        true
    }

    /// Sets the clock that stamps rows created or updated from now on.
    pub fn set_clock(&mut self, now: String)
        ensures
            final(self)@ == (DbView { now: now, ..old(self)@ }),
    {
        self.now = now;
    }
}

/// The uniqueness constraint of the table, between two of its rows.
pub open spec fn username_rel() -> spec_fn(UserRow, UserRow) -> bool {
    |a: UserRow, b: UserRow| a.username@ != b.username@
}

pub open spec fn usernames_unique(s: Seq<UserRow>) -> bool {
    pairwise(s, username_rel())
}

/// The uniqueness constraint of the table, between two of its rows.
pub open spec fn token_rel() -> spec_fn(Session, Session) -> bool {
    |a: Session, b: Session| a.token@ != b.token@
}

pub open spec fn tokens_unique(s: Seq<Session>) -> bool {
    pairwise(s, token_rel())
}

/// The uniqueness constraint of the table, between two of its rows.
pub open spec fn follow_rel() -> spec_fn(Follow, Follow) -> bool {
    |a: Follow, b: Follow| !(a.follower_id == b.follower_id && a.followee_id == b.followee_id)
}

pub open spec fn follow_pairs_unique(s: Seq<Follow>) -> bool {
    pairwise(s, follow_rel())
}

/// The uniqueness constraint of the table, between two of its rows.
pub open spec fn like_rel() -> spec_fn(Like, Like) -> bool {
    |a: Like, b: Like| !(a.user_id == b.user_id && a.post_id == b.post_id)
}

pub open spec fn like_pairs_unique(s: Seq<Like>) -> bool {
    pairwise(s, like_rel())
}

/// The uniqueness constraint of the table, between two of its rows.
pub open spec fn interest_rel() -> spec_fn(Interest, Interest) -> bool {
    |a: Interest, b: Interest| !(a.user_id == b.user_id && a.tag@ == b.tag@)
}

pub open spec fn interest_pairs_unique(s: Seq<Interest>) -> bool {
    pairwise(s, interest_rel())
}

/// The uniqueness constraint of the table, between two of its rows.
pub open spec fn block_rel() -> spec_fn(Block, Block) -> bool {
    |a: Block, b: Block| !(a.blocker_id == b.blocker_id && a.blocked_id == b.blocked_id)
}

pub open spec fn block_pairs_unique(s: Seq<Block>) -> bool {
    pairwise(s, block_rel())
}

/// The uniqueness constraint of the table, between two of its rows.
pub open spec fn shop_owner_rel() -> spec_fn(Shop, Shop) -> bool {
    |a: Shop, b: Shop| a.user_id != b.user_id
}

pub open spec fn shop_owners_unique(s: Seq<Shop>) -> bool {
    pairwise(s, shop_owner_rel())
}

/// The uniqueness constraint of the table, between two of its rows.
pub open spec fn cart_rel() -> spec_fn(CartItem, CartItem) -> bool {
    |a: CartItem, b: CartItem| !(a.user_id == b.user_id && a.product_id == b.product_id)
}

pub open spec fn cart_pairs_unique(s: Seq<CartItem>) -> bool {
    pairwise(s, cart_rel())
}

/// The uniqueness constraint of the table, between two of its rows.
pub open spec fn membership_rel() -> spec_fn(Membership, Membership) -> bool {
    |a: Membership, b: Membership| !(a.group_id == b.group_id && a.user_id == b.user_id)
}

pub open spec fn membership_pairs_unique(s: Seq<Membership>) -> bool {
    pairwise(s, membership_rel())
}

/// `new_row` is `old_row` with the password hash replaced, stamped at `now`.
pub open spec fn password_set(old_row: UserRow, new_row: UserRow, hash: Seq<char>, now: String) -> bool {
    &&& new_row.id == old_row.id
    &&& new_row.username == old_row.username
    &&& new_row.display_name == old_row.display_name
    &&& new_row.bio == old_row.bio
    &&& new_row.avatar == old_row.avatar
    &&& new_row.password_hash matches Some(h) && h@ == hash
    &&& new_row.created_at == old_row.created_at
    &&& new_row.updated_at == now
}

/// Stores the password hash of the account; nothing changes when no account has
/// this id.
pub fn set_password(db: &mut Database, user_id: i64, password_hash: &str)
    requires
        old(db).wf(),
    ensures
        final(db).wf(),
        lookup(old(db)@.users, user_id) is None ==> final(db)@ == old(db)@,
        lookup(old(db)@.users, user_id) is Some ==> {
            let k = position(old(db)@.users, user_id);
            &&& final(db)@ == (DbView { users: final(db)@.users, ..old(db)@ })
            &&& final(db)@.users.len() == old(db)@.users.len()
            &&& forall|i: int|
                0 <= i < old(db)@.users.len() && i != k ==> final(db)@.users[i] == old(db)@.users[i]
            &&& password_set(old(db)@.users[k], final(db)@.users[k], password_hash@, old(db)@.now)
        },
{
    proof {
        lemma_lookup_position(db@.users, user_id);
    }
    let k = match find_by_key(&db.users, user_id) {
        Some(k) => k,
        None => return,
    };
    let old_row = &db.users[k];
    let new_row = UserRow {
        id: old_row.id,
        username: old_row.username.clone(),
        display_name: old_row.display_name.clone(),
        bio: dup_opt(&old_row.bio),
        avatar: dup_opt(&old_row.avatar),
        password_hash: Some(password_hash.to_owned()),
        created_at: old_row.created_at.clone(),
        updated_at: db.now.clone(),
    };
    proof {
        lemma_update_ok(db.users@, db.next_user_id, k as int, new_row);
        assert forall|i: int| 0 <= i < k implies #[trigger] username_rel()(db.users@[i], new_row) by {
            assert(username_rel()(db.users@[i], db.users@[k as int]));
        }
        assert forall|i: int| k < i < db.users@.len() implies #[trigger] username_rel()(new_row, db.users@[i]) by {
            assert(username_rel()(db.users@[k as int], db.users@[i]));
        }
        lemma_update_pairwise(db.users@, k as int, new_row, username_rel());
    }
    db.users.set(k, new_row);
}

/// The stored password hash of the account: none when there is no such account
/// or it has no password.
pub open spec fn password_hash_of(users: Seq<UserRow>, user_id: i64) -> Option<String> {
    match lookup(users, user_id) {
        Some(u) => u.password_hash,
        None => None,
    }
}

/// The stored password hash of the account, if any.
pub fn get_password_hash(db: &Database, user_id: i64) -> (r: Option<String>)
    ensures
        r == password_hash_of(db@.users, user_id),
{
    match get_by_key(&db.users, user_id) {
        Some(u) => dup_opt(&u.password_hash),
        None => None,
    }
}

} // verus!
