use vstd::prelude::*;
use crate::db::{Database, DbView, UserRow};
use crate::error::ModelError;
use crate::model::shop::Shop;
use crate::seqs::{Stamped, by_stamp, rows_by_stamp, Row, collect_oldest, get_by_key, lemma_push_ok, lookup};

verus! {

/// A message about a shop, between a customer and the shop's owner.
#[derive(Clone, Debug)]
pub struct ShopMessage {
    pub id: i64,
    pub shop_id: i64,
    pub sender_id: i64,
    pub receiver_id: i64,
    pub content: String,
    pub created_at: String,
}

impl Stamped for ShopMessage {
    open spec fn stamp(&self) -> Seq<char> {
        self.created_at@
    }

    fn stamp_text(&self) -> (r: &str) {
        self.created_at.as_str()
    }
}

impl Row for ShopMessage {
    open spec fn key(&self) -> i64 {
        self.id
    }

    fn row_key(&self) -> (r: i64) {
        self.id
    }

    fn dup(&self) -> (r: Self) {
        ShopMessage {
            id: self.id,
            shop_id: self.shop_id,
            sender_id: self.sender_id,
            receiver_id: self.receiver_id,
            content: self.content.clone(),
            created_at: self.created_at.clone(),
        }
    }
}

/// A shop message joined with the shop's and both users' names.
#[derive(Clone, Debug)]
pub struct ShopMessageWithUser {
    pub id: i64,
    pub shop_id: i64,
    pub shop_name: String,
    pub sender_id: i64,
    pub sender_username: String,
    pub sender_display_name: String,
    pub receiver_id: i64,
    pub receiver_username: String,
    pub receiver_display_name: String,
    pub content: String,
    pub created_at: String,
}

/// A conversation about a shop, as the list of them shows it.
#[derive(Clone, Debug)]
pub struct ShopConversation {
    pub shop_id: i64,
    pub shop_name: String,
    pub other_id: i64,
    pub last_message: Option<String>,
    pub last_message_at: Option<String>,
}

/// `row` is the shop message sent with these fields at time `now`.
pub open spec fn is_new_shop_message(row: ShopMessage, id: i64, shop_id: i64, sender_id: i64, receiver_id: i64, content: Seq<char>, now: String) -> bool {
    &&& row.id == id
    &&& row.shop_id == shop_id
    &&& row.sender_id == sender_id
    &&& row.receiver_id == receiver_id
    &&& row.content@ == content
    &&& row.created_at == now
}

/// What sending a message about a shop does, and what comes back.
pub open spec fn shop_message_sent(
    old_db: DbView,
    new_db: DbView,
    r: Result<ShopMessage, ModelError>,
    shop_id: i64,
    sender_id: i64,
    receiver_id: i64,
    content: Seq<char>,
) -> bool {
    &&& (old_db.next_shop_message_id == i64::MAX ==> r == Err::<ShopMessage, ModelError>(
            ModelError::TableFull,
        ) && new_db == old_db)
    &&& (old_db.next_shop_message_id < i64::MAX ==> {
            &&& new_db == (DbView {
                shop_messages: new_db.shop_messages,
                next_shop_message_id: (old_db.next_shop_message_id + 1) as i64,
                ..old_db
            })
            &&& new_db.shop_messages.len() == old_db.shop_messages.len() + 1
            &&& new_db.shop_messages.drop_last() == old_db.shop_messages
            &&& is_new_shop_message(
                new_db.shop_messages.last(),
                old_db.next_shop_message_id,
                shop_id,
                sender_id,
                receiver_id,
                content,
                old_db.now,
            )
            &&& r == Ok::<ShopMessage, ModelError>(new_db.shop_messages.last())
        })
}

/// Sends a message about a shop; gives back the message.
pub fn send(db: &mut Database, shop_id: i64, sender_id: i64, receiver_id: i64, content: &str) -> (r: Result<ShopMessage, ModelError>)
    requires
        old(db).wf(),
    ensures
        final(db).wf(),
        shop_message_sent(old(db)@, final(db)@, r, shop_id, sender_id, receiver_id, content@),
{
    let ghost old_db = db@;
    if db.next_shop_message_id == i64::MAX {
        return Err(ModelError::TableFull);
    }
    let id = db.next_shop_message_id;
    let row = ShopMessage {
        id,
        shop_id,
        sender_id,
        receiver_id,
        content: content.to_owned(),
        created_at: db.now.clone(),
    };
    let result = row.dup();
    proof {
        lemma_push_ok(db.shop_messages@, id, row);
    }
    db.shop_messages.push(row);
    db.next_shop_message_id = id + 1;
    assert(db@.shop_messages.drop_last() =~= old_db.shop_messages);
    Ok(result)
}

/// The shop message with this id, if there is one.
pub fn get(db: &Database, id: i64) -> (r: Option<ShopMessage>)
    ensures
        r == lookup(db@.shop_messages, id),
{
    match get_by_key(&db.shop_messages, id) {
        Some(m) => Some(m.dup()),
        None => None,
    }
}

/// A message about the shop between the two users, joined with the shop's and
/// both users' names.
pub open spec fn shop_message_between(shops: Seq<Shop>, users: Seq<UserRow>, shop_id: i64, user_id: i64, other_id: i64) -> spec_fn(ShopMessage) -> Option<ShopMessageWithUser> {
    |m: ShopMessage|
        if m.shop_id == shop_id && ((m.sender_id == user_id && m.receiver_id == other_id) || (
        m.sender_id == other_id && m.receiver_id == user_id)) {
            match (lookup(shops, m.shop_id), lookup(users, m.sender_id), lookup(users, m.receiver_id)) {
                (Some(s), Some(su), Some(ru)) => Some(
                    ShopMessageWithUser {
                        id: m.id,
                        shop_id: m.shop_id,
                        shop_name: s.name,
                        sender_id: m.sender_id,
                        sender_username: su.username,
                        sender_display_name: su.display_name,
                        receiver_id: m.receiver_id,
                        receiver_username: ru.username,
                        receiver_display_name: ru.display_name,
                        content: m.content,
                        created_at: m.created_at,
                    },
                ),
                _ => None,
            }
        } else {
            None
        }
}

fn shop_message_entry(shops: &Vec<Shop>, users: &Vec<UserRow>, m: &ShopMessage, shop_id: i64, user_id: i64, other_id: i64) -> (r: Option<ShopMessageWithUser>)
    ensures
        r == shop_message_between(shops@, users@, shop_id, user_id, other_id)(*m),
{
    if !(m.shop_id == shop_id && ((m.sender_id == user_id && m.receiver_id == other_id) || (m.sender_id
        == other_id && m.receiver_id == user_id))) {
        return None;
    }
    let s = match get_by_key(shops, m.shop_id) {
        Some(s) => s,
        None => return None,
    };
    let su = match get_by_key(users, m.sender_id) {
        Some(u) => u,
        None => return None,
    };
    let ru = match get_by_key(users, m.receiver_id) {
        Some(u) => u,
        None => return None,
    };
    Some(
        ShopMessageWithUser {
            id: m.id,
            shop_id: m.shop_id,
            shop_name: s.name.clone(),
            sender_id: m.sender_id,
            sender_username: su.username.clone(),
            sender_display_name: su.display_name.clone(),
            receiver_id: m.receiver_id,
            receiver_username: ru.username.clone(),
            receiver_display_name: ru.display_name.clone(),
            content: m.content.clone(),
            created_at: m.created_at.clone(),
        },
    )
}

/// The messages about the shop between the two users, by stamp, the earliest stamped first (rows stamped alike: the earliest made first).
pub fn list_for_shop(db: &Database, shop_id: i64, user_id: i64, other_id: i64) -> (r: Vec<ShopMessageWithUser>)
    ensures
        r@ == by_stamp(db@.shop_messages, false).filter_map(shop_message_between(db@.shops, db@.users, shop_id, user_id, other_id)),
{
    let ghost shops = db@.shops;
    let ghost users = db@.users;
    let sorted = rows_by_stamp(&db.shop_messages);
    collect_oldest(
        &sorted,
        |m: &ShopMessage| -> (r: Option<ShopMessageWithUser>) ensures r == shop_message_between(shops, users, shop_id, user_id, other_id)(*m) { shop_message_entry(&db.shops, &db.users, m, shop_id, user_id, other_id) },
        Ghost(shop_message_between(shops, users, shop_id, user_id, other_id)),
    )
}

/// The other party of a shop message that involves the user.
pub open spec fn shop_other(m: ShopMessage, user_id: i64) -> i64 {
    if m.sender_id == user_id {
        m.receiver_id
    } else {
        m.sender_id
    }
}

/// The conversation whose latest message is `m`, with the shop's name.
pub open spec fn shop_conversation_of(shops: Seq<Shop>, user_id: i64, m: ShopMessage) -> Option<ShopConversation> {
    match lookup(shops, m.shop_id) {
        Some(s) => Some(
            ShopConversation {
                shop_id: m.shop_id,
                shop_name: s.name,
                other_id: shop_other(m, user_id),
                last_message: Some(m.content),
                last_message_at: Some(m.created_at),
            },
        ),
        None => None,
    }
}

/// The conversations about shops found in `s`, newest message first, each at its
/// latest message; (shop, party) pairs in `seen` have a later message already.
pub open spec fn shop_conversations_from(s: Seq<ShopMessage>, shops: Seq<Shop>, user_id: i64, seen: Set<(i64, i64)>) -> Seq<ShopConversation>
    decreases s.len(),
{
    if s.len() == 0 {
        Seq::empty()
    } else {
        let m = s.last();
        let key = (m.shop_id, shop_other(m, user_id));
        if (m.sender_id == user_id || m.receiver_id == user_id) && !seen.contains(key) {
            let rest = shop_conversations_from(s.drop_last(), shops, user_id, seen.insert(key));
            match shop_conversation_of(shops, user_id, m) {
                Some(c) => seq![c] + rest,
                None => rest,
            }
        } else {
            shop_conversations_from(s.drop_last(), shops, user_id, seen)
        }
    }
}

/// The user's conversations about shops: one per shop and other party, each at its
/// message stamped latest, the conversation stamped latest first. The messages are
/// taken in order of their stamps, those stamped alike in the order they were sent,
/// so among messages stamped alike the one sent last counts as latest.
pub open spec fn shop_conversations(db: DbView, user_id: i64) -> Seq<ShopConversation> {
    shop_conversations_from(by_stamp(db.shop_messages, false), db.shops, user_id, Set::empty())
}

fn contains_pair(v: &Vec<(i64, i64)>, x: (i64, i64)) -> (r: bool)
    ensures
        r == v@.contains(x),
{
    let mut i: usize = 0;
    while i < v.len()
        invariant
            i <= v@.len(),
            forall|j: int| 0 <= j < i ==> v@[j] != x,
        decreases v@.len() - i,
    {
        let (a, b) = v[i];
        if a == x.0 && b == x.1 {
            assert(v@[i as int] == x);
            return true;
        }
        i = i + 1;
    }
    false
}

/// The user's conversations about shops, the most recent first.
pub fn list_conversations(db: &Database, user_id: i64) -> (r: Vec<ShopConversation>)
    ensures
        r@ == shop_conversations(db@, user_id),
{
    let sorted = rows_by_stamp(&db.shop_messages);
    let ghost all = sorted@;
    let ghost shops = db@.shops;
    let mut out: Vec<ShopConversation> = Vec::new();
    let mut seen: Vec<(i64, i64)> = Vec::new();
    let mut i = sorted.len();
    assert(all.take(i as int) =~= all);
    assert(seen@.to_set() =~= Set::<(i64, i64)>::empty());
    assert(out@ + shop_conversations(db@, user_id) =~= shop_conversations(db@, user_id));
    while i > 0
        invariant
            i <= all.len(),
            all == sorted@,
            shops == db@.shops,
            out@ + shop_conversations_from(all.take(i as int), shops, user_id, seen@.to_set())
                == shop_conversations(db@, user_id),
        decreases i,
    {
        let ghost before = out@;
        let ghost seen_before = seen@.to_set();
        assert(all.take(i as int).drop_last() =~= all.take(i - 1));
        let m = &sorted[i - 1];
        let involved = m.sender_id == user_id || m.receiver_id == user_id;
        let other = if m.sender_id == user_id { m.receiver_id } else { m.sender_id };
        let key = (m.shop_id, other);
        if involved && !contains_pair(&seen, key) {
            let ghost seen_seq = seen@;
            seen.push(key);
            assert forall|a: (i64, i64)| seen@.contains(a) <==> seen_seq.contains(a) || a == key by {
                if seen_seq.contains(a) {
                    let k = choose|k: int| 0 <= k < seen_seq.len() && seen_seq[k] == a;
                    assert(seen@[k] == a);
                }
                if a == key {
                    assert(seen@[seen_seq.len() as int] == a);
                }
                if seen@.contains(a) {
                    let k = choose|k: int| 0 <= k < seen@.len() && seen@[k] == a;
                    if k < seen_seq.len() {
                        assert(seen_seq[k] == a);
                    }
                }
            }
            assert(seen@.to_set() =~= seen_before.insert(key));
            match get_by_key(&db.shops, m.shop_id) {
                Some(s) => {
                    let c = ShopConversation {
                        shop_id: m.shop_id,
                        shop_name: s.name.clone(),
                        other_id: other,
                        last_message: Some(m.content.clone()),
                        last_message_at: Some(m.created_at.clone()),
                    };
                    out.push(c);
                    assert(out@ + shop_conversations_from(all.take(i - 1), shops, user_id, seen@.to_set()) =~= before + shop_conversations_from(all.take(i as int), shops, user_id, seen_before));
                },
                None => {},
            }
        }
        i = i - 1;
    }
    assert(all.take(0) =~= Seq::<ShopMessage>::empty());
    assert(out@ =~= out@ + shop_conversations_from(all.take(0), shops, user_id, seen@.to_set()));
    out
}

} // verus!
