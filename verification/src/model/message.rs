use vstd::prelude::*;
use crate::text::str_le;
use crate::db::{Database, DbView, UserRow};
use crate::error::ModelError;
use crate::seqs::{Stamped, by_stamp, rows_by_stamp, sort_by_stamp, 
    Row, collect_oldest, count_rows, count_where, get_by_key, lemma_push_ok, lemma_table_len, lookup,
    table_ok,
};

verus! {

/// A private message; `read` is 0 until the receiver opens the conversation.
#[derive(Clone, Debug)]
pub struct Message {
    pub id: i64,
    pub sender_id: i64,
    pub receiver_id: i64,
    pub content: String,
    pub read: i64,
    pub created_at: String,
}

impl Stamped for Message {
    open spec fn stamp(&self) -> Seq<char> {
        self.created_at@
    }

    fn stamp_text(&self) -> (r: &str) {
        self.created_at.as_str()
    }
}

impl Row for Message {
    open spec fn key(&self) -> i64 {
        self.id
    }

    fn row_key(&self) -> (r: i64) {
        self.id
    }

    fn dup(&self) -> (r: Self) {
        Message {
            id: self.id,
            sender_id: self.sender_id,
            receiver_id: self.receiver_id,
            content: self.content.clone(),
            read: self.read,
            created_at: self.created_at.clone(),
        }
    }
}

/// A message joined with the names of both users.
#[derive(Clone, Debug)]
pub struct MessageWithUser {
    pub id: i64,
    pub sender_id: i64,
    pub receiver_id: i64,
    pub content: String,
    pub read: i64,
    pub created_at: String,
    pub sender_username: String,
    pub sender_display_name: String,
    pub receiver_username: String,
    pub receiver_display_name: String,
}

/// A conversation as the inbox lists it.
#[derive(Clone, Debug)]
pub struct Conversation {
    pub other_user_id: i64,
    pub other_username: String,
    pub other_display_name: String,
    pub last_message: String,
    pub last_message_at: String,
    pub unread_count: i64,
}

impl Stamped for Conversation {
    open spec fn stamp(&self) -> Seq<char> {
        self.last_message_at@
    }

    fn stamp_text(&self) -> (r: &str) {
        self.last_message_at.as_str()
    }
}

/// `row` is the message created from these fields at time `now`, still unread.
pub open spec fn is_new_message(
    row: Message,
    id: i64,
    sender_id: i64,
    receiver_id: i64,
    content: Seq<char>,
    now: String,
) -> bool {
    &&& row.id == id
    &&& row.sender_id == sender_id
    &&& row.receiver_id == receiver_id
    &&& row.content@ == content
    &&& row.read == 0
    &&& row.created_at == now
}

/// What sending a message does, and what comes back.
pub open spec fn message_sent(
    old_db: DbView,
    new_db: DbView,
    r: Result<i64, ModelError>,
    sender_id: i64,
    receiver_id: i64,
    content: Seq<char>,
) -> bool {
    &&& (old_db.next_message_id == i64::MAX ==> r == Err::<i64, ModelError>(ModelError::TableFull)
            && new_db == old_db)
    &&& (old_db.next_message_id < i64::MAX ==> {
            &&& r == Ok::<i64, ModelError>(old_db.next_message_id)
            &&& new_db == (DbView {
                messages: new_db.messages,
                next_message_id: (old_db.next_message_id + 1) as i64,
                ..old_db
            })
            &&& new_db.messages.len() == old_db.messages.len() + 1
            &&& new_db.messages.drop_last() == old_db.messages
            &&& is_new_message(
                new_db.messages.last(),
                old_db.next_message_id,
                sender_id,
                receiver_id,
                content,
                old_db.now,
            )
        })
}

/// Sends a private message; gives back its id.
pub fn send_message(db: &mut Database, sender_id: i64, receiver_id: i64, content: &str) -> (r: Result<
    i64,
    ModelError,
>)
    requires
        old(db).wf(),
    ensures
        final(db).wf(),
        message_sent(old(db)@, final(db)@, r, sender_id, receiver_id, content@),
{
    let ghost old_db = db@;
    if db.next_message_id == i64::MAX {
        return Err(ModelError::TableFull);
    }
    let id = db.next_message_id;
    let row = Message {
        id,
        sender_id,
        receiver_id,
        content: content.to_owned(),
        read: 0,
        created_at: db.now.clone(),
    };
    proof {
        lemma_push_ok(db.messages@, id, row);
    }
    db.messages.push(row);
    db.next_message_id = id + 1;
    assert(db@.messages.drop_last() =~= old_db.messages);
    Ok(id)
}

/// The message is between the user and someone (or the user themselves).
pub open spec fn involves(m: Message, user_id: i64) -> bool {
    m.sender_id == user_id || m.receiver_id == user_id
}

/// The other party of a message that involves the user.
pub open spec fn other_party(m: Message, user_id: i64) -> i64 {
    if m.sender_id == user_id {
        m.receiver_id
    } else {
        m.sender_id
    }
}

/// An unread message from `other_id` to `user_id`.
pub open spec fn unread_from(other_id: i64, user_id: i64) -> spec_fn(Message) -> bool {
    |m: Message| m.receiver_id == user_id && m.sender_id == other_id && m.read == 0
}

/// The conversation whose latest message is `m`: the other party's name, the
/// message, and how many messages from the other party the user has not read.
pub open spec fn conversation_of(all: Seq<Message>, users: Seq<UserRow>, user_id: i64, m: Message) -> Option<Conversation> {
    let other = other_party(m, user_id);
    match lookup(users, other) {
        Some(u) => Some(
            Conversation {
                other_user_id: other,
                other_username: u.username,
                other_display_name: u.display_name,
                last_message: m.content,
                last_message_at: m.created_at,
                unread_count: count_where(all, unread_from(other, user_id)) as i64,
            },
        ),
        None => None,
    }
}

/// The conversations found in `s`, newest message first, each at its latest
/// message; parties in `seen` have a later message already.
pub open spec fn conversations_from(
    s: Seq<Message>,
    all: Seq<Message>,
    users: Seq<UserRow>,
    user_id: i64,
    seen: Set<i64>,
) -> Seq<Conversation>
    decreases s.len(),
{
    if s.len() == 0 {
        Seq::empty()
    } else {
        let m = s.last();
        if involves(m, user_id) && !seen.contains(other_party(m, user_id)) {
            let rest = conversations_from(
                s.drop_last(),
                all,
                users,
                user_id,
                seen.insert(other_party(m, user_id)),
            );
            match conversation_of(all, users, user_id, m) {
                Some(c) => seq![c] + rest,
                None => rest,
            }
        } else {
            conversations_from(s.drop_last(), all, users, user_id, seen)
        }
    }
}

/// The user's conversations, one per other party, each at the latest message with
/// them, in the order those messages were sent.
pub open spec fn conversations_by_party(db: DbView, user_id: i64) -> Seq<Conversation> {
    conversations_from(db.messages, db.messages, db.users, user_id, Set::empty())
}

/// The user's conversations, the one whose latest message is stamped latest first;
/// conversations stamped alike keep the order their messages were sent in, the
/// latest first.
pub open spec fn conversations(db: DbView, user_id: i64) -> Seq<Conversation> {
    by_stamp(conversations_by_party(db, user_id), true)
}

fn count_unread_from(msgs: &Vec<Message>, other_id: i64, user_id: i64) -> (r: u64)
    ensures
        r == count_where(msgs@, unread_from(other_id, user_id)),
        r <= msgs@.len(),
{
    count_rows(
        msgs,
        |m: &Message| -> (b: bool) ensures b == unread_from(other_id, user_id)(*m) { m.receiver_id == user_id && m.sender_id == other_id && m.read == 0 },
        Ghost(unread_from(other_id, user_id)),
    )
}

fn contains_id(v: &Vec<i64>, x: i64) -> (r: bool)
    ensures
        r == v@.contains(x),
{
    let mut i: usize = 0;
    while i < v.len()
        invariant
            i <= v@.len(),
            forall|j: int| 0 <= j < i ==> v@[j] != x,
        decreases v@.len() - i,
    {
        if v[i] == x {
            return true;
        }
        i = i + 1;
    }
    false
}

/// The user's conversations, the most recent first.
pub fn list_conversations(db: &Database, user_id: i64) -> (r: Vec<Conversation>)
    requires
        db.wf(),
    ensures
        r@ == conversations(db@, user_id),
{
    let ghost all = db@.messages;
    let ghost users = db@.users;
    proof {
        lemma_table_len(db.messages@, db.next_message_id);
    }
    let mut out: Vec<Conversation> = Vec::new();
    let mut seen: Vec<i64> = Vec::new();
    let mut i = db.messages.len();
    assert(all.take(i as int) =~= all);
    assert(seen@.to_set() =~= Set::<i64>::empty());
    assert(out@ + conversations_by_party(db@, user_id) =~= conversations_by_party(db@, user_id));
    while i > 0
        invariant
            i <= all.len(),
            all == db@.messages,
            users == db@.users,
            all.len() < i64::MAX,
            out@ + conversations_from(all.take(i as int), all, users, user_id, seen@.to_set())
                == conversations_by_party(db@, user_id),
        decreases i,
    {
        let ghost before = out@;
        let ghost seen_before = seen@.to_set();
        assert(all.take(i as int).drop_last() =~= all.take(i - 1));
        let m = &db.messages[i - 1];
        let involved = m.sender_id == user_id || m.receiver_id == user_id;
        let other = if m.sender_id == user_id { m.receiver_id } else { m.sender_id };
        if involved && !contains_id(&seen, other) {
            proof {
                assert(!seen@.to_set().contains(other));
            }
            let ghost seen_seq = seen@;
            seen.push(other);
            assert forall|a: i64| seen@.contains(a) <==> seen_seq.contains(a) || a == other by {
                if seen_seq.contains(a) {
                    let k = choose|k: int| 0 <= k < seen_seq.len() && seen_seq[k] == a;
                    assert(seen@[k] == a);
                }
                if a == other {
                    assert(seen@[seen_seq.len() as int] == a);
                }
                if seen@.contains(a) {
                    let k = choose|k: int| 0 <= k < seen@.len() && seen@[k] == a;
                    if k < seen_seq.len() {
                        assert(seen_seq[k] == a);
                    }
                }
            }
            assert(seen@.to_set() =~= seen_before.insert(other));
            match get_by_key(&db.users, other) {
                Some(u) => {
                    let n = count_unread_from(&db.messages, other, user_id);
                    let c = Conversation {
                        other_user_id: other,
                        other_username: u.username.clone(),
                        other_display_name: u.display_name.clone(),
                        last_message: m.content.clone(),
                        last_message_at: m.created_at.clone(),
                        unread_count: n as i64,
                    };
                    out.push(c);
                    assert(out@ + conversations_from(all.take(i - 1), all, users, user_id, seen@.to_set()) =~= before + conversations_from(all.take(i as int), all, users, user_id, seen_before));
                },
                None => {},
            }
        } else {
            proof {
                if involved {
                    assert(seen@.to_set().contains(other));
                }
            }
        }
        i = i - 1;
    }
    assert(all.take(0) =~= Seq::<Message>::empty());
    assert(out@ =~= out@ + conversations_from(all.take(0), all, users, user_id, seen@.to_set()));
    sort_by_stamp(out, true)
}

/// A message between the two users, joined with both their names.
pub open spec fn message_between(users: Seq<UserRow>, user_id: i64, other_id: i64) -> spec_fn(Message) -> Option<MessageWithUser> {
    |m: Message|
        if (m.sender_id == user_id && m.receiver_id == other_id) || (m.sender_id == other_id
            && m.receiver_id == user_id) {
            match (lookup(users, m.sender_id), lookup(users, m.receiver_id)) {
                (Some(su), Some(ru)) => Some(
                    MessageWithUser {
                        id: m.id,
                        sender_id: m.sender_id,
                        receiver_id: m.receiver_id,
                        content: m.content,
                        read: m.read,
                        created_at: m.created_at,
                        sender_username: su.username,
                        sender_display_name: su.display_name,
                        receiver_username: ru.username,
                        receiver_display_name: ru.display_name,
                    },
                ),
                _ => None,
            }
        } else {
            None
        }
}

fn message_entry(users: &Vec<UserRow>, m: &Message, user_id: i64, other_id: i64) -> (r: Option<MessageWithUser>)
    ensures
        r == message_between(users@, user_id, other_id)(*m),
{
    if (m.sender_id == user_id && m.receiver_id == other_id) || (m.sender_id == other_id
        && m.receiver_id == user_id) {
        match get_by_key(users, m.sender_id) {
            Some(su) => match get_by_key(users, m.receiver_id) {
                Some(ru) => Some(
                    MessageWithUser {
                        id: m.id,
                        sender_id: m.sender_id,
                        receiver_id: m.receiver_id,
                        content: m.content.clone(),
                        read: m.read,
                        created_at: m.created_at.clone(),
                        sender_username: su.username.clone(),
                        sender_display_name: su.display_name.clone(),
                        receiver_username: ru.username.clone(),
                        receiver_display_name: ru.display_name.clone(),
                    },
                ),
                None => None,
            },
            None => None,
        }
    } else {
        None
    }
}

/// The messages between the two users, by stamp, the earliest stamped first (rows stamped alike: the earliest made first).
pub fn list_messages(db: &Database, user_id: i64, other_id: i64) -> (r: Vec<MessageWithUser>)
    ensures
        r@ == by_stamp(db@.messages, false).filter_map(message_between(db@.users, user_id, other_id)),
{
    let ghost users = db@.users;
    let sorted = rows_by_stamp(&db.messages);
    collect_oldest(
        &sorted,
        |m: &Message| -> (r: Option<MessageWithUser>) ensures r == message_between(users, user_id, other_id)(*m) { message_entry(&db.users, m, user_id, other_id) },
        Ghost(message_between(users, user_id, other_id)),
    )
}

/// The message as it reads after the user opened the conversation with `other_id`.
pub open spec fn marked_read(user_id: i64, other_id: i64) -> spec_fn(Message) -> Message {
    |m: Message|
        if m.receiver_id == user_id && m.sender_id == other_id && m.read == 0 {
            Message { read: 1, ..m }
        } else {
            m
        }
}

/// Marks every unread message from `other_id` to `user_id` as read.
pub fn mark_read(db: &mut Database, user_id: i64, other_id: i64)
    requires
        old(db).wf(),
    ensures
        final(db).wf(),
        final(db)@ == (DbView {
            messages: old(db)@.messages.map_values(marked_read(user_id, other_id)),
            ..old(db)@
        }),
{
    let ghost old_db = db@;
    let n = db.messages.len();
    let mut i: usize = 0;
    while i < n
        invariant
            i <= n,
            n == old_db.messages.len(),
            db@ == (DbView { messages: db@.messages, ..old_db }),
            db@.messages.len() == n,
            forall|j: int| 0 <= j < i ==> db@.messages[j] == marked_read(user_id, other_id)(old_db.messages[j]),
            forall|j: int| i <= j < n ==> db@.messages[j] == old_db.messages[j],
        decreases n - i,
    {
        let m = &db.messages[i];
        if m.receiver_id == user_id && m.sender_id == other_id && m.read == 0 {
            let mut m2 = m.dup();
            m2.read = 1;
            db.messages.set(i, m2);
        }
        i = i + 1;
    }
    assert(db@.messages =~= old_db.messages.map_values(marked_read(user_id, other_id)));
    assert forall|j: int| 0 <= j < n implies #[trigger] db@.messages[j].key() == old_db.messages[j].key() by {}
    assert(table_ok(db@.messages, db@.next_message_id)) by {
        assert forall|a: int, b: int| 0 <= a < b < n implies db@.messages[a].key() < db@.messages[b].key() by {
            assert(old_db.messages[a].key() < old_db.messages[b].key());
        }
    }
}

/// An unread message to the user.
pub open spec fn unread_to(user_id: i64) -> spec_fn(Message) -> bool {
    |m: Message| m.receiver_id == user_id && m.read == 0
}

/// How many messages the user has not read.
pub fn get_unread_count(db: &Database, user_id: i64) -> (r: i64)
    requires
        db.wf(),
    ensures
        r == count_where(db@.messages, unread_to(user_id)),
{
    let n = count_rows(
        &db.messages,
        |m: &Message| -> (b: bool) ensures b == unread_to(user_id)(*m) { m.receiver_id == user_id && m.read == 0 },
        Ghost(unread_to(user_id)),
    );
    proof {
        lemma_table_len(db.messages@, db.next_message_id);
    }
    n as i64
}

/// An unread message from `other_id` to `user_id`.
pub open spec fn unread_from_to(other_id: i64, user_id: i64) -> spec_fn(Message) -> bool {
    |m: Message| m.receiver_id == user_id && m.sender_id == other_id && m.read == 0
}

/// Once the user opened the conversation, no message from the other user to them is
/// unread, and every other message reads as before.
pub proof fn law_mark_read_clears(msgs: Seq<Message>, user_id: i64, other_id: i64)
    ensures
        !crate::seqs::exists_where(
            msgs.map_values(marked_read(user_id, other_id)),
            unread_from_to(other_id, user_id),
        ),
        forall|i: int|
            0 <= i < msgs.len() && !unread_from_to(other_id, user_id)(#[trigger] msgs[i])
                ==> msgs.map_values(marked_read(user_id, other_id))[i] == msgs[i],
{
    let after = msgs.map_values(marked_read(user_id, other_id));
    assert forall|i: int| 0 <= i < after.len() implies !#[trigger] unread_from_to(other_id, user_id)(after[i]) by {
        assert(after[i] == marked_read(user_id, other_id)(msgs[i]));
    }
}

/// A message sent between two existing users, at a time no earlier than any message
/// was stamped with, is listed last in their conversation, whichever of them lists
/// it, after the messages listed before.
pub proof fn law_sent_message_listed(
    old_db: DbView,
    new_db: DbView,
    r: Result<i64, ModelError>,
    sender_id: i64,
    receiver_id: i64,
    content: Seq<char>,
)
    requires
        message_sent(old_db, new_db, r, sender_id, receiver_id, content),
        r is Ok,
        lookup(old_db.users, sender_id) is Some,
        lookup(old_db.users, receiver_id) is Some,
        forall|i: int| 0 <= i < old_db.messages.len() ==> str_le(#[trigger] old_db.messages[i].created_at@, old_db.now@),
    ensures
        ({
            let listed = by_stamp(new_db.messages, false).filter_map(message_between(new_db.users, sender_id, receiver_id));
            let before = by_stamp(old_db.messages, false).filter_map(message_between(old_db.users, sender_id, receiver_id));
            &&& listed.len() == before.len() + 1
            &&& listed.drop_last() == before
            &&& listed.last().id == r->Ok_0
            &&& listed.last().content@ == content
            &&& listed.last().read == 0
        }),
        by_stamp(new_db.messages, false).filter_map(message_between(new_db.users, receiver_id, sender_id))
            == by_stamp(new_db.messages, false).filter_map(message_between(new_db.users, sender_id, receiver_id)),
{
    let f = message_between(old_db.users, sender_id, receiver_id);
    let g = message_between(old_db.users, receiver_id, sender_id);
    let m = new_db.messages.last();
    assert(new_db.messages =~= old_db.messages.push(m));
    crate::seqs::lemma_by_stamp_push_latest(old_db.messages, m);
    let s = by_stamp(new_db.messages, false);
    let n = s.len() as int;
    assert(s.take(n) =~= s);
    assert(s.take(n - 1) =~= by_stamp(old_db.messages, false));
    crate::seqs::lemma_filter_map_take(s, n, f);
    assert(f =~= g);
}

/// Every conversation found in `s` is made from a message of `s` that involves the user.
proof fn lemma_conversations_origin(
    s: Seq<Message>,
    all: Seq<Message>,
    users: Seq<UserRow>,
    user_id: i64,
    seen: Set<i64>,
)
    ensures
        forall|k: int|
            0 <= k < conversations_from(s, all, users, user_id, seen).len() ==> exists|a: int|
                0 <= a < s.len() && involves(s[a], user_id) && conversation_of(all, users, user_id, s[a])
                    == Some(#[trigger] conversations_from(s, all, users, user_id, seen)[k]),
    decreases s.len(),
{
    if s.len() > 0 {
        let m = s.last();
        let t = s.drop_last();
        let c = conversations_from(s, all, users, user_id, seen);
        if involves(m, user_id) && !seen.contains(other_party(m, user_id)) {
            let seen2 = seen.insert(other_party(m, user_id));
            lemma_conversations_origin(t, all, users, user_id, seen2);
            let rest = conversations_from(t, all, users, user_id, seen2);
            assert forall|k: int| 0 <= k < c.len() implies exists|a: int|
                0 <= a < s.len() && involves(s[a], user_id) && conversation_of(all, users, user_id, s[a])
                    == Some(#[trigger] c[k]) by {
                match conversation_of(all, users, user_id, m) {
                    Some(x) => {
                        if k == 0 {
                            assert(s[s.len() - 1] == m);
                        } else {
                            assert(c[k] == rest[k - 1]);
                            let a = choose|a: int| 0 <= a < t.len() && involves(t[a], user_id) && conversation_of(all, users, user_id, t[a]) == Some(rest[k - 1]);
                            assert(s[a] == t[a]);
                        }
                    },
                    None => {
                        let a = choose|a: int| 0 <= a < t.len() && involves(t[a], user_id) && conversation_of(all, users, user_id, t[a]) == Some(rest[k]);
                        assert(s[a] == t[a]);
                    },
                }
            }
        } else {
            lemma_conversations_origin(t, all, users, user_id, seen);
            assert(c == conversations_from(t, all, users, user_id, seen));
            assert forall|k: int| 0 <= k < c.len() implies exists|a: int|
                0 <= a < s.len() && involves(s[a], user_id) && conversation_of(all, users, user_id, s[a])
                    == Some(#[trigger] c[k]) by {
                let a = choose|a: int| 0 <= a < t.len() && involves(t[a], user_id) && conversation_of(all, users, user_id, t[a]) == Some(c[k]);
                assert(s[a] == t[a]);
            }
        }
    }
}

/// In each of a user's conversations, the unread count is the number of messages
/// the other party sent the user that the user has not read; and the other party
/// is someone the user sent a message to or received one from.
pub proof fn law_conversation_unread_counted(db: DbView, user_id: i64)
    requires
        db.wf(),
    ensures
        forall|k: int| 0 <= k < conversations(db, user_id).len() ==> {
            let c = #[trigger] conversations(db, user_id)[k];
            &&& c.unread_count == count_where(
                db.messages,
                |m: Message| m.sender_id == c.other_user_id && m.receiver_id == user_id && m.read == 0,
            )
            &&& exists|j: int| 0 <= j < db.messages.len() && ((db.messages[j].sender_id == user_id
                && #[trigger] db.messages[j].receiver_id == c.other_user_id) || (db.messages[j].sender_id
                == c.other_user_id && db.messages[j].receiver_id == user_id))
        },
{
    let all = db.messages;
    let byp = conversations_by_party(db, user_id);
    lemma_conversations_origin(all, all, db.users, user_id, Set::empty());
    crate::seqs::lemma_by_stamp_contents(byp, true);
    lemma_table_len(db.messages, db.next_message_id);
    let cs = conversations(db, user_id);
    assert forall|k: int| 0 <= k < cs.len() implies {
        let c = #[trigger] cs[k];
        &&& c.unread_count == count_where(
            db.messages,
            |m: Message| m.sender_id == c.other_user_id && m.receiver_id == user_id && m.read == 0,
        )
        &&& exists|j: int| 0 <= j < db.messages.len() && ((db.messages[j].sender_id == user_id
            && #[trigger] db.messages[j].receiver_id == c.other_user_id) || (db.messages[j].sender_id
            == c.other_user_id && db.messages[j].receiver_id == user_id))
    } by {
        let c = cs[k];
        assert(cs.contains(c));
        assert(byp.contains(c));
        let b = choose|b: int| 0 <= b < byp.len() && byp[b] == c;
        let a = choose|a: int| 0 <= a < all.len() && involves(all[a], user_id) && conversation_of(all, db.users, user_id, all[a]) == Some(byp[b]);
        let m = all[a];
        let o = other_party(m, user_id);
        assert(c.other_user_id == o);
        crate::seqs::lemma_count_le(all, unread_from(o, user_id));
        assert(unread_from(o, user_id) =~= (|x: Message| x.sender_id == c.other_user_id && x.receiver_id == user_id && x.read == 0));
        assert(db.messages[a].receiver_id == m.receiver_id);
    }
}

/// Every message listed between two users was sent by one of them to the other.
pub proof fn law_messages_are_between_the_two(db: DbView, user_id: i64, other_id: i64)
    ensures
        forall|k: int| 0 <= k < by_stamp(db.messages, false).filter_map(message_between(db.users, user_id, other_id)).len() ==> {
            let x = #[trigger] by_stamp(db.messages, false).filter_map(message_between(db.users, user_id, other_id))[k];
            (x.sender_id == user_id && x.receiver_id == other_id) || (x.sender_id == other_id && x.receiver_id == user_id)
        },
{
    crate::seqs::lemma_filter_map_origin(by_stamp(db.messages, false), message_between(db.users, user_id, other_id));
    assert forall|k: int| 0 <= k < by_stamp(db.messages, false).filter_map(message_between(db.users, user_id, other_id)).len() implies {
        let x = #[trigger] by_stamp(db.messages, false).filter_map(message_between(db.users, user_id, other_id))[k];
        (x.sender_id == user_id && x.receiver_id == other_id) || (x.sender_id == other_id && x.receiver_id == user_id)
    } by {
        let b = by_stamp(db.messages, false);
        let a = choose|a: int| 0 <= a < b.len() && message_between(db.users, user_id, other_id)(b[a]) == Some(by_stamp(db.messages, false).filter_map(message_between(db.users, user_id, other_id))[k]);
        
    }
}
/// The unread count of a user is the number of messages sent to the user that the
/// user has not read.
pub proof fn law_unread_count_counts_received(db: DbView, user_id: i64)
    ensures
        count_where(db.messages, unread_to(user_id)) == count_where(
            db.messages,
            |m: Message| m.receiver_id == user_id && m.read == 0,
        ),
{
    assert(unread_to(user_id) =~= (|m: Message| m.receiver_id == user_id && m.read == 0));
}

} // verus!
