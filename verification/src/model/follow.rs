use vstd::prelude::*;
use crate::db::{Database, DbView, UserRow, follow_rel};
use crate::error::ModelError;
use crate::seqs::{Stamped, by_stamp, rows_by_stamp, 
    Row, any_row, collect_newest, exists_where, get_by_key, lemma_push_ok, lemma_push_pairwise,
    lemma_retained_ok, lemma_retained_pairwise, lookup, newest_first, retain_rows, retained,
    count_where, lemma_count_push, lemma_push_exists, lemma_retained_excludes,
};

verus! {

/// One user following another.
#[derive(Clone, Debug)]
pub struct Follow {
    pub id: i64,
    pub follower_id: i64,
    pub followee_id: i64,
    pub created_at: String,
}

impl Stamped for Follow {
    open spec fn stamp(&self) -> Seq<char> {
        self.created_at@
    }

    fn stamp_text(&self) -> (r: &str) {
        self.created_at.as_str()
    }
}

impl Row for Follow {
    open spec fn key(&self) -> i64 {
        self.id
    }

    fn row_key(&self) -> (r: i64) {
        self.id
    }

    fn dup(&self) -> (r: Self) {
        Follow {
            id: self.id,
            follower_id: self.follower_id,
            followee_id: self.followee_id,
            created_at: self.created_at.clone(),
        }
    }
}

/// The name of a user, as lists show it.
#[derive(Clone, Debug)]
pub struct UserBrief {
    pub id: i64,
    pub username: String,
    pub display_name: String,
}

/// The follow of `followee` by `follower`.
pub open spec fn is_follow(follower_id: i64, followee_id: i64) -> spec_fn(Follow) -> bool {
    |f: Follow| f.follower_id == follower_id && f.followee_id == followee_id
}

/// Any row but the follow of `followee` by `follower`.
pub open spec fn not_follow(follower_id: i64, followee_id: i64) -> spec_fn(Follow) -> bool {
    |f: Follow| !(f.follower_id == follower_id && f.followee_id == followee_id)
}

/// `follower` follows `followee`.
pub open spec fn follows(db: DbView, follower_id: i64, followee_id: i64) -> bool {
    exists_where(db.follows, is_follow(follower_id, followee_id))
}

/// What following does: refused for oneself; nothing changes when the follow
/// exists; otherwise it is appended under the next id, unless the ids are used up.
pub open spec fn follow_done(
    old_db: DbView,
    new_db: DbView,
    r: Result<(), ModelError>,
    follower_id: i64,
    followee_id: i64,
) -> bool {
    if follower_id == followee_id {
        r == Err::<(), ModelError>(ModelError::CannotFollowSelf) && new_db == old_db
    } else if follows(old_db, follower_id, followee_id) {
        r == Ok::<(), ModelError>(()) && new_db == old_db
    } else if old_db.next_follow_id == i64::MAX {
        r == Err::<(), ModelError>(ModelError::TableFull) && new_db == old_db
    } else {
        r == Ok::<(), ModelError>(()) && new_db == (DbView {
            follows: old_db.follows.push(
                Follow { id: old_db.next_follow_id, follower_id, followee_id, created_at: old_db.now },
            ),
            next_follow_id: (old_db.next_follow_id + 1) as i64,
            ..old_db
        })
    }
}

/// Makes `follower` follow `followee`; nothing changes when they do already.
/// Refused when both are the same user.
pub fn follow_user(db: &mut Database, follower_id: i64, followee_id: i64) -> (r: Result<(), ModelError>)
    requires
        old(db).wf(),
    ensures
        final(db).wf(),
        follow_done(old(db)@, final(db)@, r, follower_id, followee_id),
{
    if follower_id == followee_id {
        return Err(ModelError::CannotFollowSelf);
    }
    let exists = any_row(
        &db.follows,
        |f: &Follow| -> (b: bool) ensures b == is_follow(follower_id, followee_id)(*f) { f.follower_id == follower_id && f.followee_id == followee_id },
        Ghost(is_follow(follower_id, followee_id)),
    );
    if exists {
        return Ok(());
    }
    if db.next_follow_id == i64::MAX {
        return Err(ModelError::TableFull);
    }
    let id = db.next_follow_id;
    let row = Follow { id, follower_id, followee_id, created_at: db.now.clone() };
    proof {
        lemma_push_ok(db.follows@, id, row);
        assert forall|i: int| 0 <= i < db.follows@.len() implies #[trigger] follow_rel()(db.follows@[i], row) by {
            if !follow_rel()(db.follows@[i], row) {
                assert(is_follow(follower_id, followee_id)(db.follows@[i]));
            }
        }
        lemma_push_pairwise(db.follows@, row, follow_rel());
    }
    db.follows.push(row);
    db.next_follow_id = id + 1;
    Ok(())
}

/// What unfollowing does, and what comes back.
pub open spec fn follow_ended(
    old_db: DbView,
    new_db: DbView,
    r: bool,
    follower_id: i64,
    followee_id: i64,
) -> bool {
    &&& (r == follows(old_db, follower_id, followee_id))
    &&& (new_db == (DbView {
            follows: retained(old_db.follows, not_follow(follower_id, followee_id)),
            ..old_db
        }))
}

/// Ends the follow; false when there was none.
pub fn unfollow_user(db: &mut Database, follower_id: i64, followee_id: i64) -> (r: bool)
    requires
        old(db).wf(),
    ensures
        final(db).wf(),
        follow_ended(old(db)@, final(db)@, r, follower_id, followee_id),
{
    proof {
        lemma_retained_ok(db.follows@, db.next_follow_id, not_follow(follower_id, followee_id));
        lemma_retained_pairwise(db.follows@, not_follow(follower_id, followee_id), follow_rel());
    }
    let dropped = retain_rows(
        &mut db.follows,
        |f: &Follow| -> (b: bool) ensures b == not_follow(follower_id, followee_id)(*f) { !(f.follower_id == follower_id && f.followee_id == followee_id) },
        Ghost(not_follow(follower_id, followee_id)),
    );
    proof {
        if dropped {
            let i = choose|i: int| 0 <= i < old(db)@.follows.len() && !not_follow(follower_id, followee_id)(old(db)@.follows[i]);
            assert(is_follow(follower_id, followee_id)(old(db)@.follows[i]));
        }
        if follows(old(db)@, follower_id, followee_id) {
            let i = choose|i: int| 0 <= i < old(db)@.follows.len() && #[trigger] is_follow(follower_id, followee_id)(old(db)@.follows[i]);
            assert(!not_follow(follower_id, followee_id)(old(db)@.follows[i]));
        }
    }
    dropped
}

/// The name of a user, as lists show it.
pub open spec fn brief_of(u: UserRow) -> UserBrief {
    UserBrief { id: u.id, username: u.username, display_name: u.display_name }
}

pub fn to_brief(u: &UserRow) -> (r: UserBrief)
    ensures
        r == brief_of(*u),
{
    UserBrief { id: u.id, username: u.username.clone(), display_name: u.display_name.clone() }
}

/// The name of the user with this id, when there is one.
pub open spec fn brief_by_id(users: Seq<UserRow>, id: i64) -> Option<UserBrief> {
    match lookup(users, id) {
        Some(u) => Some(brief_of(u)),
        None => None,
    }
}

pub fn find_brief(users: &Vec<UserRow>, id: i64) -> (r: Option<UserBrief>)
    ensures
        r == brief_by_id(users@, id),
{
    match get_by_key(users, id) {
        Some(u) => Some(to_brief(u)),
        None => None,
    }
}

/// For a follow of `user_id`: the follower.
pub open spec fn follower_of(users: Seq<UserRow>, user_id: i64) -> spec_fn(Follow) -> Option<UserBrief> {
    |f: Follow|
        if f.followee_id == user_id {
            brief_by_id(users, f.follower_id)
        } else {
            None
        }
}

/// For a follow by `user_id`: the user followed.
pub open spec fn followee_of(users: Seq<UserRow>, user_id: i64) -> spec_fn(Follow) -> Option<UserBrief> {
    |f: Follow|
        if f.follower_id == user_id {
            brief_by_id(users, f.followee_id)
        } else {
            None
        }
}

/// The users who follow this user, by the time each follow was stamped, the latest stamped first (rows stamped alike: the latest made first).
pub fn list_followers(db: &Database, user_id: i64) -> (r: Vec<UserBrief>)
    ensures
        r@ == newest_first(by_stamp(db@.follows, false), follower_of(db@.users, user_id)),
{
    let ghost users = db@.users;
    let sorted = rows_by_stamp(&db.follows);
    collect_newest(
        &sorted,
        |f: &Follow| -> (b: Option<UserBrief>) ensures b == follower_of(users, user_id)(*f) { if f.followee_id == user_id { find_brief(&db.users, f.follower_id) } else { None } },
        Ghost(follower_of(users, user_id)),
    )
}

/// The users this user follows, by the time each follow was stamped, the latest stamped first (rows stamped alike: the latest made first).
pub fn list_following(db: &Database, user_id: i64) -> (r: Vec<UserBrief>)
    ensures
        r@ == newest_first(by_stamp(db@.follows, false), followee_of(db@.users, user_id)),
{
    let ghost users = db@.users;
    let sorted = rows_by_stamp(&db.follows);
    collect_newest(
        &sorted,
        |f: &Follow| -> (b: Option<UserBrief>) ensures b == followee_of(users, user_id)(*f) { if f.follower_id == user_id { find_brief(&db.users, f.followee_id) } else { None } },
        Ghost(followee_of(users, user_id)),
    )
}

/// A follow of `user_id`: one of the user's followers.
pub open spec fn follow_of(user_id: i64) -> spec_fn(Follow) -> bool {
    |f: Follow| f.followee_id == user_id
}

/// A follow by `user_id`: one of the users it follows.
pub open spec fn follow_by(user_id: i64) -> spec_fn(Follow) -> bool {
    |f: Follow| f.follower_id == user_id
}

/// Once following succeeded, the follower follows the followee.
pub proof fn law_follow_holds(old_db: DbView, new_db: DbView, follower_id: i64, followee_id: i64)
    requires
        follow_done(old_db, new_db, Ok(()), follower_id, followee_id),
    ensures
        follows(new_db, follower_id, followee_id),
{
    if !follows(old_db, follower_id, followee_id) {
        lemma_push_exists(
            old_db.follows,
            new_db.follows.last(),
            is_follow(follower_id, followee_id),
        );
    }
}

/// A new follow adds one follower to the followee and one followed user to the
/// follower; a follow that existed changes neither count.
pub proof fn law_follow_counts(old_db: DbView, new_db: DbView, follower_id: i64, followee_id: i64)
    requires
        follow_done(old_db, new_db, Ok(()), follower_id, followee_id),
    ensures
        count_where(new_db.follows, follow_of(followee_id)) == count_where(
            old_db.follows,
            follow_of(followee_id),
        ) + if follows(old_db, follower_id, followee_id) { 0nat } else { 1nat },
        count_where(new_db.follows, follow_by(follower_id)) == count_where(
            old_db.follows,
            follow_by(follower_id),
        ) + if follows(old_db, follower_id, followee_id) { 0nat } else { 1nat },
{
    if !follows(old_db, follower_id, followee_id) {
        lemma_count_push(old_db.follows, new_db.follows.last(), follow_of(followee_id));
        lemma_count_push(old_db.follows, new_db.follows.last(), follow_by(follower_id));
    }
}

/// After unfollowing, the follower no longer follows the followee.
pub proof fn law_unfollow_ends(follows_table: Seq<Follow>, follower_id: i64, followee_id: i64)
    ensures
        !exists_where(
            retained(follows_table, not_follow(follower_id, followee_id)),
            is_follow(follower_id, followee_id),
        ),
{
    lemma_retained_excludes(
        follows_table,
        not_follow(follower_id, followee_id),
        is_follow(follower_id, followee_id),
    );
}

/// Every user listed as following `user_id` has a follow with them as follower and
/// `user_id` as followee; every follow of `user_id` whose follower has an account
/// lists that follower.
pub proof fn law_followers_are_followers(db: DbView, user_id: i64, i: int)
    requires
        0 <= i < db.follows.len(),
    ensures
        forall|k: int| #![trigger newest_first(by_stamp(db.follows, false), follower_of(db.users, user_id))[k]] 0 <= k < newest_first(by_stamp(db.follows, false), follower_of(db.users, user_id)).len()
            ==> exists|j: int| 0 <= j < db.follows.len() && (#[trigger] db.follows[j]).follower_id
                == newest_first(by_stamp(db.follows, false), follower_of(db.users, user_id))[k].id
                && db.follows[j].followee_id == user_id,
        db.follows[i].followee_id == user_id && lookup(db.users, db.follows[i].follower_id) is Some ==> exists|k: int|
            0 <= k < newest_first(by_stamp(db.follows, false), follower_of(db.users, user_id)).len()
                && (#[trigger] newest_first(by_stamp(db.follows, false), follower_of(db.users, user_id))[k]).id
                == db.follows[i].follower_id,
{
    let f = follower_of(db.users, user_id);
    let l = newest_first(by_stamp(db.follows, false), f);
    crate::seqs::lemma_listed_by_stamp_origin(db.follows, f);
    assert forall|k: int| #![trigger l[k]] 0 <= k < l.len() implies exists|j: int| 0 <= j < db.follows.len()
        && (#[trigger] db.follows[j]).follower_id == l[k].id && db.follows[j].followee_id == user_id by {
        let a = choose|a: int| 0 <= a < db.follows.len() && f(db.follows[a]) == Some(l[k]);
        crate::seqs::lemma_lookup_position(db.users, db.follows[a].follower_id);
    }
    if db.follows[i].followee_id == user_id && lookup(db.users, db.follows[i].follower_id) is Some {
        crate::seqs::lemma_listed_by_stamp(db.follows, f, i);
        crate::seqs::lemma_lookup_position(db.users, db.follows[i].follower_id);
        let k = choose|k: int| 0 <= k < l.len() && l[k] == f(db.follows[i])->Some_0;
        assert(l[k].id == db.follows[i].follower_id);
    }
}

/// Every user listed as followed by `user_id` has a follow with `user_id` as
/// follower and them as followee; every follow by `user_id` whose followee has an
/// account lists that followee.
pub proof fn law_following_are_followed(db: DbView, user_id: i64, i: int)
    requires
        0 <= i < db.follows.len(),
    ensures
        forall|k: int| #![trigger newest_first(by_stamp(db.follows, false), followee_of(db.users, user_id))[k]] 0 <= k < newest_first(by_stamp(db.follows, false), followee_of(db.users, user_id)).len()
            ==> exists|j: int| 0 <= j < db.follows.len() && (#[trigger] db.follows[j]).followee_id
                == newest_first(by_stamp(db.follows, false), followee_of(db.users, user_id))[k].id
                && db.follows[j].follower_id == user_id,
        db.follows[i].follower_id == user_id && lookup(db.users, db.follows[i].followee_id) is Some ==> exists|k: int|
            0 <= k < newest_first(by_stamp(db.follows, false), followee_of(db.users, user_id)).len()
                && (#[trigger] newest_first(by_stamp(db.follows, false), followee_of(db.users, user_id))[k]).id
                == db.follows[i].followee_id,
{
    let f = followee_of(db.users, user_id);
    let l = newest_first(by_stamp(db.follows, false), f);
    crate::seqs::lemma_listed_by_stamp_origin(db.follows, f);
    assert forall|k: int| #![trigger l[k]] 0 <= k < l.len() implies exists|j: int| 0 <= j < db.follows.len()
        && (#[trigger] db.follows[j]).followee_id == l[k].id && db.follows[j].follower_id == user_id by {
        let a = choose|a: int| 0 <= a < db.follows.len() && f(db.follows[a]) == Some(l[k]);
        crate::seqs::lemma_lookup_position(db.users, db.follows[a].followee_id);
    }
    if db.follows[i].follower_id == user_id && lookup(db.users, db.follows[i].followee_id) is Some {
        crate::seqs::lemma_listed_by_stamp(db.follows, f, i);
        crate::seqs::lemma_lookup_position(db.users, db.follows[i].followee_id);
        let k = choose|k: int| 0 <= k < l.len() && l[k] == f(db.follows[i])->Some_0;
        assert(l[k].id == db.follows[i].followee_id);
    }
}

} // verus!
