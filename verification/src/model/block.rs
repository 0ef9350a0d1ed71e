use vstd::prelude::*;
use crate::db::{Database, DbView, block_rel};
use crate::error::ModelError;
use crate::model::follow::{UserBrief, brief_by_id, find_brief};
use crate::seqs::{Stamped, by_stamp, rows_by_stamp, 
    Row, any_row, collect_newest, collect_oldest, exists_where, lemma_push_ok, lemma_push_pairwise,
    lemma_retained_ok, lemma_retained_pairwise, newest_first, retain_rows, retained,
    lemma_push_exists, lemma_retained_excludes,
};

verus! {

/// One user blocking another.
#[derive(Clone, Debug)]
pub struct Block {
    pub id: i64,
    pub blocker_id: i64,
    pub blocked_id: i64,
    pub created_at: String,
}

impl Stamped for Block {
    open spec fn stamp(&self) -> Seq<char> {
        self.created_at@
    }

    fn stamp_text(&self) -> (r: &str) {
        self.created_at.as_str()
    }
}

impl Row for Block {
    open spec fn key(&self) -> i64 {
        self.id
    }

    fn row_key(&self) -> (r: i64) {
        self.id
    }

    fn dup(&self) -> (r: Self) {
        Block {
            id: self.id,
            blocker_id: self.blocker_id,
            blocked_id: self.blocked_id,
            created_at: self.created_at.clone(),
        }
    }
}

/// The block of `blocked` by `blocker`.
pub open spec fn is_block(blocker_id: i64, blocked_id: i64) -> spec_fn(Block) -> bool {
    |b: Block| b.blocker_id == blocker_id && b.blocked_id == blocked_id
}

/// Any row but the block of `blocked` by `blocker`.
pub open spec fn not_block(blocker_id: i64, blocked_id: i64) -> spec_fn(Block) -> bool {
    |b: Block| !(b.blocker_id == blocker_id && b.blocked_id == blocked_id)
}

/// `blocker` blocks `blocked`.
pub open spec fn blocks(db: DbView, blocker_id: i64, blocked_id: i64) -> bool {
    exists_where(db.blocks, is_block(blocker_id, blocked_id))
}

/// What blocking does: refused for oneself; nothing changes when the block exists;
/// otherwise it is appended under the next id, unless the ids are used up.
pub open spec fn block_done(
    old_db: DbView,
    new_db: DbView,
    r: Result<(), ModelError>,
    blocker_id: i64,
    blocked_id: i64,
) -> bool {
    if blocker_id == blocked_id {
        r == Err::<(), ModelError>(ModelError::CannotBlockSelf) && new_db == old_db
    } else if blocks(old_db, blocker_id, blocked_id) {
        r == Ok::<(), ModelError>(()) && new_db == old_db
    } else if old_db.next_block_id == i64::MAX {
        r == Err::<(), ModelError>(ModelError::TableFull) && new_db == old_db
    } else {
        r == Ok::<(), ModelError>(()) && new_db == (DbView {
            blocks: old_db.blocks.push(
                Block { id: old_db.next_block_id, blocker_id, blocked_id, created_at: old_db.now },
            ),
            next_block_id: (old_db.next_block_id + 1) as i64,
            ..old_db
        })
    }
}

/// Makes `blocker` block `blocked`; nothing changes when it does already.
/// Refused when both are the same user.
pub fn block_user(db: &mut Database, blocker_id: i64, blocked_id: i64) -> (r: Result<(), ModelError>)
    requires
        old(db).wf(),
    ensures
        final(db).wf(),
        block_done(old(db)@, final(db)@, r, blocker_id, blocked_id),
{
    if blocker_id == blocked_id {
        return Err(ModelError::CannotBlockSelf);
    }
    let exists = any_row(
        &db.blocks,
        |b: &Block| -> (r: bool) ensures r == is_block(blocker_id, blocked_id)(*b) { b.blocker_id == blocker_id && b.blocked_id == blocked_id },
        Ghost(is_block(blocker_id, blocked_id)),
    );
    if exists {
        return Ok(());
    }
    if db.next_block_id == i64::MAX {
        return Err(ModelError::TableFull);
    }
    let id = db.next_block_id;
    let row = Block { id, blocker_id, blocked_id, created_at: db.now.clone() };
    proof {
        lemma_push_ok(db.blocks@, id, row);
        assert forall|i: int| 0 <= i < db.blocks@.len() implies #[trigger] block_rel()(db.blocks@[i], row) by {
            if !block_rel()(db.blocks@[i], row) {
                assert(is_block(blocker_id, blocked_id)(db.blocks@[i]));
            }
        }
        lemma_push_pairwise(db.blocks@, row, block_rel());
    }
    db.blocks.push(row);
    db.next_block_id = id + 1;
    Ok(())
}

/// What unblocking does, and what comes back.
pub open spec fn block_ended(
    old_db: DbView,
    new_db: DbView,
    r: bool,
    blocker_id: i64,
    blocked_id: i64,
) -> bool {
    &&& (r == blocks(old_db, blocker_id, blocked_id))
    &&& (new_db == (DbView {
            blocks: retained(old_db.blocks, not_block(blocker_id, blocked_id)),
            ..old_db
        }))
}

/// Ends the block; false when there was none.
pub fn unblock_user(db: &mut Database, blocker_id: i64, blocked_id: i64) -> (r: bool)
    requires
        old(db).wf(),
    ensures
        final(db).wf(),
        block_ended(old(db)@, final(db)@, r, blocker_id, blocked_id),
{
    proof {
        lemma_retained_ok(db.blocks@, db.next_block_id, not_block(blocker_id, blocked_id));
        lemma_retained_pairwise(db.blocks@, not_block(blocker_id, blocked_id), block_rel());
    }
    let dropped = retain_rows(
        &mut db.blocks,
        |b: &Block| -> (r: bool) ensures r == not_block(blocker_id, blocked_id)(*b) { !(b.blocker_id == blocker_id && b.blocked_id == blocked_id) },
        Ghost(not_block(blocker_id, blocked_id)),
    );
    proof {
        if dropped {
            let i = choose|i: int| 0 <= i < old(db)@.blocks.len() && !not_block(blocker_id, blocked_id)(old(db)@.blocks[i]);
            assert(is_block(blocker_id, blocked_id)(old(db)@.blocks[i]));
        }
        if blocks(old(db)@, blocker_id, blocked_id) {
            let i = choose|i: int| 0 <= i < old(db)@.blocks.len() && #[trigger] is_block(blocker_id, blocked_id)(old(db)@.blocks[i]);
            assert(!not_block(blocker_id, blocked_id)(old(db)@.blocks[i]));
        }
    }
    dropped
}

/// For a block by `user_id`: the user blocked.
pub open spec fn blocked_by(user_id: i64) -> spec_fn(Block) -> Option<i64> {
    |b: Block|
        if b.blocker_id == user_id {
            Some(b.blocked_id)
        } else {
            None
        }
}

/// For a block of `user_id`: the user who blocks.
pub open spec fn blocker_of(user_id: i64) -> spec_fn(Block) -> Option<i64> {
    |b: Block|
        if b.blocked_id == user_id {
            Some(b.blocker_id)
        } else {
            None
        }
}

/// The ids of the users this user blocks, in the order the blocks were made.
pub fn get_blocked_ids(db: &Database, user_id: i64) -> (r: Vec<i64>)
    ensures
        r@ == db@.blocks.filter_map(blocked_by(user_id)),
{
    collect_oldest(
        &db.blocks,
        |b: &Block| -> (r: Option<i64>) ensures r == blocked_by(user_id)(*b) { if b.blocker_id == user_id { Some(b.blocked_id) } else { None } },
        Ghost(blocked_by(user_id)),
    )
}

/// The ids of the users who block this user, in the order the blocks were made.
pub fn get_blocker_ids(db: &Database, user_id: i64) -> (r: Vec<i64>)
    ensures
        r@ == db@.blocks.filter_map(blocker_of(user_id)),
{
    collect_oldest(
        &db.blocks,
        |b: &Block| -> (r: Option<i64>) ensures r == blocker_of(user_id)(*b) { if b.blocked_id == user_id { Some(b.blocker_id) } else { None } },
        Ghost(blocker_of(user_id)),
    )
}

/// Does `user_id` block `other_id`?
pub fn is_blocked(db: &Database, user_id: i64, other_id: i64) -> (r: bool)
    ensures
        r == blocks(db@, user_id, other_id),
{
    any_row(
        &db.blocks,
        |b: &Block| -> (r: bool) ensures r == is_block(user_id, other_id)(*b) { b.blocker_id == user_id && b.blocked_id == other_id },
        Ghost(is_block(user_id, other_id)),
    )
}

/// Does either of the two users block the other?
pub fn either_blocked(db: &Database, a_id: i64, b_id: i64) -> (r: bool)
    ensures
        r == (blocks(db@, a_id, b_id) || blocks(db@, b_id, a_id)),
{
    is_blocked(db, a_id, b_id) || is_blocked(db, b_id, a_id)
}

/// For a block by `user_id`: the name of the user blocked.
pub open spec fn blocked_user_of(users: Seq<crate::db::UserRow>, user_id: i64) -> spec_fn(Block) -> Option<UserBrief> {
    |b: Block|
        if b.blocker_id == user_id {
            brief_by_id(users, b.blocked_id)
        } else {
            None
        }
}

/// The users this user blocks, by the time each block was stamped, the latest stamped first (rows stamped alike: the latest made first).
pub fn list_blocked_users(db: &Database, user_id: i64) -> (r: Vec<UserBrief>)
    ensures
        r@ == newest_first(by_stamp(db@.blocks, false), blocked_user_of(db@.users, user_id)),
{
    let ghost users = db@.users;
    let sorted = rows_by_stamp(&db.blocks);
    collect_newest(
        &sorted,
        |b: &Block| -> (r: Option<UserBrief>) ensures r == blocked_user_of(users, user_id)(*b) { if b.blocker_id == user_id { find_brief(&db.users, b.blocked_id) } else { None } },
        Ghost(blocked_user_of(users, user_id)),
    )
}

/// Once blocking succeeded, the block holds, and the two users count as blocked
/// whichever of them is asked about first.
pub proof fn law_block_holds(old_db: DbView, new_db: DbView, blocker_id: i64, blocked_id: i64)
    requires
        block_done(old_db, new_db, Ok(()), blocker_id, blocked_id),
    ensures
        blocks(new_db, blocker_id, blocked_id),
        blocks(new_db, blocker_id, blocked_id) || blocks(new_db, blocked_id, blocker_id),
        blocks(new_db, blocked_id, blocker_id) || blocks(new_db, blocker_id, blocked_id),
{
    if !blocks(old_db, blocker_id, blocked_id) {
        lemma_push_exists(old_db.blocks, new_db.blocks.last(), is_block(blocker_id, blocked_id));
    }
}

/// After unblocking, the block no longer holds.
pub proof fn law_unblock_ends(blocks_table: Seq<Block>, blocker_id: i64, blocked_id: i64)
    ensures
        !exists_where(
            retained(blocks_table, not_block(blocker_id, blocked_id)),
            is_block(blocker_id, blocked_id),
        ),
{
    lemma_retained_excludes(blocks_table, not_block(blocker_id, blocked_id), is_block(blocker_id, blocked_id));
}

/// Every user listed as blocked by `user_id` has a block with `user_id` as blocker
/// and them as the one blocked; every block by `user_id` whose blocked user has an
/// account lists that user.
pub proof fn law_blocked_users_are_blocked(db: DbView, user_id: i64, i: int)
    requires
        0 <= i < db.blocks.len(),
    ensures
        forall|k: int| #![trigger newest_first(by_stamp(db.blocks, false), blocked_user_of(db.users, user_id))[k]] 0 <= k < newest_first(by_stamp(db.blocks, false), blocked_user_of(db.users, user_id)).len()
            ==> exists|j: int| 0 <= j < db.blocks.len() && (#[trigger] db.blocks[j]).blocked_id
                == newest_first(by_stamp(db.blocks, false), blocked_user_of(db.users, user_id))[k].id
                && db.blocks[j].blocker_id == user_id,
        db.blocks[i].blocker_id == user_id && crate::seqs::lookup(db.users, db.blocks[i].blocked_id) is Some ==> exists|k: int|
            0 <= k < newest_first(by_stamp(db.blocks, false), blocked_user_of(db.users, user_id)).len()
                && (#[trigger] newest_first(by_stamp(db.blocks, false), blocked_user_of(db.users, user_id))[k]).id
                == db.blocks[i].blocked_id,
{
    let f = blocked_user_of(db.users, user_id);
    let l = newest_first(by_stamp(db.blocks, false), f);
    crate::seqs::lemma_listed_by_stamp_origin(db.blocks, f);
    assert forall|k: int| #![trigger l[k]] 0 <= k < l.len() implies exists|j: int| 0 <= j < db.blocks.len()
        && (#[trigger] db.blocks[j]).blocked_id == l[k].id && db.blocks[j].blocker_id == user_id by {
        let a = choose|a: int| 0 <= a < db.blocks.len() && f(db.blocks[a]) == Some(l[k]);
        crate::seqs::lemma_lookup_position(db.users, db.blocks[a].blocked_id);
    }
    if db.blocks[i].blocker_id == user_id && crate::seqs::lookup(db.users, db.blocks[i].blocked_id) is Some {
        crate::seqs::lemma_listed_by_stamp(db.blocks, f, i);
        crate::seqs::lemma_lookup_position(db.users, db.blocks[i].blocked_id);
        let k = choose|k: int| 0 <= k < l.len() && l[k] == f(db.blocks[i])->Some_0;
        assert(l[k].id == db.blocks[i].blocked_id);
    }
}

} // verus!
