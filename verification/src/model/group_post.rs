use vstd::prelude::*;
use crate::db::{Database, DbView, UserRow};
use crate::error::ModelError;
use crate::model::group::{is_member, member};
use crate::seqs::{Stamped, by_stamp, rows_by_stamp, 
    Row, collect_newest, get_by_key, lemma_lookup_position, lemma_push_ok, lemma_retained_ok, lookup,
    newest_first, retain_rows, retained,
};

verus! {

/// A post written inside a group.
#[derive(Clone, Debug)]
pub struct GroupPost {
    pub id: i64,
    pub group_id: i64,
    pub user_id: i64,
    pub content: String,
    pub likes_count: i64,
    pub created_at: String,
}

impl Stamped for GroupPost {
    open spec fn stamp(&self) -> Seq<char> {
        self.created_at@
    }

    fn stamp_text(&self) -> (r: &str) {
        self.created_at.as_str()
    }
}

impl Row for GroupPost {
    open spec fn key(&self) -> i64 {
        self.id
    }

    fn row_key(&self) -> (r: i64) {
        self.id
    }

    fn dup(&self) -> (r: Self) {
        GroupPost {
            id: self.id,
            group_id: self.group_id,
            user_id: self.user_id,
            content: self.content.clone(),
            likes_count: self.likes_count,
            created_at: self.created_at.clone(),
        }
    }
}

/// A group post joined with its author's name.
#[derive(Clone, Debug)]
pub struct GroupPostWithUser {
    pub id: i64,
    pub group_id: i64,
    pub user_id: i64,
    pub username: String,
    pub display_name: String,
    pub content: String,
    pub likes_count: i64,
    pub created_at: String,
}

/// `row` is the group post written with these fields at time `now`.
pub open spec fn is_new_group_post(row: GroupPost, id: i64, group_id: i64, user_id: i64, content: Seq<char>, now: String) -> bool {
    &&& row.id == id
    &&& row.group_id == group_id
    &&& row.user_id == user_id
    &&& row.content@ == content
    &&& row.likes_count == 0
    &&& row.created_at == now
}

/// What posting in a group does, and what comes back.
pub open spec fn group_post_added(
    old_db: DbView,
    new_db: DbView,
    r: Result<GroupPost, ModelError>,
    group_id: i64,
    user_id: i64,
    content: Seq<char>,
) -> bool {
    &&& (!member(old_db, group_id, user_id) ==> r == Err::<GroupPost, ModelError>(
            ModelError::NotGroupMember,
        ) && new_db == old_db)
    &&& (member(old_db, group_id, user_id) && old_db.next_group_post_id == i64::MAX ==> r
            == Err::<GroupPost, ModelError>(ModelError::TableFull) && new_db == old_db)
    &&& (member(old_db, group_id, user_id) && old_db.next_group_post_id < i64::MAX ==> {
            &&& new_db == (DbView {
                group_posts: new_db.group_posts,
                next_group_post_id: (old_db.next_group_post_id + 1) as i64,
                ..old_db
            })
            &&& new_db.group_posts.len() == old_db.group_posts.len() + 1
            &&& new_db.group_posts.drop_last() == old_db.group_posts
            &&& is_new_group_post(
                new_db.group_posts.last(),
                old_db.next_group_post_id,
                group_id,
                user_id,
                content,
                old_db.now,
            )
            &&& r == Ok::<GroupPost, ModelError>(new_db.group_posts.last())
        })
}

/// Posts in the group; refused unless the user is a member. Gives back the post.
pub fn add(db: &mut Database, group_id: i64, user_id: i64, content: &str) -> (r: Result<GroupPost, ModelError>)
    requires
        old(db).wf(),
    ensures
        final(db).wf(),
        group_post_added(old(db)@, final(db)@, r, group_id, user_id, content@),
{
    let ghost old_db = db@;
    if !is_member(db, group_id, user_id) {
        return Err(ModelError::NotGroupMember);
    }
    if db.next_group_post_id == i64::MAX {
        return Err(ModelError::TableFull);
    }
    let id = db.next_group_post_id;
    let row = GroupPost {
        id,
        group_id,
        user_id,
        content: content.to_owned(),
        likes_count: 0,
        created_at: db.now.clone(),
    };
    let result = row.dup();
    proof {
        lemma_push_ok(db.group_posts@, id, row);
    }
    db.group_posts.push(row);
    db.next_group_post_id = id + 1;
    assert(db@.group_posts.drop_last() =~= old_db.group_posts);
    Ok(result)
}

/// The group post with this id, if there is one.
pub fn get(db: &Database, id: i64) -> (r: Option<GroupPost>)
    ensures
        r == lookup(db@.group_posts, id),
{
    match get_by_key(&db.group_posts, id) {
        Some(p) => Some(p.dup()),
        None => None,
    }
}

/// A post of the group, joined with its author's name.
pub open spec fn post_in_group(users: Seq<UserRow>, group_id: i64) -> spec_fn(GroupPost) -> Option<GroupPostWithUser> {
    |p: GroupPost|
        if p.group_id == group_id {
            match lookup(users, p.user_id) {
                Some(u) => Some(
                    GroupPostWithUser {
                        id: p.id,
                        group_id: p.group_id,
                        user_id: p.user_id,
                        username: u.username,
                        display_name: u.display_name,
                        content: p.content,
                        likes_count: p.likes_count,
                        created_at: p.created_at,
                    },
                ),
                None => None,
            }
        } else {
            None
        }
}

fn post_entry(users: &Vec<UserRow>, p: &GroupPost, group_id: i64) -> (r: Option<GroupPostWithUser>)
    ensures
        r == post_in_group(users@, group_id)(*p),
{
    if p.group_id != group_id {
        return None;
    }
    match get_by_key(users, p.user_id) {
        Some(u) => Some(
            GroupPostWithUser {
                id: p.id,
                group_id: p.group_id,
                user_id: p.user_id,
                username: u.username.clone(),
                display_name: u.display_name.clone(),
                content: p.content.clone(),
                likes_count: p.likes_count,
                created_at: p.created_at.clone(),
            },
        ),
        None => None,
    }
}

/// The group's posts, latest stamped first (posts stamped alike: the latest made first).
pub fn list(db: &Database, group_id: i64) -> (r: Vec<GroupPostWithUser>)
    ensures
        r@ == newest_first(by_stamp(db@.group_posts, false), post_in_group(db@.users, group_id)),
{
    let ghost users = db@.users;
    let sorted = rows_by_stamp(&db.group_posts);
    collect_newest(
        &sorted,
        |p: &GroupPost| -> (r: Option<GroupPostWithUser>) ensures r == post_in_group(users, group_id)(*p) { post_entry(&db.users, p, group_id) },
        Ghost(post_in_group(users, group_id)),
    )
}

/// Every group post has its group (deleting a post whose group is gone fails).
pub open spec fn post_has_group(db: DbView, post_id: i64) -> bool {
    match lookup(db.group_posts, post_id) {
        Some(p) => lookup(db.groups, p.group_id) is Some,
        None => true,
    }
}

/// Any group post but the one with this id.
pub open spec fn other_group_post(id: i64) -> spec_fn(GroupPost) -> bool {
    |p: GroupPost| p.id != id
}

/// What deleting a group post does, and what comes back.
pub open spec fn group_post_deleted(
    old_db: DbView,
    new_db: DbView,
    r: Result<bool, ModelError>,
    post_id: i64,
    user_id: i64,
) -> bool {
    &&& (match lookup(old_db.group_posts, post_id) {
            None => r == Ok::<bool, ModelError>(false) && new_db == old_db,
            Some(p) => if p.user_id != user_id && lookup(old_db.groups, p.group_id).unwrap().owner_id != user_id {
                r == Err::<bool, ModelError>(ModelError::NotAuthorOrOwner) && new_db == old_db
            } else {
                r == Ok::<bool, ModelError>(true) && new_db == (DbView {
                    group_posts: retained(old_db.group_posts, other_group_post(post_id)),
                    ..old_db
                })
            },
        })
}

/// Deletes the group post; refused unless the user wrote it or owns the group;
/// false when no group post has this id.
pub fn delete(db: &mut Database, post_id: i64, user_id: i64) -> (r: Result<bool, ModelError>)
    requires
        old(db).wf(),
        post_has_group(old(db)@, post_id),
    ensures
        final(db).wf(),
        group_post_deleted(old(db)@, final(db)@, r, post_id, user_id),
{
    let (author, gid) = match get_by_key(&db.group_posts, post_id) {
        Some(p) => (p.user_id, p.group_id),
        None => return Ok(false),
    };
    let owner = match get_by_key(&db.groups, gid) {
        Some(g) => g.owner_id,
        None => return Ok(false),
    };
    if author != user_id && owner != user_id {
        return Err(ModelError::NotAuthorOrOwner);
    }
    proof {
        lemma_retained_ok(db.group_posts@, db.next_group_post_id, other_group_post(post_id));
    }
    retain_rows(
        &mut db.group_posts,
        |p: &GroupPost| -> (b: bool) ensures b == other_group_post(post_id)(*p) { p.id != post_id },
        Ghost(other_group_post(post_id)),
    );
    Ok(true)
}

/// Tells whether deleting the group post can go ahead without a missing group.
pub fn group_post_has_group(db: &Database, post_id: i64) -> (r: bool)
    ensures
        r == post_has_group(db@, post_id),
{
    match get_by_key(&db.group_posts, post_id) {
        Some(p) => get_by_key(&db.groups, p.group_id).is_some(),
        None => true,
    }
}

/// Once a group post is deleted, no group post has its id.
pub proof fn law_group_post_gone(posts: Seq<GroupPost>, id: i64)
    ensures
        lookup(retained(posts, other_group_post(id)), id) is None,
{
    let kept = retained(posts, other_group_post(id));
    crate::seqs::lemma_retained_sub(posts, other_group_post(id));
    crate::seqs::lemma_lookup_position(kept, id);
    assert forall|i: int| 0 <= i < kept.len() implies kept[i].id != id by {
        let j = choose|j: int| 0 <= j < posts.len() && posts[j] == #[trigger] kept[i] && other_group_post(id)(posts[j]);
    }
}

/// Every post listed for a group was posted in that group.
pub proof fn law_group_posts_are_the_groups(db: DbView, group_id: i64)
    ensures
        forall|k: int| 0 <= k < newest_first(by_stamp(db.group_posts, false), post_in_group(db.users, group_id)).len() ==> {
            let x = #[trigger] newest_first(by_stamp(db.group_posts, false), post_in_group(db.users, group_id))[k];
            x.group_id == group_id
        },
{
    crate::seqs::lemma_newest_first_origin(by_stamp(db.group_posts, false), post_in_group(db.users, group_id));
    assert forall|k: int| 0 <= k < newest_first(by_stamp(db.group_posts, false), post_in_group(db.users, group_id)).len() implies {
        let x = #[trigger] newest_first(by_stamp(db.group_posts, false), post_in_group(db.users, group_id))[k];
        x.group_id == group_id
    } by {
        let b = by_stamp(db.group_posts, false);
        let a = choose|a: int| 0 <= a < b.len() && post_in_group(db.users, group_id)(b[a]) == Some(newest_first(by_stamp(db.group_posts, false), post_in_group(db.users, group_id))[k]);
        
    }
}

} // verus!
