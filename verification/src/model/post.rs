use vstd::prelude::*;
use crate::db::{Database, DbView, UserRow};
use crate::error::ModelError;
use crate::model::follow::{Follow, is_follow};
use crate::seqs::{Stamped, by_stamp, rows_by_stamp, 
    Row, any_row, collect_newest, collect_oldest, exists_where, get_by_key, lemma_lookup_position,
    lemma_push_ok, lemma_retained_ok, lemma_update_ok, lookup, newest_first, page, position,
    retain_rows, retained, take_page, find_by_key,
};

verus! {

/// A post, or a reply when `parent_id` names the post it answers.
#[derive(Clone, Debug)]
pub struct Post {
    pub id: i64,
    pub user_id: i64,
    pub content: String,
    pub parent_id: Option<i64>,
    pub likes_count: i64,
    pub replies_count: i64,
    pub created_at: String,
    pub updated_at: String,
}

impl Stamped for Post {
    open spec fn stamp(&self) -> Seq<char> {
        self.created_at@
    }

    fn stamp_text(&self) -> (r: &str) {
        self.created_at.as_str()
    }
}

impl Row for Post {
    open spec fn key(&self) -> i64 {
        self.id
    }

    fn row_key(&self) -> (r: i64) {
        self.id
    }

    fn dup(&self) -> (r: Self) {
        Post {
            id: self.id,
            user_id: self.user_id,
            content: self.content.clone(),
            parent_id: self.parent_id,
            likes_count: self.likes_count,
            replies_count: self.replies_count,
            created_at: self.created_at.clone(),
            updated_at: self.updated_at.clone(),
        }
    }
}

/// A post joined with its author's name.
#[derive(Clone, Debug)]
pub struct PostWithUser {
    pub id: i64,
    pub content: String,
    pub parent_id: Option<i64>,
    pub likes_count: i64,
    pub replies_count: i64,
    pub created_at: String,
    pub user_id: i64,
    pub username: String,
    pub display_name: String,
}

/// A post joined with its author's name.
pub open spec fn post_with_user(p: Post, u: UserRow) -> PostWithUser {
    PostWithUser {
        id: p.id,
        content: p.content,
        parent_id: p.parent_id,
        likes_count: p.likes_count,
        replies_count: p.replies_count,
        created_at: p.created_at,
        user_id: u.id,
        username: u.username,
        display_name: u.display_name,
    }
}

/// The post joined with its author, when the author's account exists.
pub open spec fn joined(users: Seq<UserRow>, p: Post) -> Option<PostWithUser> {
    match lookup(users, p.user_id) {
        Some(u) => Some(post_with_user(p, u)),
        None => None,
    }
}

pub fn join_user(users: &Vec<UserRow>, p: &Post) -> (r: Option<PostWithUser>)
    ensures
        r == joined(users@, *p),
{
    match get_by_key(users, p.user_id) {
        Some(u) => Some(
            PostWithUser {
                id: p.id,
                content: p.content.clone(),
                parent_id: p.parent_id,
                likes_count: p.likes_count,
                replies_count: p.replies_count,
                created_at: p.created_at.clone(),
                user_id: u.id,
                username: u.username.clone(),
                display_name: u.display_name.clone(),
            },
        ),
        None => None,
    }
}

/// `row` is the post created from these fields at time `now`.
pub open spec fn is_new_post(
    row: Post,
    id: i64,
    user_id: i64,
    content: Seq<char>,
    parent_id: Option<i64>,
    now: String,
) -> bool {
    &&& row.id == id
    &&& row.user_id == user_id
    &&& row.content@ == content
    &&& row.parent_id == parent_id
    &&& row.likes_count == 0
    &&& row.replies_count == 0
    &&& row.created_at == now
    &&& row.updated_at == now
}

/// The posts after a reply to `parent_id`: the parent, when it exists, counts one
/// reply more.
pub open spec fn with_reply_counted(posts: Seq<Post>, parent_id: Option<i64>) -> Seq<Post> {
    match parent_id {
        Some(pid) => match lookup(posts, pid) {
            Some(p) => posts.update(
                position(posts, pid),
                Post { replies_count: (p.replies_count + 1) as i64, ..p },
            ),
            None => posts,
        },
        None => posts,
    }
}

/// The reply cannot be counted: the parent's count is at its maximum.
pub open spec fn reply_count_full(posts: Seq<Post>, parent_id: Option<i64>) -> bool {
    match parent_id {
        Some(pid) => match lookup(posts, pid) {
            Some(p) => p.replies_count == i64::MAX,
            None => false,
        },
        None => false,
    }
}

/// What creating a post does, and what comes back.
pub open spec fn post_created(
    old_db: DbView,
    new_db: DbView,
    r: Result<i64, ModelError>,
    user_id: i64,
    content: Seq<char>,
    parent_id: Option<i64>,
) -> bool {
    &&& (old_db.next_post_id == i64::MAX ==> r == Err::<i64, ModelError>(ModelError::TableFull)
            && new_db == old_db)
    &&& (old_db.next_post_id < i64::MAX && reply_count_full(old_db.posts, parent_id) ==> r
            == Err::<i64, ModelError>(ModelError::Overflow) && new_db == old_db)
    &&& (old_db.next_post_id < i64::MAX && !reply_count_full(old_db.posts, parent_id) ==> {
            &&& r == Ok::<i64, ModelError>(old_db.next_post_id)
            &&& new_db == (DbView {
                posts: new_db.posts,
                next_post_id: (old_db.next_post_id + 1) as i64,
                ..old_db
            })
            &&& new_db.posts.len() == old_db.posts.len() + 1
            &&& new_db.posts.drop_last() == with_reply_counted(old_db.posts, parent_id)
            &&& is_new_post(
                new_db.posts.last(),
                old_db.next_post_id,
                user_id,
                content,
                parent_id,
                old_db.now,
            )
        })
}

/// Publishes a post, or a reply when `parent_id` names a post; the parent then
/// counts one reply more. Gives back the new post's id.
pub fn create_post(db: &mut Database, user_id: i64, content: &str, parent_id: Option<i64>) -> (r:
    Result<i64, ModelError>)
    requires
        old(db).wf(),
    ensures
        final(db).wf(),
        post_created(old(db)@, final(db)@, r, user_id, content@, parent_id),
{
    let ghost old_db = db@;
    if db.next_post_id == i64::MAX {
        return Err(ModelError::TableFull);
    }
    let parent_index = match parent_id {
        Some(pid) => {
            proof {
                lemma_lookup_position(db.posts@, pid);
            }
            find_by_key(&db.posts, pid)
        },
        None => None,
    };
    match parent_index {
        Some(k) => {
            if db.posts[k].replies_count == i64::MAX {
                return Err(ModelError::Overflow);
            }
            let mut p = db.posts[k].dup();
            p.replies_count = p.replies_count + 1;
            proof {
                lemma_update_ok(db.posts@, db.next_post_id, k as int, p);
            }
            db.posts.set(k, p);
        },
        None => {},
    }
    let id = db.next_post_id;
    let row = Post {
        id,
        user_id,
        content: content.to_owned(),
        parent_id,
        likes_count: 0,
        replies_count: 0,
        created_at: db.now.clone(),
        updated_at: db.now.clone(),
    };
    proof {
        lemma_push_ok(db.posts@, id, row);
    }
    db.posts.push(row);
    db.next_post_id = id + 1;
    assert(db@.posts.drop_last() =~= with_reply_counted(old_db.posts, parent_id));
    Ok(id)
}

/// A top-level post, by `user_id` when one is given, joined with its author.
pub open spec fn top_level_of(users: Seq<UserRow>, user_id: Option<i64>) -> spec_fn(Post) -> Option<PostWithUser> {
    |p: Post|
        if p.parent_id is None && (match user_id {
            Some(u) => p.user_id == u,
            None => true,
        }) {
            joined(users, p)
        } else {
            None
        }
}

/// Top-level posts (by `user_id` when given), latest stamped first (posts stamped
/// alike: the latest made first), one page of them.
pub fn list_posts(db: &Database, user_id: Option<i64>, limit: i64, offset: i64) -> (r: Vec<PostWithUser>)
    ensures
        r@ == page(newest_first(by_stamp(db@.posts, false), top_level_of(db@.users, user_id)), limit, offset),
{
    let ghost users = db@.users;
    let sorted = rows_by_stamp(&db.posts);
    let all = collect_newest(
        &sorted,
        |p: &Post| -> (r: Option<PostWithUser>) ensures r == top_level_of(users, user_id)(*p) { if p.parent_id.is_none() && (match user_id { Some(u) => p.user_id == u, None => true }) { join_user(&db.users, p) } else { None } },
        Ghost(top_level_of(users, user_id)),
    );
    take_page(all, limit, offset)
}

/// A reply to `post_id`, joined with its author.
pub open spec fn reply_of(users: Seq<UserRow>, post_id: i64) -> spec_fn(Post) -> Option<PostWithUser> {
    |p: Post|
        if p.parent_id == Some(post_id) {
            joined(users, p)
        } else {
            None
        }
}

/// The replies to the post, by stamp, the earliest stamped first (rows stamped alike: the earliest made first).
pub fn list_replies(db: &Database, post_id: i64) -> (r: Vec<PostWithUser>)
    ensures
        r@ == by_stamp(db@.posts, false).filter_map(reply_of(db@.users, post_id)),
{
    let ghost users = db@.users;
    let sorted = rows_by_stamp(&db.posts);
    collect_oldest(
        &sorted,
        |p: &Post| -> (r: Option<PostWithUser>) ensures r == reply_of(users, post_id)(*p) { if p.parent_id == Some(post_id) { join_user(&db.users, p) } else { None } },
        Ghost(reply_of(users, post_id)),
    )
}

/// The post with this id joined with its author, when both exist.
pub open spec fn post_by_id(db: DbView, id: i64) -> Option<PostWithUser> {
    match lookup(db.posts, id) {
        Some(p) => joined(db.users, p),
        None => None,
    }
}

pub fn get_post(db: &Database, id: i64) -> (r: Option<PostWithUser>)
    ensures
        r == post_by_id(db@, id),
{
    match get_by_key(&db.posts, id) {
        Some(p) => join_user(&db.users, p),
        None => None,
    }
}

/// Any post but the one with this id.
pub open spec fn other_post(id: i64) -> spec_fn(Post) -> bool {
    |p: Post| p.id != id
}

/// What deleting a post does, and what comes back.
pub open spec fn post_deleted(
    old_db: DbView,
    new_db: DbView,
    r: bool,
    id: i64,
) -> bool {
    &&& (r == (lookup(old_db.posts, id) is Some))
    &&& (new_db == (DbView { posts: retained(old_db.posts, other_post(id)), ..old_db }))
}

/// Deletes the post; false when no post has this id.
pub fn delete_post(db: &mut Database, id: i64) -> (r: bool)
    requires
        old(db).wf(),
    ensures
        final(db).wf(),
        post_deleted(old(db)@, final(db)@, r, id),
{
    proof {
        lemma_lookup_position(db@.posts, id);
        lemma_retained_ok(db.posts@, db.next_post_id, other_post(id));
    }
    retain_rows(
        &mut db.posts,
        |p: &Post| -> (b: bool) ensures b == other_post(id)(*p) { p.id != id },
        Ghost(other_post(id)),
    )
}

/// A top-level post by the user or by someone the user follows, joined with its author.
pub open spec fn timeline_of(users: Seq<UserRow>, follows: Seq<Follow>, user_id: i64) -> spec_fn(Post) -> Option<PostWithUser> {
    |p: Post|
        if p.parent_id is None && (p.user_id == user_id || exists_where(
            follows,
            is_follow(user_id, p.user_id),
        )) {
            joined(users, p)
        } else {
            None
        }
}

fn follows_exec(follows: &Vec<Follow>, follower_id: i64, followee_id: i64) -> (r: bool)
    ensures
        r == exists_where(follows@, is_follow(follower_id, followee_id)),
{
    any_row(
        follows,
        |f: &Follow| -> (b: bool) ensures b == is_follow(follower_id, followee_id)(*f) { f.follower_id == follower_id && f.followee_id == followee_id },
        Ghost(is_follow(follower_id, followee_id)),
    )
}

/// The user's timeline: top-level posts by the user and by those the user follows,
/// latest stamped first (posts stamped alike: the latest made first), one page of them.
pub fn get_timeline(db: &Database, user_id: i64, limit: i64, offset: i64) -> (r: Vec<PostWithUser>)
    ensures
        r@ == page(timeline(db@, user_id), limit, offset),
{
    let ghost users = db@.users;
    let ghost follows = db@.follows;
    let sorted = rows_by_stamp(&db.posts);
    let all = collect_newest(
        &sorted,
        |p: &Post| -> (r: Option<PostWithUser>) ensures r == timeline_of(users, follows, user_id)(*p) { if p.parent_id.is_none() && (p.user_id == user_id || follows_exec(&db.follows, user_id, p.user_id)) { join_user(&db.users, p) } else { None } },
        Ghost(timeline_of(users, follows, user_id)),
    );
    take_page(all, limit, offset)
}

/// Once a post is deleted, no post has its id.
pub proof fn law_delete_post_gone(posts: Seq<Post>, id: i64)
    ensures
        lookup(retained(posts, other_post(id)), id) is None,
{
    let kept = retained(posts, other_post(id));
    crate::seqs::lemma_retained_sub(posts, other_post(id));
    crate::seqs::lemma_lookup_position(kept, id);
    assert forall|i: int| 0 <= i < kept.len() implies kept[i].key() != id by {
        let j = choose|j: int| 0 <= j < posts.len() && posts[j] == #[trigger] kept[i] && other_post(id)(posts[j]);
    }
}

/// The replies counted on the post, if the post exists.
pub open spec fn replies_count_of(posts: Seq<Post>, post_id: i64) -> Option<i64> {
    match lookup(posts, post_id) {
        Some(p) => Some(p.replies_count),
        None => None,
    }
}

/// A reply that was created counts once on its parent, when the parent exists; the
/// new post itself is found under the id that came back.
pub proof fn law_reply_counted(
    old_db: DbView,
    new_db: DbView,
    r: Result<i64, ModelError>,
    user_id: i64,
    content: Seq<char>,
    parent_id: i64,
)
    requires
        old_db.wf(),
        post_created(old_db, new_db, r, user_id, content, Some(parent_id)),
        r is Ok,
    ensures
        replies_count_of(old_db.posts, parent_id) matches Some(n) ==> replies_count_of(new_db.posts, parent_id)
            == Some((n + 1) as i64),
        lookup(new_db.posts, r->Ok_0) == Some(new_db.posts.last()),
{
    let posts = old_db.posts;
    crate::seqs::lemma_lookup_position(posts, parent_id);
    let counted = with_reply_counted(posts, Some(parent_id));
    let row = new_db.posts.last();
    assert(new_db.posts =~= counted.push(row));
    if lookup(posts, parent_id) is Some {
        let k = position(posts, parent_id);
        assert(crate::seqs::keys_increasing(counted));
        crate::seqs::lemma_push_ok(counted, old_db.next_post_id, row);
        crate::seqs::lemma_lookup_unique(new_db.posts, k);
    } else {
        crate::seqs::lemma_push_ok(posts, old_db.next_post_id, row);
    }
    crate::seqs::lemma_lookup_unique(new_db.posts, new_db.posts.len() - 1);
}

/// The timeline of `user_id` before paging: its posts, latest stamped first.
pub open spec fn timeline(db: DbView, user_id: i64) -> Seq<PostWithUser> {
    newest_first(by_stamp(db.posts, false), timeline_of(db.users, db.follows, user_id))
}

/// Some follow has `follower_id` following `followee_id`.
pub open spec fn has_follow(follows: Seq<Follow>, follower_id: i64, followee_id: i64) -> bool {
    exists|j: int| 0 <= j < follows.len() && (#[trigger] follows[j]).follower_id == follower_id
        && follows[j].followee_id == followee_id
}

/// A top-level post, whose author has an account, is in a user's timeline exactly
/// when the user wrote it or follows its author (a follow with the user as follower
/// and the author as followee); a follow the other way round does not bring it in.
pub proof fn law_timeline_shows_followed(db: DbView, user_id: i64, i: int)
    requires
        db.wf(),
        0 <= i < db.posts.len(),
        db.posts[i].parent_id is None,
        lookup(db.users, db.posts[i].user_id) is Some,
    ensures
        (exists|k: int| 0 <= k < timeline(db, user_id).len() && (#[trigger] timeline(db, user_id)[k]).id == db.posts[i].id)
            <==> (db.posts[i].user_id == user_id || has_follow(db.follows, user_id, db.posts[i].user_id)),
{
    let f = timeline_of(db.users, db.follows, user_id);
    let p = db.posts[i];
    let l = timeline(db, user_id);
    if p.user_id == user_id || has_follow(db.follows, user_id, p.user_id) {
        if p.user_id != user_id {
            let j = choose|j: int| 0 <= j < db.follows.len() && (#[trigger] db.follows[j]).follower_id == user_id
                && db.follows[j].followee_id == p.user_id;
            assert(is_follow(user_id, p.user_id)(db.follows[j]));
        }
        crate::seqs::lemma_listed_by_stamp(db.posts, f, i);
        let k = choose|k: int| 0 <= k < l.len() && l[k] == f(p)->Some_0;
        assert(l[k].id == p.id);
    }
    if exists|k: int| 0 <= k < l.len() && (#[trigger] l[k]).id == p.id {
        let k = choose|k: int| 0 <= k < l.len() && (#[trigger] l[k]).id == p.id;
        crate::seqs::lemma_listed_by_stamp_origin(db.posts, f);
        let a = choose|a: int| 0 <= a < db.posts.len() && f(db.posts[a]) == Some(l[k]);
        assert(db.posts[a].id == p.id);
        assert(a == i);
        if p.user_id != user_id {
            let j = choose|j: int| 0 <= j < db.follows.len() && #[trigger] is_follow(user_id, p.user_id)(db.follows[j]);
            assert(db.follows[j].follower_id == user_id);
        }
    }
}

/// Every post in a user's timeline is top level, and written by the user or by
/// someone the user follows.
pub proof fn law_timeline_only_followed(db: DbView, user_id: i64)
    requires
        db.wf(),
    ensures
        forall|k: int|
            0 <= k < timeline(db, user_id).len() ==> (#[trigger] timeline(db, user_id)[k]).parent_id is None && (
            timeline(db, user_id)[k].user_id == user_id || has_follow(db.follows, user_id, timeline(db, user_id)[k].user_id)),
{
    let f = timeline_of(db.users, db.follows, user_id);
    let l = timeline(db, user_id);
    crate::seqs::lemma_listed_by_stamp_origin(db.posts, f);
    assert forall|k: int| 0 <= k < l.len() implies (#[trigger] l[k]).parent_id is None && (l[k].user_id == user_id
        || has_follow(db.follows, user_id, l[k].user_id)) by {
        let a = choose|a: int| 0 <= a < db.posts.len() && f(db.posts[a]) == Some(l[k]);
        let p = db.posts[a];
        lemma_lookup_position(db.users, p.user_id);
        assert(l[k].user_id == p.user_id);
        if p.user_id != user_id {
            let j = choose|j: int| 0 <= j < db.follows.len() && #[trigger] is_follow(user_id, p.user_id)(db.follows[j]);
            assert(db.follows[j].follower_id == user_id);
        }
    }
}

/// Every post listed is top level, and written by the author asked for when one is.
pub proof fn law_post_listing_filters(db: DbView, user_id: Option<i64>)
    ensures
        forall|k: int| 0 <= k < newest_first(by_stamp(db.posts, false), top_level_of(db.users, user_id)).len() ==> {
            let x = #[trigger] newest_first(by_stamp(db.posts, false), top_level_of(db.users, user_id))[k];
            x.parent_id is None && (user_id matches Some(u) ==> x.user_id == u)
        },
{
    crate::seqs::lemma_newest_first_origin(by_stamp(db.posts, false), top_level_of(db.users, user_id));
    assert forall|k: int| 0 <= k < newest_first(by_stamp(db.posts, false), top_level_of(db.users, user_id)).len() implies {
        let x = #[trigger] newest_first(by_stamp(db.posts, false), top_level_of(db.users, user_id))[k];
        x.parent_id is None && (user_id matches Some(u) ==> x.user_id == u)
    } by {
        let b = by_stamp(db.posts, false);
        let a = choose|a: int| 0 <= a < b.len() && top_level_of(db.users, user_id)(b[a]) == Some(newest_first(by_stamp(db.posts, false), top_level_of(db.users, user_id))[k]);
        lemma_lookup_position(db.users, b[a].user_id);
    }
}
/// Every reply listed for a post answers that post.
pub proof fn law_replies_answer_the_post(db: DbView, post_id: i64)
    ensures
        forall|k: int| 0 <= k < by_stamp(db.posts, false).filter_map(reply_of(db.users, post_id)).len() ==> {
            let x = #[trigger] by_stamp(db.posts, false).filter_map(reply_of(db.users, post_id))[k];
            x.parent_id == Some(post_id)
        },
{
    crate::seqs::lemma_filter_map_origin(by_stamp(db.posts, false), reply_of(db.users, post_id));
    assert forall|k: int| 0 <= k < by_stamp(db.posts, false).filter_map(reply_of(db.users, post_id)).len() implies {
        let x = #[trigger] by_stamp(db.posts, false).filter_map(reply_of(db.users, post_id))[k];
        x.parent_id == Some(post_id)
    } by {
        let b = by_stamp(db.posts, false);
        let a = choose|a: int| 0 <= a < b.len() && reply_of(db.users, post_id)(b[a]) == Some(by_stamp(db.posts, false).filter_map(reply_of(db.users, post_id))[k]);
        
    }
}

} // verus!
