use vstd::prelude::*;
use crate::db::{Database, DbView, like_rel};
use crate::error::ModelError;
use crate::model::post::Post;
use crate::seqs::{
    Row, any_row, exists_where, find_by_key, lemma_lookup_position, lemma_push_ok,
    lemma_push_pairwise, lemma_retained_ok, lemma_retained_pairwise, lemma_update_ok, lookup,
    position, retain_rows, retained, keys_increasing, lemma_lookup_unique, lemma_push_exists,
    lemma_retained_excludes, count_where, lemma_count_push, lemma_count_retained, lemma_count_none,
    lemma_count_one,
};

verus! {

/// A user liking a post.
#[derive(Clone, Debug)]
pub struct Like {
    pub id: i64,
    pub user_id: i64,
    pub post_id: i64,
    pub created_at: String,
}

impl Row for Like {
    open spec fn key(&self) -> i64 {
        self.id
    }

    fn row_key(&self) -> (r: i64) {
        self.id
    }

    fn dup(&self) -> (r: Self) {
        Like {
            id: self.id,
            user_id: self.user_id,
            post_id: self.post_id,
            created_at: self.created_at.clone(),
        }
    }
}

/// The like of `post_id` by `user_id`.
pub open spec fn is_like(user_id: i64, post_id: i64) -> spec_fn(Like) -> bool {
    |l: Like| l.user_id == user_id && l.post_id == post_id
}

/// Any row but the like of `post_id` by `user_id`.
pub open spec fn not_like(user_id: i64, post_id: i64) -> spec_fn(Like) -> bool {
    |l: Like| !(l.user_id == user_id && l.post_id == post_id)
}

/// `user_id` likes `post_id`.
pub open spec fn likes(db: DbView, user_id: i64, post_id: i64) -> bool {
    exists_where(db.likes, is_like(user_id, post_id))
}

/// The posts after the post's like count changed by `delta`, when the post exists.
pub open spec fn with_likes_count(posts: Seq<Post>, post_id: i64, count: spec_fn(i64) -> i64) -> Seq<Post> {
    match lookup(posts, post_id) {
        Some(p) => posts.update(position(posts, post_id), Post { likes_count: count(p.likes_count), ..p }),
        None => posts,
    }
}

/// One more like.
pub open spec fn plus_one() -> spec_fn(i64) -> i64 {
    |n: i64| (n + 1) as i64
}

/// One like fewer, never below zero.
pub open spec fn minus_one() -> spec_fn(i64) -> i64 {
    |n: i64| if n > 0 { (n - 1) as i64 } else { 0 }
}

/// The post exists and its like count is at its maximum.
pub open spec fn like_count_full(posts: Seq<Post>, post_id: i64) -> bool {
    match lookup(posts, post_id) {
        Some(p) => p.likes_count == i64::MAX,
        None => false,
    }
}

/// What liking does: nothing changes when the user likes the post already;
/// otherwise the like is appended under the next id and counted on the post, unless
/// the ids are used up or the post's count is at its maximum.
pub open spec fn like_done(
    old_db: DbView,
    new_db: DbView,
    r: Result<bool, ModelError>,
    user_id: i64,
    post_id: i64,
) -> bool {
    if likes(old_db, user_id, post_id) {
        r == Ok::<bool, ModelError>(false) && new_db == old_db
    } else if old_db.next_like_id == i64::MAX {
        r == Err::<bool, ModelError>(ModelError::TableFull) && new_db == old_db
    } else if like_count_full(old_db.posts, post_id) {
        r == Err::<bool, ModelError>(ModelError::Overflow) && new_db == old_db
    } else {
        r == Ok::<bool, ModelError>(true) && new_db == (DbView {
            likes: old_db.likes.push(
                Like { id: old_db.next_like_id, user_id, post_id, created_at: old_db.now },
            ),
            next_like_id: (old_db.next_like_id + 1) as i64,
            posts: with_likes_count(old_db.posts, post_id, plus_one()),
            ..old_db
        })
    }
}

/// Records that the user likes the post, and counts the like on the post.
/// Ok(false), with nothing changed, when the user likes it already.
pub fn like_post(db: &mut Database, user_id: i64, post_id: i64) -> (r: Result<bool, ModelError>)
    requires
        old(db).wf(),
    ensures
        final(db).wf(),
        like_done(old(db)@, final(db)@, r, user_id, post_id),
{
    let ghost old_db = db@;
    let exists = any_row(
        &db.likes,
        |l: &Like| -> (b: bool) ensures b == is_like(user_id, post_id)(*l) { l.user_id == user_id && l.post_id == post_id },
        Ghost(is_like(user_id, post_id)),
    );
    if exists {
        return Ok(false);
    }
    if db.next_like_id == i64::MAX {
        return Err(ModelError::TableFull);
    }
    proof {
        lemma_lookup_position(db.posts@, post_id);
    }
    let k = find_by_key(&db.posts, post_id);
    match k {
        Some(k) => {
            if db.posts[k].likes_count == i64::MAX {
                return Err(ModelError::Overflow);
            }
            let mut p = db.posts[k].dup();
            p.likes_count = p.likes_count + 1;
            proof {
                lemma_update_ok(db.posts@, db.next_post_id, k as int, p);
            }
            db.posts.set(k, p);
        },
        None => {},
    }
    let id = db.next_like_id;
    let row = Like { id, user_id, post_id, created_at: db.now.clone() };
    proof {
        lemma_push_ok(db.likes@, id, row);
        assert forall|i: int| 0 <= i < db.likes@.len() implies #[trigger] like_rel()(db.likes@[i], row) by {
            if !like_rel()(db.likes@[i], row) {
                assert(is_like(user_id, post_id)(db.likes@[i]));
            }
        }
        lemma_push_pairwise(db.likes@, row, like_rel());
    }
    db.likes.push(row);
    db.next_like_id = id + 1;
    assert(db@.posts =~= with_likes_count(old_db.posts, post_id, plus_one()));
    Ok(true)
}

/// What withdrawing a like does, and what comes back.
pub open spec fn like_withdrawn(
    old_db: DbView,
    new_db: DbView,
    r: bool,
    user_id: i64,
    post_id: i64,
) -> bool {
    &&& (r == likes(old_db, user_id, post_id))
    &&& (!r ==> new_db == old_db)
    &&& (r ==> new_db == (DbView {
            likes: retained(old_db.likes, not_like(user_id, post_id)),
            posts: with_likes_count(old_db.posts, post_id, minus_one()),
            ..old_db
        }))
}

/// Withdraws the like and uncounts it on the post (never below zero); false when
/// the user did not like the post.
pub fn unlike_post(db: &mut Database, user_id: i64, post_id: i64) -> (r: bool)
    requires
        old(db).wf(),
    ensures
        final(db).wf(),
        like_withdrawn(old(db)@, final(db)@, r, user_id, post_id),
{
    let ghost old_db = db@;
    let exists = any_row(
        &db.likes,
        |l: &Like| -> (b: bool) ensures b == is_like(user_id, post_id)(*l) { l.user_id == user_id && l.post_id == post_id },
        Ghost(is_like(user_id, post_id)),
    );
    if !exists {
        return false;
    }
    proof {
        lemma_retained_ok(db.likes@, db.next_like_id, not_like(user_id, post_id));
        lemma_retained_pairwise(db.likes@, not_like(user_id, post_id), like_rel());
    }
    retain_rows(
        &mut db.likes,
        |l: &Like| -> (b: bool) ensures b == not_like(user_id, post_id)(*l) { !(l.user_id == user_id && l.post_id == post_id) },
        Ghost(not_like(user_id, post_id)),
    );
    proof {
        lemma_lookup_position(db.posts@, post_id);
    }
    match find_by_key(&db.posts, post_id) {
        Some(k) => {
            let mut p = db.posts[k].dup();
            p.likes_count = if p.likes_count > 0 { p.likes_count - 1 } else { 0 };
            proof {
                lemma_update_ok(db.posts@, db.next_post_id, k as int, p);
            }
            db.posts.set(k, p);
        },
        None => {},
    }
    assert(db@.posts =~= with_likes_count(old_db.posts, post_id, minus_one()));
    true
}

/// Does the user like the post?
pub fn is_liked(db: &Database, user_id: i64, post_id: i64) -> (r: bool)
    ensures
        r == likes(db@, user_id, post_id),
{
    any_row(
        &db.likes,
        |l: &Like| -> (b: bool) ensures b == is_like(user_id, post_id)(*l) { l.user_id == user_id && l.post_id == post_id },
        Ghost(is_like(user_id, post_id)),
    )
}

/// The like count shown on the post, if the post exists.
pub open spec fn likes_count_of(posts: Seq<Post>, post_id: i64) -> Option<i64> {
    match lookup(posts, post_id) {
        Some(p) => Some(p.likes_count),
        None => None,
    }
}

/// Once liking succeeded, the user likes the post; a new like raises the post's
/// count by one.
pub proof fn law_like_holds(old_db: DbView, new_db: DbView, r: Result<bool, ModelError>, user_id: i64, post_id: i64)
    requires
        old_db.wf(),
        like_done(old_db, new_db, r, user_id, post_id),
        r is Ok,
    ensures
        likes(new_db, user_id, post_id),
        r == Ok::<bool, ModelError>(true) ==> match likes_count_of(old_db.posts, post_id) {
            Some(n) => likes_count_of(new_db.posts, post_id) == Some((n + 1) as i64),
            None => likes_count_of(new_db.posts, post_id) is None,
        },
{
    if !likes(old_db, user_id, post_id) {
        lemma_push_exists(old_db.likes, new_db.likes.last(), is_like(user_id, post_id));
        lemma_like_count_changed(old_db.posts, post_id, plus_one());
    }
}

/// Withdrawing a like ends it and lowers the post's count by one, never below zero.
pub proof fn law_unlike_ends(old_db: DbView, user_id: i64, post_id: i64)
    requires
        old_db.wf(),
    ensures
        !exists_where(retained(old_db.likes, not_like(user_id, post_id)), is_like(user_id, post_id)),
        match likes_count_of(old_db.posts, post_id) {
            Some(n) => likes_count_of(with_likes_count(old_db.posts, post_id, minus_one()), post_id)
                == Some(if n > 0 { (n - 1) as i64 } else { 0i64 }),
            None => likes_count_of(with_likes_count(old_db.posts, post_id, minus_one()), post_id) is None,
        },
{
    lemma_retained_excludes(old_db.likes, not_like(user_id, post_id), is_like(user_id, post_id));
    lemma_like_count_changed(old_db.posts, post_id, minus_one());
}

proof fn lemma_like_count_changed(posts: Seq<Post>, post_id: i64, count: spec_fn(i64) -> i64)
    requires
        keys_increasing(posts),
    ensures
        match lookup(posts, post_id) {
            Some(p) => likes_count_of(with_likes_count(posts, post_id, count), post_id) == Some(count(p.likes_count)),
            None => with_likes_count(posts, post_id, count) == posts,
        },
{
    lemma_lookup_position(posts, post_id);
    if lookup(posts, post_id) is Some {
        let k = position(posts, post_id);
        let p = posts[k];
        let np = Post { likes_count: count(p.likes_count), ..p };
        let after = posts.update(k, np);
        assert(keys_increasing(after));
        lemma_lookup_unique(after, k);
    }
}

/// A like of `post_id`, whoever likes it.
pub open spec fn like_of_post(post_id: i64) -> spec_fn(Like) -> bool {
    |l: Like| l.post_id == post_id
}

/// Every post's like count is the number of likes of it.
pub open spec fn like_counts_match(db: DbView) -> bool {
    forall|i: int|
        0 <= i < db.posts.len() ==> (#[trigger] db.posts[i]).likes_count == count_where(
            db.likes,
            like_of_post(db.posts[i].id),
        )
}

/// Liking keeps every post's like count equal to the number of its likes.
pub proof fn law_like_keeps_counts(old_db: DbView, new_db: DbView, r: Result<bool, ModelError>, user_id: i64, post_id: i64)
    requires
        old_db.wf(),
        like_counts_match(old_db),
        like_done(old_db, new_db, r, user_id, post_id),
    ensures
        like_counts_match(new_db),
{
    if new_db != old_db {
        let row = new_db.likes.last();
        assert(new_db.likes =~= old_db.likes.push(row));
        lemma_lookup_position(old_db.posts, post_id);
        assert forall|i: int| 0 <= i < new_db.posts.len() implies (#[trigger] new_db.posts[i]).likes_count
            == count_where(new_db.likes, like_of_post(new_db.posts[i].id)) by {
            let q = new_db.posts[i].id;
            lemma_count_push(old_db.likes, row, like_of_post(q));
            lemma_lookup_unique(old_db.posts, i);
            if lookup(old_db.posts, post_id) is Some {
                let k = position(old_db.posts, post_id);
                if i != k {
                    assert(new_db.posts[i] == old_db.posts[i]);
                }
            } else {
                assert(new_db.posts[i] == old_db.posts[i]);
                assert(old_db.posts[i].key() != post_id);
            }
        }
    }
}

/// Withdrawing a like keeps every post's like count equal to the number of its likes.
pub proof fn law_unlike_keeps_counts(old_db: DbView, new_db: DbView, r: bool, user_id: i64, post_id: i64)
    requires
        old_db.wf(),
        like_counts_match(old_db),
        like_withdrawn(old_db, new_db, r, user_id, post_id),
    ensures
        like_counts_match(new_db),
{
    if r {
        let s = old_db.likes;
        let keep = not_like(user_id, post_id);
        lemma_lookup_position(old_db.posts, post_id);
        assert forall|i: int| 0 <= i < new_db.posts.len() implies (#[trigger] new_db.posts[i]).likes_count
            == count_where(new_db.likes, like_of_post(new_db.posts[i].id)) by {
            let q = new_db.posts[i].id;
            let both = |l: Like| like_of_post(q)(l) && !keep(l);
            lemma_count_retained(s, keep, like_of_post(q), both);
            lemma_lookup_unique(old_db.posts, i);
            if q == post_id {
                let k = choose|k: int| 0 <= k < s.len() && #[trigger] is_like(user_id, post_id)(s[k]);
                assert(both(s[k]));
                assert forall|a: int, b: int| 0 <= a < b < s.len() implies !(#[trigger] both(s[a]) && #[trigger] both(s[b])) by {
                    assert(like_rel()(s[a], s[b]));
                }
                lemma_count_one(s, both);
                assert(old_db.posts[i].likes_count == count_where(s, like_of_post(q)));
            } else {
                assert forall|a: int| 0 <= a < s.len() implies !#[trigger] both(s[a]) by {}
                lemma_count_none(s, both);
                if lookup(old_db.posts, post_id) is Some {
                    assert(new_db.posts[i] == old_db.posts[i]);
                } else {
                    assert(new_db.posts[i] == old_db.posts[i]);
                }
            }
        }
    }
}

} // verus!
