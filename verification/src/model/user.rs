use vstd::prelude::*;
use crate::db::{Database, DbView, UserRow, username_rel};
use crate::error::ModelError;
use crate::model::follow::{Follow, follow_by, follow_of};
use crate::seqs::{
    count_rows, count_where, exists_where, find_by_key, lemma_last_where, lemma_lookup_position,
    lemma_push_ok, lemma_push_pairwise, lemma_update_pairwise, lemma_retained_ok, lemma_retained_pairwise,
    lemma_table_len, lemma_update_ok, lookup, position, retain_rows, retained, collect_oldest,
    any_row,
};
use crate::text::{containing, containing_pattern, dup_opt, like_match, str_eq, str_like};

verus! {

/// A user account as it is shown.
#[derive(Clone, Debug)]
pub struct User {
    pub id: i64,
    pub username: String,
    pub display_name: String,
    pub bio: Option<String>,
    pub avatar: Option<String>,
    pub created_at: String,
    pub updated_at: String,
}

/// A user account as it is shown.
pub open spec fn user_of(r: UserRow) -> User {
    User {
        id: r.id,
        username: r.username,
        display_name: r.display_name,
        bio: r.bio,
        avatar: r.avatar,
        created_at: r.created_at,
        updated_at: r.updated_at,
    }
}

/// The text an optional borrowed string holds.
pub open spec fn opt_str_view(o: Option<&str>) -> Option<Seq<char>> {
    match o {
        Some(s) => Some(s@),
        None => None,
    }
}

/// The text an optional stored string holds.
pub open spec fn opt_string_view(o: Option<String>) -> Option<Seq<char>> {
    match o {
        Some(s) => Some(s@),
        None => None,
    }
}

pub fn to_user(r: &UserRow) -> (u: User)
    ensures
        u == user_of(*r),
{
    User {
        id: r.id,
        username: r.username.clone(),
        display_name: r.display_name.clone(),
        bio: dup_opt(&r.bio),
        avatar: dup_opt(&r.avatar),
        created_at: r.created_at.clone(),
        updated_at: r.updated_at.clone(),
    }
}

pub fn owned_opt(o: Option<&str>) -> (r: Option<String>)
    ensures
        opt_string_view(r) == opt_str_view(o),
{
    match o {
        Some(s) => Some(s.to_owned()),
        None => None,
    }
}

/// Some account already has this username.
pub open spec fn username_taken(users: Seq<UserRow>, name: Seq<char>) -> bool {
    exists_where(users, has_username(name))
}

/// The account has this username.
pub open spec fn has_username(name: Seq<char>) -> spec_fn(UserRow) -> bool {
    |r: UserRow| r.username@ == name
}

/// `row` is the account created from these fields at time `now`.
pub open spec fn is_new_user(
    row: UserRow,
    id: i64,
    username: Seq<char>,
    display_name: Seq<char>,
    bio: Option<Seq<char>>,
    password_hash: Option<Seq<char>>,
    now: String,
) -> bool {
    &&& row.id == id
    &&& row.username@ == username
    &&& row.display_name@ == display_name
    &&& opt_string_view(row.bio) == bio
    &&& row.avatar is None
    &&& opt_string_view(row.password_hash) == password_hash
    &&& row.created_at == now
    &&& row.updated_at == now
}

/// What creating an account does to the store: refused when the username is taken
/// or the ids are used up; otherwise the account is appended under the next id.
pub open spec fn user_created(
    old_db: DbView,
    new_db: DbView,
    r: Result<i64, ModelError>,
    username: Seq<char>,
    display_name: Seq<char>,
    bio: Option<Seq<char>>,
    password_hash: Option<Seq<char>>,
) -> bool {
    if username_taken(old_db.users, username) {
        r == Err::<i64, ModelError>(ModelError::UsernameTaken) && new_db == old_db
    } else if old_db.next_user_id == i64::MAX {
        r == Err::<i64, ModelError>(ModelError::TableFull) && new_db == old_db
    } else {
        &&& r == Ok::<i64, ModelError>(old_db.next_user_id)
        &&& new_db == (DbView {
            users: new_db.users,
            next_user_id: (old_db.next_user_id + 1) as i64,
            ..old_db
        })
        &&& new_db.users.len() == old_db.users.len() + 1
        &&& new_db.users.drop_last() == old_db.users
        &&& is_new_user(
            new_db.users.last(),
            old_db.next_user_id,
            username,
            display_name,
            bio,
            password_hash,
            old_db.now,
        )
    }
}

/// Appends an account; the username must be free.
pub fn insert_user(
    db: &mut Database,
    username: &str,
    display_name: &str,
    bio: Option<&str>,
    password_hash: Option<String>,
) -> (r: Result<i64, ModelError>)
    requires
        old(db).wf(),
    ensures
        final(db).wf(),
        user_created(
            old(db)@,
            final(db)@,
            r,
            username@,
            display_name@,
            opt_str_view(bio),
            opt_string_view(password_hash),
        ),
{
    let ghost old_db = db@;
    let ghost pred = has_username(username@);
    let taken = any_row(
        &db.users,
        |r: &UserRow| -> (b: bool) ensures b == has_username(username@)(*r) { str_eq(r.username.as_str(), username) },
        Ghost(pred),
    );
    if taken {
        return Err(ModelError::UsernameTaken);
    }
    if db.next_user_id == i64::MAX {
        return Err(ModelError::TableFull);
    }
    let id = db.next_user_id;
    let row = UserRow {
        id,
        username: username.to_owned(),
        display_name: display_name.to_owned(),
        bio: owned_opt(bio),
        avatar: None,
        password_hash,
        created_at: db.now.clone(),
        updated_at: db.now.clone(),
    };
    proof {
        lemma_push_ok(db.users@, id, row);
        assert forall|i: int| 0 <= i < db.users@.len() implies #[trigger] username_rel()(db.users@[i], row) by {
            if db.users@[i].username@ == row.username@ {
                assert(pred(db.users@[i]));
            }
        }
        lemma_push_pairwise(db.users@, row, username_rel());
    }
    db.users.push(row);
    db.next_user_id = id + 1;
    assert(db@.users.drop_last() =~= old_db.users);
    assert(!username_taken(old_db.users, username@));
    assert(is_new_user(db@.users.last(), id, username@, display_name@, opt_str_view(bio), opt_string_view(db@.users.last().password_hash), old_db.now));
    assert(db@ == (DbView { users: db@.users, next_user_id: (old_db.next_user_id + 1) as i64, ..old_db }));
    Ok(id)
}

/// Creates an account without a password; gives back its id.
pub fn create_user(db: &mut Database, username: &str, display_name: &str, bio: Option<&str>) -> (r:
    Result<i64, ModelError>)
    requires
        old(db).wf(),
    ensures
        final(db).wf(),
        user_created(old(db)@, final(db)@, r, username@, display_name@, opt_str_view(bio), None),
{
    insert_user(db, username, display_name, bio, None)
}

/// Does the account match the search? (No search matches every account.)
pub open spec fn user_matches(r: UserRow, pattern: Option<Seq<char>>) -> bool {
    match pattern {
        Some(p) => like_match(p, r.username@) || like_match(p, r.display_name@),
        None => true,
    }
}

/// The accounts a search lists: those whose username or display name holds the
/// search text, as SQL `LIKE '%text%'` finds it.
pub open spec fn users_listed(pattern: Option<Seq<char>>) -> spec_fn(UserRow) -> Option<User> {
    |r: UserRow|
        if user_matches(r, pattern) {
            Some(user_of(r))
        } else {
            None
        }
}

/// The search text as a `LIKE` pattern.
pub open spec fn search_pattern(search: Option<&str>) -> Option<Seq<char>> {
    match search {
        Some(s) => Some(containing(s@)),
        None => None,
    }
}

fn search_vec(search: Option<&str>) -> (r: Option<Vec<char>>)
    ensures
        match r {
            Some(v) => search_pattern(search) == Some(v@),
            None => search_pattern(search) is None,
        },
{
    match search {
        Some(s) => Some(containing_pattern(s)),
        None => None,
    }
}

fn user_entry(r: &UserRow, pattern: &Option<Vec<char>>) -> (u: Option<User>)
    ensures
        u == users_listed(
            match pattern {
                Some(v) => Some(v@),
                None => None,
            },
        )(*r),
{
    let keep = match pattern {
        Some(p) => str_like(r.username.as_str(), p) || str_like(r.display_name.as_str(), p),
        None => true,
    };
    if keep {
        Some(to_user(r))
    } else {
        None
    }
}

/// The accounts, by id, that match the search.
pub fn list_users(db: &Database, search: Option<&str>) -> (r: Vec<User>)
    ensures
        r@ == db@.users.filter_map(users_listed(search_pattern(search))),
{
    let pattern = search_vec(search);
    let ghost sp = search_pattern(search);
    collect_oldest(
        &db.users,
        |r: &UserRow| -> (u: Option<User>) ensures u == users_listed(sp)(*r) { user_entry(r, &pattern) },
        Ghost(users_listed(sp)),
    )
}

/// The account with this id, if there is one.
pub open spec fn user_by_id(users: Seq<UserRow>, id: i64) -> Option<User> {
    match lookup(users, id) {
        Some(r) => Some(user_of(r)),
        None => None,
    }
}

pub fn get_user(db: &Database, id: i64) -> (r: Option<User>)
    ensures
        r == user_by_id(db@.users, id),
{
    proof {
        lemma_lookup_position(db@.users, id);
    }
    match find_by_key(&db.users, id) {
        Some(i) => Some(to_user(&db.users[i])),
        None => None,
    }
}

/// `new_row` is `old_row` with the display name and bio replaced where given,
/// stamped at `now`.
pub open spec fn user_updated(
    old_row: UserRow,
    new_row: UserRow,
    display_name: Option<Seq<char>>,
    bio: Option<Seq<char>>,
    now: String,
) -> bool {
    &&& new_row.id == old_row.id
    &&& new_row.username == old_row.username
    &&& match display_name {
        Some(d) => new_row.display_name@ == d,
        None => new_row.display_name == old_row.display_name,
    }
    &&& match bio {
        Some(b) => opt_string_view(new_row.bio) == Some(b),
        None => new_row.bio == old_row.bio,
    }
    &&& new_row.avatar == old_row.avatar
    &&& new_row.password_hash == old_row.password_hash
    &&& new_row.created_at == old_row.created_at
    &&& new_row.updated_at == now
}

/// What editing an account does, and what comes back.
pub open spec fn user_edited(
    old_db: DbView,
    new_db: DbView,
    r: bool,
    id: i64,
    display_name: Option<Seq<char>>,
    bio: Option<Seq<char>>,
) -> bool {
    &&& (r == (lookup(old_db.users, id) is Some))
    &&& (!r ==> new_db == old_db)
    &&& (r ==> {
            let k = position(old_db.users, id);
            &&& new_db == (DbView { users: new_db.users, ..old_db })
            &&& new_db.users.len() == old_db.users.len()
            &&& forall|i: int|
                0 <= i < old_db.users.len() && i != k ==> new_db.users[i] == old_db.users[i]
            &&& user_updated(
                old_db.users[k],
                new_db.users[k],
                display_name,
                bio,
                old_db.now,
            )
        })
}

/// Replaces the display name and the bio where given; false when no account has
/// this id.
pub fn update_user(db: &mut Database, id: i64, display_name: Option<&str>, bio: Option<&str>) -> (r:
    bool)
    requires
        old(db).wf(),
    ensures
        final(db).wf(),
        user_edited(old(db)@, final(db)@, r, id, opt_str_view(display_name), opt_str_view(bio)),
{
    proof {
        lemma_lookup_position(db@.users, id);
    }
    let k = match find_by_key(&db.users, id) {
        Some(k) => k,
        None => return false,
    };
    let old_row = &db.users[k];
    let new_row = UserRow {
        id: old_row.id,
        username: old_row.username.clone(),
        display_name: match display_name {
            Some(d) => d.to_owned(),
            None => old_row.display_name.clone(),
        },
        bio: match bio {
            Some(b) => Some(b.to_owned()),
            None => dup_opt(&old_row.bio),
        },
        avatar: dup_opt(&old_row.avatar),
        password_hash: dup_opt(&old_row.password_hash),
        created_at: old_row.created_at.clone(),
        updated_at: db.now.clone(),
    };
    proof {
        lemma_update_ok(db.users@, db.next_user_id, k as int, new_row);
        assert forall|i: int| 0 <= i < k implies #[trigger] username_rel()(db.users@[i], new_row) by {
            assert(username_rel()(db.users@[i], db.users@[k as int]));
        }
        assert forall|i: int| k < i < db.users@.len() implies #[trigger] username_rel()(new_row, db.users@[i]) by {
            assert(username_rel()(db.users@[k as int], db.users@[i]));
        }
        lemma_update_pairwise(db.users@, k as int, new_row, username_rel());
    }
    db.users.set(k, new_row);
    true
}

/// What deleting an account does, and what comes back.
pub open spec fn user_deleted(
    old_db: DbView,
    new_db: DbView,
    r: bool,
    id: i64,
) -> bool {
    &&& (r == (lookup(old_db.users, id) is Some))
    &&& (new_db == (DbView {
            users: retained(old_db.users, |u: UserRow| u.id != id),
            ..old_db
        }))
}

/// Deletes the account; false when no account has this id.
pub fn delete_user(db: &mut Database, id: i64) -> (r: bool)
    requires
        old(db).wf(),
    ensures
        final(db).wf(),
        user_deleted(old(db)@, final(db)@, r, id),
{
    proof {
        lemma_lookup_position(db@.users, id);
        lemma_retained_ok(db.users@, db.next_user_id, |u: UserRow| u.id != id);
        lemma_retained_pairwise(
            db.users@,
            |u: UserRow| u.id != id,
            username_rel(),
        );
    }
    retain_rows(
        &mut db.users,
        |u: &UserRow| -> (b: bool) ensures b == (u.id != id) { u.id != id },
        Ghost(|u: UserRow| u.id != id),
    )
}

/// Number of users who follow this user.
pub fn get_followers_count(db: &Database, user_id: i64) -> (r: i64)
    requires
        db.wf(),
    ensures
        r == count_where(db@.follows, follow_of(user_id)),
{
    let n = count_rows(
        &db.follows,
        |f: &Follow| -> (b: bool) ensures b == follow_of(user_id)(*f) { f.followee_id == user_id },
        Ghost(follow_of(user_id)),
    );
    proof {
        lemma_table_len(db.follows@, db.next_follow_id);
    }
    n as i64
}

/// Number of users this user follows.
pub fn get_following_count(db: &Database, user_id: i64) -> (r: i64)
    requires
        db.wf(),
    ensures
        r == count_where(db@.follows, follow_by(user_id)),
{
    let n = count_rows(
        &db.follows,
        |f: &Follow| -> (b: bool) ensures b == follow_by(user_id)(*f) { f.follower_id == user_id },
        Ghost(follow_by(user_id)),
    );
    proof {
        lemma_table_len(db.follows@, db.next_follow_id);
    }
    n as i64
}

/// Reading an account back after creating it gives the fields it was created with.
pub proof fn law_created_user_found(
    old_db: DbView,
    new_db: DbView,
    r: Result<i64, ModelError>,
    username: Seq<char>,
    display_name: Seq<char>,
    bio: Option<Seq<char>>,
    password_hash: Option<Seq<char>>,
)
    requires
        old_db.wf(),
        user_created(old_db, new_db, r, username, display_name, bio, password_hash),
        r is Ok,
    ensures
        user_by_id(new_db.users, r->Ok_0) == Some(user_of(new_db.users.last())),
        is_new_user(new_db.users.last(), r->Ok_0, username, display_name, bio, password_hash, old_db.now),
{
    let n = new_db.users.len() - 1;
    crate::seqs::lemma_push_ok(old_db.users, old_db.next_user_id, new_db.users.last());
    assert(new_db.users =~= old_db.users.push(new_db.users.last()));
    crate::seqs::lemma_lookup_unique(new_db.users, n);
}

/// Once an account is deleted, no account has its id.
pub proof fn law_deleted_user_gone(users: Seq<UserRow>, id: i64)
    ensures
        user_by_id(retained(users, |u: UserRow| u.id != id), id) is None,
{
    let kept = retained(users, |u: UserRow| u.id != id);
    crate::seqs::lemma_retained_sub(users, |u: UserRow| u.id != id);
    lemma_lookup_position(kept, id);
    assert forall|i: int| 0 <= i < kept.len() implies kept[i].id != id by {
        let j = choose|j: int| 0 <= j < users.len() && users[j] == #[trigger] kept[i] && users[j].id != id;
    }
}

/// An account is listed by a search exactly when its username or its display name
/// holds the search text, as SQL `LIKE '%text%'` finds it.
pub proof fn law_user_search_matches_either_name(db: DbView, search: &str, i: int)
    requires
        db.wf(),
        0 <= i < db.users.len(),
    ensures
        (exists|k: int|
            0 <= k < db.users.filter_map(users_listed(search_pattern(Some(search)))).len()
                && (#[trigger] db.users.filter_map(users_listed(search_pattern(Some(search))))[k]).id == db.users[i].id)
            <==> (like_match(containing(search@), db.users[i].username@) || like_match(
            containing(search@),
            db.users[i].display_name@,
        )),
{
    let f = users_listed(search_pattern(Some(search)));
    let l = db.users.filter_map(f);
    let u = db.users[i];
    if like_match(containing(search@), u.username@) || like_match(containing(search@), u.display_name@) {
        crate::seqs::lemma_filter_map_has(db.users, f, i);
        let k = choose|k: int| 0 <= k < l.len() && l[k] == f(u)->Some_0;
        assert(l[k].id == u.id);
    }
    if exists|k: int| 0 <= k < l.len() && (#[trigger] l[k]).id == u.id {
        let k = choose|k: int| 0 <= k < l.len() && (#[trigger] l[k]).id == u.id;
        crate::seqs::lemma_filter_map_origin(db.users, f);
        let a = choose|a: int| 0 <= a < db.users.len() && f(db.users[a]) == Some(l[k]);
        assert(db.users[a].id == u.id);
        assert(a == i);
    }
}

/// Without a search text, every account is listed.
pub proof fn law_user_list_all(db: DbView, i: int)
    requires
        0 <= i < db.users.len(),
    ensures
        db.users.filter_map(users_listed(search_pattern(None))).contains(user_of(db.users[i])),
{
    crate::seqs::lemma_filter_map_has(db.users, users_listed(search_pattern(None)), i);
}

/// A user's follower count is the number of follows with the user as followee, and
/// the following count the number with the user as follower.
pub proof fn law_follow_counts_by_direction(db: DbView, user_id: i64)
    ensures
        count_where(db.follows, follow_of(user_id)) == count_where(db.follows, |f: Follow| f.followee_id == user_id),
        count_where(db.follows, follow_by(user_id)) == count_where(db.follows, |f: Follow| f.follower_id == user_id),
{
    assert(follow_of(user_id) =~= (|f: Follow| f.followee_id == user_id));
    assert(follow_by(user_id) =~= (|f: Follow| f.follower_id == user_id));
}

} // verus!
