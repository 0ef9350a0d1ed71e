use vstd::prelude::*;
use crate::db::{Database, DbView, interest_rel};
use crate::error::ModelError;
use crate::seqs::{
    Row, collect_oldest, exists_where, find_where, last_where, lemma_last_where,
    lemma_last_where_unique, lemma_push_ok, lemma_push_pairwise, lemma_retained_ok,
    lemma_retained_pairwise, retain_rows, retained,
};
use crate::text::{
    lemma_str_le_refl, lemma_str_le_total, lemma_str_le_trans, str_eq, str_le, str_le_exec,
};
use vstd::relations::sorted_by;

verus! {

/// An interest tag of a user.
#[derive(Clone, Debug)]
pub struct Interest {
    pub id: i64,
    pub user_id: i64,
    pub tag: String,
}

impl Row for Interest {
    open spec fn key(&self) -> i64 {
        self.id
    }

    fn row_key(&self) -> (r: i64) {
        self.id
    }

    fn dup(&self) -> (r: Self) {
        Interest {
            id: self.id,
            user_id: self.user_id,
            tag: self.tag.clone(),
        }
    }
}

/// The interest `tag` of `user_id`.
pub open spec fn is_interest(user_id: i64, tag: Seq<char>) -> spec_fn(Interest) -> bool {
    |i: Interest| i.user_id == user_id && i.tag@ == tag
}

/// Any row but the interest `tag` of `user_id`.
pub open spec fn not_interest(user_id: i64, tag: Seq<char>) -> spec_fn(Interest) -> bool {
    |i: Interest| !(i.user_id == user_id && i.tag@ == tag)
}

/// The user has this interest tag.
pub open spec fn has_interest(db: DbView, user_id: i64, tag: Seq<char>) -> bool {
    exists_where(db.interests, is_interest(user_id, tag))
}

/// What adding an interest does, and what comes back.
pub open spec fn interest_added(
    old_db: DbView,
    new_db: DbView,
    r: Result<i64, ModelError>,
    user_id: i64,
    tag: Seq<char>,
) -> bool {
    &&& (has_interest(old_db, user_id, tag) ==> new_db == old_db && r == Ok::<
            i64,
            ModelError,
        >(old_db.interests[last_where(old_db.interests, is_interest(user_id, tag))].id))
    &&& (!has_interest(old_db, user_id, tag) && old_db.next_interest_id == i64::MAX ==> r
            == Err::<i64, ModelError>(ModelError::TableFull) && new_db == old_db)
    &&& (!has_interest(old_db, user_id, tag) && old_db.next_interest_id < i64::MAX ==> {
            &&& r == Ok::<i64, ModelError>(old_db.next_interest_id)
            &&& new_db == (DbView {
                interests: new_db.interests,
                next_interest_id: (old_db.next_interest_id + 1) as i64,
                ..old_db
            })
            &&& new_db.interests.len() == old_db.interests.len() + 1
            &&& new_db.interests.drop_last() == old_db.interests
            &&& new_db.interests.last().id == old_db.next_interest_id
            &&& new_db.interests.last().user_id == user_id
            &&& new_db.interests.last().tag@ == tag
        })
}

/// Adds the interest tag to the user, unless the user has it; gives back the id of
/// the user's interest with this tag.
pub fn add_interest(db: &mut Database, user_id: i64, tag: &str) -> (r: Result<i64, ModelError>)
    requires
        old(db).wf(),
    ensures
        final(db).wf(),
        interest_added(old(db)@, final(db)@, r, user_id, tag@),
{
    let ghost old_db = db@;
    proof {
        lemma_last_where(db@.interests, is_interest(user_id, tag@));
    }
    let found = find_where(
        &db.interests,
        |i: &Interest| -> (b: bool) ensures b == is_interest(user_id, tag@)(*i) { i.user_id == user_id && str_eq(i.tag.as_str(), tag) },
        Ghost(is_interest(user_id, tag@)),
    );
    match found {
        Some(k) => {
            return Ok(db.interests[k].id);
        },
        None => {},
    }
    if db.next_interest_id == i64::MAX {
        return Err(ModelError::TableFull);
    }
    let id = db.next_interest_id;
    let row = Interest { id, user_id, tag: tag.to_owned() };
    proof {
        lemma_push_ok(db.interests@, id, row);
        assert forall|i: int| 0 <= i < db.interests@.len() implies #[trigger] interest_rel()(db.interests@[i], row) by {
            if !interest_rel()(db.interests@[i], row) {
                assert(is_interest(user_id, tag@)(db.interests@[i]));
            }
        }
        lemma_push_pairwise(db.interests@, row, interest_rel());
    }
    db.interests.push(row);
    db.next_interest_id = id + 1;
    assert(db@.interests.drop_last() =~= old_db.interests);
    Ok(id)
}

/// What removing an interest does, and what comes back.
pub open spec fn interest_removed(
    old_db: DbView,
    new_db: DbView,
    r: bool,
    user_id: i64,
    tag: Seq<char>,
) -> bool {
    &&& (r == has_interest(old_db, user_id, tag))
    &&& (new_db == (DbView {
            interests: retained(old_db.interests, not_interest(user_id, tag)),
            ..old_db
        }))
}

/// Removes the interest tag from the user; false when the user does not have it.
pub fn remove_interest(db: &mut Database, user_id: i64, tag: &str) -> (r: bool)
    requires
        old(db).wf(),
    ensures
        final(db).wf(),
        interest_removed(old(db)@, final(db)@, r, user_id, tag@),
{
    proof {
        lemma_retained_ok(db.interests@, db.next_interest_id, not_interest(user_id, tag@));
        lemma_retained_pairwise(db.interests@, not_interest(user_id, tag@), interest_rel());
    }
    let dropped = retain_rows(
        &mut db.interests,
        |i: &Interest| -> (b: bool) ensures b == not_interest(user_id, tag@)(*i) { !(i.user_id == user_id && str_eq(i.tag.as_str(), tag)) },
        Ghost(not_interest(user_id, tag@)),
    );
    proof {
        if dropped {
            let i = choose|i: int| 0 <= i < old(db)@.interests.len() && !not_interest(user_id, tag@)(old(db)@.interests[i]);
            assert(is_interest(user_id, tag@)(old(db)@.interests[i]));
        }
        if has_interest(old(db)@, user_id, tag@) {
            let i = choose|i: int| 0 <= i < old(db)@.interests.len() && #[trigger] is_interest(user_id, tag@)(old(db)@.interests[i]);
            assert(!not_interest(user_id, tag@)(old(db)@.interests[i]));
        }
    }
    dropped
}

/// Interests in the order of their tags.
pub open spec fn tag_le() -> spec_fn(Interest, Interest) -> bool {
    |a: Interest, b: Interest| str_le(a.tag@, b.tag@)
}

/// An interest of the user.
pub open spec fn interest_of(user_id: i64) -> spec_fn(Interest) -> Option<Interest> {
    |i: Interest|
        if i.user_id == user_id {
            Some(i)
        } else {
            None
        }
}

/// Sorts the interests by tag, keeping them all.
pub fn sort_by_tag(v: &Vec<Interest>) -> (r: Vec<Interest>)
    ensures
        sorted_by(r@, tag_le()),
        r@.to_multiset() == v@.to_multiset(),
{
    broadcast use vstd::seq_lib::to_multiset_insert;
    broadcast use vstd::seq_lib::to_multiset_build;

    let mut out: Vec<Interest> = Vec::new();
    let mut i: usize = 0;
    assert(v@.take(0) =~= Seq::<Interest>::empty());
    while i < v.len()
        invariant
            i <= v@.len(),
            sorted_by(out@, tag_le()),
            out@.to_multiset() == v@.take(i as int).to_multiset(),
        decreases v@.len() - i,
    {
        let x = v[i].dup();
        let mut k: usize = 0;
        while k < out.len() && str_le_exec(out[k].tag.as_str(), x.tag.as_str())
            invariant
                k <= out@.len(),
                forall|m: int| 0 <= m < k ==> str_le(#[trigger] out@[m].tag@, x.tag@),
            decreases out@.len() - k,
        {
            k = k + 1;
        }
        let ghost before = out@;
        proof {
            if k < before.len() {
                lemma_str_le_total(before[k as int].tag@, x.tag@);
            }
            assert forall|a: int, b: int| 0 <= a < b < before.len() + 1 implies #[trigger] tag_le()(
                before.insert(k as int, x)[a],
                before.insert(k as int, x)[b],
            ) by {
                let s = before.insert(k as int, x);
                if b < k {
                    assert(tag_le()(before[a], before[b]));
                } else if b == k {
                    assert(str_le(before[a].tag@, x.tag@));
                } else if a == k {
                    assert(tag_le()(before[k as int], before[b - 1])) by {
                        if k as int == b - 1 {
                            lemma_str_le_refl(before[k as int].tag@);
                        }
                    }
                    lemma_str_le_trans(x.tag@, before[k as int].tag@, before[b - 1].tag@);
                } else if a < k {
                    assert(tag_le()(before[a], before[b - 1]));
                } else {
                    assert(tag_le()(before[a - 1], before[b - 1]));
                }
            }
            assert(v@.take(i + 1) =~= v@.take(i as int).push(v@[i as int]));
        }
        out.insert(k, x);
        proof {
            vstd::seq_lib::to_multiset_insert(before, k as int, x);
            vstd::seq_lib::to_multiset_build(v@.take(i as int), v@[i as int]);
            assert(out@.to_multiset() == v@.take(i + 1).to_multiset());
        }
        i = i + 1;
    }
    assert(v@.take(v@.len() as int) =~= v@);
    out
}

/// The user's interests, in the order of their tags.
pub fn list_interests(db: &Database, user_id: i64) -> (r: Vec<Interest>)
    ensures
        sorted_by(r@, tag_le()),
        r@.to_multiset() == db@.interests.filter_map(interest_of(user_id)).to_multiset(),
{
    let mine = collect_oldest(
        &db.interests,
        |i: &Interest| -> (r: Option<Interest>) ensures r == interest_of(user_id)(*i) { if i.user_id == user_id { Some(i.dup()) } else { None } },
        Ghost(interest_of(user_id)),
    );
    sort_by_tag(&mine)
}

/// Once adding an interest succeeded, the user has it, and the id that came back is
/// the id of that interest.
pub proof fn law_add_interest_holds(
    old_db: DbView,
    new_db: DbView,
    r: Result<i64, ModelError>,
    user_id: i64,
    tag: Seq<char>,
)
    requires
        interest_added(old_db, new_db, r, user_id, tag),
        r is Ok,
    ensures
        has_interest(new_db, user_id, tag),
        new_db.interests[last_where(new_db.interests, is_interest(user_id, tag))].id == r->Ok_0,
{
    lemma_last_where(old_db.interests, is_interest(user_id, tag));
    if !has_interest(old_db, user_id, tag) {
        let n = new_db.interests.len() - 1;
        assert(is_interest(user_id, tag)(new_db.interests[n]));
    }
    lemma_last_where(new_db.interests, is_interest(user_id, tag));
}

/// Once an interest is removed, the user no longer has it.
pub proof fn law_remove_interest_ends(interests: Seq<Interest>, user_id: i64, tag: Seq<char>)
    ensures
        !exists_where(retained(interests, not_interest(user_id, tag)), is_interest(user_id, tag)),
{
    crate::seqs::lemma_retained_excludes(interests, not_interest(user_id, tag), is_interest(user_id, tag));
}

/// Every interest in a listing with the user's interests (as `list_interests`
/// returns them: the same interests, in any order) is the user's.
pub proof fn law_listed_interests_are_the_users(db: DbView, user_id: i64, r: Seq<Interest>)
    requires
        r.to_multiset() == db.interests.filter_map(interest_of(user_id)).to_multiset(),
    ensures
        forall|k: int| 0 <= k < r.len() ==> (#[trigger] r[k]).user_id == user_id,
{
    let f = interest_of(user_id);
    let l = db.interests.filter_map(f);
    crate::seqs::lemma_filter_map_origin(db.interests, f);
    assert forall|k: int| 0 <= k < r.len() implies (#[trigger] r[k]).user_id == user_id by {
        vstd::seq_lib::to_multiset_contains(r, r[k]);
        vstd::seq_lib::to_multiset_contains(l, r[k]);
        assert(r.contains(r[k]));
        let j = choose|j: int| 0 <= j < l.len() && l[j] == r[k];
        let a = choose|a: int| 0 <= a < db.interests.len() && f(db.interests[a]) == Some(l[j]);
    }
}

} // verus!
