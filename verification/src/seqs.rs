use vstd::prelude::*;
use crate::text::{str_le, str_le_exec};

verus! {

/// A stored row with a primary key.
pub trait Row {
    spec fn key(&self) -> i64;

    fn row_key(&self) -> (r: i64)
        ensures
            r == self.key(),
    ;

    fn dup(&self) -> (r: Self) where Self: Sized
        ensures
            r == *self,
    ;
}

/// No two rows share a key.
pub open spec fn keys_distinct<T: Row>(s: Seq<T>) -> bool {
    forall|i: int, j: int| 0 <= i < s.len() && 0 <= j < s.len() && i != j ==> s[i].key() != s[j].key()
}

/// A table whose keys were handed out by a counter now at `next`.
pub open spec fn table_ok<T: Row>(s: Seq<T>, next: i64) -> bool {
    &&& 1 <= next
    &&& keys_increasing(s)
    &&& keys_below(s, next)
}

/// The rows that satisfy `p`, in their order.
pub open spec fn retained<T>(s: Seq<T>, p: spec_fn(T) -> bool) -> Seq<T>
    decreases s.len(),
{
    if s.len() == 0 {
        Seq::empty()
    } else if p(s.last()) {
        retained(s.drop_last(), p).push(s.last())
    } else {
        retained(s.drop_last(), p)
    }
}

/// Keys strictly increase along the table, so each key names at most one row.
pub open spec fn keys_increasing<T: Row>(s: Seq<T>) -> bool {
    forall|i: int, j: int| 0 <= i < j < s.len() ==> s[i].key() < s[j].key()
}

/// Every key is positive and below `next`.
pub open spec fn keys_below<T: Row>(s: Seq<T>, next: i64) -> bool {
    forall|i: int| 0 <= i < s.len() ==> 1 <= #[trigger] s[i].key() < next
}

/// The row with the given key (the last one, should there be several).
pub open spec fn lookup<T: Row>(s: Seq<T>, key: i64) -> Option<T>
    decreases s.len(),
{
    if s.len() == 0 {
        None
    } else if s.last().key() == key {
        Some(s.last())
    } else {
        lookup(s.drop_last(), key)
    }
}

/// Position of the row with the given key (the last one, should there be several), or -1.
pub open spec fn position<T: Row>(s: Seq<T>, key: i64) -> int
    decreases s.len(),
{
    if s.len() == 0 {
        -1
    } else if s.last().key() == key {
        s.len() - 1
    } else {
        position(s.drop_last(), key)
    }
}

/// What `f` keeps of the rows, newest row first.
pub open spec fn newest_first<T, U>(s: Seq<T>, f: spec_fn(T) -> Option<U>) -> Seq<U>
    decreases s.len(),
{
    if s.len() == 0 {
        Seq::empty()
    } else {
        match f(s.last()) {
            Some(u) => seq![u] + newest_first(s.drop_last(), f),
            None => newest_first(s.drop_last(), f),
        }
    }
}

/// Number of rows that satisfy `p`.
pub open spec fn count_where<T>(s: Seq<T>, p: spec_fn(T) -> bool) -> nat
    decreases s.len(),
{
    if s.len() == 0 {
        0
    } else {
        count_where(s.drop_last(), p) + if p(s.last()) { 1nat } else { 0nat }
    }
}

pub proof fn lemma_lookup_position<T: Row>(s: Seq<T>, key: i64)
    ensures
        position(s, key) == -1 <==> lookup(s, key) is None,
        position(s, key) != -1 ==> 0 <= position(s, key) < s.len() && lookup(s, key) == Some(
            s[position(s, key)],
        ) && s[position(s, key)].key() == key,
        lookup(s, key) is None <==> forall|i: int| 0 <= i < s.len() ==> s[i].key() != key,
    decreases s.len(),
{
    if s.len() > 0 {
        lemma_lookup_position(s.drop_last(), key);
        if s.last().key() != key {
            assert forall|i: int| 0 <= i < s.len() - 1 implies s.drop_last()[i] == s[i] by {}
        }
    }
}

/// With increasing keys, the row at any index is the one `lookup` finds for its key.
pub proof fn lemma_lookup_unique<T: Row>(s: Seq<T>, i: int)
    requires
        keys_increasing(s),
        0 <= i < s.len(),
    ensures
        lookup(s, s[i].key()) == Some(s[i]),
        position(s, s[i].key()) == i,
    decreases s.len(),
{
    if i < s.len() - 1 {
        assert(s.drop_last()[i] == s[i]);
        lemma_lookup_unique(s.drop_last(), i);
    }
}

pub fn find_by_key<T: Row>(rows: &Vec<T>, key: i64) -> (r: Option<usize>)
    ensures
        match r {
            Some(i) => i as int == position(rows@, key) && i < rows@.len(),
            None => position(rows@, key) == -1,
        },
{
    let mut i = rows.len();
    assert(rows@.take(i as int) =~= rows@);
    while i > 0
        invariant
            i <= rows@.len(),
            position(rows@, key) == position(rows@.take(i as int), key),
        decreases i,
    {
        assert(rows@.take(i as int).drop_last() =~= rows@.take(i - 1));
        if rows[i - 1].row_key() == key {
            return Some(i - 1);
        }
        i = i - 1;
    }
    None
}

} // verus!

verus! {

pub proof fn lemma_newest_first_take<T, U>(s: Seq<T>, i: int, f: spec_fn(T) -> Option<U>)
    requires
        0 < i <= s.len(),
    ensures
        newest_first(s.take(i), f) == match f(s[i - 1]) {
            Some(u) => seq![u] + newest_first(s.take(i - 1), f),
            None => newest_first(s.take(i - 1), f),
        },
{
    assert(s.take(i).drop_last() =~= s.take(i - 1));
}

/// Applies `f` to every row, newest row first, and keeps what it gives back.
pub fn collect_newest<T, U, F: Fn(&T) -> Option<U>>(
    rows: &Vec<T>,
    f: F,
    Ghost(sf): Ghost<spec_fn(T) -> Option<U>>,
) -> (r: Vec<U>)
    requires
        forall|x: &T| #[trigger] f.requires((x,)),
        forall|x: &T, y: Option<U>| #[trigger] f.ensures((x,), y) ==> y == sf(*x),
    ensures
        r@ == newest_first(rows@, sf),
{
    let mut out: Vec<U> = Vec::new();
    let mut i = rows.len();
    assert(rows@.take(i as int) =~= rows@);
    assert(out@ + newest_first(rows@.take(i as int), sf) =~= newest_first(rows@, sf));
    while i > 0
        invariant
            i <= rows@.len(),
            forall|x: &T| #[trigger] f.requires((x,)),
            forall|x: &T, y: Option<U>| #[trigger] f.ensures((x,), y) ==> y == sf(*x),
            out@ + newest_first(rows@.take(i as int), sf) == newest_first(rows@, sf),
        decreases i,
    {
        proof {
            lemma_newest_first_take(rows@, i as int, sf);
        }
        let ghost before = out@;
        match f(&rows[i - 1]) {
            Some(u) => {
                out.push(u);
                assert(out@ + newest_first(rows@.take(i - 1), sf) =~= before + newest_first(
                    rows@.take(i as int),
                    sf,
                ));
            },
            None => {},
        }
        i = i - 1;
    }
    assert(rows@.take(0) =~= Seq::<T>::empty());
    assert(out@ =~= out@ + newest_first(rows@.take(0), sf));
    out
}

pub proof fn lemma_filter_map_take<T, U>(s: Seq<T>, i: int, f: spec_fn(T) -> Option<U>)
    requires
        0 < i <= s.len(),
    ensures
        s.take(i).filter_map(f) == match f(s[i - 1]) {
            Some(u) => s.take(i - 1).filter_map(f).push(u),
            None => s.take(i - 1).filter_map(f),
        },
{
    assert(s.take(i).drop_last() =~= s.take(i - 1));
    match f(s[i - 1]) {
        Some(u) => {
            assert(s.take(i - 1).filter_map(f) + seq![u] =~= s.take(i - 1).filter_map(f).push(u));
        },
        None => {},
    }
}

/// Applies `f` to every row, oldest row first, and keeps what it gives back.
pub fn collect_oldest<T, U, F: Fn(&T) -> Option<U>>(
    rows: &Vec<T>,
    f: F,
    Ghost(sf): Ghost<spec_fn(T) -> Option<U>>,
) -> (r: Vec<U>)
    requires
        forall|x: &T| #[trigger] f.requires((x,)),
        forall|x: &T, y: Option<U>| #[trigger] f.ensures((x,), y) ==> y == sf(*x),
    ensures
        r@ == rows@.filter_map(sf),
{
    let mut out: Vec<U> = Vec::new();
    let mut i: usize = 0;
    assert(rows@.take(0) =~= Seq::<T>::empty());
    while i < rows.len()
        invariant
            i <= rows@.len(),
            forall|x: &T| #[trigger] f.requires((x,)),
            forall|x: &T, y: Option<U>| #[trigger] f.ensures((x,), y) ==> y == sf(*x),
            out@ == rows@.take(i as int).filter_map(sf),
        decreases rows@.len() - i,
    {
        proof {
            lemma_filter_map_take(rows@, i + 1, sf);
        }
        match f(&rows[i]) {
            Some(u) => {
                out.push(u);
            },
            None => {},
        }
        i = i + 1;
    }
    assert(rows@.take(rows@.len() as int) =~= rows@);
    out
}

/// Counts the rows that satisfy `p`.
pub fn count_rows<T, F: Fn(&T) -> bool>(
    rows: &Vec<T>,
    p: F,
    Ghost(sp): Ghost<spec_fn(T) -> bool>,
) -> (r: u64)
    requires
        forall|x: &T| #[trigger] p.requires((x,)),
        forall|x: &T, y: bool| #[trigger] p.ensures((x,), y) ==> y == sp(*x),
    ensures
        r == count_where(rows@, sp),
        r <= rows@.len(),
{
    let mut n: u64 = 0;
    let mut i: usize = 0;
    assert(rows@.take(0) =~= Seq::<T>::empty());
    while i < rows.len()
        invariant
            i <= rows@.len(),
            n <= i,
            forall|x: &T| #[trigger] p.requires((x,)),
            forall|x: &T, y: bool| #[trigger] p.ensures((x,), y) ==> y == sp(*x),
            n == count_where(rows@.take(i as int), sp),
            n <= i,
        decreases rows@.len() - i,
    {
        assert(rows@.take(i + 1).drop_last() =~= rows@.take(i as int));
        if p(&rows[i]) {
            n = n + 1;
        }
        i = i + 1;
    }
    assert(rows@.take(rows@.len() as int) =~= rows@);
    n
}

} // verus!

verus! {

/// With distinct keys, the row at any index is the one `lookup` finds for its key.
pub proof fn lemma_lookup_distinct<T: Row>(s: Seq<T>, i: int)
    requires
        keys_distinct(s),
        0 <= i < s.len(),
    ensures
        lookup(s, s[i].key()) == Some(s[i]),
        position(s, s[i].key()) == i,
    decreases s.len(),
{
    if i < s.len() - 1 {
        assert(s.drop_last()[i] == s[i]);
        assert(s[s.len() - 1].key() != s[i].key());
        assert(keys_distinct(s.drop_last()));
        lemma_lookup_distinct(s.drop_last(), i);
    }
}

/// A table of increasing keys below `next` holds fewer than `next` rows.
pub proof fn lemma_table_len<T: Row>(s: Seq<T>, next: i64)
    requires
        table_ok(s, next),
    ensures
        s.len() < next,
{
    if s.len() > 0 {
        assert forall|i: int| 0 <= i < s.len() implies s[i].key() >= i + 1 by {
            lemma_key_at_least_index(s, i);
        }
        assert(s[s.len() - 1].key() >= s.len());
    }
}

proof fn lemma_key_at_least_index<T: Row>(s: Seq<T>, i: int)
    requires
        keys_increasing(s),
        keys_below(s, i64::MAX),
        0 <= i < s.len(),
        forall|k: int| 0 <= k < s.len() ==> 1 <= #[trigger] s[k].key(),
    ensures
        s[i].key() >= i + 1,
    decreases i,
{
    if i > 0 {
        lemma_key_at_least_index(s, i - 1);
    }
}

/// Appending a row keyed `next` keeps the table in order.
pub proof fn lemma_push_ok<T: Row>(s: Seq<T>, next: i64, row: T)
    requires
        table_ok(s, next),
        row.key() == next,
        next < i64::MAX,
    ensures
        table_ok(s.push(row), (next + 1) as i64),
{
}

/// Replacing a row by one with the same key keeps the table in order.
pub proof fn lemma_update_ok<T: Row>(s: Seq<T>, next: i64, i: int, row: T)
    requires
        table_ok(s, next),
        0 <= i < s.len(),
        row.key() == s[i].key(),
    ensures
        table_ok(s.update(i, row), next),
{
}

pub proof fn lemma_retained_take<T>(s: Seq<T>, i: int, p: spec_fn(T) -> bool)
    requires
        0 < i <= s.len(),
    ensures
        retained(s.take(i), p) == if p(s[i - 1]) {
            retained(s.take(i - 1), p).push(s[i - 1])
        } else {
            retained(s.take(i - 1), p)
        },
{
    assert(s.take(i).drop_last() =~= s.take(i - 1));
}

/// Every row that `retained` keeps comes from the table, in the same order.
pub proof fn lemma_retained_sub<T>(s: Seq<T>, p: spec_fn(T) -> bool)
    ensures
        retained(s, p).len() <= s.len(),
        forall|k: int|
            0 <= k < retained(s, p).len() ==> exists|j: int|
                0 <= j < s.len() && s[j] == #[trigger] retained(s, p)[k] && p(s[j]),
        forall|x: T| retained(s, p).contains(x) <==> s.contains(x) && p(x),
    decreases s.len(),
{
    if s.len() > 0 {
        let r = retained(s.drop_last(), p);
        lemma_retained_sub(s.drop_last(), p);
        assert forall|k: int| 0 <= k < retained(s, p).len() implies exists|j: int|
            0 <= j < s.len() && s[j] == #[trigger] retained(s, p)[k] && p(s[j]) by {
            if k < r.len() {
                let j = choose|j: int|
                    0 <= j < s.drop_last().len() && s.drop_last()[j] == r[k] && p(
                        s.drop_last()[j],
                    );
                assert(s[j] == retained(s, p)[k]);
            } else {
                assert(s[s.len() - 1] == retained(s, p)[k]);
            }
        }
        assert forall|x: T| retained(s, p).contains(x) <==> s.contains(x) && p(x) by {
            if s.contains(x) && p(x) {
                let j = choose|j: int| 0 <= j < s.len() && s[j] == x;
                if j < s.len() - 1 {
                    assert(s.drop_last()[j] == x);
                    assert(s.drop_last().contains(x));
                    assert(r.contains(x));
                    let k = choose|k: int| 0 <= k < r.len() && r[k] == x;
                    assert(retained(s, p)[k] == x);
                } else {
                    assert(retained(s, p)[retained(s, p).len() - 1] == x);
                }
            }
            if retained(s, p).contains(x) {
                let k = choose|k: int| 0 <= k < retained(s, p).len() && retained(s, p)[k] == x;
                let j = choose|j: int|
                    0 <= j < s.len() && s[j] == #[trigger] retained(s, p)[k] && p(s[j]);
                assert(s.contains(x));
            }
        }
    }
}

/// Keeping a subsequence of an ordered table keeps it ordered.
pub proof fn lemma_retained_ok<T: Row>(s: Seq<T>, next: i64, p: spec_fn(T) -> bool)
    requires
        table_ok(s, next),
    ensures
        table_ok(retained(s, p), next),
    decreases s.len(),
{
    if s.len() > 0 {
        lemma_retained_ok(s.drop_last(), next, p);
        lemma_retained_sub(s.drop_last(), p);
        let r = retained(s.drop_last(), p);
        if p(s.last()) {
            assert forall|k: int| 0 <= k < r.len() implies #[trigger] r[k].key() < s.last().key() by {
                let j = choose|j: int|
                    0 <= j < s.drop_last().len() && s.drop_last()[j] == r[k] && p(
                        s.drop_last()[j],
                    );
                assert(s[j] == r[k]);
            }
        }
    }
}

/// Keeps the rows that satisfy `p`; tells whether any row was dropped.
pub fn retain_rows<T: Row, F: Fn(&T) -> bool>(
    rows: &mut Vec<T>,
    p: F,
    Ghost(sp): Ghost<spec_fn(T) -> bool>,
) -> (dropped: bool)
    requires
        forall|x: &T| #[trigger] p.requires((x,)),
        forall|x: &T, y: bool| #[trigger] p.ensures((x,), y) ==> y == sp(*x),
    ensures
        final(rows)@ == retained(old(rows)@, sp),
        dropped <==> exists|i: int| 0 <= i < old(rows)@.len() && !sp(old(rows)@[i]),
{
    let mut out: Vec<T> = Vec::new();
    let mut dropped = false;
    let mut i: usize = 0;
    assert(rows@.take(0) =~= Seq::<T>::empty());
    while i < rows.len()
        invariant
            i <= rows@.len(),
            forall|x: &T| #[trigger] p.requires((x,)),
            forall|x: &T, y: bool| #[trigger] p.ensures((x,), y) ==> y == sp(*x),
            out@ == retained(rows@.take(i as int), sp),
            dropped <==> exists|k: int| 0 <= k < i && !sp(rows@[k]),
        decreases rows@.len() - i,
    {
        proof {
            lemma_retained_take(rows@, i + 1, sp);
        }
        if p(&rows[i]) {
            out.push(rows[i].dup());
        } else {
            dropped = true;
        }
        i = i + 1;
    }
    assert(rows@.take(rows@.len() as int) =~= rows@);
    *rows = out;
    dropped
}

} // verus!

verus! {

/// Index of the last row that satisfies `p`, or -1.
pub open spec fn last_where<T>(s: Seq<T>, p: spec_fn(T) -> bool) -> int
    decreases s.len(),
{
    if s.len() == 0 {
        -1
    } else if p(s.last()) {
        s.len() - 1
    } else {
        last_where(s.drop_last(), p)
    }
}

/// Some row satisfies `p`.
pub open spec fn exists_where<T>(s: Seq<T>, p: spec_fn(T) -> bool) -> bool {
    exists|i: int| 0 <= i < s.len() && #[trigger] p(s[i])
}

pub proof fn lemma_last_where<T>(s: Seq<T>, p: spec_fn(T) -> bool)
    ensures
        -1 <= last_where(s, p) < s.len(),
        last_where(s, p) == -1 <==> !exists_where(s, p),
        last_where(s, p) != -1 ==> p(s[last_where(s, p)]),
        forall|k: int| last_where(s, p) < k < s.len() ==> !p(#[trigger] s[k]),
    decreases s.len(),
{
    if s.len() > 0 {
        lemma_last_where(s.drop_last(), p);
        if !p(s.last()) {
            if exists_where(s, p) {
                let i = choose|i: int| 0 <= i < s.len() && #[trigger] p(s[i]);
                assert(s.drop_last()[i] == s[i]);
            }
            assert forall|k: int| last_where(s, p) < k < s.len() implies !p(#[trigger] s[k]) by {
                if k < s.len() - 1 {
                    assert(s.drop_last()[k] == s[k]);
                }
            }
            if exists_where(s.drop_last(), p) {
                let i = choose|i: int| 0 <= i < s.drop_last().len() && #[trigger] p(s.drop_last()[i]);
                assert(s[i] == s.drop_last()[i]);
            }
        }
    }
}

/// With at most one row satisfying `p`, the row at any index satisfying it is the one.
pub proof fn lemma_last_where_unique<T>(s: Seq<T>, p: spec_fn(T) -> bool, i: int)
    requires
        0 <= i < s.len(),
        p(s[i]),
        forall|a: int, b: int| 0 <= a < b < s.len() && p(s[a]) ==> !p(s[b]),
    ensures
        last_where(s, p) == i,
{
    lemma_last_where(s, p);
    let k = last_where(s, p);
    if k != i {
        if k < i {
        } else {
        }
    }
}

/// Finds the last row that satisfies `p`.
pub fn find_where<T, F: Fn(&T) -> bool>(
    rows: &Vec<T>,
    p: F,
    Ghost(sp): Ghost<spec_fn(T) -> bool>,
) -> (r: Option<usize>)
    requires
        forall|x: &T| #[trigger] p.requires((x,)),
        forall|x: &T, y: bool| #[trigger] p.ensures((x,), y) ==> y == sp(*x),
    ensures
        match r {
            Some(i) => i as int == last_where(rows@, sp) && i < rows@.len(),
            None => last_where(rows@, sp) == -1,
        },
{
    let mut i = rows.len();
    assert(rows@.take(i as int) =~= rows@);
    while i > 0
        invariant
            i <= rows@.len(),
            forall|x: &T| #[trigger] p.requires((x,)),
            forall|x: &T, y: bool| #[trigger] p.ensures((x,), y) ==> y == sp(*x),
            last_where(rows@, sp) == last_where(rows@.take(i as int), sp),
        decreases i,
    {
        assert(rows@.take(i as int).drop_last() =~= rows@.take(i - 1));
        if p(&rows[i - 1]) {
            return Some(i - 1);
        }
        i = i - 1;
    }
    None
}

/// Does some row satisfy `p`?
pub fn any_row<T, F: Fn(&T) -> bool>(rows: &Vec<T>, p: F, Ghost(sp): Ghost<spec_fn(T) -> bool>) -> (r:
    bool)
    requires
        forall|x: &T| #[trigger] p.requires((x,)),
        forall|x: &T, y: bool| #[trigger] p.ensures((x,), y) ==> y == sp(*x),
    ensures
        r == exists_where(rows@, sp),
{
    proof {
        lemma_last_where(rows@, sp);
    }
    find_where(rows, p, Ghost(sp)).is_some()
}

} // verus!

verus! {

/// `rel` holds of every pair of rows, the earlier one first.
pub open spec fn pairwise<T>(s: Seq<T>, rel: spec_fn(T, T) -> bool) -> bool {
    forall|i: int, j: int| 0 <= i < j < s.len() ==> #[trigger] rel(s[i], s[j])
}

/// Dropping rows keeps every relation that held between the rows in order.
pub proof fn lemma_retained_pairwise<T>(s: Seq<T>, p: spec_fn(T) -> bool, rel: spec_fn(T, T) -> bool)
    requires
        pairwise(s, rel),
    ensures
        pairwise(retained(s, p), rel),
    decreases s.len(),
{
    if s.len() > 0 {
        assert(pairwise(s.drop_last(), rel)) by {
            assert forall|i: int, j: int| 0 <= i < j < s.drop_last().len() implies #[trigger] rel(
                s.drop_last()[i],
                s.drop_last()[j],
            ) by {
                assert(rel(s[i], s[j]));
            }
        }
        lemma_retained_pairwise(s.drop_last(), p, rel);
        lemma_retained_sub(s.drop_last(), p);
        let r = retained(s.drop_last(), p);
        if p(s.last()) {
            assert forall|i: int, j: int| 0 <= i < j < r.len() + 1 implies #[trigger] rel(
                r.push(s.last())[i],
                r.push(s.last())[j],
            ) by {
                if j == r.len() {
                    let k = choose|k: int|
                        0 <= k < s.drop_last().len() && s.drop_last()[k] == #[trigger] r[i] && p(
                            s.drop_last()[k],
                        );
                    assert(rel(s[k], s[s.len() - 1]));
                } else {
                    assert(rel(r[i], r[j]));
                }
            }
        }
    }
}

/// Replacing a row by one that stands in `rel` to every other row keeps `pairwise`.
pub proof fn lemma_update_pairwise<T>(s: Seq<T>, k: int, x: T, rel: spec_fn(T, T) -> bool)
    requires
        pairwise(s, rel),
        0 <= k < s.len(),
        forall|i: int| 0 <= i < k ==> #[trigger] rel(s[i], x),
        forall|i: int| k < i < s.len() ==> #[trigger] rel(x, s[i]),
    ensures
        pairwise(s.update(k, x), rel),
{
    assert forall|i: int, j: int| 0 <= i < j < s.len() implies #[trigger] rel(
        s.update(k, x)[i],
        s.update(k, x)[j],
    ) by {
        if i == k {
            assert(rel(x, s[j]));
        } else if j == k {
            assert(rel(s[i], x));
        } else {
            assert(rel(s[i], s[j]));
        }
    }
}

/// Appending a row that stands in `rel` to every earlier row keeps `pairwise`.
pub proof fn lemma_push_pairwise<T>(s: Seq<T>, x: T, rel: spec_fn(T, T) -> bool)
    requires
        pairwise(s, rel),
        forall|i: int| 0 <= i < s.len() ==> #[trigger] rel(s[i], x),
    ensures
        pairwise(s.push(x), rel),
{
    assert forall|i: int, j: int| 0 <= i < j < s.len() + 1 implies #[trigger] rel(
        s.push(x)[i],
        s.push(x)[j],
    ) by {
        if j < s.len() {
            assert(rel(s[i], s[j]));
        } else {
            assert(rel(s[i], x));
        }
    }
}

} // verus!

verus! {

/// The row with this key, if there is one.
pub fn get_by_key<T: Row>(rows: &Vec<T>, key: i64) -> (r: Option<&T>)
    ensures
        match r {
            Some(x) => lookup(rows@, key) == Some(*x),
            None => lookup(rows@, key) is None,
        },
{
    proof {
        lemma_lookup_position(rows@, key);
    }
    match find_by_key(rows, key) {
        Some(i) => Some(&rows[i]),
        None => None,
    }
}

} // verus!

verus! {

/// The page of `s` that `LIMIT limit OFFSET offset` selects: a negative offset
/// counts as none, a negative limit as no limit.
pub open spec fn page<U>(s: Seq<U>, limit: i64, offset: i64) -> Seq<U> {
    let start = if offset < 0 {
        0
    } else if offset > s.len() {
        s.len() as int
    } else {
        offset as int
    };
    let rest = s.skip(start);
    if limit < 0 || limit >= rest.len() {
        rest
    } else {
        rest.take(limit as int)
    }
}

/// The page of the rows that `LIMIT limit OFFSET offset` selects.
pub fn take_page<U>(v: Vec<U>, limit: i64, offset: i64) -> (r: Vec<U>)
    ensures
        r@ == page(v@, limit, offset),
{
    let ghost orig = v@;
    let n = v.len();
    let start: usize = if offset < 0 {
        0
    } else if offset as u64 > n as u64 {
        n
    } else {
        offset as usize
    };
    let end: usize = if limit < 0 || limit as u64 >= (n - start) as u64 {
        n
    } else {
        start + limit as usize
    };
    let mut v = v;
    while v.len() > end
        invariant
            start <= end <= n,
            n == orig.len(),
            end <= v@.len() <= n,
            v@ == orig.take(v@.len() as int),
        decreases v@.len(),
    {
        let ghost k = v@.len();
        v.pop();
        assert(v@ =~= orig.take(k - 1));
    }
    let mut dropped: usize = 0;
    while dropped < start
        invariant
            start <= end <= n,
            n == orig.len(),
            dropped <= start,
            v@ == orig.take(end as int).skip(dropped as int),
        decreases start - dropped,
    {
        v.remove(0);
        assert(v@ =~= orig.take(end as int).skip(dropped + 1));
        dropped = dropped + 1;
    }
    assert(v@ =~= page(orig, limit, offset));
    v
}

} // verus!

verus! {

/// An appended row satisfying `p` is found afterwards.
pub proof fn lemma_push_exists<T>(s: Seq<T>, x: T, p: spec_fn(T) -> bool)
    requires
        p(x),
    ensures
        exists_where(s.push(x), p),
{
    assert(s.push(x)[s.len() as int] == x);
}

/// Every row that `retained` keeps satisfies `keep`, so none satisfying `gone` is
/// left when no row satisfies both.
pub proof fn lemma_retained_excludes<T>(s: Seq<T>, keep: spec_fn(T) -> bool, gone: spec_fn(T) -> bool)
    requires
        forall|x: T| #[trigger] gone(x) ==> !keep(x),
    ensures
        !exists_where(retained(s, keep), gone),
{
    lemma_retained_sub(s, keep);
    let kept = retained(s, keep);
    if exists_where(kept, gone) {
        let k = choose|k: int| 0 <= k < kept.len() && #[trigger] gone(kept[k]);
        let j = choose|j: int| 0 <= j < s.len() && s[j] == #[trigger] kept[k] && keep(s[j]);
        assert(gone(kept[k]));
    }
}

/// The rows satisfying `pq` that `retained` drops are those satisfying `both`.
pub proof fn lemma_count_retained<T>(s: Seq<T>, keep: spec_fn(T) -> bool, pq: spec_fn(T) -> bool, both: spec_fn(T) -> bool)
    requires
        forall|x: T| #[trigger] both(x) == (pq(x) && !keep(x)),
    ensures
        count_where(retained(s, keep), pq) + count_where(s, both) == count_where(s, pq),
    decreases s.len(),
{
    if s.len() > 0 {
        let t = s.drop_last();
        lemma_count_retained(t, keep, pq, both);
        if keep(s.last()) {
            lemma_count_push(retained(t, keep), s.last(), pq);
        }
        assert(both(s.last()) == (pq(s.last()) && !keep(s.last())));
    }
}

/// No row satisfies `p`: none is counted.
pub proof fn lemma_count_none<T>(s: Seq<T>, p: spec_fn(T) -> bool)
    requires
        !exists_where(s, p),
    ensures
        count_where(s, p) == 0,
    decreases s.len(),
{
    if s.len() > 0 {
        let t = s.drop_last();
        assert(!p(s[s.len() - 1]));
        assert forall|i: int| 0 <= i < t.len() implies !#[trigger] p(t[i]) by {
            assert(!p(s[i]));
        }
        lemma_count_none(t, p);
    }
}

/// Exactly one row satisfies `p` when some does and no two do.
pub proof fn lemma_count_one<T>(s: Seq<T>, p: spec_fn(T) -> bool)
    requires
        exists_where(s, p),
        forall|i: int, j: int| 0 <= i < j < s.len() ==> !(#[trigger] p(s[i]) && #[trigger] p(s[j])),
    ensures
        count_where(s, p) == 1,
    decreases s.len(),
{
    let t = s.drop_last();
    let n = s.len() - 1;
    if p(s[n]) {
        assert forall|i: int| 0 <= i < t.len() implies !#[trigger] p(t[i]) by {
            assert(t[i] == s[i]);
            assert(!(p(s[i]) && p(s[n])));
        }
        lemma_count_none(t, p);
    } else {
        let k = choose|k: int| 0 <= k < s.len() && #[trigger] p(s[k]);
        assert(p(t[k]));
        assert forall|i: int, j: int| 0 <= i < j < t.len() implies !(#[trigger] p(t[i]) && #[trigger] p(t[j])) by {
            assert(t[i] == s[i] && t[j] == s[j]);
        }
        lemma_count_one(t, p);
    }
}

/// Appending a row adds one to the count of rows satisfying `p` when it does.
pub proof fn lemma_count_push<T>(s: Seq<T>, x: T, p: spec_fn(T) -> bool)
    ensures
        count_where(s.push(x), p) == count_where(s, p) + if p(x) { 1nat } else { 0nat },
{
    assert(s.push(x).drop_last() =~= s);
}

} // verus!

verus! {

/// Every value that `newest_first` keeps comes from some row.
pub proof fn lemma_newest_first_origin<T, U>(s: Seq<T>, f: spec_fn(T) -> Option<U>)
    ensures
        forall|i: int|
            0 <= i < newest_first(s, f).len() ==> exists|a: int|
                0 <= a < s.len() && f(s[a]) == Some(#[trigger] newest_first(s, f)[i]),
    decreases s.len(),
{
    if s.len() > 0 {
        let t = s.drop_last();
        lemma_newest_first_origin(t, f);
        let r = newest_first(s, f);
        assert forall|i: int| 0 <= i < r.len() implies exists|a: int|
            0 <= a < s.len() && f(s[a]) == Some(#[trigger] r[i]) by {
            match f(s.last()) {
                Some(u) => {
                    if i == 0 {
                        assert(f(s[s.len() - 1]) == Some(r[0]));
                    } else {
                        assert(r[i] == newest_first(t, f)[i - 1]);
                        let a = choose|a: int| 0 <= a < t.len() && f(t[a]) == Some(newest_first(t, f)[i - 1]);
                        assert(s[a] == t[a]);
                    }
                },
                None => {
                    let a = choose|a: int| 0 <= a < t.len() && f(t[a]) == Some(newest_first(t, f)[i]);
                    assert(s[a] == t[a]);
                },
            }
        }
    }
}

} // verus!

verus! {

/// A value that carries the time it was stamped with, as SQL text.
pub trait Stamped {
    spec fn stamp(&self) -> Seq<char>;

    fn stamp_text(&self) -> (r: &str)
        ensures
            r@ == self.stamp(),
    ;
}

/// Stamp `a` comes strictly before stamp `b` in the order asked for: later first
/// when `desc`, earlier first otherwise. Stamps compare as SQL compares text.
pub open spec fn precedes(a: Seq<char>, b: Seq<char>, desc: bool) -> bool {
    if desc {
        !str_le(a, b)
    } else {
        !str_le(b, a)
    }
}

/// `x` put into `s` before the first value it strictly precedes.
pub open spec fn insert_by_stamp<T: Stamped>(x: T, s: Seq<T>, desc: bool) -> Seq<T>
    decreases s.len(),
{
    if s.len() == 0 {
        seq![x]
    } else if precedes(x.stamp(), s[0].stamp(), desc) {
        seq![x] + s
    } else {
        seq![s[0]] + insert_by_stamp(x, s.drop_first(), desc)
    }
}

/// The values of `s` ordered by stamp (latest first when `desc`); values with the
/// same stamp keep their order in `s`.
pub open spec fn by_stamp<T: Stamped>(s: Seq<T>, desc: bool) -> Seq<T>
    decreases s.len(),
{
    if s.len() == 0 {
        Seq::empty()
    } else {
        insert_by_stamp(s.last(), by_stamp(s.drop_last(), desc), desc)
    }
}

/// Inserting at the first value that `x` strictly precedes.
proof fn lemma_insert_by_stamp_at<T: Stamped>(x: T, s: Seq<T>, p: int, desc: bool)
    requires
        0 <= p <= s.len(),
        forall|j: int| 0 <= j < p ==> !precedes(x.stamp(), #[trigger] s[j].stamp(), desc),
        p < s.len() ==> precedes(x.stamp(), s[p].stamp(), desc),
    ensures
        insert_by_stamp(x, s, desc) == s.insert(p, x),
    decreases s.len(),
{
    if s.len() == 0 {
        assert(seq![x] =~= s.insert(p, x));
    } else if p == 0 {
        assert(seq![x] + s =~= s.insert(0, x));
    } else {
        let t = s.drop_first();
        assert forall|j: int| 0 <= j < p - 1 implies !precedes(x.stamp(), #[trigger] t[j].stamp(), desc) by {
            assert(t[j] == s[j + 1]);
        }
        lemma_insert_by_stamp_at(x, t, p - 1, desc);
        assert(seq![s[0]] + t.insert(p - 1, x) =~= s.insert(p, x));
    }
}

/// Inserting adds `x` and keeps every other value.
pub proof fn lemma_insert_by_stamp_contents<T: Stamped>(x: T, s: Seq<T>, desc: bool)
    ensures
        insert_by_stamp(x, s, desc).len() == s.len() + 1,
        forall|y: T| #[trigger] insert_by_stamp(x, s, desc).contains(y) <==> y == x || s.contains(y),
    decreases s.len(),
{
    let r = insert_by_stamp(x, s, desc);
    if s.len() == 0 {
        assert(r[0] == x);
    } else if precedes(x.stamp(), s[0].stamp(), desc) {
        assert forall|y: T| r.contains(y) <==> y == x || s.contains(y) by {
            if r.contains(y) {
                let k = choose|k: int| 0 <= k < r.len() && r[k] == y;
                if k > 0 {
                    assert(s[k - 1] == y);
                }
            }
            if s.contains(y) {
                let k = choose|k: int| 0 <= k < s.len() && s[k] == y;
                assert(r[k + 1] == y);
            }
            if y == x {
                assert(r[0] == y);
            }
        }
    } else {
        let t = s.drop_first();
        lemma_insert_by_stamp_contents(x, t, desc);
        let rt = insert_by_stamp(x, t, desc);
        assert forall|y: T| r.contains(y) <==> y == x || s.contains(y) by {
            if r.contains(y) {
                let k = choose|k: int| 0 <= k < r.len() && r[k] == y;
                if k > 0 {
                    assert(rt[k - 1] == y);
                    assert(rt.contains(y));
                    if t.contains(y) {
                        let m = choose|m: int| 0 <= m < t.len() && t[m] == y;
                        assert(s[m + 1] == y);
                        assert(s.contains(y));
                    }
                } else {
                    assert(s[0] == y);
                    assert(s.contains(y));
                }
            }
            if s.contains(y) {
                let k = choose|k: int| 0 <= k < s.len() && s[k] == y;
                if k == 0 {
                    assert(r[0] == y);
                } else {
                    assert(t[k - 1] == y);
                    assert(t.contains(y));
                    assert(rt.contains(y));
                    let m = choose|m: int| 0 <= m < rt.len() && rt[m] == y;
                    assert(r[m + 1] == y);
                }
            }
            if y == x {
                assert(rt.contains(y));
                let m = choose|m: int| 0 <= m < rt.len() && rt[m] == y;
                assert(r[m + 1] == y);
            }
        }
    }
}

/// Ordering by stamp keeps exactly the values of `s`.
pub proof fn lemma_by_stamp_contents<T: Stamped>(s: Seq<T>, desc: bool)
    ensures
        by_stamp(s, desc).len() == s.len(),
        forall|y: T| #[trigger] by_stamp(s, desc).contains(y) <==> s.contains(y),
    decreases s.len(),
{
    if s.len() > 0 {
        let t = s.drop_last();
        lemma_by_stamp_contents(t, desc);
        lemma_insert_by_stamp_contents(s.last(), by_stamp(t, desc), desc);
        assert forall|y: T| by_stamp(s, desc).contains(y) <==> s.contains(y) by {
            if t.contains(y) {
                let k = choose|k: int| 0 <= k < t.len() && t[k] == y;
                assert(s[k] == y);
            }
            if s.contains(y) {
                let k = choose|k: int| 0 <= k < s.len() && s[k] == y;
                if k < s.len() - 1 {
                    assert(t[k] == y);
                }
            }
        }
    }
}

/// Inserting `x`, related both ways to every value, keeps a relation that holds
/// between every two values in order.
proof fn lemma_insert_by_stamp_pairwise<T: Stamped>(x: T, s: Seq<T>, desc: bool, rel: spec_fn(T, T) -> bool)
    requires
        pairwise(s, rel),
        forall|k: int| 0 <= k < s.len() ==> rel(x, #[trigger] s[k]) && rel(s[k], x),
    ensures
        pairwise(insert_by_stamp(x, s, desc), rel),
    decreases s.len(),
{
    let r = insert_by_stamp(x, s, desc);
    if s.len() == 0 {
    } else if precedes(x.stamp(), s[0].stamp(), desc) {
        assert forall|i: int, j: int| 0 <= i < j < r.len() implies #[trigger] rel(r[i], r[j]) by {
            assert(r[j] == s[j - 1]);
            if i > 0 {
                assert(r[i] == s[i - 1]);
            }
        }
    } else {
        let t = s.drop_first();
        assert forall|i: int, j: int| 0 <= i < j < t.len() implies #[trigger] rel(t[i], t[j]) by {
            assert(rel(s[i + 1], s[j + 1]));
        }
        assert forall|k: int| 0 <= k < t.len() implies rel(x, #[trigger] t[k]) && rel(t[k], x) by {
            assert(t[k] == s[k + 1]);
        }
        lemma_insert_by_stamp_pairwise(x, t, desc, rel);
        lemma_insert_by_stamp_contents(x, t, desc);
        let rt = insert_by_stamp(x, t, desc);
        assert forall|i: int, j: int| 0 <= i < j < r.len() implies #[trigger] rel(r[i], r[j]) by {
            assert(r[j] == rt[j - 1]);
            if i > 0 {
                assert(r[i] == rt[i - 1]);
            } else {
                assert(rt.contains(rt[j - 1]));
                if rt[j - 1] != x {
                    assert(t.contains(rt[j - 1]));
                    let m = choose|m: int| 0 <= m < t.len() && t[m] == rt[j - 1];
                    assert(s[m + 1] == t[m]);
                    assert(rel(s[0], s[m + 1]));
                }
            }
        }
    }
}

/// Ordering by stamp keeps a symmetric relation that holds between every two values.
pub proof fn lemma_by_stamp_pairwise<T: Stamped>(s: Seq<T>, desc: bool, rel: spec_fn(T, T) -> bool)
    requires
        pairwise(s, rel),
        forall|a: T, b: T| #[trigger] rel(a, b) == rel(b, a),
    ensures
        pairwise(by_stamp(s, desc), rel),
    decreases s.len(),
{
    if s.len() > 0 {
        let t = s.drop_last();
        let x = s.last();
        assert forall|i: int, j: int| 0 <= i < j < t.len() implies #[trigger] rel(t[i], t[j]) by {
            assert(rel(s[i], s[j]));
        }
        lemma_by_stamp_pairwise(t, desc, rel);
        lemma_by_stamp_contents(t, desc);
        let u = by_stamp(t, desc);
        assert forall|k: int| 0 <= k < u.len() implies rel(x, #[trigger] u[k]) && rel(u[k], x) by {
            assert(u.contains(u[k]));
            assert(t.contains(u[k]));
            let m = choose|m: int| 0 <= m < t.len() && t[m] == u[k];
            assert(rel(s[m], s[s.len() - 1]));
            assert(rel(x, u[k]) == rel(u[k], x));
        }
        lemma_insert_by_stamp_pairwise(x, u, desc, rel);
    }
}

/// A value stamped no earlier than any value of `s` comes last, earliest first.
pub proof fn lemma_by_stamp_push_latest<T: Stamped>(s: Seq<T>, x: T)
    requires
        forall|i: int| 0 <= i < s.len() ==> str_le(#[trigger] s[i].stamp(), x.stamp()),
    ensures
        by_stamp(s.push(x), false) == by_stamp(s, false).push(x),
{
    assert(s.push(x).drop_last() =~= s);
    lemma_by_stamp_contents(s, false);
    let u = by_stamp(s, false);
    assert forall|j: int| 0 <= j < u.len() implies !precedes(x.stamp(), #[trigger] u[j].stamp(), false) by {
        assert(u.contains(u[j]));
        let k = choose|k: int| 0 <= k < s.len() && s[k] == u[j];
        assert(str_le(s[k].stamp(), x.stamp()));
    }
    lemma_insert_by_stamp_at(x, u, u.len() as int, false);
    assert(u.insert(u.len() as int, x) =~= u.push(x));
}

/// Whether stamp `a` strictly precedes stamp `b` in the order asked for.
pub fn precedes_exec(a: &str, b: &str, desc: bool) -> (r: bool)
    ensures
        r == precedes(a@, b@, desc),
{
    if desc {
        !str_le_exec(a, b)
    } else {
        !str_le_exec(b, a)
    }
}

/// Orders the values by stamp (latest first when `desc`), keeping the order of
/// values with the same stamp.
pub fn sort_by_stamp<T: Stamped>(v: Vec<T>, desc: bool) -> (r: Vec<T>)
    ensures
        r@ == by_stamp(v@, desc),
{
    let ghost orig = v@;
    let mut rest = v;
    let mut out: Vec<T> = Vec::new();
    let ghost mut k: int = 0;
    assert(orig.skip(0) =~= orig);
    assert(orig.take(0) =~= Seq::<T>::empty());
    while rest.len() > 0
        invariant
            0 <= k <= orig.len(),
            rest@ == orig.skip(k),
            out@ == by_stamp(orig.take(k), desc),
        decreases rest@.len(),
    {
        let x = rest.remove(0);
        proof {
            assert(x == orig[k]);
            assert(rest@ =~= orig.skip(k + 1));
            assert(orig.take(k + 1).drop_last() =~= orig.take(k));
        }
        let mut p: usize = 0;
        while p < out.len() && !precedes_exec(x.stamp_text(), out[p].stamp_text(), desc)
            invariant
                p <= out@.len(),
                forall|j: int| 0 <= j < p ==> !precedes(x.stamp(), #[trigger] out@[j].stamp(), desc),
            decreases out@.len() - p,
        {
            p = p + 1;
        }
        proof {
            lemma_insert_by_stamp_at(x, out@, p as int, desc);
        }
        out.insert(p, x);
        proof {
            k = k + 1;
        }
    }
    assert(orig.take(k) =~= orig);
    out
}

/// A copy of every row, in order.
pub fn copy_rows<T: Row>(rows: &Vec<T>) -> (r: Vec<T>)
    ensures
        r@ == rows@,
{
    let mut out: Vec<T> = Vec::new();
    let mut i: usize = 0;
    while i < rows.len()
        invariant
            i <= rows@.len(),
            out@ == rows@.take(i as int),
        decreases rows@.len() - i,
    {
        assert(rows@.take(i + 1) =~= out@.push(rows@[i as int]));
        out.push(rows[i].dup());
        i = i + 1;
    }
    assert(rows@.take(rows@.len() as int) =~= rows@);
    out
}

/// The rows ordered by stamp, earliest first; rows with the same stamp keep the
/// order they were created in.
pub fn rows_by_stamp<T: Row + Stamped>(rows: &Vec<T>) -> (r: Vec<T>)
    ensures
        r@ == by_stamp(rows@, false),
{
    sort_by_stamp(copy_rows(rows), false)
}

} // verus!

verus! {

/// Whether the table is ordered by increasing keys, each positive and below `next`.
pub fn table_ok_exec<T: Row>(rows: &Vec<T>, next: i64) -> (r: bool)
    ensures
        r == table_ok(rows@, next),
{
    if next < 1 {
        return false;
    }
    let mut i: usize = 0;
    while i < rows.len()
        invariant
            1 <= next,
            i <= rows@.len(),
            forall|a: int, b: int| 0 <= a < b < i ==> rows@[a].key() < rows@[b].key(),
            forall|a: int| 0 <= a < i ==> 1 <= #[trigger] rows@[a].key() < next,
        decreases rows@.len() - i,
    {
        let k = rows[i].row_key();
        if k < 1 || k >= next {
            assert(!keys_below(rows@, next));
            return false;
        }
        if i > 0 {
            let prev = rows[i - 1].row_key();
            if prev >= k {
                assert(!keys_increasing(rows@));
                return false;
            }
        }
        i = i + 1;
    }
    true
}

/// Whether no two rows share a key.
pub fn keys_distinct_exec<T: Row>(rows: &Vec<T>) -> (r: bool)
    ensures
        r == keys_distinct(rows@),
{
    let mut i: usize = 0;
    while i < rows.len()
        invariant
            i <= rows@.len(),
            forall|a: int, b: int| 0 <= a < i && 0 <= b < rows@.len() && a != b ==> rows@[a].key() != rows@[b].key(),
        decreases rows@.len() - i,
    {
        let mut j: usize = 0;
        while j < rows.len()
            invariant
                i < rows@.len(),
                j <= rows@.len(),
                forall|b: int| 0 <= b < j && b != i ==> rows@[i as int].key() != rows@[b].key(),
            decreases rows@.len() - j,
        {
            if j != i && rows[i].row_key() == rows[j].row_key() {
                return false;
            }
            j = j + 1;
        }
        i = i + 1;
    }
    true
}

/// Whether `rel` holds between every two rows in order.
pub fn pairwise_exec<T, F: Fn(&T, &T) -> bool>(
    rows: &Vec<T>,
    f: F,
    Ghost(rel): Ghost<spec_fn(T, T) -> bool>,
) -> (r: bool)
    requires
        forall|x: &T, y: &T| #[trigger] f.requires((x, y)),
        forall|x: &T, y: &T, b: bool| #[trigger] f.ensures((x, y), b) ==> b == rel(*x, *y),
    ensures
        r == pairwise(rows@, rel),
{
    let mut i: usize = 0;
    while i < rows.len()
        invariant
            i <= rows@.len(),
            forall|x: &T, y: &T| #[trigger] f.requires((x, y)),
            forall|x: &T, y: &T, b: bool| #[trigger] f.ensures((x, y), b) ==> b == rel(*x, *y),
            forall|a: int, b: int| 0 <= a < i && a < b < rows@.len() ==> #[trigger] rel(rows@[a], rows@[b]),
        decreases rows@.len() - i,
    {
        let mut j: usize = i + 1;
        while j < rows.len()
            invariant
                i < rows@.len(),
                i + 1 <= j <= rows@.len(),
                forall|x: &T, y: &T| #[trigger] f.requires((x, y)),
                forall|x: &T, y: &T, b: bool| #[trigger] f.ensures((x, y), b) ==> b == rel(*x, *y),
                forall|b: int| i < b < j ==> #[trigger] rel(rows@[i as int], rows@[b]),
            decreases rows@.len() - j,
        {
            if !f(&rows[i], &rows[j]) {
                return false;
            }
            j = j + 1;
        }
        i = i + 1;
    }
    true
}

} // verus!

verus! {

/// A row that `f` keeps shows, as `f` maps it, in `s.filter_map(f)`.
pub proof fn lemma_filter_map_has<T, U>(s: Seq<T>, f: spec_fn(T) -> Option<U>, i: int)
    requires
        0 <= i < s.len(),
        f(s[i]) is Some,
    ensures
        s.filter_map(f).contains(f(s[i])->Some_0),
    decreases s.len(),
{
    let n = s.len() as int;
    lemma_filter_map_take(s, n, f);
    assert(s.take(n) =~= s);
    assert(s.take(n - 1) =~= s.drop_last());
    let r = s.drop_last().filter_map(f);
    if i == n - 1 {
        let u = f(s[i])->Some_0;
        assert(s.filter_map(f) == r.push(u));
        assert(r.push(u)[r.len() as int] == u);
    } else {
        assert(s.drop_last()[i] == s[i]);
        lemma_filter_map_has(s.drop_last(), f, i);
        let u = f(s[i])->Some_0;
        let k = choose|k: int| 0 <= k < r.len() && r[k] == u;
        match f(s[n - 1]) {
            Some(v) => {
                assert(s.filter_map(f) == r.push(v));
                assert(r.push(v)[k] == u);
            },
            None => {},
        }
    }
}

/// Every value of `s.filter_map(f)` is what `f` makes of some row.
pub proof fn lemma_filter_map_origin<T, U>(s: Seq<T>, f: spec_fn(T) -> Option<U>)
    ensures
        forall|k: int|
            0 <= k < s.filter_map(f).len() ==> exists|a: int|
                0 <= a < s.len() && f(s[a]) == Some(#[trigger] s.filter_map(f)[k]),
    decreases s.len(),
{
    if s.len() > 0 {
        let n = s.len() as int;
        let t = s.drop_last();
        lemma_filter_map_origin(t, f);
        lemma_filter_map_take(s, n, f);
        assert(s.take(n) =~= s);
        assert(s.take(n - 1) =~= t);
        let r = t.filter_map(f);
        assert forall|k: int| 0 <= k < s.filter_map(f).len() implies exists|a: int|
            0 <= a < s.len() && f(s[a]) == Some(#[trigger] s.filter_map(f)[k]) by {
            if k < r.len() {
                match f(s[n - 1]) {
                    Some(v) => {
                        assert(s.filter_map(f)[k] == r[k]);
                    },
                    None => {},
                }
                let a = choose|a: int| 0 <= a < t.len() && f(t[a]) == Some(r[k]);
                assert(s[a] == t[a]);
            } else {
                assert(f(s[n - 1]) is Some);
                assert(s.filter_map(f)[k] == f(s[n - 1])->Some_0);
            }
        }
    } else {
        assert(s.filter_map(f).len() == 0);
    }
}

/// A row that `f` keeps shows, as `f` maps it, in `newest_first(s, f)`.
pub proof fn lemma_newest_first_has<T, U>(s: Seq<T>, f: spec_fn(T) -> Option<U>, i: int)
    requires
        0 <= i < s.len(),
        f(s[i]) is Some,
    ensures
        newest_first(s, f).contains(f(s[i])->Some_0),
    decreases s.len(),
{
    let n = s.len() as int;
    let t = s.drop_last();
    let u = f(s[i])->Some_0;
    if i == n - 1 {
        assert(newest_first(s, f)[0] == u);
    } else {
        assert(t[i] == s[i]);
        lemma_newest_first_has(t, f, i);
        let r = newest_first(t, f);
        let k = choose|k: int| 0 <= k < r.len() && r[k] == u;
        match f(s[n - 1]) {
            Some(v) => {
                assert(newest_first(s, f)[k + 1] == u);
            },
            None => {
                assert(newest_first(s, f)[k] == u);
            },
        }
    }
}

/// A row that `f` keeps shows in the listing of the rows by stamp, latest first.
pub proof fn lemma_listed_by_stamp<T: Stamped, U>(s: Seq<T>, f: spec_fn(T) -> Option<U>, i: int)
    requires
        0 <= i < s.len(),
        f(s[i]) is Some,
    ensures
        newest_first(by_stamp(s, false), f).contains(f(s[i])->Some_0),
{
    lemma_by_stamp_contents(s, false);
    let b = by_stamp(s, false);
    assert(s.contains(s[i]));
    assert(b.contains(s[i]));
    let j = choose|j: int| 0 <= j < b.len() && b[j] == s[i];
    lemma_newest_first_has(b, f, j);
}

/// Every value of the listing of the rows by stamp is what `f` makes of some row.
pub proof fn lemma_listed_by_stamp_origin<T: Stamped, U>(s: Seq<T>, f: spec_fn(T) -> Option<U>)
    ensures
        forall|k: int|
            0 <= k < newest_first(by_stamp(s, false), f).len() ==> exists|a: int|
                0 <= a < s.len() && f(s[a]) == Some(#[trigger] newest_first(by_stamp(s, false), f)[k]),
{
    lemma_by_stamp_contents(s, false);
    let b = by_stamp(s, false);
    lemma_newest_first_origin(b, f);
    assert forall|k: int| 0 <= k < newest_first(b, f).len() implies exists|a: int|
        0 <= a < s.len() && f(s[a]) == Some(#[trigger] newest_first(b, f)[k]) by {
        let j = choose|j: int| 0 <= j < b.len() && f(b[j]) == Some(newest_first(b, f)[k]);
        assert(b.contains(b[j]));
        assert(s.contains(b[j]));
        let a = choose|a: int| 0 <= a < s.len() && s[a] == b[j];
    }
}

/// No more rows are counted than there are.
pub proof fn lemma_count_le<T>(s: Seq<T>, p: spec_fn(T) -> bool)
    ensures
        count_where(s, p) <= s.len(),
    decreases s.len(),
{
    if s.len() > 0 {
        lemma_count_le(s.drop_last(), p);
    }
}

} // verus!
