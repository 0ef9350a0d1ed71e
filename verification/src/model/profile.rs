use vstd::prelude::*;
use crate::db::{Database, DbView, UserRow};
use crate::model::interest::Interest;
use crate::seqs::{
    Row, collect_oldest, exists_where, any_row, find_by_key, get_by_key, keys_distinct,
    lemma_filter_map_take, lemma_lookup_distinct, lemma_lookup_position, lookup, position,
};
use crate::text::{
    chars_of, containing, containing_pattern, dup_opt, like_match, lemma_parse_without_minus,
    lemma_split_pieces_lack_sep, opt_like, opt_str_like, opt_view, parse_i64, parse_i64_chars,
    split_chars, split_pieces, sql_cast_int, sql_cast_int_chars, str_eq, str_like, string_of, trim,
    trim_chars,
};

verus! {

/// The dating profile of a user; at most one per user.
#[derive(Clone, Debug)]
pub struct Profile {
    pub user_id: i64,
    pub birthday: Option<String>,
    pub gender: Option<String>,
    pub city: Option<String>,
    pub occupation: Option<String>,
    pub education: Option<String>,
    pub height: Option<i64>,
    pub looking_for: Option<String>,
    pub about_me: Option<String>,
    pub updated_at: String,
}

impl Row for Profile {
    open spec fn key(&self) -> i64 {
        self.user_id
    }

    fn row_key(&self) -> (r: i64) {
        self.user_id
    }

    fn dup(&self) -> (r: Self) {
        Profile {
            user_id: self.user_id,
            birthday: dup_opt(&self.birthday),
            gender: dup_opt(&self.gender),
            city: dup_opt(&self.city),
            occupation: dup_opt(&self.occupation),
            education: dup_opt(&self.education),
            height: self.height,
            looking_for: dup_opt(&self.looking_for),
            about_me: dup_opt(&self.about_me),
            updated_at: self.updated_at.clone(),
        }
    }
}

/// A user joined with their profile, as a search returns it.
#[derive(Clone, Debug)]
pub struct ProfileWithUser {
    pub user_id: i64,
    pub username: String,
    pub display_name: String,
    pub bio: Option<String>,
    pub birthday: Option<String>,
    pub gender: Option<String>,
    pub city: Option<String>,
    pub occupation: Option<String>,
    pub education: Option<String>,
    pub height: Option<i64>,
    pub looking_for: Option<String>,
    pub about_me: Option<String>,
    pub tags: Vec<String>,
    pub age: Option<i64>,
}

/// The criteria of a profile search; each one left out matches everyone.
#[derive(Clone, Debug)]
pub struct ProfileSearch {
    pub gender: Option<String>,
    pub age_min: Option<i64>,
    pub age_max: Option<i64>,
    pub city: Option<String>,
    pub occupation: Option<String>,
    pub education: Option<String>,
    pub height_min: Option<i64>,
    pub height_max: Option<i64>,
    pub looking_for: Option<String>,
    pub tags: Option<String>,
    pub q: Option<String>,
}

/// The profile stored for `user_id` from the fields of `p`, stamped at `now`.
pub open spec fn profile_row(user_id: i64, p: Profile, now: String) -> Profile {
    Profile {
        user_id: user_id,
        birthday: p.birthday,
        gender: p.gender,
        city: p.city,
        occupation: p.occupation,
        education: p.education,
        height: p.height,
        looking_for: p.looking_for,
        about_me: p.about_me,
        updated_at: now,
    }
}

/// What saving a profile does: the user's profile is replaced in place when there
/// is one, and appended otherwise.
pub open spec fn profile_upserted(old_db: DbView, new_db: DbView, user_id: i64, p: Profile) -> bool {
    let row = profile_row(user_id, p, old_db.now);
    new_db == (DbView {
        profiles: if lookup(old_db.profiles, user_id) is Some {
            old_db.profiles.update(position(old_db.profiles, user_id), row)
        } else {
            old_db.profiles.push(row)
        },
        ..old_db
    })
}

/// Saves the fields of `p` as the profile of `user_id` (its `user_id` and
/// `updated_at` are not read).
pub fn upsert_profile(db: &mut Database, user_id: i64, p: &Profile)
    requires
        old(db).wf(),
    ensures
        final(db).wf(),
        profile_upserted(old(db)@, final(db)@, user_id, *p),
{
    let row = Profile {
        user_id,
        birthday: dup_opt(&p.birthday),
        gender: dup_opt(&p.gender),
        city: dup_opt(&p.city),
        occupation: dup_opt(&p.occupation),
        education: dup_opt(&p.education),
        height: p.height,
        looking_for: dup_opt(&p.looking_for),
        about_me: dup_opt(&p.about_me),
        updated_at: db.now.clone(),
    };
    proof {
        lemma_lookup_position(db.profiles@, user_id);
    }
    match find_by_key(&db.profiles, user_id) {
        Some(k) => {
            let ghost before = db.profiles@;
            db.profiles.set(k, row);
            assert(keys_distinct(db.profiles@)) by {
                assert forall|i: int, j: int|
                    0 <= i < db.profiles@.len() && 0 <= j < db.profiles@.len() && i != j implies
                    db.profiles@[i].key() != db.profiles@[j].key() by {
                    if i != k && j != k {
                        assert(before[i].key() != before[j].key());
                    } else if i == k {
                        assert(before[k as int].key() != before[j].key());
                    } else {
                        assert(before[i].key() != before[k as int].key());
                    }
                }
            }
        },
        None => {
            db.profiles.push(row);
        },
    }
}

/// The user's profile, if there is one.
pub fn get_profile(db: &Database, user_id: i64) -> (r: Option<Profile>)
    ensures
        r == lookup(db@.profiles, user_id),
{
    match get_by_key(&db.profiles, user_id) {
        Some(p) => Some(p.dup()),
        None => None,
    }
}

/// The year the ages are counted in.
pub open spec fn this_year() -> int {
    2026
}

/// The age of someone born on `birthday` (written year-month-day): the current year
/// less the year, when the text has exactly three dash-separated parts and the
/// first one is a number.
pub open spec fn age_of(birthday: Seq<char>) -> Option<i64> {
    let parts = split_pieces(birthday, '-');
    if parts.len() != 3 {
        None
    } else {
        match parse_i64(parts[0]) {
            Some(y) => Some((this_year() - y) as i64),
            None => None,
        }
    }
}

/// The age of someone born on `birthday`; see `age_of`.
pub fn get_age(birthday: &str) -> (r: Option<i64>)
    ensures
        r == age_of(birthday@),
        r matches Some(a) ==> a == this_year() - parse_i64(split_pieces(birthday@, '-')[0])->Some_0,
{
    let cs = chars_of(birthday);
    let parts = split_chars(&cs, '-');
    if parts.len() != 3 {
        return None;
    }
    let year = match parse_i64_chars(&parts[0]) {
        Some(y) => y,
        None => return None,
    };
    proof {
        lemma_split_pieces_lack_sep(birthday@, '-');
        let first = split_pieces(birthday@, '-')[0];
        assert forall|i: int| 0 <= i < first.len() implies first[i] != '-' by {
            assert(split_pieces(birthday@, '-')[0][i] != '-');
        }
        lemma_parse_without_minus(first);
    }
    Some(2026 - year)
}

/// A search result as values: the texts as character sequences.
pub ghost struct ProfileWithUserView {
    pub user_id: i64,
    pub username: Seq<char>,
    pub display_name: Seq<char>,
    pub bio: Option<Seq<char>>,
    pub birthday: Option<Seq<char>>,
    pub gender: Option<Seq<char>>,
    pub city: Option<Seq<char>>,
    pub occupation: Option<Seq<char>>,
    pub education: Option<Seq<char>>,
    pub height: Option<i64>,
    pub looking_for: Option<Seq<char>>,
    pub about_me: Option<Seq<char>>,
    pub tags: Seq<Seq<char>>,
    pub age: Option<i64>,
}

impl View for ProfileWithUser {
    type V = ProfileWithUserView;

    open spec fn view(&self) -> ProfileWithUserView {
        ProfileWithUserView {
            user_id: self.user_id,
            username: self.username@,
            display_name: self.display_name@,
            bio: opt_view(self.bio),
            birthday: opt_view(self.birthday),
            gender: opt_view(self.gender),
            city: opt_view(self.city),
            occupation: opt_view(self.occupation),
            education: opt_view(self.education),
            height: self.height,
            looking_for: opt_view(self.looking_for),
            about_me: opt_view(self.about_me),
            tags: self.tags@.map_values(|t: String| t@),
            age: self.age,
        }
    }
}

/// `column = value`; a search without the value matches everyone, a missing column
/// (SQL `NULL`) matches no value.
pub open spec fn text_equals(want: Option<String>, have: Option<String>) -> bool {
    match want {
        None => true,
        Some(w) => match have {
            Some(h) => h@ == w@,
            None => false,
        },
    }
}

/// `column LIKE '%value%'`, with the same reading of missing values.
pub open spec fn text_contains(want: Option<String>, have: Option<String>) -> bool {
    match want {
        None => true,
        Some(w) => opt_like(have, containing(w@)),
    }
}

/// `column >= bound`.
pub open spec fn at_least(bound: Option<i64>, have: Option<i64>) -> bool {
    match bound {
        None => true,
        Some(b) => match have {
            Some(h) => h >= b,
            None => false,
        },
    }
}

/// `column <= bound`.
pub open spec fn at_most(bound: Option<i64>, have: Option<i64>) -> bool {
    match bound {
        None => true,
        Some(b) => match have {
            Some(h) => h <= b,
            None => false,
        },
    }
}

/// The birth year as the search reads it: `CAST(SUBSTR(birthday, 1, 4) AS INTEGER)`.
pub open spec fn birth_year(birthday: Seq<char>) -> int {
    sql_cast_int(birthday.take(if birthday.len() < 4 { birthday.len() as int } else { 4 }))
}

/// Born in the year `this_year() - age_max` or later.
pub open spec fn young_enough(age_max: Option<i64>, birthday: Option<String>) -> bool {
    match age_max {
        None => true,
        Some(a) => match birthday {
            Some(b) => birth_year(b@) >= this_year() - a,
            None => false,
        },
    }
}

/// Born in the year `this_year() - age_min` or earlier.
pub open spec fn old_enough(age_min: Option<i64>, birthday: Option<String>) -> bool {
    match age_min {
        None => true,
        Some(a) => match birthday {
            Some(b) => birth_year(b@) <= this_year() - a,
            None => false,
        },
    }
}

/// The free-text search: the text occurs in the "about me", the occupation or the
/// display name.
pub open spec fn free_text_matches(
    q: Option<String>,
    about_me: Option<String>,
    occupation: Option<String>,
    display_name: Seq<char>,
) -> bool {
    match q {
        None => true,
        Some(q) => opt_like(about_me, containing(q@)) || opt_like(occupation, containing(q@))
            || like_match(containing(q@), display_name),
    }
}

/// Every criterion of the search that reads the columns holds.
pub open spec fn columns_match(
    s: ProfileSearch,
    gender: Option<String>,
    city: Option<String>,
    occupation: Option<String>,
    education: Option<String>,
    looking_for: Option<String>,
    height: Option<i64>,
    birthday: Option<String>,
    about_me: Option<String>,
    display_name: Seq<char>,
) -> bool {
    &&& text_equals(s.gender, gender)
    &&& text_contains(s.city, city)
    &&& text_contains(s.occupation, occupation)
    &&& text_equals(s.education, education)
    &&& text_equals(s.looking_for, looking_for)
    &&& at_least(s.height_min, height)
    &&& at_most(s.height_max, height)
    &&& young_enough(s.age_max, birthday)
    &&& old_enough(s.age_min, birthday)
    &&& free_text_matches(s.q, about_me, occupation, display_name)
}

/// A piece of the tag list, trimmed, when something is left of it.
pub open spec fn tag_piece() -> spec_fn(Seq<char>) -> Option<Seq<char>> {
    |x: Seq<char>|
        if trim(x).len() > 0 {
            Some(trim(x))
        } else {
            None
        }
}

/// The tags asked for: the comma-separated pieces, trimmed, the empty ones left out.
pub open spec fn tag_list(tags: Option<String>) -> Seq<Seq<char>> {
    match tags {
        None => Seq::empty(),
        Some(t) => split_pieces(t@, ',').filter_map(tag_piece()),
    }
}

/// An interest of the user with one of the tags.
pub open spec fn listed_interest(user_id: i64, tags: Seq<Seq<char>>) -> spec_fn(Interest) -> bool {
    |i: Interest| i.user_id == user_id && tags.contains(i.tag@)
}

/// The user is listed by the search.
pub open spec fn profile_selected(db: DbView, s: ProfileSearch, u: UserRow) -> bool {
    &&& match lookup(db.profiles, u.id) {
        Some(p) => columns_match(
            s,
            p.gender,
            p.city,
            p.occupation,
            p.education,
            p.looking_for,
            p.height,
            p.birthday,
            p.about_me,
            u.display_name@,
        ),
        None => columns_match(s, None, None, None, None, None, None, None, None, u.display_name@),
    }
    &&& tag_list(s.tags).len() > 0 ==> exists_where(db.interests, listed_interest(u.id, tag_list(s.tags)))
}

/// The tag of an interest of the user.
pub open spec fn tag_of(user_id: i64) -> spec_fn(Interest) -> Option<String> {
    |i: Interest|
        if i.user_id == user_id {
            Some(i.tag)
        } else {
            None
        }
}

/// The tags shown with a result: all the user's interests, oldest first, when tags
/// were asked for, and none otherwise.
pub open spec fn shown_tags(db: DbView, s: ProfileSearch, user_id: i64) -> Seq<Seq<char>> {
    if tag_list(s.tags).len() > 0 {
        db.interests.filter_map(tag_of(user_id)).map_values(|t: String| t@)
    } else {
        Seq::empty()
    }
}

/// The result shown for a listed user: the user joined with their profile.
pub open spec fn found_view(db: DbView, s: ProfileSearch, u: UserRow) -> ProfileWithUserView {
    match lookup(db.profiles, u.id) {
        Some(p) => ProfileWithUserView {
            user_id: u.id,
            username: u.username@,
            display_name: u.display_name@,
            bio: opt_view(u.bio),
            birthday: opt_view(p.birthday),
            gender: opt_view(p.gender),
            city: opt_view(p.city),
            occupation: opt_view(p.occupation),
            education: opt_view(p.education),
            height: p.height,
            looking_for: opt_view(p.looking_for),
            about_me: opt_view(p.about_me),
            tags: shown_tags(db, s, u.id),
            age: match p.birthday {
                Some(b) => age_of(b@),
                None => None,
            },
        },
        None => ProfileWithUserView {
            user_id: u.id,
            username: u.username@,
            display_name: u.display_name@,
            bio: opt_view(u.bio),
            birthday: None,
            gender: None,
            city: None,
            occupation: None,
            education: None,
            height: None,
            looking_for: None,
            about_me: None,
            tags: shown_tags(db, s, u.id),
            age: None,
        },
    }
}

/// What the search shows of a user: the joined result when the user is listed.
pub open spec fn search_entry(db: DbView, s: ProfileSearch) -> spec_fn(UserRow) -> Option<ProfileWithUserView> {
    |u: UserRow|
        if profile_selected(db, s, u) {
            Some(found_view(db, s, u))
        } else {
            None
        }
}

/// The age bounds turn into birth years within the range of `i64`.
pub open spec fn search_ok(s: ProfileSearch) -> bool {
    &&& s.age_max matches Some(a) ==> this_year() - a <= i64::MAX
    &&& s.age_min matches Some(a) ==> this_year() - a <= i64::MAX
}

/// The search criteria, prepared once: the `LIKE` patterns, the birth years and the
/// tag list.
struct Prepared {
    city: Option<Vec<char>>,
    occupation: Option<Vec<char>>,
    q: Option<Vec<char>>,
    year_from: Option<i64>,
    year_until: Option<i64>,
    tags: Vec<String>,
}

spec fn pattern_for(v: Option<Vec<char>>, w: Option<String>) -> bool {
    match w {
        Some(w) => v matches Some(p) && p@ == containing(w@),
        None => v is None,
    }
}

spec fn year_for(y: Option<i64>, age: Option<i64>) -> bool {
    match age {
        Some(a) => y matches Some(v) && v == this_year() - a,
        None => y is None,
    }
}

spec fn prepared_for(pr: Prepared, s: ProfileSearch) -> bool {
    &&& pattern_for(pr.city, s.city)
    &&& pattern_for(pr.occupation, s.occupation)
    &&& pattern_for(pr.q, s.q)
    &&& year_for(pr.year_from, s.age_max)
    &&& year_for(pr.year_until, s.age_min)
    &&& pr.tags@.len() == tag_list(s.tags).len()
    &&& forall|k: int| 0 <= k < pr.tags@.len() ==> #[trigger] pr.tags@[k]@ == tag_list(s.tags)[k]
}

fn pattern_of(w: &Option<String>) -> (r: Option<Vec<char>>)
    ensures
        pattern_for(r, *w),
{
    match w {
        Some(w) => Some(containing_pattern(w.as_str())),
        None => None,
    }
}

fn year_of(age: Option<i64>) -> (r: Option<i64>)
    requires
        age matches Some(a) ==> this_year() - a <= i64::MAX,
    ensures
        year_for(r, age),
{
    match age {
        Some(a) => Some(2026 - a),
        None => None,
    }
}

/// The tag list of the search; see `tag_list`.
fn parse_tags(tags: &Option<String>) -> (r: Vec<String>)
    ensures
        r@.len() == tag_list(*tags).len(),
        forall|k: int| 0 <= k < r@.len() ==> #[trigger] r@[k]@ == tag_list(*tags)[k],
{
    let mut out: Vec<String> = Vec::new();
    match tags {
        None => {},
        Some(t) => {
            let cs = chars_of(t.as_str());
            let pieces = split_chars(&cs, ',');
            let ghost sp = split_pieces(t@, ',');
            let mut k: usize = 0;
            assert(sp.take(0) =~= Seq::<Seq<char>>::empty());
            while k < pieces.len()
                invariant
                    k <= pieces@.len(),
                    pieces@.len() == sp.len(),
                    sp == split_pieces(t@, ','),
                    forall|m: int| 0 <= m < pieces@.len() ==> #[trigger] pieces@[m]@ == sp[m],
                    out@.len() == sp.take(k as int).filter_map(tag_piece()).len(),
                    forall|m: int| 0 <= m < out@.len() ==> #[trigger] out@[m]@ == sp.take(k as int).filter_map(tag_piece())[m],
                decreases pieces@.len() - k,
            {
                proof {
                    lemma_filter_map_take(sp, k + 1, tag_piece());
                }
                let piece = trim_chars(&pieces[k]);
                assert(piece@ == trim(sp[k as int]));
                if piece.len() > 0 {
                    let ghost before = out@;
                    out.push(string_of(&piece));
                    assert forall|m: int| 0 <= m < out@.len() implies #[trigger] out@[m]@ == sp.take(k + 1).filter_map(tag_piece())[m] by {
                        if m < before.len() {
                            assert(out@[m] == before[m]);
                        }
                    }
                }
                k = k + 1;
            }
            assert(sp.take(sp.len() as int) =~= sp);
        },
    }
    out
}

fn prepare(s: &ProfileSearch) -> (r: Prepared)
    requires
        search_ok(*s),
    ensures
        prepared_for(r, *s),
{
    Prepared {
        city: pattern_of(&s.city),
        occupation: pattern_of(&s.occupation),
        q: pattern_of(&s.q),
        year_from: year_of(s.age_max),
        year_until: year_of(s.age_min),
        tags: parse_tags(&s.tags),
    }
}

fn text_equals_exec(want: &Option<String>, have: &Option<String>) -> (r: bool)
    ensures
        r == text_equals(*want, *have),
{
    match want {
        None => true,
        Some(w) => match have {
            Some(h) => str_eq(h.as_str(), w.as_str()),
            None => false,
        },
    }
}

fn text_contains_exec(pat: &Option<Vec<char>>, want: &Option<String>, have: &Option<String>) -> (r: bool)
    requires
        pattern_for(*pat, *want),
    ensures
        r == text_contains(*want, *have),
{
    match pat {
        None => true,
        Some(p) => opt_str_like(have, p),
    }
}

/// The birth year as the search reads it; see `birth_year`.
fn birth_year_exec(birthday: &str) -> (r: i64)
    ensures
        r == birth_year(birthday@),
{
    let cs = chars_of(birthday);
    let n: usize = if cs.len() < 4 { cs.len() } else { 4 };
    let mut head: Vec<char> = Vec::new();
    let mut i: usize = 0;
    while i < n
        invariant
            i <= n,
            n <= cs@.len(),
            n <= 4,
            head@ == cs@.take(i as int),
        decreases n - i,
    {
        head.push(cs[i]);
        assert(cs@.take(i + 1) =~= cs@.take(i as int).push(cs@[i as int]));
        i = i + 1;
    }
    sql_cast_int_chars(&head)
}

fn year_criterion(year: Option<i64>, birthday: &Option<String>, from: bool) -> (r: bool)
    ensures
        r == match year {
            None => true,
            Some(y) => match birthday {
                Some(b) => if from { birth_year(b@) >= y } else { birth_year(b@) <= y },
                None => false,
            },
        },
{
    match year {
        None => true,
        Some(y) => match birthday {
            Some(b) => {
                let by = birth_year_exec(b.as_str());
                if from {
                    by >= y
                } else {
                    by <= y
                }
            },
            None => false,
        },
    }
}

fn columns_match_exec(
    s: &ProfileSearch,
    pr: &Prepared,
    gender: &Option<String>,
    city: &Option<String>,
    occupation: &Option<String>,
    education: &Option<String>,
    looking_for: &Option<String>,
    height: Option<i64>,
    birthday: &Option<String>,
    about_me: &Option<String>,
    display_name: &str,
) -> (r: bool)
    requires
        prepared_for(*pr, *s),
    ensures
        r == columns_match(
            *s,
            *gender,
            *city,
            *occupation,
            *education,
            *looking_for,
            height,
            *birthday,
            *about_me,
            display_name@,
        ),
{
    if !text_equals_exec(&s.gender, gender) {
        return false;
    }
    if !text_contains_exec(&pr.city, &s.city, city) {
        return false;
    }
    if !text_contains_exec(&pr.occupation, &s.occupation, occupation) {
        return false;
    }
    if !text_equals_exec(&s.education, education) {
        return false;
    }
    if !text_equals_exec(&s.looking_for, looking_for) {
        return false;
    }
    let tall = match s.height_min {
        None => true,
        Some(b) => match height {
            Some(h) => h >= b,
            None => false,
        },
    };
    let short = match s.height_max {
        None => true,
        Some(b) => match height {
            Some(h) => h <= b,
            None => false,
        },
    };
    if !tall || !short {
        return false;
    }
    if !year_criterion(pr.year_from, birthday, true) {
        return false;
    }
    if !year_criterion(pr.year_until, birthday, false) {
        return false;
    }
    match &pr.q {
        None => true,
        Some(p) => opt_str_like(about_me, p) || opt_str_like(occupation, p) || str_like(display_name, p),
    }
}

/// The text is one of the tags.
fn listed(tags: &Vec<String>, t: &str) -> (r: bool)
    ensures
        r == tags@.map_values(|x: String| x@).contains(t@),
{
    let ghost view = tags@.map_values(|x: String| x@);
    let mut k: usize = 0;
    while k < tags.len()
        invariant
            k <= tags@.len(),
            view == tags@.map_values(|x: String| x@),
            forall|m: int| 0 <= m < k ==> view[m] != t@,
        decreases tags@.len() - k,
    {
        if str_eq(tags[k].as_str(), t) {
            assert(view[k as int] == t@);
            return true;
        }
        k = k + 1;
    }
    false
}

fn search_one(db: &Database, s: &ProfileSearch, pr: &Prepared, u: &UserRow) -> (r: Option<
    ProfileWithUser,
>)
    requires
        prepared_for(*pr, *s),
    ensures
        match r {
            Some(x) => search_entry(db@, *s)(*u) == Some(x@),
            None => search_entry(db@, *s)(*u) is None,
        },
{
    let ghost tl = tag_list(s.tags);
    assert(pr.tags@.map_values(|x: String| x@) =~= tl);
    let prof = get_by_key(&db.profiles, u.id);
    let none: Option<String> = None;
    let fits = match prof {
        Some(p) => columns_match_exec(
            s,
            pr,
            &p.gender,
            &p.city,
            &p.occupation,
            &p.education,
            &p.looking_for,
            p.height,
            &p.birthday,
            &p.about_me,
            u.display_name.as_str(),
        ),
        None => columns_match_exec(
            s,
            pr,
            &none,
            &none,
            &none,
            &none,
            &none,
            None,
            &none,
            &none,
            u.display_name.as_str(),
        ),
    };
    if !fits {
        return None;
    }
    let want_tags = pr.tags.len() > 0;
    if want_tags {
        let uid = u.id;
        let tags = &pr.tags;
        let hit = any_row(
            &db.interests,
            |i: &Interest| -> (b: bool) ensures b == listed_interest(uid, tl)(*i) { i.user_id == uid && listed(tags, i.tag.as_str()) },
            Ghost(listed_interest(uid, tl)),
        );
        if !hit {
            return None;
        }
    }
    let tags = if want_tags {
        let uid = u.id;
        collect_oldest(
            &db.interests,
            |i: &Interest| -> (r: Option<String>) ensures r == tag_of(uid)(*i) { if i.user_id == uid { Some(i.tag.clone()) } else { None } },
            Ghost(tag_of(uid)),
        )
    } else {
        Vec::new()
    };
    assert(tags@.map_values(|t: String| t@) =~= shown_tags(db@, *s, u.id));
    let found = match prof {
        Some(p) => ProfileWithUser {
            user_id: u.id,
            username: u.username.clone(),
            display_name: u.display_name.clone(),
            bio: dup_opt(&u.bio),
            birthday: dup_opt(&p.birthday),
            gender: dup_opt(&p.gender),
            city: dup_opt(&p.city),
            occupation: dup_opt(&p.occupation),
            education: dup_opt(&p.education),
            height: p.height,
            looking_for: dup_opt(&p.looking_for),
            about_me: dup_opt(&p.about_me),
            tags,
            age: match &p.birthday {
                Some(b) => get_age(b.as_str()),
                None => None,
            },
        },
        None => ProfileWithUser {
            user_id: u.id,
            username: u.username.clone(),
            display_name: u.display_name.clone(),
            bio: dup_opt(&u.bio),
            birthday: None,
            gender: None,
            city: None,
            occupation: None,
            education: None,
            height: None,
            looking_for: None,
            about_me: None,
            tags,
            age: None,
        },
    };
    assert(found@ == found_view(db@, *s, *u));
    Some(found)
}

/// The users the search lists, by id, each joined with their profile; the tags of
/// each are shown when tags were asked for.
pub fn search_profiles(db: &Database, s: &ProfileSearch) -> (r: Vec<ProfileWithUser>)
    requires
        search_ok(*s),
    ensures
        r@.len() == db@.users.filter_map(search_entry(db@, *s)).len(),
        forall|k: int|
            0 <= k < r@.len() ==> #[trigger] r@[k]@ == db@.users.filter_map(search_entry(db@, *s))[k],
{
    let pr = prepare(s);
    let ghost f = search_entry(db@, *s);
    let mut out: Vec<ProfileWithUser> = Vec::new();
    let mut i: usize = 0;
    assert(db@.users.take(0) =~= Seq::<UserRow>::empty());
    while i < db.users.len()
        invariant
            i <= db@.users.len(),
            prepared_for(pr, *s),
            f == search_entry(db@, *s),
            out@.len() == db@.users.take(i as int).filter_map(f).len(),
            forall|k: int| 0 <= k < out@.len() ==> #[trigger] out@[k]@ == db@.users.take(i as int).filter_map(f)[k],
        decreases db@.users.len() - i,
    {
        proof {
            lemma_filter_map_take(db@.users, i + 1, f);
        }
        let ghost before = out@;
        match search_one(db, s, &pr, &db.users[i]) {
            Some(x) => {
                out.push(x);
                assert forall|k: int| 0 <= k < out@.len() implies #[trigger] out@[k]@ == db@.users.take(i + 1).filter_map(f)[k] by {
                    if k < before.len() {
                        assert(out@[k] == before[k]);
                    }
                }
            },
            None => {},
        }
        i = i + 1;
    }
    assert(db@.users.take(db@.users.len() as int) =~= db@.users);
    out
}

/// Reading a profile back after saving it gives the saved fields, stamped with the
/// time of saving.
pub proof fn law_profile_saved(old_db: DbView, new_db: DbView, user_id: i64, p: Profile)
    requires
        old_db.wf(),
        profile_upserted(old_db, new_db, user_id, p),
    ensures
        lookup(new_db.profiles, user_id) == Some(profile_row(user_id, p, old_db.now)),
{
    lemma_lookup_position(old_db.profiles, user_id);
    let row = profile_row(user_id, p, old_db.now);
    if lookup(old_db.profiles, user_id) is Some {
        let k = position(old_db.profiles, user_id);
        let after = old_db.profiles.update(k, row);
        assert(keys_distinct(after)) by {
            assert forall|i: int, j: int|
                0 <= i < after.len() && 0 <= j < after.len() && i != j implies after[i].key() != after[j].key() by {
                if i != k && j != k {
                    assert(old_db.profiles[i].key() != old_db.profiles[j].key());
                } else if i == k {
                    assert(old_db.profiles[k].key() != old_db.profiles[j].key());
                } else {
                    assert(old_db.profiles[i].key() != old_db.profiles[k].key());
                }
            }
        }
        lemma_lookup_distinct(after, k);
    } else {
        assert(new_db.profiles.drop_last() =~= old_db.profiles);
    }
}

/// What a profile search lists, before it is copied out.
pub open spec fn profile_search(db: DbView, s: ProfileSearch) -> Seq<ProfileWithUserView> {
    db.users.filter_map(search_entry(db, s))
}

/// Every user a profile search lists meets each criterion given: the gender,
/// education and looking-for columns equal the values asked for; the city and the
/// occupation hold the texts asked for; the height and the birth year lie within the
/// bounds; the free text occurs in the "about me", the occupation or the display
/// name; and the user has an interest with one of the tags asked for. A criterion
/// that the profile cannot meet (its column missing, or no profile at all) keeps the
/// user out.
pub proof fn law_profile_search_meets_criteria(db: DbView, s: ProfileSearch)
    ensures
        forall|k: int| 0 <= k < profile_search(db, s).len() ==> {
            let x = #[trigger] profile_search(db, s)[k];
            &&& (s.gender matches Some(g) ==> x.gender == Some(g@))
            &&& (s.education matches Some(e) ==> x.education == Some(e@))
            &&& (s.looking_for matches Some(w) ==> x.looking_for == Some(w@))
            &&& (s.city matches Some(c) ==> x.city matches Some(v) && like_match(containing(c@), v))
            &&& (s.occupation matches Some(o) ==> x.occupation matches Some(v) && like_match(containing(o@), v))
            &&& (s.height_min matches Some(h) ==> x.height matches Some(v) && v >= h)
            &&& (s.height_max matches Some(h) ==> x.height matches Some(v) && v <= h)
            &&& (s.age_max matches Some(a) ==> x.birthday matches Some(b) && birth_year(b) >= this_year() - a)
            &&& (s.age_min matches Some(a) ==> x.birthday matches Some(b) && birth_year(b) <= this_year() - a)
            &&& (s.q matches Some(q) ==> (x.about_me matches Some(v) && like_match(containing(q@), v)) || (
                x.occupation matches Some(v) && like_match(containing(q@), v)) || like_match(containing(q@), x.display_name))
            &&& (tag_list(s.tags).len() > 0 ==> exists|j: int|
                0 <= j < db.interests.len() && (#[trigger] db.interests[j]).user_id == x.user_id && tag_list(
                    s.tags,
                ).contains(db.interests[j].tag@))
        },
{
    let f = search_entry(db, s);
    crate::seqs::lemma_filter_map_origin(db.users, f);
    assert forall|k: int| 0 <= k < profile_search(db, s).len() implies {
        let x = #[trigger] profile_search(db, s)[k];
            &&& (s.gender matches Some(g) ==> x.gender == Some(g@))
            &&& (s.education matches Some(e) ==> x.education == Some(e@))
            &&& (s.looking_for matches Some(w) ==> x.looking_for == Some(w@))
            &&& (s.city matches Some(c) ==> x.city matches Some(v) && like_match(containing(c@), v))
            &&& (s.occupation matches Some(o) ==> x.occupation matches Some(v) && like_match(containing(o@), v))
            &&& (s.height_min matches Some(h) ==> x.height matches Some(v) && v >= h)
            &&& (s.height_max matches Some(h) ==> x.height matches Some(v) && v <= h)
            &&& (s.age_max matches Some(a) ==> x.birthday matches Some(b) && birth_year(b) >= this_year() - a)
            &&& (s.age_min matches Some(a) ==> x.birthday matches Some(b) && birth_year(b) <= this_year() - a)
            &&& (s.q matches Some(q) ==> (x.about_me matches Some(v) && like_match(containing(q@), v)) || (
                x.occupation matches Some(v) && like_match(containing(q@), v)) || like_match(containing(q@), x.display_name))
            &&& (tag_list(s.tags).len() > 0 ==> exists|j: int|
                0 <= j < db.interests.len() && (#[trigger] db.interests[j]).user_id == x.user_id && tag_list(
                    s.tags,
                ).contains(db.interests[j].tag@))
    } by {
        let l = profile_search(db, s);
        let a = choose|a: int| 0 <= a < db.users.len() && f(db.users[a]) == Some(l[k]);
        let u = db.users[a];
        assert(profile_selected(db, s, u));
        assert(l[k] == found_view(db, s, u));
        if tag_list(s.tags).len() > 0 {
            let j = choose|j: int| 0 <= j < db.interests.len() && #[trigger] listed_interest(u.id, tag_list(s.tags))(db.interests[j]);
            assert(db.interests[j].user_id == l[k].user_id);
        }
    }
}

/// A user with a profile that meets every criterion given (as the law above reads
/// them) is listed by the search.
pub proof fn law_profile_search_finds(db: DbView, s: ProfileSearch, i: int)
    requires
        0 <= i < db.users.len(),
        lookup(db.profiles, db.users[i].id) is Some,
        ({
            let p = lookup(db.profiles, db.users[i].id)->Some_0;
            let u = db.users[i];
            &&& (s.gender matches Some(g) ==> p.gender matches Some(v) && v@ == g@)
            &&& (s.education matches Some(e) ==> p.education matches Some(v) && v@ == e@)
            &&& (s.looking_for matches Some(w) ==> p.looking_for matches Some(v) && v@ == w@)
            &&& (s.city matches Some(c) ==> p.city matches Some(v) && like_match(containing(c@), v@))
            &&& (s.occupation matches Some(o) ==> p.occupation matches Some(v) && like_match(containing(o@), v@))
            &&& (s.height_min matches Some(h) ==> p.height matches Some(v) && v >= h)
            &&& (s.height_max matches Some(h) ==> p.height matches Some(v) && v <= h)
            &&& (s.age_max matches Some(a) ==> p.birthday matches Some(b) && birth_year(b@) >= this_year() - a)
            &&& (s.age_min matches Some(a) ==> p.birthday matches Some(b) && birth_year(b@) <= this_year() - a)
            &&& (s.q matches Some(q) ==> (p.about_me matches Some(v) && like_match(containing(q@), v@)) || (
                p.occupation matches Some(v) && like_match(containing(q@), v@)) || like_match(containing(q@), u.display_name@))
            &&& (tag_list(s.tags).len() > 0 ==> exists|j: int|
                0 <= j < db.interests.len() && (#[trigger] db.interests[j]).user_id == u.id && tag_list(
                    s.tags,
                ).contains(db.interests[j].tag@))
        }),
    ensures
        exists|k: int| 0 <= k < profile_search(db, s).len() && (#[trigger] profile_search(db, s)[k]).user_id == db.users[i].id,
{
    let u = db.users[i];
    let f = search_entry(db, s);
    if tag_list(s.tags).len() > 0 {
        let j = choose|j: int| 0 <= j < db.interests.len() && (#[trigger] db.interests[j]).user_id == u.id && tag_list(
            s.tags,
        ).contains(db.interests[j].tag@);
        assert(listed_interest(u.id, tag_list(s.tags))(db.interests[j]));
    }
    assert(profile_selected(db, s, u));
    crate::seqs::lemma_filter_map_has(db.users, f, i);
    let l = profile_search(db, s);
    let k = choose|k: int| 0 <= k < l.len() && l[k] == f(u)->Some_0;
    assert(l[k].user_id == u.id);
}

} // verus!
