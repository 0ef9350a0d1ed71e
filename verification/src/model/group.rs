use vstd::prelude::*;
use crate::db::{Database, DbView, UserRow, membership_rel};
use crate::error::ModelError;
use crate::model::user::{opt_str_view, opt_string_view, owned_opt, search_pattern};
use crate::seqs::{Stamped, by_stamp, rows_by_stamp, 
    Row, any_row, collect_newest, collect_oldest, exists_where, find_by_key, find_where, get_by_key,
    last_where, lemma_last_where, lemma_lookup_position, lemma_push_ok, lemma_push_pairwise,
    lemma_retained_ok, lemma_retained_pairwise, lemma_update_ok, lookup, newest_first, position,
    retain_rows, retained,
};
use crate::text::{containing, containing_pattern, dup_opt, like_match, opt_like, opt_str_like, str_eq, str_like};

verus! {

/// A group of users, created by its owner.
#[derive(Clone, Debug)]
pub struct Group {
    pub id: i64,
    pub name: String,
    pub description: Option<String>,
    pub owner_id: i64,
    pub member_count: i64,
    pub created_at: String,
    pub updated_at: String,
}

impl Stamped for Group {
    open spec fn stamp(&self) -> Seq<char> {
        self.created_at@
    }

    fn stamp_text(&self) -> (r: &str) {
        self.created_at.as_str()
    }
}

impl Row for Group {
    open spec fn key(&self) -> i64 {
        self.id
    }

    fn row_key(&self) -> (r: i64) {
        self.id
    }

    fn dup(&self) -> (r: Self) {
        Group {
            id: self.id,
            name: self.name.clone(),
            description: dup_opt(&self.description),
            owner_id: self.owner_id,
            member_count: self.member_count,
            created_at: self.created_at.clone(),
            updated_at: self.updated_at.clone(),
        }
    }
}

/// A group joined with its owner's name.
#[derive(Clone, Debug)]
pub struct GroupWithOwner {
    pub id: i64,
    pub name: String,
    pub description: Option<String>,
    pub owner_id: i64,
    pub owner_username: String,
    pub owner_display_name: String,
    pub member_count: i64,
    pub created_at: String,
}

/// A membership joined with the member's name.
#[derive(Clone, Debug)]
pub struct GroupMember {
    pub id: i64,
    pub group_id: i64,
    pub user_id: i64,
    pub username: String,
    pub display_name: String,
    pub role: String,
    pub joined_at: String,
}

/// A member of a group, as the member list shows it.
#[derive(Clone, Debug)]
pub struct GroupMemberBrief {
    pub user_id: i64,
    pub username: String,
    pub display_name: String,
    pub role: String,
}

/// A user's membership of a group, with the role held there.
#[derive(Clone, Debug)]
pub struct Membership {
    pub id: i64,
    pub group_id: i64,
    pub user_id: i64,
    pub role: String,
    pub joined_at: String,
}

impl Stamped for Membership {
    open spec fn stamp(&self) -> Seq<char> {
        self.joined_at@
    }

    fn stamp_text(&self) -> (r: &str) {
        self.joined_at.as_str()
    }
}

impl Row for Membership {
    open spec fn key(&self) -> i64 {
        self.id
    }

    fn row_key(&self) -> (r: i64) {
        self.id
    }

    fn dup(&self) -> (r: Self) {
        Membership {
            id: self.id,
            group_id: self.group_id,
            user_id: self.user_id,
            role: self.role.clone(),
            joined_at: self.joined_at.clone(),
        }
    }
}

/// The membership of `user_id` in `group_id`.
pub open spec fn is_membership(group_id: i64, user_id: i64) -> spec_fn(Membership) -> bool {
    |m: Membership| m.group_id == group_id && m.user_id == user_id
}

/// Any row but the membership of `user_id` in `group_id`.
pub open spec fn not_membership(group_id: i64, user_id: i64) -> spec_fn(Membership) -> bool {
    |m: Membership| !(m.group_id == group_id && m.user_id == user_id)
}

/// The user belongs to the group.
pub open spec fn member(db: DbView, group_id: i64, user_id: i64) -> bool {
    exists_where(db.memberships, is_membership(group_id, user_id))
}

/// The role the user holds in the group, if the user belongs to it.
pub open spec fn role_of(db: DbView, group_id: i64, user_id: i64) -> Option<Seq<char>> {
    let k = last_where(db.memberships, is_membership(group_id, user_id));
    if k == -1 {
        None
    } else {
        Some(db.memberships[k].role@)
    }
}

/// `row` is the group created with these fields at time `now`, counting its owner
/// as its one member.
pub open spec fn is_new_group(
    row: Group,
    id: i64,
    owner_id: i64,
    name: Seq<char>,
    description: Option<Seq<char>>,
    now: String,
) -> bool {
    &&& row.id == id
    &&& row.name@ == name
    &&& opt_string_view(row.description) == description
    &&& row.owner_id == owner_id
    &&& row.member_count == 1
    &&& row.created_at == now
    &&& row.updated_at == now
}

/// `m` makes `user_id` a member of `group_id` with this role, from time `now`.
pub open spec fn is_new_membership(
    m: Membership,
    id: i64,
    group_id: i64,
    user_id: i64,
    role: Seq<char>,
    now: String,
) -> bool {
    &&& m.id == id
    &&& m.group_id == group_id
    &&& m.user_id == user_id
    &&& m.role@ == role
    &&& m.joined_at == now
}

/// What creating a group does, and what comes back.
pub open spec fn group_created(
    old_db: DbView,
    new_db: DbView,
    r: Result<Group, ModelError>,
    owner_id: i64,
    name: Seq<char>,
    description: Option<Seq<char>>,
) -> bool {
    &&& (old_db.next_group_id == i64::MAX || old_db.next_membership_id == i64::MAX ==> r
            == Err::<Group, ModelError>(ModelError::TableFull) && new_db == old_db)
    &&& (old_db.next_group_id < i64::MAX && old_db.next_membership_id < i64::MAX
            && member(old_db, old_db.next_group_id, owner_id) ==> {
            &&& new_db == (DbView {
                groups: new_db.groups,
                next_group_id: (old_db.next_group_id + 1) as i64,
                ..old_db
            })
            &&& new_db.groups.len() == old_db.groups.len() + 1
            &&& new_db.groups.drop_last() == old_db.groups
            &&& is_new_group(
                new_db.groups.last(),
                old_db.next_group_id,
                owner_id,
                name,
                description,
                old_db.now,
            )
            &&& r == Err::<Group, ModelError>(ModelError::AlreadyMember)
        })
    &&& (old_db.next_group_id < i64::MAX && old_db.next_membership_id < i64::MAX
            && !member(old_db, old_db.next_group_id, owner_id) ==> {
            &&& new_db == (DbView {
                groups: new_db.groups,
                next_group_id: (old_db.next_group_id + 1) as i64,
                memberships: new_db.memberships,
                next_membership_id: (old_db.next_membership_id + 1) as i64,
                ..old_db
            })
            &&& new_db.groups.len() == old_db.groups.len() + 1
            &&& new_db.groups.drop_last() == old_db.groups
            &&& is_new_group(
                new_db.groups.last(),
                old_db.next_group_id,
                owner_id,
                name,
                description,
                old_db.now,
            )
            &&& new_db.memberships.len() == old_db.memberships.len() + 1
            &&& new_db.memberships.drop_last() == old_db.memberships
            &&& is_new_membership(
                new_db.memberships.last(),
                old_db.next_membership_id,
                old_db.next_group_id,
                owner_id,
                "owner"@,
                old_db.now,
            )
            &&& r == Ok::<Group, ModelError>(new_db.groups.last())
        })
}

/// Creates a group owned by the user, who becomes its first member with the role
/// "owner". Gives back the group. Should the user hold a membership of the new id
/// already (joined before the group existed), the group is created but the
/// membership is refused.
pub fn create(db: &mut Database, owner_id: i64, name: &str, description: Option<&str>) -> (r: Result<
    Group,
    ModelError,
>)
    requires
        old(db).wf(),
    ensures
        final(db).wf(),
        group_created(old(db)@, final(db)@, r, owner_id, name@, opt_str_view(description)),
{
    let ghost old_db = db@;
    if db.next_group_id == i64::MAX || db.next_membership_id == i64::MAX {
        return Err(ModelError::TableFull);
    }
    let id = db.next_group_id;
    let row = Group {
        id,
        name: name.to_owned(),
        description: owned_opt(description),
        owner_id,
        member_count: 1,
        created_at: db.now.clone(),
        updated_at: db.now.clone(),
    };
    let result = row.dup();
    proof {
        lemma_push_ok(db.groups@, id, row);
    }
    db.groups.push(row);
    db.next_group_id = id + 1;
    assert(db@.groups.drop_last() =~= old_db.groups);
    let taken = any_row(
        &db.memberships,
        |m: &Membership| -> (b: bool) ensures b == is_membership(id, owner_id)(*m) { m.group_id == id && m.user_id == owner_id },
        Ghost(is_membership(id, owner_id)),
    );
    if taken {
        return Err(ModelError::AlreadyMember);
    }
    let mid = db.next_membership_id;
    let role = "owner".to_owned();
    proof {
        reveal_strlit("owner");
    }
    let m = Membership { id: mid, group_id: id, user_id: owner_id, role, joined_at: db.now.clone() };
    proof {
        lemma_push_ok(db.memberships@, mid, m);
        assert forall|i: int| 0 <= i < db.memberships@.len() implies #[trigger] membership_rel()(db.memberships@[i], m) by {
            if !membership_rel()(db.memberships@[i], m) {
                assert(is_membership(id, owner_id)(db.memberships@[i]));
            }
        }
        lemma_push_pairwise(db.memberships@, m, membership_rel());
    }
    db.memberships.push(m);
    db.next_membership_id = mid + 1;
    assert(db@.groups.drop_last() =~= old_db.groups);
    assert(db@.memberships.drop_last() =~= old_db.memberships);
    Ok(result)
}

/// The group with this id, if there is one.
pub fn get(db: &Database, id: i64) -> (r: Option<Group>)
    ensures
        r == lookup(db@.groups, id),
{
    match get_by_key(&db.groups, id) {
        Some(g) => Some(g.dup()),
        None => None,
    }
}

/// A group joined with its owner's name.
pub open spec fn group_with_owner(g: Group, u: UserRow) -> GroupWithOwner {
    GroupWithOwner {
        id: g.id,
        name: g.name,
        description: g.description,
        owner_id: g.owner_id,
        owner_username: u.username,
        owner_display_name: u.display_name,
        member_count: g.member_count,
        created_at: g.created_at,
    }
}

/// The group joined with its owner, when the owner's account exists.
pub open spec fn owned_group(users: Seq<UserRow>, g: Group) -> Option<GroupWithOwner> {
    match lookup(users, g.owner_id) {
        Some(u) => Some(group_with_owner(g, u)),
        None => None,
    }
}

fn owned_group_exec(users: &Vec<UserRow>, g: &Group) -> (r: Option<GroupWithOwner>)
    ensures
        r == owned_group(users@, *g),
{
    match get_by_key(users, g.owner_id) {
        Some(u) => Some(
            GroupWithOwner {
                id: g.id,
                name: g.name.clone(),
                description: dup_opt(&g.description),
                owner_id: g.owner_id,
                owner_username: u.username.clone(),
                owner_display_name: u.display_name.clone(),
                member_count: g.member_count,
                created_at: g.created_at.clone(),
            },
        ),
        None => None,
    }
}

/// A group whose name or description holds the search text, with its owner.
pub open spec fn group_found(users: Seq<UserRow>, pattern: Option<Seq<char>>) -> spec_fn(Group) -> Option<GroupWithOwner> {
    |g: Group|
        if match pattern {
            Some(p) => like_match(p, g.name@) || opt_like(g.description, p),
            None => true,
        } {
            owned_group(users, g)
        } else {
            None
        }
}

fn group_entry(users: &Vec<UserRow>, g: &Group, pattern: &Option<Vec<char>>) -> (r: Option<GroupWithOwner>)
    ensures
        r == group_found(
            users@,
            match pattern {
                Some(v) => Some(v@),
                None => None,
            },
        )(*g),
{
    let keep = match pattern {
        Some(p) => str_like(g.name.as_str(), p) || opt_str_like(&g.description, p),
        None => true,
    };
    if keep {
        owned_group_exec(users, g)
    } else {
        None
    }
}

/// The groups that match the search, with their owners, by creation stamp, the latest stamped first (rows stamped alike: the latest made first).
pub fn list(db: &Database, search: Option<&str>) -> (r: Vec<GroupWithOwner>)
    ensures
        r@ == newest_first(by_stamp(db@.groups, false), group_found(db@.users, search_pattern(search))),
{
    let pattern: Option<Vec<char>> = match search {
        Some(s) => Some(containing_pattern(s)),
        None => None,
    };
    let ghost users = db@.users;
    let ghost sp = search_pattern(search);
    let sorted = rows_by_stamp(&db.groups);
    collect_newest(
        &sorted,
        |g: &Group| -> (r: Option<GroupWithOwner>) ensures r == group_found(users, sp)(*g) { group_entry(&db.users, g, &pattern) },
        Ghost(group_found(users, sp)),
    )
}

/// For a membership of the user: the group, with its owner, when both exist.
pub open spec fn group_of_member(groups: Seq<Group>, users: Seq<UserRow>, user_id: i64) -> spec_fn(Membership) -> Option<GroupWithOwner> {
    |m: Membership|
        if m.user_id == user_id {
            match lookup(groups, m.group_id) {
                Some(g) => owned_group(users, g),
                None => None,
            }
        } else {
            None
        }
}

fn group_of_member_exec(groups: &Vec<Group>, users: &Vec<UserRow>, m: &Membership, user_id: i64) -> (r: Option<GroupWithOwner>)
    ensures
        r == group_of_member(groups@, users@, user_id)(*m),
{
    if m.user_id != user_id {
        return None;
    }
    match get_by_key(groups, m.group_id) {
        Some(g) => owned_group_exec(users, g),
        None => None,
    }
}

/// The groups the user belongs to, with their owners, by the time the user joined, the latest stamped first (rows stamped alike: the latest made first).
pub fn list_my(db: &Database, user_id: i64) -> (r: Vec<GroupWithOwner>)
    ensures
        r@ == newest_first(by_stamp(db@.memberships, false), group_of_member(db@.groups, db@.users, user_id)),
{
    let ghost groups = db@.groups;
    let ghost users = db@.users;
    let sorted = rows_by_stamp(&db.memberships);
    collect_newest(
        &sorted,
        |m: &Membership| -> (r: Option<GroupWithOwner>) ensures r == group_of_member(groups, users, user_id)(*m) { group_of_member_exec(&db.groups, &db.users, m, user_id) },
        Ghost(group_of_member(groups, users, user_id)),
    )
}

/// The role the user holds in the group, if the user belongs to it.
fn get_member_role(db: &Database, group_id: i64, user_id: i64) -> (r: Option<String>)
    ensures
        match r {
            Some(s) => role_of(db@, group_id, user_id) == Some(s@),
            None => role_of(db@, group_id, user_id) is None,
        },
{
    proof {
        lemma_last_where(db@.memberships, is_membership(group_id, user_id));
    }
    match find_where(
        &db.memberships,
        |m: &Membership| -> (b: bool) ensures b == is_membership(group_id, user_id)(*m) { m.group_id == group_id && m.user_id == user_id },
        Ghost(is_membership(group_id, user_id)),
    ) {
        Some(k) => Some(db.memberships[k].role.clone()),
        None => None,
    }
}

/// The user may edit the group: the user holds the role "owner" or "admin" there.
pub open spec fn may_edit(db: DbView, group_id: i64, user_id: i64) -> bool {
    role_of(db, group_id, user_id) == Some("owner"@) || role_of(db, group_id, user_id) == Some(
        "admin"@,
    )
}

/// `new_row` is `old_row` with the name and description replaced where given,
/// stamped at `now`.
pub open spec fn group_updated(
    old_row: Group,
    new_row: Group,
    name: Option<Seq<char>>,
    description: Option<Seq<char>>,
    now: String,
) -> bool {
    &&& new_row.id == old_row.id
    &&& match name {
        Some(n) => new_row.name@ == n,
        None => new_row.name == old_row.name,
    }
    &&& match description {
        Some(d) => opt_string_view(new_row.description) == Some(d),
        None => new_row.description == old_row.description,
    }
    &&& new_row.owner_id == old_row.owner_id
    &&& new_row.member_count == old_row.member_count
    &&& new_row.created_at == old_row.created_at
    &&& new_row.updated_at == now
}

/// What editing a group does, and what comes back.
pub open spec fn group_edited(
    old_db: DbView,
    new_db: DbView,
    r: Result<bool, ModelError>,
    id: i64,
    user_id: i64,
    name: Option<Seq<char>>,
    description: Option<Seq<char>>,
) -> bool {
    &&& (!may_edit(old_db, id, user_id) ==> r == Err::<bool, ModelError>(ModelError::NotGroupAdmin)
            && new_db == old_db)
    &&& (may_edit(old_db, id, user_id) && lookup(old_db.groups, id) is None ==> r == Ok::<
            bool,
            ModelError,
        >(false) && new_db == old_db)
    &&& (may_edit(old_db, id, user_id) && lookup(old_db.groups, id) is Some ==> {
            let k = position(old_db.groups, id);
            &&& r == Ok::<bool, ModelError>(true)
            &&& new_db == (DbView { groups: new_db.groups, ..old_db })
            &&& new_db.groups.len() == old_db.groups.len()
            &&& forall|i: int|
                0 <= i < old_db.groups.len() && i != k ==> new_db.groups[i] == old_db.groups[i]
            &&& group_updated(
                old_db.groups[k],
                new_db.groups[k],
                name,
                description,
                old_db.now,
            )
        })
}

/// Replaces the group's name and description where given. Refused unless the
/// user is the group's owner or an admin; false when no group has this id.
pub fn update(db: &mut Database, id: i64, user_id: i64, name: Option<&str>, description: Option<&str>) -> (r:
    Result<bool, ModelError>)
    requires
        old(db).wf(),
    ensures
        final(db).wf(),
        group_edited(old(db)@, final(db)@, r, id, user_id, opt_str_view(name), opt_str_view(description)),
{
    let role = get_member_role(db, id, user_id);
    let allowed = match &role {
        Some(r) => str_eq(r.as_str(), "owner") || str_eq(r.as_str(), "admin"),
        None => false,
    };
    if !allowed {
        return Err(ModelError::NotGroupAdmin);
    }
    proof {
        lemma_lookup_position(db@.groups, id);
    }
    let k = match find_by_key(&db.groups, id) {
        Some(k) => k,
        None => return Ok(false),
    };
    let old_row = &db.groups[k];
    let new_row = Group {
        id: old_row.id,
        name: match name {
            Some(n) => n.to_owned(),
            None => old_row.name.clone(),
        },
        description: match description {
            Some(d) => Some(d.to_owned()),
            None => dup_opt(&old_row.description),
        },
        owner_id: old_row.owner_id,
        member_count: old_row.member_count,
        created_at: old_row.created_at.clone(),
        updated_at: db.now.clone(),
    };
    proof {
        lemma_update_ok(db.groups@, db.next_group_id, k as int, new_row);
    }
    db.groups.set(k, new_row);
    Ok(true)
}

/// Any group but the one with this id.
pub open spec fn other_group(id: i64) -> spec_fn(Group) -> bool {
    |g: Group| g.id != id
}

/// What deleting a group does, and what comes back.
pub open spec fn group_deleted(
    old_db: DbView,
    new_db: DbView,
    r: Result<bool, ModelError>,
    id: i64,
    user_id: i64,
) -> bool {
    &&& (match lookup(old_db.groups, id) {
            None => r == Ok::<bool, ModelError>(false) && new_db == old_db,
            Some(g) => if g.owner_id != user_id {
                r == Err::<bool, ModelError>(ModelError::NotGroupOwner) && new_db == old_db
            } else {
                r == Ok::<bool, ModelError>(true) && new_db == (DbView {
                    groups: retained(old_db.groups, other_group(id)),
                    ..old_db
                })
            },
        })
}

/// Deletes the group; refused unless the user owns it; false when no group has
/// this id.
pub fn delete(db: &mut Database, id: i64, user_id: i64) -> (r: Result<bool, ModelError>)
    requires
        old(db).wf(),
    ensures
        final(db).wf(),
        group_deleted(old(db)@, final(db)@, r, id, user_id),
{
    let owner = match get_by_key(&db.groups, id) {
        Some(g) => g.owner_id,
        None => return Ok(false),
    };
    if owner != user_id {
        return Err(ModelError::NotGroupOwner);
    }
    proof {
        lemma_retained_ok(db.groups@, db.next_group_id, other_group(id));
    }
    retain_rows(
        &mut db.groups,
        |g: &Group| -> (b: bool) ensures b == other_group(id)(*g) { g.id != id },
        Ghost(other_group(id)),
    );
    Ok(true)
}

/// The groups after the group's member count changed to `count` of it, when the
/// group exists.
pub open spec fn with_member_count(groups: Seq<Group>, group_id: i64, count: spec_fn(i64) -> i64) -> Seq<Group> {
    match lookup(groups, group_id) {
        Some(g) => groups.update(position(groups, group_id), Group { member_count: count(g.member_count), ..g }),
        None => groups,
    }
}

/// One member more.
pub open spec fn one_more() -> spec_fn(i64) -> i64 {
    |n: i64| (n + 1) as i64
}

/// One member fewer.
pub open spec fn one_fewer() -> spec_fn(i64) -> i64 {
    |n: i64| (n - 1) as i64
}

/// The group exists and its member count cannot change by `delta` within `i64`.
pub open spec fn count_stuck(groups: Seq<Group>, group_id: i64, delta: int) -> bool {
    match lookup(groups, group_id) {
        Some(g) => !(i64::MIN <= g.member_count + delta <= i64::MAX),
        None => false,
    }
}

/// Changes the group's member count by one, up or down.
fn bump_member_count(db: &mut Database, group_id: i64, up: bool) -> (r: Result<(), ModelError>)
    requires
        old(db).wf(),
    ensures
        final(db).wf(),
        count_stuck(old(db)@.groups, group_id, if up { 1 } else { -1 }) ==> r == Err::<(), ModelError>(
            ModelError::Overflow,
        ) && final(db)@ == old(db)@,
        !count_stuck(old(db)@.groups, group_id, if up { 1 } else { -1 }) ==> r == Ok::<(), ModelError>(()) && final(db)@ == (DbView {
            groups: with_member_count(old(db)@.groups, group_id, if up { one_more() } else { one_fewer() }),
            ..old(db)@
        }),
{
    let ghost old_db = db@;
    proof {
        lemma_lookup_position(db@.groups, group_id);
    }
    match find_by_key(&db.groups, group_id) {
        Some(k) => {
            let n = db.groups[k].member_count;
            if (up && n == i64::MAX) || (!up && n == i64::MIN) {
                return Err(ModelError::Overflow);
            }
            let mut g = db.groups[k].dup();
            g.member_count = if up { n + 1 } else { n - 1 };
            proof {
                lemma_update_ok(db.groups@, db.next_group_id, k as int, g);
            }
            db.groups.set(k, g);
        },
        None => {},
    }
    assert(db@.groups =~= with_member_count(old_db.groups, group_id, if up { one_more() } else { one_fewer() }));
    Ok(())
}

/// What joining a group does, and what comes back.
pub open spec fn group_joined(
    old_db: DbView,
    new_db: DbView,
    r: Result<bool, ModelError>,
    group_id: i64,
    user_id: i64,
) -> bool {
    &&& (member(old_db, group_id, user_id) ==> r == Err::<bool, ModelError>(ModelError::AlreadyMember)
            && new_db == old_db)
    &&& (!member(old_db, group_id, user_id) && old_db.next_membership_id == i64::MAX ==> r
            == Err::<bool, ModelError>(ModelError::TableFull) && new_db == old_db)
    &&& (!member(old_db, group_id, user_id) && old_db.next_membership_id < i64::MAX
            && count_stuck(old_db.groups, group_id, 1) ==> r == Err::<bool, ModelError>(
            ModelError::Overflow,
        ) && new_db == old_db)
    &&& (!member(old_db, group_id, user_id) && old_db.next_membership_id < i64::MAX
            && !count_stuck(old_db.groups, group_id, 1) ==> {
            &&& r == Ok::<bool, ModelError>(true)
            &&& new_db == (DbView {
                memberships: new_db.memberships,
                next_membership_id: (old_db.next_membership_id + 1) as i64,
                groups: with_member_count(old_db.groups, group_id, one_more()),
                ..old_db
            })
            &&& new_db.memberships.len() == old_db.memberships.len() + 1
            &&& new_db.memberships.drop_last() == old_db.memberships
            &&& is_new_membership(
                new_db.memberships.last(),
                old_db.next_membership_id,
                group_id,
                user_id,
                "member"@,
                old_db.now,
            )
        })
}

/// Makes the user a member of the group, with the role "member", and counts the
/// member. Refused when the user belongs to it already.
pub fn join(db: &mut Database, group_id: i64, user_id: i64) -> (r: Result<bool, ModelError>)
    requires
        old(db).wf(),
    ensures
        final(db).wf(),
        group_joined(old(db)@, final(db)@, r, group_id, user_id),
{
    let ghost old_db = db@;
    let exists = any_row(
        &db.memberships,
        |m: &Membership| -> (b: bool) ensures b == is_membership(group_id, user_id)(*m) { m.group_id == group_id && m.user_id == user_id },
        Ghost(is_membership(group_id, user_id)),
    );
    if exists {
        return Err(ModelError::AlreadyMember);
    }
    if db.next_membership_id == i64::MAX {
        return Err(ModelError::TableFull);
    }
    match bump_member_count(db, group_id, true) {
        Err(e) => return Err(e),
        Ok(()) => {},
    }
    let mid = db.next_membership_id;
    let role = "member".to_owned();
    proof {
        reveal_strlit("member");
    }
    let m = Membership { id: mid, group_id, user_id, role, joined_at: db.now.clone() };
    proof {
        lemma_push_ok(db.memberships@, mid, m);
        assert forall|i: int| 0 <= i < db.memberships@.len() implies #[trigger] membership_rel()(db.memberships@[i], m) by {
            if !membership_rel()(db.memberships@[i], m) {
                assert(is_membership(group_id, user_id)(db.memberships@[i]));
            }
        }
        lemma_push_pairwise(db.memberships@, m, membership_rel());
    }
    db.memberships.push(m);
    db.next_membership_id = mid + 1;
    assert(db@.memberships.drop_last() =~= old_db.memberships);
    Ok(true)
}

/// What leaving a group does, and what comes back.
pub open spec fn group_left(
    old_db: DbView,
    new_db: DbView,
    r: Result<bool, ModelError>,
    group_id: i64,
    user_id: i64,
) -> bool {
    &&& (match lookup(old_db.groups, group_id) {
            None => r == Ok::<bool, ModelError>(false) && new_db == old_db,
            Some(g) => if g.owner_id == user_id {
                r == Err::<bool, ModelError>(ModelError::OwnerCannotLeave) && new_db == old_db
            } else if !member(old_db, group_id, user_id) {
                r == Ok::<bool, ModelError>(false) && new_db == old_db
            } else if count_stuck(old_db.groups, group_id, -1) {
                r == Err::<bool, ModelError>(ModelError::Overflow) && new_db == old_db
            } else {
                r == Ok::<bool, ModelError>(true) && new_db == (DbView {
                    memberships: retained(old_db.memberships, not_membership(group_id, user_id)),
                    groups: with_member_count(old_db.groups, group_id, one_fewer()),
                    ..old_db
                })
            },
        })
}

/// Takes the user out of the group and uncounts the member. Refused for the
/// group's owner; false when no group has this id or the user is no member.
pub fn leave(db: &mut Database, group_id: i64, user_id: i64) -> (r: Result<bool, ModelError>)
    requires
        old(db).wf(),
    ensures
        final(db).wf(),
        group_left(old(db)@, final(db)@, r, group_id, user_id),
{
    let owner = match get_by_key(&db.groups, group_id) {
        Some(g) => g.owner_id,
        None => return Ok(false),
    };
    if owner == user_id {
        return Err(ModelError::OwnerCannotLeave);
    }
    let exists = any_row(
        &db.memberships,
        |m: &Membership| -> (b: bool) ensures b == is_membership(group_id, user_id)(*m) { m.group_id == group_id && m.user_id == user_id },
        Ghost(is_membership(group_id, user_id)),
    );
    if !exists {
        return Ok(false);
    }
    match bump_member_count(db, group_id, false) {
        Err(e) => return Err(e),
        Ok(()) => {},
    }
    proof {
        lemma_retained_ok(db.memberships@, db.next_membership_id, not_membership(group_id, user_id));
        lemma_retained_pairwise(db.memberships@, not_membership(group_id, user_id), membership_rel());
    }
    retain_rows(
        &mut db.memberships,
        |m: &Membership| -> (b: bool) ensures b == not_membership(group_id, user_id)(*m) { !(m.group_id == group_id && m.user_id == user_id) },
        Ghost(not_membership(group_id, user_id)),
    );
    Ok(true)
}

/// A member of the group, with name and role.
pub open spec fn member_of(users: Seq<UserRow>, group_id: i64) -> spec_fn(Membership) -> Option<GroupMemberBrief> {
    |m: Membership|
        if m.group_id == group_id {
            match lookup(users, m.user_id) {
                Some(u) => Some(
                    GroupMemberBrief {
                        user_id: m.user_id,
                        username: u.username,
                        display_name: u.display_name,
                        role: m.role,
                    },
                ),
                None => None,
            }
        } else {
            None
        }
}

fn member_entry(users: &Vec<UserRow>, m: &Membership, group_id: i64) -> (r: Option<GroupMemberBrief>)
    ensures
        r == member_of(users@, group_id)(*m),
{
    if m.group_id != group_id {
        return None;
    }
    match get_by_key(users, m.user_id) {
        Some(u) => Some(
            GroupMemberBrief {
                user_id: m.user_id,
                username: u.username.clone(),
                display_name: u.display_name.clone(),
                role: m.role.clone(),
            },
        ),
        None => None,
    }
}

/// The group's members, by the time each joined, the earliest stamped first (rows stamped alike: the earliest made first).
pub fn list_members(db: &Database, group_id: i64) -> (r: Vec<GroupMemberBrief>)
    ensures
        r@ == by_stamp(db@.memberships, false).filter_map(member_of(db@.users, group_id)),
{
    let ghost users = db@.users;
    let sorted = rows_by_stamp(&db.memberships);
    collect_oldest(
        &sorted,
        |m: &Membership| -> (r: Option<GroupMemberBrief>) ensures r == member_of(users, group_id)(*m) { member_entry(&db.users, m, group_id) },
        Ghost(member_of(users, group_id)),
    )
}

/// Does the user belong to the group?
pub fn is_member(db: &Database, group_id: i64, user_id: i64) -> (r: bool)
    ensures
        r == member(db@, group_id, user_id),
{
    any_row(
        &db.memberships,
        |m: &Membership| -> (b: bool) ensures b == is_membership(group_id, user_id)(*m) { m.group_id == group_id && m.user_id == user_id },
        Ghost(is_membership(group_id, user_id)),
    )
}

/// Once a user joined a group, the user belongs to it with the role "member".
pub proof fn law_join_makes_member(
    old_db: DbView,
    new_db: DbView,
    r: Result<bool, ModelError>,
    group_id: i64,
    user_id: i64,
)
    requires
        group_joined(old_db, new_db, r, group_id, user_id),
        r is Ok,
    ensures
        member(new_db, group_id, user_id),
        role_of(new_db, group_id, user_id) == Some("member"@),
{
    let n = new_db.memberships.len() - 1;
    assert(is_membership(group_id, user_id)(new_db.memberships[n]));
}

/// Once a user left a group, the user no longer belongs to it.
pub proof fn law_leave_ends(memberships: Seq<Membership>, group_id: i64, user_id: i64)
    ensures
        !exists_where(
            retained(memberships, not_membership(group_id, user_id)),
            is_membership(group_id, user_id),
        ),
{
    crate::seqs::lemma_retained_excludes(
        memberships,
        not_membership(group_id, user_id),
        is_membership(group_id, user_id),
    );
}

/// The member count shown on the group, if the group exists.
pub open spec fn member_count_of(groups: Seq<Group>, group_id: i64) -> Option<i64> {
    match lookup(groups, group_id) {
        Some(g) => Some(g.member_count),
        None => None,
    }
}

proof fn lemma_member_count_changed(groups: Seq<Group>, group_id: i64, count: spec_fn(i64) -> i64)
    requires
        crate::seqs::keys_increasing(groups),
    ensures
        match lookup(groups, group_id) {
            Some(g) => member_count_of(with_member_count(groups, group_id, count), group_id) == Some(count(g.member_count)),
            None => with_member_count(groups, group_id, count) == groups,
        },
{
    lemma_lookup_position(groups, group_id);
    if lookup(groups, group_id) is Some {
        let k = position(groups, group_id);
        let g = groups[k];
        let after = groups.update(k, Group { member_count: count(g.member_count), ..g });
        assert(crate::seqs::keys_increasing(after));
        crate::seqs::lemma_lookup_unique(after, k);
    }
}

/// Joining counts one member more on the group; leaving, one member fewer.
pub proof fn law_member_counts(
    old_db: DbView,
    joined_db: DbView,
    joined: Result<bool, ModelError>,
    left_db: DbView,
    left: Result<bool, ModelError>,
    group_id: i64,
    user_id: i64,
)
    requires
        old_db.wf(),
        group_joined(old_db, joined_db, joined, group_id, user_id),
        group_left(old_db, left_db, left, group_id, user_id),
    ensures
        joined is Ok ==> match member_count_of(old_db.groups, group_id) {
            Some(n) => member_count_of(joined_db.groups, group_id) == Some((n + 1) as i64),
            None => member_count_of(joined_db.groups, group_id) is None,
        },
        left == Ok::<bool, ModelError>(true) ==> match member_count_of(old_db.groups, group_id) {
            Some(n) => member_count_of(left_db.groups, group_id) == Some((n - 1) as i64),
            None => false,
        },
{
    lemma_member_count_changed(old_db.groups, group_id, one_more());
    lemma_member_count_changed(old_db.groups, group_id, one_fewer());
}

/// Some membership puts `user_id` in `group_id`.
pub open spec fn has_membership(memberships: Seq<Membership>, group_id: i64, user_id: i64) -> bool {
    exists|j: int| 0 <= j < memberships.len() && (#[trigger] memberships[j]).group_id == group_id
        && memberships[j].user_id == user_id
}

/// Every member listed for a group has a membership of that group.
pub proof fn law_members_are_the_groups(db: DbView, group_id: i64)
    ensures
        forall|k: int| 0 <= k < by_stamp(db.memberships, false).filter_map(member_of(db.users, group_id)).len() ==> has_membership(
            db.memberships,
            group_id,
            (#[trigger] by_stamp(db.memberships, false).filter_map(member_of(db.users, group_id))[k]).user_id,
        ),
{
    let b = by_stamp(db.memberships, false);
    let f = member_of(db.users, group_id);
    let l = b.filter_map(f);
    crate::seqs::lemma_filter_map_origin(b, f);
    crate::seqs::lemma_by_stamp_contents(db.memberships, false);
    assert forall|k: int| 0 <= k < l.len() implies has_membership(db.memberships, group_id, (#[trigger] l[k]).user_id) by {
        let a = choose|a: int| 0 <= a < b.len() && f(b[a]) == Some(l[k]);
        assert(b.contains(b[a]));
        let j = choose|j: int| 0 <= j < db.memberships.len() && db.memberships[j] == b[a];
        assert(db.memberships[j].group_id == group_id);
        assert(db.memberships[j].user_id == l[k].user_id);
    }
}
/// Every group listed for a user is one the user has a membership of.
pub proof fn law_my_groups_are_joined(db: DbView, user_id: i64)
    ensures
        forall|k: int| 0 <= k < newest_first(by_stamp(db.memberships, false), group_of_member(db.groups, db.users, user_id)).len() ==> {
            let x = #[trigger] newest_first(by_stamp(db.memberships, false), group_of_member(db.groups, db.users, user_id))[k];
            exists|j: int| 0 <= j < db.memberships.len() && (#[trigger] db.memberships[j]).user_id == user_id && db.memberships[j].group_id == x.id
        },
{
    crate::seqs::lemma_newest_first_origin(by_stamp(db.memberships, false), group_of_member(db.groups, db.users, user_id));
    assert forall|k: int| 0 <= k < newest_first(by_stamp(db.memberships, false), group_of_member(db.groups, db.users, user_id)).len() implies {
        let x = #[trigger] newest_first(by_stamp(db.memberships, false), group_of_member(db.groups, db.users, user_id))[k];
        exists|j: int| 0 <= j < db.memberships.len() && (#[trigger] db.memberships[j]).user_id == user_id && db.memberships[j].group_id == x.id
    } by {
        let b = by_stamp(db.memberships, false);
        let a = choose|a: int| 0 <= a < b.len() && group_of_member(db.groups, db.users, user_id)(b[a]) == Some(newest_first(by_stamp(db.memberships, false), group_of_member(db.groups, db.users, user_id))[k]);
        crate::seqs::lemma_by_stamp_contents(db.memberships, false);
        assert(b.contains(b[a]));
        let j = choose|j: int| 0 <= j < db.memberships.len() && db.memberships[j] == b[a];
        lemma_lookup_position(db.groups, b[a].group_id);
        assert(db.memberships[j].user_id == user_id);
    }
}

/// A group whose owner has an account is found by a search exactly when its name
/// or its description holds the search text, as SQL `LIKE '%text%'` finds it.
pub proof fn law_group_search_matches_name_or_description(db: DbView, search: &str, i: int)
    requires
        db.wf(),
        0 <= i < db.groups.len(),
        lookup(db.users, db.groups[i].owner_id) is Some,
    ensures
        (exists|k: int| 0 <= k < newest_first(by_stamp(db.groups, false), group_found(db.users, search_pattern(Some(search)))).len() && (#[trigger] newest_first(by_stamp(db.groups, false), group_found(db.users, search_pattern(Some(search))))[k]).id == db.groups[i].id)
            <==> (like_match(containing(search@), db.groups[i].name@) || opt_like(
            db.groups[i].description,
            containing(search@),
        )),
{
    let f = group_found(db.users, search_pattern(Some(search)));
    let l = newest_first(by_stamp(db.groups, false), group_found(db.users, search_pattern(Some(search))));
    let g = db.groups[i];
    if like_match(containing(search@), g.name@) || opt_like(g.description, containing(search@)) {
        crate::seqs::lemma_listed_by_stamp(db.groups, f, i);
        let k = choose|k: int| 0 <= k < l.len() && l[k] == f(g)->Some_0;
        assert(l[k].id == g.id);
    }
    if exists|k: int| 0 <= k < l.len() && (#[trigger] l[k]).id == g.id {
        let k = choose|k: int| 0 <= k < l.len() && (#[trigger] l[k]).id == g.id;
        crate::seqs::lemma_listed_by_stamp_origin(db.groups, f);
        let a = choose|a: int| 0 <= a < db.groups.len() && f(db.groups[a]) == Some(l[k]);
        assert(db.groups[a].id == g.id);
        assert(a == i);
    }
}

} // verus!
