use vstd::prelude::*;
use bcrypt::BcryptError;
use crate::db::{Database, DbView, UserRow, token_rel};
use crate::error::ModelError;
use crate::external::{bcrypt_hash, bcrypt_verify, bcrypt_verify_result, new_token};
use crate::model::user::{has_username, insert_user, opt_string_view, user_created, username_taken};
use crate::seqs::{
    Row, any_row, lemma_retained_sub, exists_where, find_where, last_where, lemma_last_where, lemma_push_ok,
    lemma_push_pairwise, lemma_retained_ok, lemma_retained_pairwise, retain_rows, retained,
};
use crate::text::str_eq;

verus! {

/// A login session: the token handed to a user who logged in.
#[derive(Clone, Debug)]
pub struct Session {
    pub id: i64,
    pub user_id: i64,
    pub token: String,
    pub created_at: String,
}

impl Row for Session {
    open spec fn key(&self) -> i64 {
        self.id
    }

    fn row_key(&self) -> (r: i64) {
        self.id
    }

    fn dup(&self) -> (r: Self) {
        Session {
            id: self.id,
            user_id: self.user_id,
            token: self.token.clone(),
            created_at: self.created_at.clone(),
        }
    }
}

/// Registering: when the password could be hashed, the account is created as
/// `create_user` would, with a 60-character bcrypt hash that `bcrypt::verify` accepts
/// the password against.
pub open spec fn registered(
    old_db: DbView,
    new_db: DbView,
    r: Result<i64, ModelError>,
    username: Seq<char>,
    password: Seq<char>,
    display_name: Seq<char>,
) -> bool {
    ||| r matches Err(ModelError::HashFailed(_)) && new_db == old_db
    ||| exists|h: Seq<char>|
        h.len() == 60 && #[trigger] bcrypt_verify_result(password, h) == Ok::<bool, Seq<char>>(true) && user_created(
            old_db,
            new_db,
            r,
            username,
            display_name,
            None,
            Some(h),
        )
}

/// Creates an account whose password is stored as a bcrypt hash; gives back its id.
pub fn register(db: &mut Database, username: &str, password: &str, display_name: &str) -> (r:
    Result<i64, ModelError>)
    requires
        old(db).wf(),
    ensures
        final(db).wf(),
        registered(old(db)@, final(db)@, r, username@, password@, display_name@),
{
    let hash = match bcrypt_hash(password) {
        Ok(h) => h,
        Err(e) => return Err(ModelError::HashFailed(e)),
    };
    let ghost h = hash@;
    let r = insert_user(db, username, display_name, None, Some(hash));
    assert(bcrypt_verify_result(password@, h) == Ok::<bool, Seq<char>>(true));
    r
}

/// The account with this username (the last one, should there be several).
pub open spec fn user_named(users: Seq<UserRow>, username: Seq<char>) -> Option<UserRow> {
    if exists_where(users, has_username(username)) {
        Some(users[last_where(users, has_username(username))])
    } else {
        None
    }
}

/// What a password check decides: the account it grants, a refusal of the
/// credentials, or the password hasher's failure with its message.
pub ghost enum Verdict {
    Granted(i64),
    Refused,
    HasherFailed(Seq<char>),
}

/// What a password check answers, given what `bcrypt::verify` said of the stored
/// hash: the account's id when it said yes.
pub open spec fn verdict_outcome(user_id: i64, verdict: Result<bool, Seq<char>>) -> Verdict {
    match verdict {
        Ok(true) => Verdict::Granted(user_id),
        Ok(false) => Verdict::Refused,
        Err(m) => Verdict::HasherFailed(m),
    }
}

/// Whether `r` is the answer the verdict calls for: the account's id, or a refusal.
pub open spec fn answers<T>(r: Result<T, ModelError>, v: Verdict, granted: T) -> bool {
    match v {
        Verdict::Granted(_) => r == Ok::<T, ModelError>(granted),
        Verdict::Refused => r == Err::<T, ModelError>(ModelError::InvalidCredentials),
        Verdict::HasherFailed(m) => r matches Err(ModelError::HashFailed(s)) && s@ == m,
    }
}

/// Whether the username and password name an account: an unknown username, an
/// account without a password, and a wrong password are all refused alike.
pub open spec fn login_verdict(db: DbView, username: Seq<char>, password: Seq<char>) -> Verdict {
    match user_named(db.users, username) {
        None => Verdict::Refused,
        Some(u) => match u.password_hash {
            None => Verdict::Refused,
            Some(h) => verdict_outcome(u.id, bcrypt_verify_result(password, h@)),
        },
    }
}

/// Turns what `bcrypt::verify` returned into the answer of a password check for the
/// account `user_id`.
pub fn password_verdict(user_id: i64, verdict: Result<bool, String>) -> (r: Result<i64, ModelError>)
    ensures
        answers(
            r,
            verdict_outcome(
                user_id,
                match verdict {
                    Ok(b) => Ok::<bool, Seq<char>>(b),
                    Err(m) => Err::<bool, Seq<char>>(m@),
                },
            ),
            user_id,
        ),
{
    match verdict {
        Ok(true) => Ok(user_id),
        Ok(false) => Err(ModelError::InvalidCredentials),
        Err(m) => Err(ModelError::HashFailed(m)),
    }
}

/// Checks the username and password; gives back the account's id.
pub fn check_credentials(db: &Database, username: &str, password: &str) -> (r: Result<i64, ModelError>)
    ensures
        answers(r, login_verdict(db@, username@, password@), login_verdict(db@, username@, password@)->Granted_0),
{
    proof {
        lemma_last_where(db@.users, has_username(username@));
    }
    let found = find_where(
        &db.users,
        |u: &UserRow| -> (b: bool) ensures b == has_username(username@)(*u) { str_eq(u.username.as_str(), username) },
        Ghost(has_username(username@)),
    );
    let k = match found {
        Some(k) => k,
        None => return Err(ModelError::InvalidCredentials),
    };
    let user = &db.users[k];
    match &user.password_hash {
        None => Err(ModelError::InvalidCredentials),
        Some(h) => password_verdict(user.id, bcrypt_verify(password, h.as_str())),
    }
}

/// Some session holds this token.
pub open spec fn token_in_use(sessions: Seq<Session>, token: Seq<char>) -> bool {
    exists_where(sessions, has_token(token))
}

/// The session holds this token.
pub open spec fn has_token(token: Seq<char>) -> spec_fn(Session) -> bool {
    |s: Session| s.token@ == token
}

/// Any session but one holding this token.
pub open spec fn lacks_token(token: Seq<char>) -> spec_fn(Session) -> bool {
    |s: Session| s.token@ != token
}

/// What opening a session with `token` for `user_id` does: refused when the token
/// is in use or the ids are used up; otherwise the session is appended under the
/// next id and the token handed back.
pub open spec fn session_opened(
    old_db: DbView,
    new_db: DbView,
    r: Result<String, ModelError>,
    user_id: i64,
    token: Seq<char>,
) -> bool {
    if token_in_use(old_db.sessions, token) {
        r == Err::<String, ModelError>(ModelError::TokenTaken) && new_db == old_db
    } else if old_db.next_session_id == i64::MAX {
        r == Err::<String, ModelError>(ModelError::TableFull) && new_db == old_db
    } else {
        &&& r matches Ok(t) && t@ == token
        &&& new_db == (DbView {
            sessions: new_db.sessions,
            next_session_id: (old_db.next_session_id + 1) as i64,
            ..old_db
        })
        &&& new_db.sessions.len() == old_db.sessions.len() + 1
        &&& new_db.sessions.drop_last() == old_db.sessions
        &&& new_db.sessions.last().id == old_db.next_session_id
        &&& new_db.sessions.last().user_id == user_id
        &&& new_db.sessions.last().token@ == token
        &&& new_db.sessions.last().created_at == old_db.now
    }
}

/// Opens a session for the user under the given token.
pub fn open_session(db: &mut Database, user_id: i64, token: String) -> (r: Result<String, ModelError>)
    requires
        old(db).wf(),
    ensures
        final(db).wf(),
        session_opened(old(db)@, final(db)@, r, user_id, token@),
{
    let ghost old_db = db@;
    let ghost t = token@;
    let taken = any_row(
        &db.sessions,
        |s: &Session| -> (b: bool) ensures b == has_token(t)(*s) { str_eq(s.token.as_str(), token.as_str()) },
        Ghost(has_token(t)),
    );
    if taken {
        return Err(ModelError::TokenTaken);
    }
    if db.next_session_id == i64::MAX {
        return Err(ModelError::TableFull);
    }
    let id = db.next_session_id;
    let row = Session { id, user_id, token: token.clone(), created_at: db.now.clone() };
    proof {
        lemma_push_ok(db.sessions@, id, row);
        assert forall|i: int| 0 <= i < db.sessions@.len() implies #[trigger] token_rel()(db.sessions@[i], row) by {
            if db.sessions@[i].token@ == row.token@ {
                assert(has_token(t)(db.sessions@[i]));
            }
        }
        lemma_push_pairwise(db.sessions@, row, token_rel());
    }
    db.sessions.push(row);
    db.next_session_id = id + 1;
    assert(db@.sessions.drop_last() =~= old_db.sessions);
    Ok(token)
}

/// Logging in: refused as the password check refuses; otherwise a session is opened
/// for the account under a fresh random token, which comes back.
pub open spec fn logged_in(
    old_db: DbView,
    new_db: DbView,
    r: Result<String, ModelError>,
    username: Seq<char>,
    password: Seq<char>,
) -> bool {
    match login_verdict(old_db, username, password) {
        Verdict::Granted(user_id) => exists|t: Seq<char>|
            t.len() == 36 && #[trigger] session_opened(old_db, new_db, r, user_id, t),
        v => new_db == old_db && answers(r, v, arbitrary()),
    }
}

/// Checks the credentials and opens a session; gives back its token.
pub fn login(db: &mut Database, username: &str, password: &str) -> (r: Result<String, ModelError>)
    requires
        old(db).wf(),
    ensures
        final(db).wf(),
        logged_in(old(db)@, final(db)@, r, username@, password@),
{
    let user_id = match check_credentials(db, username, password) {
        Ok(id) => id,
        Err(e) => return Err(e),
    };
    let token = new_token();
    let ghost t = token@;
    let r = open_session(db, user_id, token);
    assert(session_opened(old(db)@, db@, r, user_id, t));
    r
}

/// Ends the sessions holding the token; false when none does.
pub fn logout(db: &mut Database, token: &str) -> (r: bool)
    requires
        old(db).wf(),
    ensures
        final(db).wf(),
        r == token_in_use(old(db)@.sessions, token@),
        final(db)@ == (DbView { sessions: retained(old(db)@.sessions, lacks_token(token@)), ..old(db)@ }),
{
    proof {
        lemma_retained_ok(db.sessions@, db.next_session_id, lacks_token(token@));
        lemma_retained_pairwise(db.sessions@, lacks_token(token@), token_rel());
    }
    let dropped = retain_rows(
        &mut db.sessions,
        |s: &Session| -> (b: bool) ensures b == lacks_token(token@)(*s) { !str_eq(s.token.as_str(), token) },
        Ghost(lacks_token(token@)),
    );
    proof {
        if dropped {
            let i = choose|i: int| 0 <= i < old(db)@.sessions.len() && !lacks_token(token@)(old(db)@.sessions[i]);
            assert(has_token(token@)(old(db)@.sessions[i]));
        }
        if token_in_use(old(db)@.sessions, token@) {
            let i = choose|i: int| 0 <= i < old(db)@.sessions.len() && #[trigger] has_token(token@)(old(db)@.sessions[i]);
            assert(!lacks_token(token@)(old(db)@.sessions[i]));
        }
    }
    dropped
}

/// The user whose session holds the token, if any.
pub open spec fn token_user(sessions: Seq<Session>, token: Seq<char>) -> Option<i64> {
    if token_in_use(sessions, token) {
        Some(sessions[last_where(sessions, has_token(token))].user_id)
    } else {
        None
    }
}

/// The user logged in under this token, if any.
pub fn get_user_by_token(db: &Database, token: &str) -> (r: Option<i64>)
    ensures
        r == token_user(db@.sessions, token@),
{
    proof {
        lemma_last_where(db@.sessions, has_token(token@));
    }
    let found = find_where(
        &db.sessions,
        |s: &Session| -> (b: bool) ensures b == has_token(token@)(*s) { str_eq(s.token.as_str(), token) },
        Ghost(has_token(token@)),
    );
    match found {
        Some(k) => Some(db.sessions[k].user_id),
        None => None,
    }
}

/// Whether an account has this username.
pub fn is_username_taken(db: &Database, username: &str) -> (r: bool)
    ensures
        r == username_taken(db@.users, username@),
{
    any_row(
        &db.users,
        |u: &UserRow| -> (b: bool) ensures b == has_username(username@)(*u) { str_eq(u.username.as_str(), username) },
        Ghost(has_username(username@)),
    )
}

/// After a successful registration, the username and password pass the password
/// check, and it names the new account.
pub proof fn law_register_then_check(
    old_db: DbView,
    new_db: DbView,
    r: Result<i64, ModelError>,
    username: Seq<char>,
    password: Seq<char>,
    display_name: Seq<char>,
)
    requires
        old_db.wf(),
        registered(old_db, new_db, r, username, password, display_name),
        r is Ok,
    ensures
        login_verdict(new_db, username, password) == Verdict::Granted(r->Ok_0),
{
    let h = choose|h: Seq<char>|
        #[trigger] bcrypt_verify_result(password, h) == Ok::<bool, Seq<char>>(true) && user_created(
            old_db,
            new_db,
            r,
            username,
            display_name,
            None,
            Some(h),
        );
    let users = new_db.users;
    let n = users.len() - 1;
    assert(has_username(username)(users[n]));
    assert(last_where(users, has_username(username)) == n);
    assert(user_named(users, username) == Some(users[n]));
    assert(opt_string_view(users[n].password_hash) == Some(h));
}

/// A token that logging in hands back names the account whose credentials were
/// checked.
pub proof fn law_login_token_names_user(
    old_db: DbView,
    new_db: DbView,
    r: Result<String, ModelError>,
    username: Seq<char>,
    password: Seq<char>,
)
    requires
        old_db.wf(),
        logged_in(old_db, new_db, r, username, password),
        r is Ok,
    ensures
        login_verdict(old_db, username, password) is Granted,
        token_user(new_db.sessions, r->Ok_0@) == Some(login_verdict(old_db, username, password)->Granted_0),
{
    let user_id = login_verdict(old_db, username, password)->Granted_0;
    let t = choose|t: Seq<char>| #[trigger] session_opened(old_db, new_db, r, user_id, t);
    let s = new_db.sessions;
    let n = s.len() - 1;
    assert(has_token(t)(s[n]));
    assert(last_where(s, has_token(t)) == n);
}

/// Once the sessions holding a token are ended, the token names no user.
pub proof fn law_logout_revokes(sessions: Seq<Session>, token: Seq<char>)
    ensures
        token_user(retained(sessions, lacks_token(token)), token) is None,
{
    let kept = retained(sessions, lacks_token(token));
    lemma_retained_sub(sessions, lacks_token(token));
    if token_in_use(kept, token) {
        let k = choose|k: int| 0 <= k < kept.len() && #[trigger] has_token(token)(kept[k]);
        let j = choose|j: int| 0 <= j < sessions.len() && sessions[j] == #[trigger] kept[k] && lacks_token(token)(sessions[j]);
        assert(false);
    }
}

} // verus!
