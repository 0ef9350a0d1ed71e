use vstd::prelude::*;
use vstd::utf8::encode_utf8;
use crate::db::{Database, DbView};
use crate::model::auth::{
    lacks_token, law_login_token_names_user, logged_in, login, login_verdict, logout as end_session,
    registered, register as create_account, get_user_by_token, is_username_taken, token_in_use,
    token_user, user_named,
};
use crate::model::user::{User, get_user, law_created_user_found, user_by_id, user_of, username_taken};
use crate::seqs::{keys_increasing, last_where, lemma_last_where, lemma_lookup_unique, retained};
use crate::text::{chars_of, trim, trim_chars};
use crate::web::error::{AppError, AppErrorView, bad_request_text, fails_with, internal, internal_text};

verus! {

/// A request to create an account.
#[derive(Clone, Debug)]
pub struct RegisterPayload {
    pub username: String,
    pub password: String,
    pub display_name: Option<String>,
}

/// A request to log in.
#[derive(Clone, Debug)]
pub struct LoginPayload {
    pub username: String,
    pub password: String,
}

/// A request to log out.
#[derive(Clone, Debug)]
pub struct LogoutPayload {
    pub token: String,
}

/// The answer to a login: the session token and the account.
#[derive(Clone, Debug)]
pub struct LoginReply {
    pub token: String,
    pub user: User,
}

/// The display name an account is registered with: the one given, or the username.
pub open spec fn display_name_for(p: RegisterPayload) -> Seq<char> {
    match p.display_name {
        Some(d) => d@,
        None => p.username@,
    }
}

/// The username is blank or the password shorter than four bytes (its length in
/// UTF-8, as `str::len` counts it).
pub open spec fn weak_credentials(p: RegisterPayload) -> bool {
    trim(p.username@).len() == 0 || (encode_utf8(p.password@).len() as usize) < 4
}

/// Registers an account and answers with it.
pub fn register(db: &mut Database, payload: &RegisterPayload) -> (r: Result<User, AppError>)
    requires
        old(db).wf(),
    ensures
        final(db).wf(),
        weak_credentials(*payload) ==> final(db)@ == old(db)@ && fails_with(
            r,
            AppErrorView::BadRequest("密碼長度至少需 4 個字元"@),
        ),
        !weak_credentials(*payload) && username_taken(old(db)@.users, payload.username@) ==> final(db)@
            == old(db)@ && fails_with(r, AppErrorView::BadRequest("帳號已被使用"@)),
        !weak_credentials(*payload) && !username_taken(old(db)@.users, payload.username@) ==> exists|
            mr: Result<i64, crate::error::ModelError>,
        |
            #[trigger] registered(
                old(db)@,
                final(db)@,
                mr,
                payload.username@,
                payload.password@,
                display_name_for(*payload),
            ) && match mr {
                Err(e) => fails_with(r, AppErrorView::Internal(e.text())),
                Ok(id) => r == Ok::<User, AppError>(user_of(final(db)@.users.last()))
                    && user_by_id(final(db)@.users, id) == Some(user_of(final(db)@.users.last())),
            },
{
    let name_chars = chars_of(payload.username.as_str());
    let trimmed = trim_chars(&name_chars);
    if trimmed.len() == 0 || payload.password.as_str().len() < 4 {
        return Err(bad_request_text("密碼長度至少需 4 個字元"));
    }
    if is_username_taken(db, payload.username.as_str()) {
        return Err(bad_request_text("帳號已被使用"));
    }
    let display_name = match &payload.display_name {
        Some(d) => d.clone(),
        None => payload.username.clone(),
    };
    let ghost old_db = db@;
    let mr = create_account(db, payload.username.as_str(), payload.password.as_str(), display_name.as_str());
    assert(registered(old_db, db@, mr, payload.username@, payload.password@, display_name_for(*payload)));
    let id = match mr {
        Ok(id) => id,
        Err(e) => return Err(internal(&e)),
    };
    proof {
        let h = choose|h: Seq<char>|
            #[trigger] crate::external::bcrypt_verify_result(payload.password@, h) == Ok::<bool, Seq<char>>(true)
                && crate::model::user::user_created(
                old_db,
                db@,
                mr,
                payload.username@,
                display_name_for(*payload),
                None,
                Some(h),
            );
        law_created_user_found(old_db, db@, mr, payload.username@, display_name_for(*payload), None, Some(h));
    }
    match get_user(db, id) {
        Some(u) => Ok(u),
        None => Err(internal_text("註冊後查詢使用者失敗")),
    }
}

/// Logs in and answers with the session token and the account.
pub fn login_user(db: &mut Database, payload: &LoginPayload) -> (r: Result<LoginReply, AppError>)
    requires
        old(db).wf(),
    ensures
        final(db).wf(),
        exists|mr: Result<String, crate::error::ModelError>|
            #[trigger] logged_in(old(db)@, final(db)@, mr, payload.username@, payload.password@)
                && match mr {
                Err(e) => fails_with(r, AppErrorView::Internal(e.text())),
                Ok(t) => r matches Ok(reply) && reply.token == t && user_by_id(
                    final(db)@.users,
                    login_verdict(old(db)@, payload.username@, payload.password@)->Granted_0,
                ) == Some(reply.user),
            },
{
    let ghost old_db = db@;
    let mr = login(db, payload.username.as_str(), payload.password.as_str());
    assert(logged_in(old_db, db@, mr, payload.username@, payload.password@));
    let token = match mr {
        Ok(t) => t,
        Err(e) => return Err(internal(&e)),
    };
    let ghost uid = login_verdict(old_db, payload.username@, payload.password@)->Granted_0;
    proof {
        law_login_token_names_user(old_db, db@, mr, payload.username@, payload.password@);
        lemma_last_where(old_db.users, crate::model::user::has_username(payload.username@));
        let k = last_where(old_db.users, crate::model::user::has_username(payload.username@));
        lemma_lookup_unique(old_db.users, k);
    }
    let user_id = match get_user_by_token(db, token.as_str()) {
        Some(id) => id,
        None => return Err(internal_text("登入後取得使用者失敗")),
    };
    let user = match get_user(db, user_id) {
        Some(u) => u,
        None => return Err(internal_text("查詢使用者失敗")),
    };
    Ok(LoginReply { token, user })
}

/// Logs out; refused when no session holds the token.
pub fn logout(db: &mut Database, payload: &LogoutPayload) -> (r: Result<(), AppError>)
    requires
        old(db).wf(),
    ensures
        final(db).wf(),
        final(db)@ == (DbView {
            sessions: retained(old(db)@.sessions, lacks_token(payload.token@)),
            ..old(db)@
        }),
        token_in_use(old(db)@.sessions, payload.token@) ==> r == Ok::<(), AppError>(()),
        !token_in_use(old(db)@.sessions, payload.token@) ==> fails_with(
            r,
            AppErrorView::BadRequest("Token 無效"@),
        ),
{
    if end_session(db, payload.token.as_str()) {
        Ok(())
    } else {
        Err(bad_request_text("Token 無效"))
    }
}

} // verus!
