use vstd::prelude::*;

verus! {

/// `String::push` (std): appends the character to the string, as its documentation
/// states.
#[verifier::external_body]
pub(crate) fn push_char(s: &mut String, c: char)
    ensures
        final(s)@ == old(s)@.push(c),
{
    s.push(c)
}

/// What `bcrypt::verify(password, hash)` returns: `Ok(b)` for `Ok(b)`, and for an
/// error (a malformed hash) `Err` with the error's display text. It re-hashes the
/// password with the cost and salt read from `hash`, and its errors name what is
/// wrong with `hash`, so it depends on its two arguments alone.
pub uninterp spec fn bcrypt_verify_result(password: Seq<char>, hash: Seq<char>) -> Result<bool, Seq<char>>;

/// `bcrypt::verify`: whether the password matches the hash; an error comes back as
/// its display text. The contract only ties the outcome to the name above; what the
/// name is on given values is not stated.
#[verifier::external_body]
pub(crate) fn bcrypt_verify(password: &str, hash: &str) -> (r: Result<bool, String>)
    ensures
        match r {
            Ok(b) => bcrypt_verify_result(password@, hash@) is Ok && bcrypt_verify_result(password@, hash@)->Ok_0 == b,
            Err(e) => bcrypt_verify_result(password@, hash@) is Err && bcrypt_verify_result(password@, hash@)->Err_0 == e@,
        },
{
    match bcrypt::verify(password, hash) {
        Ok(b) => Ok(b),
        Err(e) => Err(e.to_string()),
    }
}

/// `bcrypt::hash` at `bcrypt::DEFAULT_COST`; an error comes back as its display text.
/// The salt comes from the operating system's randomness, so the hash itself is not
/// stated. What the source shows of every hash it returns is stated: it is 60
/// characters long, and `bcrypt::verify` re-hashes the same password with the salt
/// and cost written into it and accepts it. An error comes only from the source of
/// randomness; its text is not stated.
#[verifier::external_body]
pub(crate) fn bcrypt_hash(password: &str) -> (r: Result<String, String>)
    ensures
        r matches Ok(h) ==> h@.len() == 60 && bcrypt_verify_result(password@, h@) is Ok && bcrypt_verify_result(
            password@,
            h@,
        )->Ok_0,
{
    match bcrypt::hash(password, bcrypt::DEFAULT_COST) {
        Ok(h) => Ok(h),
        Err(e) => Err(e.to_string()),
    }
}

/// `uuid::Uuid::new_v4().to_string()`: a random version-4 UUID in its hyphenated
/// form, 36 characters long. Which one comes out is left unsaid; the call panics
/// only when the operating system gives no random bytes.
#[verifier::external_body]
pub(crate) fn new_token() -> (r: String)
    ensures
        r@.len() == 36,
{
    uuid::Uuid::new_v4().to_string()
}

} // verus!
