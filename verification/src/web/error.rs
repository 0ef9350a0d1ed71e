use vstd::prelude::*;
use crate::error::{ModelError, decimal, push_decimal, push_text};
use crate::text::string_of;

verus! {

/// How a request failed, with the message shown for it.
#[derive(Clone, Debug)]
pub enum AppError {
    /// The request cannot be served as asked.
    BadRequest(String),
    /// What the request names does not exist.
    NotFound(String),
    /// The store refused the operation.
    Internal(String),
}

/// A request failure as values.
pub ghost enum AppErrorView {
    BadRequest(Seq<char>),
    NotFound(Seq<char>),
    Internal(Seq<char>),
}

impl View for AppError {
    type V = AppErrorView;

    open spec fn view(&self) -> AppErrorView {
        match *self {
            AppError::BadRequest(s) => AppErrorView::BadRequest(s@),
            AppError::NotFound(s) => AppErrorView::NotFound(s@),
            AppError::Internal(s) => AppErrorView::Internal(s@),
        }
    }
}

/// The request failed with this error.
pub open spec fn fails_with<T>(r: Result<T, AppError>, e: AppErrorView) -> bool {
    r matches Err(x) && x@ == e
}

/// The outcome of the store passed on: its value, or its error as an internal one.
pub open spec fn passes_on<T>(mr: Result<T, ModelError>, r: Result<T, AppError>) -> bool {
    match mr {
        Ok(v) => r == Ok::<T, AppError>(v),
        Err(e) => fails_with(r, AppErrorView::Internal(e.text())),
    }
}

/// The outcome of the store passed on, its error as a bad request.
pub open spec fn refused_as_bad<T>(mr: Result<T, ModelError>, r: Result<T, AppError>) -> bool {
    match mr {
        Ok(v) => r == Ok::<T, AppError>(v),
        Err(e) => fails_with(r, AppErrorView::BadRequest(e.text())),
    }
}

/// Succeeds when `found`, and fails with `e` otherwise.
pub open spec fn ok_if(found: bool, r: Result<(), AppError>, e: AppErrorView) -> bool {
    if found {
        r == Ok::<(), AppError>(())
    } else {
        fails_with(r, e)
    }
}

/// The store's error as an internal failure.
pub fn internal(e: &ModelError) -> (r: AppError)
    ensures
        r@ == AppErrorView::Internal(e.text()),
{
    AppError::Internal(e.message())
}

/// The store's error as a bad request.
pub fn bad_request(e: &ModelError) -> (r: AppError)
    ensures
        r@ == AppErrorView::BadRequest(e.text()),
{
    AppError::BadRequest(e.message())
}

/// A bad request with this message.
pub fn bad_request_text(msg: &str) -> (r: AppError)
    ensures
        r@ == AppErrorView::BadRequest(msg@),
{
    AppError::BadRequest(msg.to_owned())
}

/// A missing thing with this message.
pub fn not_found(msg: &str) -> (r: AppError)
    ensures
        r@ == AppErrorView::NotFound(msg@),
{
    AppError::NotFound(msg.to_owned())
}

/// An internal failure with this message.
pub fn internal_text(msg: &str) -> (r: AppError)
    ensures
        r@ == AppErrorView::Internal(msg@),
{
    AppError::Internal(msg.to_owned())
}

/// A missing thing named by its number: the message is `prefix`, the number and
/// `suffix`.
pub fn not_found_numbered(prefix: &str, n: i64, suffix: &str) -> (r: AppError)
    ensures
        r@ == AppErrorView::NotFound(prefix@ + decimal(n as int) + suffix@),
{
    let mut out: Vec<char> = Vec::new();
    push_text(&mut out, prefix);
    push_decimal(&mut out, n);
    push_text(&mut out, suffix);
    assert(out@ =~= prefix@ + decimal(n as int) + suffix@);
    AppError::NotFound(string_of(&out))
}

} // verus!
