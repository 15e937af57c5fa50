//! What a request is answered with when it is refused.

use vstd::prelude::*;

verus! {

/// A refused request.
#[derive(Debug)]
pub enum ApiError {
    /// The request itself is wrong.
    BadRequest(String),
    /// The request asks for what nobody may have.
    Forbidden(String),
    /// The request clashes with the present state.
    Conflict(String),
    /// There is no such file.
    NotFound,
    /// More was sent, or would be sent, than the limit allows.
    PayloadTooLarge,
    /// The file system failed.
    Io(String),
    /// The database failed.
    Database(String),
    /// Nobody is signed in.
    Unauthorized,
    /// What is asked for is switched off.
    FeatureDisabled(String),
}

/// `e` is a bad request that says `message`.
pub open spec fn bad_request(e: ApiError, message: Seq<char>) -> bool {
    e matches ApiError::BadRequest(m) && m@ == message
}

/// `e` is a forbidden request that says `message`.
pub open spec fn forbidden(e: ApiError, message: Seq<char>) -> bool {
    e matches ApiError::Forbidden(m) && m@ == message
}

/// `e` is a conflict that says `message`.
pub open spec fn conflict(e: ApiError, message: Seq<char>) -> bool {
    e matches ApiError::Conflict(m) && m@ == message
}

} // verus!
