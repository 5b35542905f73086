//! The errors that the services answer with.
use vstd::prelude::*;

verus! {

/// An error answered to a request.
#[derive(Debug, Clone)]
pub enum ApiError {
    /// The request's data broke a rule; `error` says which.
    FailedValidation { error: String },
    /// The caller lacks the privilege that the request needs.
    NotPrivileged,
    /// The requested object, or the feature that serves it, does not exist.
    NotFound,
    /// The operation is not valid for the object it targets.
    InvalidOperation,
    /// The server already holds the most items of this kind that it may.
    TooManyEmoji { max: usize },
    /// Bots may not make this request.
    IsBot,
    /// A user may not report their own content.
    CannotReportYourself,
    /// The caller lacks the channel or server permission named.
    MissingPermission { permission: String },
    /// The store refused an operation on a collection.
    DatabaseError { operation: String, collection: String },
}

impl ApiError {
    /// Whether this is a validation error carrying exactly `msg`.
    pub open spec fn is_validation(self, msg: Seq<char>) -> bool {
        match self {
            ApiError::FailedValidation { error } => error@ == msg,
            _ => false,
        }
    }

    /// Whether this is a store error for `operation` on `collection`.
    pub open spec fn is_database(self, operation: Seq<char>, collection: Seq<char>) -> bool {
        match self {
            ApiError::DatabaseError { operation: o, collection: c } => o@ == operation && c@ == collection,
            _ => false,
        }
    }
}

} // verus!
