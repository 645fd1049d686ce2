//! Errors, and the kinds they fall into.

use vstd::prelude::*;

verus! {

/// The kinds of failure that callers tell apart.
#[derive(Clone, Copy, Debug, PartialEq, Eq, Structural)]
pub enum ErrorKind {
    /// An entity is absent.
    NotFound,
    /// A resolved permission lacks a required capability.
    PermissionDenied,
    /// The operation does not apply to the entity as it is.
    InvalidState,
    /// Storage or transport failed; the caller may try again.
    TransientIO,
    /// An invariant was broken.
    Internal,
}

/// Why an operation was not carried out.
#[derive(Clone, Debug, PartialEq, Eq)]
pub enum Error {
    /// The entity asked for does not exist.
    NotFound,
    /// The actor lacks the capability whose mask is given.
    MissingPermission { permission: u64 },
    /// The operation does not apply to this kind of entity.
    InvalidOperation,
    /// The owner of a group cannot remove themselves from it.
    CannotRemoveYourself,
    /// The user is not in the group.
    NotInGroup,
    /// The operation would change nothing.
    NoEffect,
    /// The two users are friends already.
    AlreadyFriends,
    /// A friend request was sent already.
    AlreadySentRequest,
    /// The actor has blocked the other user.
    Blocked,
    /// The other user has blocked the actor.
    BlockedByOther,
    /// The username is in use.
    UsernameTaken,
    /// The request's fields are not valid.
    FailedValidation,
    /// The session is not valid.
    InvalidSession,
    /// A storage operation failed.
    DatabaseError { operation: String, with: String },
    /// An invariant was broken.
    InternalError,
}

impl Error {
    /// The kind that this error falls into.
    pub open spec fn spec_kind(self) -> ErrorKind {
        match self {
            Error::NotFound => ErrorKind::NotFound,
            Error::MissingPermission { .. } => ErrorKind::PermissionDenied,
            Error::InvalidSession => ErrorKind::PermissionDenied,
            Error::DatabaseError { .. } => ErrorKind::TransientIO,
            Error::InternalError => ErrorKind::Internal,
            _ => ErrorKind::InvalidState,
        }
    }

    /// The kind that this error falls into.
    pub fn kind(&self) -> (r: ErrorKind)
        ensures
            r == self.spec_kind(),
    {
        match self {
            Error::NotFound => ErrorKind::NotFound,
            Error::MissingPermission { .. } => ErrorKind::PermissionDenied,
            Error::InvalidSession => ErrorKind::PermissionDenied,
            Error::DatabaseError { .. } => ErrorKind::TransientIO,
            Error::InternalError => ErrorKind::Internal,
            _ => ErrorKind::InvalidState,
        }
    }

    /// Whether the error says that an entity is absent.
    pub fn is_not_found(&self) -> (r: bool)
        ensures
            r == (*self == Error::NotFound),
    {
        match self {
            Error::NotFound => true,
            _ => false,
        }
    }
}

} // verus!
