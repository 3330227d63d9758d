//! What every runner shares: the capability trait, the mapping from a request
//! to the capability that serves it, and the constructors of its errors.

use vstd::prelude::*;

use crate::proto::wire::{RemoteError, RemoteErrorKind};

pub mod backend;
pub mod dispatch;

verus! {

/// Per-command result: a success reply or a structured failure that is returned
/// to the controller while the link stays usable.
pub type RemoteResult<T> = Result<T, RemoteError>;

/// Whether `e` is an error of that category with that message.
pub open spec fn is_error(e: RemoteError, kind: RemoteErrorKind, message: Seq<char>) -> bool {
    e.kind == kind && e.message@ == message
}

/// Builds an `Os`-category error.
pub fn os_error(message: &str) -> (e: RemoteError)
    ensures
        is_error(e, RemoteErrorKind::Os, message@),
{
    RemoteError { kind: RemoteErrorKind::Os, message: message.to_owned() }
}

/// Builds a `NotFound`-category error.
pub fn not_found(message: &str) -> (e: RemoteError)
    ensures
        is_error(e, RemoteErrorKind::NotFound, message@),
{
    RemoteError { kind: RemoteErrorKind::NotFound, message: message.to_owned() }
}

/// Builds an `Invalid`-category error.
pub fn invalid(message: &str) -> (e: RemoteError)
    ensures
        is_error(e, RemoteErrorKind::Invalid, message@),
{
    RemoteError { kind: RemoteErrorKind::Invalid, message: message.to_owned() }
}

/// Builds a `Timeout`-category error.
pub fn timeout_error(message: &str) -> (e: RemoteError)
    ensures
        is_error(e, RemoteErrorKind::Timeout, message@),
{
    RemoteError { kind: RemoteErrorKind::Timeout, message: message.to_owned() }
}

} // verus!
