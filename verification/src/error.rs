//! The ways in which a request is turned down.

use vstd::prelude::*;

verus! {

/// Why a request was rejected. Identity and credential errors are final;
/// admission errors ask the node to come back later.
#[derive(Debug, Clone, Copy, PartialEq, Eq, Structural)]
pub enum ApiError {
    /// The request did not carry the address of the node.
    MissingAddress,
    /// The rate limiter could not be consulted.
    RateLimitUnavailable,
    /// The rate limiter turned the request down.
    NotAllowedRateLimit,
    /// No user is on file under the claimed identity.
    UserNotFound,
    /// No credential is on file for the user, or it is not the presented one.
    ApiTokenNotFound,
    /// The presented credential is not the active one of the user.
    ApiTokenMismatch,
    /// The database failed.
    Database,
    /// The cache failed.
    Cache,
}

/// What a lookup in the database came back with.
#[derive(Debug, PartialEq, Eq)]
pub enum Lookup<T> {
    /// The lookup itself failed.
    Failed,
    /// There is no such row.
    Missing,
    /// The row.
    Found(T),
}

} // verus!
