//! The closed error type of the session core.
//!
//! External failures are mapped into one of these variants at the boundary;
//! each variant names the phase that failed, following the taxonomy of the
//! engine: connection, authentication, protocol/channel, lookup.

use vstd::prelude::*;

verus! {

/// Everything that can go wrong in the session core.
#[derive(Debug, PartialEq, Eq)]
pub enum ApiError {
    /// A record looked up by id does not exist; carries the missing item's name or id.
    NotFound { item: String },
    /// The transport could not be opened before the deadline.
    ConnectionTimeout,
    /// The transport could not be opened (refused, unreachable, handshake failed).
    ConnectionFailed,
    /// The remote host key was explicitly rejected by the user.
    KeyRejected,
    /// Every available authentication method was tried and failed.
    AuthFailed,
    /// A channel could not be opened or a protocol message was malformed.
    Channel,
    /// An operation needs an open session but none exists.
    SessionNotFound,
    /// The text-completion helper was invoked without a configured key.
    ApiKeyIsNotSet,
}

impl Clone for ApiError {
    fn clone(&self) -> (r: Self)
        ensures
            r == *self,
    {
        match self {
            ApiError::NotFound { item } => ApiError::NotFound { item: item.clone() },
            ApiError::ConnectionTimeout => ApiError::ConnectionTimeout,
            ApiError::ConnectionFailed => ApiError::ConnectionFailed,
            ApiError::KeyRejected => ApiError::KeyRejected,
            ApiError::AuthFailed => ApiError::AuthFailed,
            ApiError::Channel => ApiError::Channel,
            ApiError::SessionNotFound => ApiError::SessionNotFound,
            ApiError::ApiKeyIsNotSet => ApiError::ApiKeyIsNotSet,
        }
    }
}

impl ApiError {
    /// A short human-readable description of the error.
    pub fn message(&self) -> (r: String)
        ensures
            r@.len() > 0,
            r@ == (match self {
                ApiError::NotFound { item: _ } => "the specified item was not found"@,
                ApiError::ConnectionTimeout => "the connection attempt timed out"@,
                ApiError::ConnectionFailed => "the connection attempt failed"@,
                ApiError::KeyRejected => "the remote host key was rejected"@,
                ApiError::AuthFailed => "all authentication methods failed"@,
                ApiError::Channel => "the channel failed"@,
                ApiError::SessionNotFound => "session not found"@,
                ApiError::ApiKeyIsNotSet => "api key is not set"@,
            }),
    {
        let msg: &str = match self {
            ApiError::NotFound { item: _ } => "the specified item was not found",
            ApiError::ConnectionTimeout => "the connection attempt timed out",
            ApiError::ConnectionFailed => "the connection attempt failed",
            ApiError::KeyRejected => "the remote host key was rejected",
            ApiError::AuthFailed => "all authentication methods failed",
            ApiError::Channel => "the channel failed",
            ApiError::SessionNotFound => "session not found",
            ApiError::ApiKeyIsNotSet => "api key is not set",
        };
        proof {
            reveal_strlit("the specified item was not found");
            reveal_strlit("the connection attempt timed out");
            reveal_strlit("the connection attempt failed");
            reveal_strlit("the remote host key was rejected");
            reveal_strlit("all authentication methods failed");
            reveal_strlit("the channel failed");
            reveal_strlit("session not found");
            reveal_strlit("api key is not set");
        }
        msg.to_owned()
    }
}

} // verus!
