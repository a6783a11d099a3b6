//! The failures that the library tells apart.

use vstd::prelude::*;

verus! {

/// HTTP status with which the remote source signals that the caller is
/// forbidden or has used up its request allowance.
pub const STATUS_FORBIDDEN: u16 = 403;

/// Why an operation was given up.
#[derive(Debug, PartialEq, Eq)]
pub enum Error {
    /// The remote source answered with its rate-limit signal. Never retried
    /// automatically.
    RateLimited,
    /// Any other network, decoding or storage failure, with its message.
    Transport(String),
    /// An entity has more comments than the single page that is looked at
    /// can show, so its last activity cannot be told.
    UnsupportedPagingDepth,
    /// A request that cannot be served as it was made, with the reason.
    Other(String),
}

impl Error {
    /// What [`Error::message`] returns.
    pub open spec fn message_text(self) -> Seq<char> {
        match self {
            Error::RateLimited => "hit GitHub rate limiting"@,
            Error::Transport(message) => message@,
            Error::UnsupportedPagingDepth => "more than one page of comments since the reference date"@,
            Error::Other(message) => message@,
        }
    }

    /// The text shown to the user for this error.
    pub fn message(&self) -> (text: String)
        ensures
            text@ == self.message_text(),
    {
        match self {
            Error::RateLimited => "hit GitHub rate limiting".to_owned(),
            Error::Transport(message) => message.clone(),
            Error::UnsupportedPagingDepth => "more than one page of comments since the reference date".to_owned(),
            Error::Other(message) => message.clone(),
        }
    }

    /// An error of the catch-all kind with the given reason.
    pub fn other(reason: &str) -> (error: Error)
        ensures
            error matches Error::Other(message) && message@ == reason@,
    {
        Error::Other(reason.to_owned())
    }

    /// The error for a response that the transport reported as failed:
    /// [`Error::RateLimited`] when it carries the status
    /// [`STATUS_FORBIDDEN`], else [`Error::Transport`] with the transport's
    /// own message.
    pub fn from_status(status: Option<u16>, message: String) -> (error: Error)
        ensures
            status == Some(STATUS_FORBIDDEN) ==> error == Error::RateLimited,
            status != Some(STATUS_FORBIDDEN) ==> error == Error::Transport(message),
    {
        match status {
            Some(code) => {
                if code == STATUS_FORBIDDEN {
                    Error::RateLimited
                } else {
                    Error::Transport(message)
                }
            },
            None => Error::Transport(message),
        }
    }

    /// Whether this is the rate-limit signal.
    pub fn is_rate_limited(&self) -> (limited: bool)
        ensures
            limited == (*self == Error::RateLimited),
    {
        match self {
            Error::RateLimited => true,
            _ => false,
        }
    }
}

} // verus!
