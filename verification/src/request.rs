//! Why a client's request is turned down.

use vstd::prelude::*;

verus! {

/// Why a request is turned down.
#[derive(Debug)]
pub enum RequestError {
    /// The caller is not authorized.
    AuthFailed(String),
    /// The request makes no sense.
    InvalidArgs(String),
    /// The request cannot be met now, or not on this device.
    Failed(String),
}

impl RequestError {
    /// Whether this is a senseless request, in these words.
    pub open spec fn is_invalid(self, words: Seq<char>) -> bool {
        self matches RequestError::InvalidArgs(text) && text@ == words
    }

    /// Whether this is a request that cannot be met, in these words.
    pub open spec fn is_failure(self, words: Seq<char>) -> bool {
        self matches RequestError::Failed(text) && text@ == words
    }

    /// Whether this is a refusal of authorization, in these words.
    pub open spec fn is_denial(self, words: Seq<char>) -> bool {
        self matches RequestError::AuthFailed(text) && text@ == words
    }

    /// The reason in words.
    pub open spec fn words(self) -> Seq<char> {
        match self {
            RequestError::AuthFailed(text) => text@,
            RequestError::InvalidArgs(text) => text@,
            RequestError::Failed(text) => text@,
        }
    }

    /// The reason in words.
    pub fn to_string(&self) -> (r: String)
        ensures
            r@ == self.words(),
    {
        match self {
            RequestError::AuthFailed(text) => text.clone(),
            RequestError::InvalidArgs(text) => text.clone(),
            RequestError::Failed(text) => text.clone(),
        }
    }
}

} // verus!
