//! Errors of storage operations.

use vstd::prelude::*;
use vstd::string::*;

verus! {

/// Why a storage operation failed, and what can be done about it.
#[derive(Debug)]
pub struct OpError {
    is_retryable: bool,
    is_still_valid: bool,
    error_msg: Option<String>,
}

impl OpError {
    /// What the backend said, if it said anything.
    pub closed spec fn spec_error_msg(&self) -> Option<Seq<char>> {
        match self.error_msg {
            Some(msg) => Some(msg@),
            None => None,
        }
    }

    pub closed spec fn spec_is_retryable(&self) -> bool {
        self.is_retryable
    }

    pub closed spec fn spec_is_still_valid(&self) -> bool {
        self.is_still_valid
    }

    /// An error with the given properties.
    pub fn new(is_retryable: bool, is_still_valid: bool, error_msg: Option<String>) -> (error: Self)
        ensures
            error.spec_is_retryable() == is_retryable,
            error.spec_is_still_valid() == is_still_valid,
            error.spec_error_msg() == (match error_msg {
                Some(msg) => Some(msg@),
                None => None,
            }),
    {
        Self { is_retryable, is_still_valid, error_msg }
    }

    /// The error that stands for a failure of the backend with this
    /// message: the operation cannot be tried again, and the handle to the
    /// backend is no longer good.
    pub fn from_backend_message(message: String) -> (error: Self)
        ensures
            !error.spec_is_retryable(),
            !error.spec_is_still_valid(),
            error.spec_error_msg() == Some(message@),
    {
        Self { is_retryable: false, is_still_valid: false, error_msg: Some(message) }
    }

    /// Whether the operation can be tried again.
    pub fn is_retryable(&self) -> (retryable: bool)
        ensures
            retryable == self.spec_is_retryable(),
    {
        self.is_retryable
    }

    /// Whether the handle to the backend is still good.
    pub fn is_still_valid(&self) -> (valid: bool)
        ensures
            valid == self.spec_is_still_valid(),
    {
        self.is_still_valid
    }

    /// What the backend said, if it said anything.
    pub fn error_msg(&self) -> (msg: Option<String>)
        ensures
            msg.is_some() == self.spec_error_msg().is_some(),
            msg matches Some(m) ==> m@ == self.spec_error_msg().unwrap(),
    {
        match &self.error_msg {
            Some(msg) => Some(msg.clone()),
            None => None,
        }
    }
}

} // verus!
