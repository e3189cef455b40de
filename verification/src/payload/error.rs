//! What can be wrong with a payload.

use vstd::prelude::*;
use vstd::string::*;

verus! {

/// Why a payload was refused.
#[derive(Debug)]
pub enum Error {
    AmountError,
    CountError,
    NoInput,
    NoOutput,
    DuplicateError,
    InvalidIndex,
    OrderError,
    HashError,
    PathError,
    MissingField(&'static str),
    SigningError(crate::signing::ed25519::Error),
}

/// What an Ed25519 error says.
pub open spec fn signing_error_text(error: crate::signing::ed25519::Error) -> Seq<char> {
    match error {
        crate::signing::ed25519::Error::ConvertError => "Failed to convert bytes to target primitives."@,
        crate::signing::ed25519::Error::PrivateKeyError => "Failed to generate private key."@,
        crate::signing::ed25519::Error::VerifyError => "Failed to verify signature."@,
    }
}

/// What an error says.
pub open spec fn error_text(error: Error) -> Seq<char> {
    match error {
        Error::AmountError => "Invalid amount provided."@,
        Error::CountError => "Invalid count number provided."@,
        Error::NoInput => "No input provided."@,
        Error::NoOutput => "No output provided."@,
        Error::DuplicateError => "The object in the set must be unique."@,
        Error::InvalidIndex => "Invalid index provided."@,
        Error::OrderError => "The vector is not sorted by lexicographical order."@,
        Error::HashError => "The format of provided hash is not correct."@,
        Error::PathError => "The format of provided BIP32 path is not correct."@,
        Error::MissingField(field) => "Missing required field: "@ + field@ + "."@,
        Error::SigningError(e) => signing_error_text(e),
    }
}

impl Error {
    /// What the error says, for a reader.
    pub fn to_string(&self) -> (text: String)
        ensures
            text@ == error_text(*self),
    {
        match self {
            Error::AmountError => String::from_str("Invalid amount provided."),
            Error::CountError => String::from_str("Invalid count number provided."),
            Error::NoInput => String::from_str("No input provided."),
            Error::NoOutput => String::from_str("No output provided."),
            Error::DuplicateError => String::from_str("The object in the set must be unique."),
            Error::InvalidIndex => String::from_str("Invalid index provided."),
            Error::OrderError => String::from_str(
                "The vector is not sorted by lexicographical order.",
            ),
            Error::HashError => String::from_str("The format of provided hash is not correct."),
            Error::PathError => String::from_str(
                "The format of provided BIP32 path is not correct.",
            ),
            Error::MissingField(field) => {
                let mut text = String::from_str("Missing required field: ");
                text.append(field);
                text.append(".");
                text
            },
            Error::SigningError(e) => match e {
                crate::signing::ed25519::Error::ConvertError => String::from_str(
                    "Failed to convert bytes to target primitives.",
                ),
                crate::signing::ed25519::Error::PrivateKeyError => String::from_str(
                    "Failed to generate private key.",
                ),
                crate::signing::ed25519::Error::VerifyError => String::from_str(
                    "Failed to verify signature.",
                ),
            },
        }
    }

    /// The payload error that stands for an Ed25519 error.
    pub fn from_signing(error: crate::signing::ed25519::Error) -> (wrapped: Self)
        ensures
            wrapped == Error::SigningError(error),
    {
        Error::SigningError(error)
    }
}

} // verus!
