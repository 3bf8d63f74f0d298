//! The ways an operation can fail.

use vstd::prelude::*;
use vstd::string::*;

verus! {

/// Why an operation ended without a result.
#[derive(Clone, Copy, Debug, PartialEq, Eq, Structural)]
pub enum Error {
    /// The store could not be reached. Nothing is retried.
    Connection,
    /// The store was reached and refused the command, or answered with
    /// something the command cannot produce.
    Store,
    /// A lookup index or a primary record is absent.
    NotFound,
    /// The password does not match the stored hash, or the stored hash is
    /// not one.
    InvalidCredentials,
    /// A user record lacks one of its fields.
    MissingField,
    /// The password could not be hashed.
    Hashing,
}

impl Error {
    /// The text shown for this error.
    pub open spec fn text(self) -> Seq<char> {
        match self {
            Error::Connection => "Connection Failed"@,
            Error::Store => "Store Error"@,
            Error::NotFound => "Not Found"@,
            Error::InvalidCredentials => "Invalid Credentials"@,
            Error::MissingField => "Missing Field"@,
            Error::Hashing => "Hashing Failed"@,
        }
    }

    /// The text shown for this error, as an owned string.
    pub fn message(&self) -> (m: String)
        ensures
            m@ == self.text(),
    {
        match self {
            Error::Connection => String::from_str("Connection Failed"),
            Error::Store => String::from_str("Store Error"),
            Error::NotFound => String::from_str("Not Found"),
            Error::InvalidCredentials => String::from_str("Invalid Credentials"),
            Error::MissingField => String::from_str("Missing Field"),
            Error::Hashing => String::from_str("Hashing Failed"),
        }
    }
}

} // verus!
