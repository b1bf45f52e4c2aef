//! The ways in which opening or decrypting a volume can fail.

use vstd::prelude::*;

verus! {

/// Why a volume could not be opened or decrypted.
#[derive(Clone, Copy, Debug, PartialEq, Eq, Structural)]
pub enum Error {
    /// The decrypted header does not start with the magic marker: the key
    /// derived from the password was not the right one.
    WrongPassword,
    /// The header's sector size is outside 512..=4096 or no multiple of 512.
    InvalidHeader,
    /// The decrypted header is too short to hold every field.
    ParseFailure,
    /// A cryptographic primitive failed.
    Crypto,
}

impl Error {
    /// The text that describes the error.
    pub open spec fn text(self) -> Seq<char> {
        match self {
            Error::WrongPassword => "Incorrect password"@,
            Error::InvalidHeader => "Incorrect sector size in header"@,
            Error::ParseFailure => "Header is too short"@,
            Error::Crypto => "Cryptographic operation failed"@,
        }
    }

    /// A short description of the error, fit for showing to the user.
    pub fn message(&self) -> (message: &'static str)
        ensures
            message@ == self.text(),
    {
        match self {
            Error::WrongPassword => "Incorrect password",
            Error::InvalidHeader => "Incorrect sector size in header",
            Error::ParseFailure => "Header is too short",
            Error::Crypto => "Cryptographic operation failed",
        }
    }
}

} // verus!
