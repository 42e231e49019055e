//! What can go wrong in a cryptographic operation.

use vstd::prelude::*;

use crate::text;

verus! {

/// Why a cryptographic operation failed.
#[derive(Debug, PartialEq, Eq)]
pub enum CryptoError {
    /// A password could not be hashed.
    HashError(String),
    /// The password is not the one that was hashed.
    PasswordMismatch,
    /// The password could not be checked: the stored hash is at fault.
    MalformedHash(String),
    /// A token could not be signed.
    SignError(String),
    /// A token could not be verified.
    VerifyError(String),
    /// Any other failure.
    Other(String),
}

impl CryptoError {
    /// What this error says.
    pub open spec fn rendering(&self) -> Seq<char> {
        match self {
            CryptoError::HashError(m) => "hash error: "@ + m@,
            CryptoError::PasswordMismatch => "password mismatch"@,
            CryptoError::MalformedHash(m) => "malformed password hash: "@ + m@,
            CryptoError::SignError(m) => "sign error: "@ + m@,
            CryptoError::VerifyError(m) => "verify error: "@ + m@,
            CryptoError::Other(m) => m@,
        }
    }

    /// What this error says.
    pub fn to_string(&self) -> (r: String)
        ensures
            r@ == self.rendering(),
    {
        match self {
            CryptoError::HashError(m) => text::join2("hash error: ", m.as_str()),
            CryptoError::PasswordMismatch => "password mismatch".to_owned(),
            CryptoError::MalformedHash(m) => text::join2("malformed password hash: ", m.as_str()),
            CryptoError::SignError(m) => text::join2("sign error: ", m.as_str()),
            CryptoError::VerifyError(m) => text::join2("verify error: ", m.as_str()),
            CryptoError::Other(m) => m.clone(),
        }
    }
}

} // verus!
