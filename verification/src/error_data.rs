//! The failures a request can end in.

use vstd::prelude::*;

verus! {

/// Everything that can go wrong while serving an identity request.
#[derive(Clone, Copy, Debug, PartialEq, Eq, Structural)]
pub enum Error {
    /// A token could not be signed.
    JWTTokenCreationError,
    /// A token could not be read: malformed, wrongly signed or incomplete.
    JWTTokenDecodingError,
    /// Unknown user or wrong password; which of the two is never revealed.
    InvalidCredentials,
    /// The password was turned down by the strength policy.
    WeakPassword,
    /// The bearer token is missing, malformed, wrongly signed or expired.
    TokenInvalid,
    /// The refresh token handed in is not the one on record.
    TokenMismatch,
    /// No such account.
    NotFound,
    /// The store refused or failed an operation.
    StorageError,
    /// The service is set up wrongly.
    ConfigurationError,
}

impl Error {
    /// Whether the caller is to blame, as opposed to the service: what the
    /// caller brought was wrong, missing or unknown.
    pub open spec fn spec_is_client_error(self) -> bool {
        match self {
            Error::InvalidCredentials
            | Error::WeakPassword
            | Error::TokenInvalid
            | Error::TokenMismatch
            | Error::JWTTokenDecodingError
            | Error::NotFound => true,
            Error::StorageError | Error::ConfigurationError | Error::JWTTokenCreationError => false,
        }
    }

    /// What the error says of itself.
    pub open spec fn message(self) -> Seq<char> {
        match self {
            Error::JWTTokenCreationError => "JWT token creation error"@,
            Error::JWTTokenDecodingError => "JWT token decoding error"@,
            Error::InvalidCredentials => "invalid credentials"@,
            Error::WeakPassword => "password is weak"@,
            Error::TokenInvalid => "token is invalid"@,
            Error::TokenMismatch => "wrong refresh token"@,
            Error::NotFound => "not found"@,
            Error::StorageError => "storage error"@,
            Error::ConfigurationError => "configuration error"@,
        }
    }

    /// What the error says of itself.
    pub fn to_string(&self) -> (text: String)
        ensures
            text@ == self.message(),
    {
        match self {
            Error::JWTTokenCreationError => "JWT token creation error".to_owned(),
            Error::JWTTokenDecodingError => "JWT token decoding error".to_owned(),
            Error::InvalidCredentials => "invalid credentials".to_owned(),
            Error::WeakPassword => "password is weak".to_owned(),
            Error::TokenInvalid => "token is invalid".to_owned(),
            Error::TokenMismatch => "wrong refresh token".to_owned(),
            Error::NotFound => "not found".to_owned(),
            Error::StorageError => "storage error".to_owned(),
            Error::ConfigurationError => "configuration error".to_owned(),
        }
    }

    /// Whether the caller is to blame, as opposed to the service.
    #[verifier::when_used_as_spec(spec_is_client_error)]
    pub fn is_client_error(self) -> (client: bool)
        ensures
            client == self.spec_is_client_error(),
    {
        match self {
            Error::InvalidCredentials
            | Error::WeakPassword
            | Error::TokenInvalid
            | Error::TokenMismatch
            | Error::JWTTokenDecodingError
            | Error::NotFound => true,
            Error::StorageError | Error::ConfigurationError | Error::JWTTokenCreationError => false,
        }
    }
}

} // verus!
