//! Plain data of the credential verifier and the token issuer.

use crate::error_data::Error;
use vstd::prelude::*;

verus! {

/// What the strength policy can hold against a password.
#[derive(Clone, Copy, Debug, PartialEq, Eq, Structural)]
pub enum PasswordStrengthIssue {
    ContainsWhitespace,
    TooShort,
    TooLong,
    ContainsNoUpperCaseLetter,
    ContainsNoLowerCaseLetter,
    ContainsNoDigit,
    ContainsNoSymbol,
    SymbolUniquenessRequirementsViolation,
    /// Nothing to hold against it.
    NoIssue,
}

/// The password hashing schemes an account can be stored with.
#[derive(Clone, Copy, Debug, PartialEq, Eq, Structural)]
pub enum HashAlgorithm {
    Argon2idV19,
}

/// The text a stored account carries for `Argon2idV19`: `argon_2_id_v_19`.
pub open spec fn argon2id_v19_text() -> Seq<u8> {
    seq![
        97u8, 114u8, 103u8, 111u8, 110u8, 95u8, 50u8, 95u8, 105u8, 100u8, 95u8, 118u8, 95u8,
        49u8, 57u8,
    ]
}

impl HashAlgorithm {
    /// The text that stands for the algorithm in a stored account.
    pub open spec fn sql_text(self) -> Seq<u8> {
        match self {
            HashAlgorithm::Argon2idV19 => argon2id_v19_text(),
        }
    }

    /// The algorithm that a stored text stands for, if any.
    pub open spec fn parse_sql_text(bytes: Seq<u8>) -> Option<HashAlgorithm> {
        if bytes == argon2id_v19_text() {
            Some(HashAlgorithm::Argon2idV19)
        } else {
            None
        }
    }

    /// Writes the algorithm as the store keeps it.
    pub fn to_sql(&self) -> (out: Vec<u8>)
        ensures
            out@ == self.sql_text(),
    {
        match self {
            HashAlgorithm::Argon2idV19 => {
                let out: Vec<u8> = vec![
                    97u8, 114u8, 103u8, 111u8, 110u8, 95u8, 50u8, 95u8, 105u8, 100u8, 95u8, 118u8,
                    95u8, 49u8, 57u8,
                ];
                assert(out@ =~= argon2id_v19_text());
                out
            },
        }
    }

    /// Reads an algorithm back from the store. An absent value and an
    /// unknown text are both turned down as a fault of the stored data.
    pub fn from_sql(bytes: Option<&[u8]>) -> (parsed: Result<HashAlgorithm, Error>)
        ensures
            match parsed {
                Ok(algorithm) => bytes matches Some(b) && HashAlgorithm::parse_sql_text(b@) == Some(
                    algorithm,
                ),
                Err(e) => e == Error::StorageError && (bytes matches Some(b)
                    ==> HashAlgorithm::parse_sql_text(b@) is None),
            },
    {
        match bytes {
            None => Err(Error::StorageError),
            Some(b) => {
                let expected = HashAlgorithm::Argon2idV19.to_sql();
                if b.len() != expected.len() {
                    return Err(Error::StorageError);
                }
                let mut i: usize = 0;
                while i < b.len()
                    invariant
                        bytes == Some(b),
                        i <= b.len(),
                        b.len() == expected.len(),
                        expected@ == argon2id_v19_text(),
                        forall|k: int| 0 <= k < i ==> b@[k] == expected@[k],
                    decreases b.len() - i,
                {
                    if b[i] != expected[i] {
                        assert(b@[i as int] != argon2id_v19_text()[i as int]);
                        return Err(Error::StorageError);
                    }
                    i = i + 1;
                }
                assert(b@ =~= argon2id_v19_text());
                Ok(HashAlgorithm::Argon2idV19)
            },
        }
    }
}

/// Reading back what was written gives the algorithm again.
pub proof fn law_hash_algorithm_text_round_trip(algorithm: HashAlgorithm)
    ensures
        HashAlgorithm::parse_sql_text(algorithm.sql_text()) == Some(algorithm),
{
}

/// A password hash as it is stored: the PHC string, the salt it was made
/// with, and the scheme.
pub struct HashData {
    pub hash: String,
    pub salt: String,
    pub algorithm: HashAlgorithm,
}

/// What a `HashData` holds.
pub struct HashDataView {
    pub hash: Seq<char>,
    pub salt: Seq<char>,
    pub algorithm: HashAlgorithm,
}

impl View for HashData {
    type V = HashDataView;

    open spec fn view(&self) -> HashDataView {
        HashDataView { hash: self.hash@, salt: self.salt@, algorithm: self.algorithm }
    }
}

/// The claims a token carries: whom it speaks for, until when it holds and
/// when it was issued, both in seconds since the Unix epoch.
pub struct Claims {
    pub sub: String,
    pub exp: usize,
    pub iat: usize,
}

/// What a `Claims` holds.
pub struct ClaimsView {
    pub sub: Seq<char>,
    pub exp: usize,
    pub iat: usize,
}

impl View for Claims {
    type V = ClaimsView;

    open spec fn view(&self) -> ClaimsView {
        ClaimsView { sub: self.sub@, exp: self.exp, iat: self.iat }
    }
}

/// The three claims as they were found in a token whose signature holds:
/// each may be absent or of another type than expected.
pub struct TokenPayload {
    pub sub: Option<String>,
    pub exp: Option<u64>,
    pub iat: Option<u64>,
}

/// What a `TokenPayload` holds.
pub struct TokenPayloadView {
    pub sub: Option<Seq<char>>,
    pub exp: Option<u64>,
    pub iat: Option<u64>,
}

impl View for TokenPayload {
    type V = TokenPayloadView;

    open spec fn view(&self) -> TokenPayloadView {
        TokenPayloadView {
            sub: match self.sub {
                Some(s) => Some(s@),
                None => None,
            },
            exp: self.exp,
            iat: self.iat,
        }
    }
}

/// The live pair of an account: a short-lived access token and a long-lived
/// refresh token.
pub struct AuthToken {
    pub access_token: String,
    pub refresh_token: String,
}

/// What an `AuthToken` holds.
pub struct AuthTokenView {
    pub access_token: Seq<char>,
    pub refresh_token: Seq<char>,
}

impl View for AuthToken {
    type V = AuthTokenView;

    open spec fn view(&self) -> AuthTokenView {
        AuthTokenView { access_token: self.access_token@, refresh_token: self.refresh_token@ }
    }
}

} // verus!
