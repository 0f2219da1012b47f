//! Accounts as they are handed to the store and as the store keeps them.

use crate::error_data::Error;
use crate::security::{
    generate_auth_token, generate_password_hash, hashes_password, is_auth_token_for,
    password_bytes, JwtSecret, MAX_PASSWORD_BYTES,
};
use crate::security_data::{AuthToken, AuthTokenView, HashAlgorithm, HashData, HashDataView};
use crate::text::string_of;
use vstd::prelude::*;

verus! {

/// A character of a lower-case hexadecimal number.
pub open spec fn is_lower_hex(c: char) -> bool {
    ('0' <= c && c <= '9') || ('a' <= c && c <= 'f')
}

/// The shape of an account's identifier: thirty-two lower-case hexadecimal
/// digits in groups of 8, 4, 4, 4 and 12 with hyphens between them.
pub open spec fn is_uuid_text(id: Seq<char>) -> bool {
    &&& id.len() == 36
    &&& forall|i: int|
        0 <= i < 36 ==> if i == 8 || i == 13 || i == 18 || i == 23 {
            #[trigger] id[i] == '-'
        } else {
            is_lower_hex(id[i])
        }
}

/// `Uuid::new_v4().to_string()`: a fresh random identifier, as text. The
/// identifier is random; all that is claimed is its shape. Believed of
/// `uuid`, not proved.
#[verifier::external_body]
fn new_user_id() -> (id: String)
    ensures
        is_uuid_text(id@),
{
    uuid::Uuid::new_v4().to_string()
}

/// An account as it is handed to the store. A guest has an identifier and a
/// pair of tokens and nothing else; a registered user has a name and a
/// password hash as well.
pub struct InsertableUserAccountEntity {
    pub user_id: String,
    pub user_name: Option<String>,
    pub password_hash: Option<String>,
    pub password_hash_salt: Option<String>,
    pub password_hash_algorithm: Option<HashAlgorithm>,
    pub access_token: String,
    pub refresh_token: String,
}

/// What an `InsertableUserAccountEntity` holds.
pub struct InsertableUserAccountView {
    pub user_id: Seq<char>,
    pub user_name: Option<Seq<char>>,
    pub password_hash: Option<Seq<char>>,
    pub password_hash_salt: Option<Seq<char>>,
    pub password_hash_algorithm: Option<HashAlgorithm>,
    pub access_token: Seq<char>,
    pub refresh_token: Seq<char>,
}

impl View for InsertableUserAccountEntity {
    type V = InsertableUserAccountView;

    open spec fn view(&self) -> InsertableUserAccountView {
        InsertableUserAccountView {
            user_id: self.user_id@,
            user_name: string_of(self.user_name),
            password_hash: string_of(self.password_hash),
            password_hash_salt: string_of(self.password_hash_salt),
            password_hash_algorithm: self.password_hash_algorithm,
            access_token: self.access_token@,
            refresh_token: self.refresh_token@,
        }
    }
}

impl InsertableUserAccountView {
    /// The account of a guest with the given identifier and pair.
    pub open spec fn guest_of(
        user_id: Seq<char>,
        pair: AuthTokenView,
    ) -> InsertableUserAccountView {
        InsertableUserAccountView {
            user_id,
            user_name: None,
            password_hash: None,
            password_hash_salt: None,
            password_hash_algorithm: None,
            access_token: pair.access_token,
            refresh_token: pair.refresh_token,
        }
    }

    /// The account of a registered user with the given identifier, pair,
    /// name and password hash.
    pub open spec fn registered_of(
        user_id: Seq<char>,
        pair: AuthTokenView,
        user_name: Seq<char>,
        hash: HashDataView,
    ) -> InsertableUserAccountView {
        InsertableUserAccountView {
            user_id,
            user_name: Some(user_name),
            password_hash: Some(hash.hash),
            password_hash_salt: Some(hash.salt),
            password_hash_algorithm: Some(hash.algorithm),
            access_token: pair.access_token,
            refresh_token: pair.refresh_token,
        }
    }

    /// The pair of tokens of the account.
    pub open spec fn pair(self) -> AuthTokenView {
        AuthTokenView { access_token: self.access_token, refresh_token: self.refresh_token }
    }

    /// Whether the account is a guest's: no name and no password hash.
    pub open spec fn is_guest(self) -> bool {
        &&& self.user_name is None
        &&& self.password_hash is None
        &&& self.password_hash_salt is None
        &&& self.password_hash_algorithm is None
    }

    /// Whether the password hash, its salt and its scheme are there exactly
    /// when the name is.
    pub open spec fn credentials_consistent(self) -> bool {
        &&& self.user_name is Some <==> self.password_hash is Some
        &&& self.user_name is Some <==> self.password_hash_salt is Some
        &&& self.user_name is Some <==> self.password_hash_algorithm is Some
    }

    /// Whether this is a fresh guest account under `secret`: a well-formed
    /// identifier, no credentials, and a live pair issued for the identifier.
    pub open spec fn is_fresh_guest(self, secret: Seq<char>) -> bool {
        &&& is_uuid_text(self.user_id)
        &&& self.is_guest()
        &&& is_auth_token_for(self.pair(), secret, self.user_id)
    }

    /// Whether this is a fresh account under `secret` for the user
    /// `user_name` with the password bytes `password`: a well-formed
    /// identifier, that name, a hash of that password, and a live pair issued
    /// for the identifier.
    pub open spec fn is_fresh_registered(
        self,
        secret: Seq<char>,
        user_name: Seq<char>,
        password: Seq<u8>,
    ) -> bool {
        &&& is_uuid_text(self.user_id)
        &&& self.user_name == Some(user_name)
        &&& self.password_hash matches Some(hash)
        &&& self.password_hash_salt matches Some(salt)
        &&& self.password_hash_algorithm matches Some(algorithm)
        &&& hashes_password(HashDataView { hash, salt, algorithm }, password)
        &&& is_auth_token_for(self.pair(), secret, self.user_id)
    }
}

/// A fresh account keeps its credentials together: the password hash, its
/// salt and its scheme are there exactly when the user name is. A guest has
/// none of them, a registered user all.
pub proof fn law_fresh_accounts_keep_credentials_together(
    account: InsertableUserAccountView,
    secret: Seq<char>,
    user_name: Seq<char>,
    password: Seq<u8>,
)
    ensures
        account.is_fresh_guest(secret) ==> account.credentials_consistent() && account.is_guest(),
        account.is_fresh_registered(secret, user_name, password)
            ==> account.credentials_consistent() && !account.is_guest(),
{
}

impl InsertableUserAccountEntity {
    /// The account of a guest with the given identifier and pair.
    pub fn guest_with(user_id: String, auth_token: AuthToken) -> (account: Self)
        ensures
            account@ == InsertableUserAccountView::guest_of(user_id@, auth_token@),
    {
        InsertableUserAccountEntity {
            user_id,
            user_name: None,
            password_hash: None,
            password_hash_salt: None,
            password_hash_algorithm: None,
            access_token: auth_token.access_token,
            refresh_token: auth_token.refresh_token,
        }
    }

    /// The account of a registered user with the given identifier, pair,
    /// name and password hash.
    pub fn registered_with(
        user_id: String,
        auth_token: AuthToken,
        user_name: String,
        password_hash_data: HashData,
    ) -> (account: Self)
        ensures
            account@ == InsertableUserAccountView::registered_of(
                user_id@,
                auth_token@,
                user_name@,
                password_hash_data@,
            ),
    {
        InsertableUserAccountEntity {
            user_id,
            user_name: Some(user_name),
            password_hash: Some(password_hash_data.hash),
            password_hash_salt: Some(password_hash_data.salt),
            password_hash_algorithm: Some(password_hash_data.algorithm),
            access_token: auth_token.access_token,
            refresh_token: auth_token.refresh_token,
        }
    }

    /// A fresh guest account: a new random identifier and a pair issued for
    /// it by the clock.
    pub fn guest(secret: &JwtSecret) -> (made: Result<Self, Error>)
        ensures
            match made {
                Ok(account) => account@.is_fresh_guest(secret@),
                Err(e) => e == Error::JWTTokenCreationError,
            },
    {
        let (user_id, auth_token) = Self::get_uuid_and_auth_token(secret)?;
        Ok(Self::guest_with(user_id, auth_token))
    }

    /// A fresh account for a registered user: a new random identifier, a
    /// pair issued for it by the clock, and a hash of the password under a
    /// new random salt. The password itself is not kept. Only a password of
    /// more than `MAX_PASSWORD_BYTES` bytes cannot be hashed.
    pub fn registered_user(secret: &JwtSecret, user_name: String, password: String) -> (made:
        Result<Self, Error>)
        ensures
            match made {
                Ok(account) => account@.is_fresh_registered(
                    secret@,
                    user_name@,
                    password_bytes(password@),
                ),
                Err(e) => e == Error::JWTTokenCreationError || (e == Error::ConfigurationError
                    && password_bytes(password@).len() > MAX_PASSWORD_BYTES),
            },
    {
        let (user_id, auth_token) = Self::get_uuid_and_auth_token(secret)?;
        let password_hash_data = generate_password_hash(password.as_str().as_bytes())?;
        Ok(Self::registered_with(user_id, auth_token, user_name, password_hash_data))
    }

    /// A new random identifier and a pair issued for it by the clock.
    pub fn get_uuid_and_auth_token(secret: &JwtSecret) -> (made: Result<(String, AuthToken), Error>)
        ensures
            match made {
                Ok((user_id, auth_token)) => is_uuid_text(user_id@) && is_auth_token_for(
                    auth_token@,
                    secret@,
                    user_id@,
                ),
                Err(e) => e == Error::JWTTokenCreationError,
            },
    {
        let user_id = new_user_id();
        let auth_token = generate_auth_token(secret, user_id.clone())?;
        Ok((user_id, auth_token))
    }
}

/// An account as the store keeps it: what was handed in, and when.
pub struct UserAccountEntity {
    pub user_id: String,
    pub user_name: Option<String>,
    /// Seconds since the Unix epoch.
    pub created_at: i64,
    pub password_hash: Option<String>,
    pub password_hash_salt: Option<String>,
    pub password_hash_algorithm: Option<HashAlgorithm>,
    pub access_token: String,
    pub refresh_token: String,
}

/// What a `UserAccountEntity` holds.
pub struct UserAccountView {
    pub user_id: Seq<char>,
    pub user_name: Option<Seq<char>>,
    pub created_at: i64,
    pub password_hash: Option<Seq<char>>,
    pub password_hash_salt: Option<Seq<char>>,
    pub password_hash_algorithm: Option<HashAlgorithm>,
    pub access_token: Seq<char>,
    pub refresh_token: Seq<char>,
}

impl View for UserAccountEntity {
    type V = UserAccountView;

    open spec fn view(&self) -> UserAccountView {
        UserAccountView {
            user_id: self.user_id@,
            user_name: string_of(self.user_name),
            created_at: self.created_at,
            password_hash: string_of(self.password_hash),
            password_hash_salt: string_of(self.password_hash_salt),
            password_hash_algorithm: self.password_hash_algorithm,
            access_token: self.access_token@,
            refresh_token: self.refresh_token@,
        }
    }
}

impl UserAccountView {
    /// The account that storing `account` at the time `created_at` makes.
    pub open spec fn stored(
        account: InsertableUserAccountView,
        created_at: i64,
    ) -> UserAccountView {
        UserAccountView {
            user_id: account.user_id,
            user_name: account.user_name,
            created_at,
            password_hash: account.password_hash,
            password_hash_salt: account.password_hash_salt,
            password_hash_algorithm: account.password_hash_algorithm,
            access_token: account.access_token,
            refresh_token: account.refresh_token,
        }
    }

    /// What was handed in when the account was stored.
    pub open spec fn as_inserted(self) -> InsertableUserAccountView {
        InsertableUserAccountView {
            user_id: self.user_id,
            user_name: self.user_name,
            password_hash: self.password_hash,
            password_hash_salt: self.password_hash_salt,
            password_hash_algorithm: self.password_hash_algorithm,
            access_token: self.access_token,
            refresh_token: self.refresh_token,
        }
    }

    /// The account with another pair of tokens.
    pub open spec fn with_tokens(
        self,
        access_token: Seq<char>,
        refresh_token: Seq<char>,
    ) -> UserAccountView {
        UserAccountView { access_token, refresh_token, ..self }
    }

    /// The name the account is shown under: the user's, or `guest`.
    pub open spec fn display_name(self) -> Seq<char> {
        match self.user_name {
            Some(name) => name,
            None => "guest"@,
        }
    }
}

impl UserAccountEntity {
    /// The name the account is shown under: the user's, or `guest`.
    pub fn to_string(&self) -> (shown: String)
        ensures
            shown@ == self@.display_name(),
    {
        match &self.user_name {
            Some(name) => name.clone(),
            None => "guest".to_owned(),
        }
    }

    /// A copy of the account.
    pub fn duplicate(&self) -> (copy: UserAccountEntity)
        ensures
            copy@ == self@,
    {
        UserAccountEntity {
            user_id: self.user_id.clone(),
            user_name: clone_text(&self.user_name),
            created_at: self.created_at,
            password_hash: clone_text(&self.password_hash),
            password_hash_salt: clone_text(&self.password_hash_salt),
            password_hash_algorithm: self.password_hash_algorithm,
            access_token: self.access_token.clone(),
            refresh_token: self.refresh_token.clone(),
        }
    }
}

/// A copy of an optional text.
pub fn clone_text(text: &Option<String>) -> (copy: Option<String>)
    ensures
        string_of(copy) == string_of(*text),
{
    match text {
        Some(t) => Some(t.clone()),
        None => None,
    }
}

} // verus!
