//! What requests bring and what responses carry.

use crate::text::string_of;
use vstd::prelude::*;

verus! {

/// A user name and a password in plain text, received once and never kept.
pub struct CredentialsDto {
    pub user_name: String,
    pub password: String,
}

/// What a `CredentialsDto` holds.
pub struct CredentialsView {
    pub user_name: Seq<char>,
    pub password: Seq<char>,
}

impl View for CredentialsDto {
    type V = CredentialsView;

    open spec fn view(&self) -> CredentialsView {
        CredentialsView { user_name: self.user_name@, password: self.password@ }
    }
}

/// The body of a sign-up: with credentials it asks for a registered
/// account, without them for a guest account.
pub struct SignUpDataDto {
    pub credentials_dto: Option<CredentialsDto>,
}

impl View for SignUpDataDto {
    type V = Option<CredentialsView>;

    open spec fn view(&self) -> Option<CredentialsView> {
        match self.credentials_dto {
            Some(credentials) => Some(credentials@),
            None => None,
        }
    }
}

/// The live pair of tokens as a response carries it.
pub struct AuthTokenDto {
    pub access_token: String,
    pub refresh_token: String,
}

/// What an `AuthTokenDto` holds.
pub struct AuthTokenDtoView {
    pub access_token: Seq<char>,
    pub refresh_token: Seq<char>,
}

impl View for AuthTokenDto {
    type V = AuthTokenDtoView;

    open spec fn view(&self) -> AuthTokenDtoView {
        AuthTokenDtoView { access_token: self.access_token@, refresh_token: self.refresh_token@ }
    }
}

/// An identity as a response carries it: who the caller now is, and the pair
/// of tokens to go on with.
pub struct ProfileDto {
    pub user_id: String,
    pub user_name: Option<String>,
    pub auth_token_dto: AuthTokenDto,
}

/// What a `ProfileDto` holds.
pub struct ProfileView {
    pub user_id: Seq<char>,
    pub user_name: Option<Seq<char>>,
    pub auth_token_dto: AuthTokenDtoView,
}

impl View for ProfileDto {
    type V = ProfileView;

    open spec fn view(&self) -> ProfileView {
        ProfileView {
            user_id: self.user_id@,
            user_name: string_of(self.user_name),
            auth_token_dto: self.auth_token_dto@,
        }
    }
}

} // verus!
