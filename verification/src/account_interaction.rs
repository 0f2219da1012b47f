//! The identity lifecycle: guest provisioning, registration, sign-in,
//! refresh and deletion.
//!
//! Each operation is a short conversation with the account store. The
//! lifecycle decides; it never stores. `begin_sign_up`, `begin_sign_in`,
//! `begin_delete_account` and `begin_refresh_token` open a conversation and
//! `resume` carries it on when the store has answered. A caller with a store
//! of its own runs that loop itself. `sign_up`, `sign_in`, `delete_account`
//! and `refresh_token` run it against an `AccountTable`.
//!
//! A conversation is no transaction. The store is asked one thing at a time,
//! and what was done stays done when a later request fails: a registration
//! whose guest cannot be removed leaves the guest account behind, and a
//! deletion whose guest cannot be provisioned leaves the caller without an
//! account. A refresh replaces the access token only; the refresh token is
//! never rotated.
//!
//! A sign-in decides on the credentials first and looks at the token that
//! the request presents only once the password has passed. What a
//! registration or a sign-in removes afterwards is a guest account: an
//! account with a user name is never removed on the way.

use crate::account_database::{
    answers, has_access_token, has_guest_token, has_user_id, has_user_name, insertable,
    is_account_table, lemma_answers_keeps_table, lemma_without_absent_token,
    lemma_without_token_at, serve, token_taken_by_other, without_guest, without_token,
    AccountTable, StoreReply, StoreReplyView, StoreRequest, StoreRequestView,
};
use crate::account_dto::{
    AuthTokenDto, AuthTokenDtoView, CredentialsDto, CredentialsView, ProfileDto, ProfileView,
    SignUpDataDto,
};
use crate::account_entity::{InsertableUserAccountEntity, UserAccountEntity, UserAccountView};
use crate::error_data::Error;
use crate::security::{
    admit_password, bearer_token, check_password_strength,
    get_access_token_from_request_headers, hs512_token, is_auth_token_at, issued_at,
    jwt_claims, jwt_valid_at, password_bytes, password_verdict, phc_check,
    refresh_access_token_at, token_window, unix_now, verify_password, JwtSecret,
    ACCESS_TOKEN_SECONDS, MAX_PASSWORD_BYTES,
};
use crate::security_data::AuthTokenView;
use crate::text::{string_of, text_of};
use vstd::prelude::*;

verus! {

/// What a conversation with the store is waiting for.
pub enum Pending {
    /// A guest account was handed in. Its profile ends the conversation.
    GuestInsert,
    /// A registered account was handed in. The guest who asked is removed
    /// next.
    RegisterInsert { guest_token: String },
    /// The account of the user who signs in was asked for. The value of the
    /// request's header waits until the password has passed.
    SignInLookup { password: String, authorization: Option<String> },
    /// The guest is being removed. The profile ends the conversation.
    Cleanup { profile: ProfileDto },
    /// The caller's account is being removed. A guest account follows.
    DeleteAccount,
    /// The account that holds the presented access token was asked for.
    RefreshLookup { refresh_token: String },
    /// The new pair was handed in. It ends the conversation.
    RefreshUpdate,
}

/// What a `Pending` holds.
pub enum PendingView {
    GuestInsert,
    RegisterInsert { guest_token: Seq<char> },
    SignInLookup { password: Seq<char>, authorization: Option<Seq<char>> },
    Cleanup { profile: ProfileView },
    DeleteAccount,
    RefreshLookup { refresh_token: Seq<char> },
    RefreshUpdate,
}

impl View for Pending {
    type V = PendingView;

    open spec fn view(&self) -> PendingView {
        match self {
            Pending::GuestInsert => PendingView::GuestInsert,
            Pending::RegisterInsert { guest_token } => PendingView::RegisterInsert {
                guest_token: guest_token@,
            },
            Pending::SignInLookup { password, authorization } => PendingView::SignInLookup {
                password: password@,
                authorization: string_of(*authorization),
            },
            Pending::Cleanup { profile } => PendingView::Cleanup { profile: profile@ },
            Pending::DeleteAccount => PendingView::DeleteAccount,
            Pending::RefreshLookup { refresh_token } => PendingView::RefreshLookup {
                refresh_token: refresh_token@,
            },
            Pending::RefreshUpdate => PendingView::RefreshUpdate,
        }
    }
}

impl PendingView {
    /// How many answers of the store the conversation can still take.
    pub open spec fn rounds_left(self) -> nat {
        match self {
            PendingView::GuestInsert => 1,
            PendingView::Cleanup { .. } => 1,
            PendingView::RefreshUpdate => 1,
            PendingView::RegisterInsert { .. } => 2,
            PendingView::SignInLookup { .. } => 2,
            PendingView::DeleteAccount => 2,
            PendingView::RefreshLookup { .. } => 2,
        }
    }
}

/// What a conversation ends with where it ends well.
pub enum Outcome {
    /// The identity the caller now has.
    Profile(ProfileDto),
    /// The pair of tokens the caller goes on with.
    Tokens(AuthTokenDto),
}

/// What an `Outcome` holds.
pub enum OutcomeView {
    Profile(ProfileView),
    Tokens(AuthTokenDtoView),
}

impl View for Outcome {
    type V = OutcomeView;

    open spec fn view(&self) -> OutcomeView {
        match self {
            Outcome::Profile(profile) => OutcomeView::Profile(profile@),
            Outcome::Tokens(pair) => OutcomeView::Tokens(pair@),
        }
    }
}

/// One move of the lifecycle: a request to the store, with what is waited
/// for, or the end of the conversation.
pub enum Step {
    Ask(StoreRequest, Pending),
    Done(Result<Outcome, Error>),
}

/// What a `Step` holds.
pub enum StepView {
    Ask(StoreRequestView, PendingView),
    Done(Result<OutcomeView, Error>),
}

impl View for Step {
    type V = StepView;

    open spec fn view(&self) -> StepView {
        match self {
            Step::Ask(request, pending) => StepView::Ask(request@, pending@),
            Step::Done(Ok(outcome)) => StepView::Done(Ok(outcome@)),
            Step::Done(Err(e)) => StepView::Done(Err(*e)),
        }
    }
}

impl StepView {
    /// The end of a conversation in failure.
    pub open spec fn failed(e: Error) -> StepView {
        StepView::Done(Err(e))
    }

    /// The end of a conversation with a profile.
    pub open spec fn profile(profile: ProfileView) -> StepView {
        StepView::Done(Ok(OutcomeView::Profile(profile)))
    }

    /// How many answers of the store the conversation can still take.
    pub open spec fn rounds_left(self) -> nat {
        match self {
            StepView::Ask(_, pending) => pending.rounds_left(),
            StepView::Done(_) => 0,
        }
    }
}

/// The profile that an account is shown as.
pub open spec fn profile_of(account: UserAccountView) -> ProfileView {
    ProfileView {
        user_id: account.user_id,
        user_name: account.user_name,
        auth_token_dto: AuthTokenDtoView {
            access_token: account.access_token,
            refresh_token: account.refresh_token,
        },
    }
}

/// Shows an account as a profile.
pub fn map_user_account_entity_to_profile_dto(user_account_entity: UserAccountEntity) -> (profile:
    ProfileDto)
    ensures
        profile@ == profile_of(user_account_entity@),
{
    let auth_token_dto = AuthTokenDto {
        access_token: user_account_entity.access_token,
        refresh_token: user_account_entity.refresh_token,
    };
    ProfileDto {
        user_id: user_account_entity.user_id,
        user_name: user_account_entity.user_name,
        auth_token_dto,
    }
}

// ---------------------------------------------------------------------------
// The moves that depend on nothing but what they are given
// ---------------------------------------------------------------------------

/// What follows once `account` stands for the caller: the store is asked to
/// remove the guest who holds the token that the request presented, unless
/// the token is the account's own.
pub open spec fn authorized(account: UserAccountView, guest_token: Option<Seq<char>>) -> StepView {
    match guest_token {
        Some(token) => if token == account.access_token {
            StepView::profile(profile_of(account))
        } else {
            StepView::Ask(
                StoreRequestView::DeleteGuestByAccessToken(token),
                PendingView::Cleanup { profile: profile_of(account) },
            )
        },
        None => StepView::profile(profile_of(account)),
    }
}

/// Goes on once `user_account_entity` stands for the caller: what is left
/// is to remove the guest account that the caller came with, so that no
/// abandoned identity stays behind.
pub fn user_sucessfully_authorized(
    user_account_entity: UserAccountEntity,
    guest_token: Option<String>,
) -> (step: Step)
    ensures
        step@ == authorized(user_account_entity@, string_of(guest_token)),
{
    match guest_token {
        Some(token) => {
            if token == user_account_entity.access_token {
                let profile = map_user_account_entity_to_profile_dto(user_account_entity);
                Step::Done(Ok(Outcome::Profile(profile)))
            } else {
                Step::Ask(
                    StoreRequest::DeleteGuestByAccessToken(token),
                    Pending::Cleanup {
                        profile: map_user_account_entity_to_profile_dto(user_account_entity),
                    },
                )
            }
        },
        None => Step::Done(
            Ok(Outcome::Profile(map_user_account_entity_to_profile_dto(user_account_entity))),
        ),
    }
}

/// What follows the store's answer to a guest account handed in.
pub open spec fn after_guest_insert(reply: StoreReplyView) -> StepView {
    match reply {
        StoreReplyView::Account(account) => StepView::profile(profile_of(account)),
        _ => StepView::failed(Error::StorageError),
    }
}

/// What follows the store's answer to a registered account handed in.
pub open spec fn after_register_insert(guest_token: Seq<char>, reply: StoreReplyView) -> StepView {
    match reply {
        StoreReplyView::Account(account) => authorized(account, Some(guest_token)),
        _ => StepView::failed(Error::StorageError),
    }
}

/// What follows the store's answer to the removal of a guest.
pub open spec fn after_cleanup(profile: ProfileView, reply: StoreReplyView) -> StepView {
    match reply {
        StoreReplyView::Deleted(_) => StepView::profile(profile),
        _ => StepView::failed(Error::StorageError),
    }
}

/// What follows the store's answer to a new pair handed in.
pub open spec fn after_refresh_update(reply: StoreReplyView) -> StepView {
    match reply {
        StoreReplyView::Account(account) => StepView::Done(
            Ok(
                OutcomeView::Tokens(
                    AuthTokenDtoView {
                        access_token: account.access_token,
                        refresh_token: account.refresh_token,
                    },
                ),
            ),
        ),
        StoreReplyView::NotFound => StepView::failed(Error::NotFound),
        _ => StepView::failed(Error::StorageError),
    }
}

/// What follows once the password of the user who signs in has passed.
/// Only now is the request's header looked at: without one nobody is
/// removed, with a bearer token the guest who holds it is, and a value that
/// carries no bearer token ends the sign-in.
pub open spec fn credentials_accepted(
    account: UserAccountView,
    authorization: Option<Seq<char>>,
) -> StepView {
    match authorization {
        Some(_) => match bearer_token(authorization) {
            Some(token) => authorized(account, Some(token)),
            None => StepView::failed(Error::TokenInvalid),
        },
        None => authorized(account, None),
    }
}

/// Goes on once the password of the user who signs in has passed.
pub fn accept_credentials(account: UserAccountEntity, authorization: Option<String>) -> (step: Step)
    ensures
        step@ == credentials_accepted(account@, string_of(authorization)),
{
    match authorization {
        Some(value) => match get_access_token_from_request_headers(Some(value.as_str())) {
            Ok(token) => user_sucessfully_authorized(account, Some(token)),
            Err(e) => Step::Done(Err(e)),
        },
        None => user_sucessfully_authorized(account, None),
    }
}

/// What follows once the password of the user who signs in was checked
/// against the account that the store gave: `verdict` is what the check came
/// to. An account without a password hash admits nobody.
pub open spec fn sign_in_decision(
    account: UserAccountView,
    verdict: Result<bool, Error>,
    authorization: Option<Seq<char>>,
) -> StepView {
    if account.password_hash is None {
        StepView::failed(Error::InvalidCredentials)
    } else {
        match verdict {
            Ok(passes) => if passes {
                credentials_accepted(account, authorization)
            } else {
                StepView::failed(Error::InvalidCredentials)
            },
            Err(e) => StepView::failed(e),
        }
    }
}

/// What follows the store's answer to the question for the account of the
/// user who signs in. An unknown user and a wrong password end alike,
/// whatever the request's header holds.
pub open spec fn after_sign_in_lookup(
    password: Seq<char>,
    authorization: Option<Seq<char>>,
    reply: StoreReplyView,
) -> StepView {
    match reply {
        StoreReplyView::Account(account) => match account.password_hash {
            Some(hash) => sign_in_decision(
                account,
                password_verdict(hash, password_bytes(password)),
                authorization,
            ),
            None => StepView::failed(Error::InvalidCredentials),
        },
        StoreReplyView::NotFound => StepView::failed(Error::InvalidCredentials),
        _ => StepView::failed(Error::StorageError),
    }
}

/// Decides a sign-in from what checking the password came to.
pub fn decide_sign_in(
    account: UserAccountEntity,
    verdict: Result<bool, Error>,
    authorization: Option<String>,
) -> (step: Step)
    ensures
        step@ == sign_in_decision(account@, verdict, string_of(authorization)),
{
    if account.password_hash.is_none() {
        return Step::Done(Err(Error::InvalidCredentials));
    }
    match verdict {
        Ok(passes) => {
            if passes {
                accept_credentials(account, authorization)
            } else {
                Step::Done(Err(Error::InvalidCredentials))
            }
        },
        Err(e) => Step::Done(Err(e)),
    }
}

/// How a sign-in with credentials opens: always with the question for the
/// account with the user name. The header's value is carried along as it is.
pub open spec fn sign_in_opening(
    authorization: Option<Seq<char>>,
    credentials: CredentialsView,
) -> StepView {
    StepView::Ask(
        StoreRequestView::FindByUserName(credentials.user_name),
        PendingView::SignInLookup { password: credentials.password, authorization },
    )
}

/// Opens a sign-in with credentials: the account with the user name is
/// asked for.
pub fn sign_in_as_user(authorization: Option<&str>, credentials_dto: CredentialsDto) -> (step: Step)
    ensures
        step@ == sign_in_opening(text_of(authorization), credentials_dto@),
{
    let carried = match authorization {
        Some(value) => Some(value.to_owned()),
        None => None,
    };
    Step::Ask(
        StoreRequest::FindByUserName(credentials_dto.user_name),
        Pending::SignInLookup { password: credentials_dto.password, authorization: carried },
    )
}

/// How a deletion opens: the request must present a bearer token, and the
/// account that holds it is removed.
pub open spec fn delete_account_opening(authorization: Option<Seq<char>>) -> StepView {
    match bearer_token(authorization) {
        Some(token) => StepView::Ask(
            StoreRequestView::DeleteByAccessToken(token),
            PendingView::DeleteAccount,
        ),
        None => StepView::failed(Error::TokenInvalid),
    }
}

/// Opens a deletion.
pub fn begin_delete_account(authorization: Option<&str>) -> (step: Step)
    ensures
        step@ == delete_account_opening(text_of(authorization)),
{
    match get_access_token_from_request_headers(authorization) {
        Ok(token) => Step::Ask(StoreRequest::DeleteByAccessToken(token), Pending::DeleteAccount),
        Err(e) => Step::Done(Err(e)),
    }
}

/// How a refresh opens: the request must present a bearer token, and the
/// account that holds it is asked for.
pub open spec fn refresh_token_opening(
    authorization: Option<Seq<char>>,
    refresh_token: Seq<char>,
) -> StepView {
    match bearer_token(authorization) {
        Some(token) => StepView::Ask(
            StoreRequestView::FindByAccessToken(token),
            PendingView::RefreshLookup { refresh_token },
        ),
        None => StepView::failed(Error::TokenInvalid),
    }
}

/// Opens a refresh.
pub fn begin_refresh_token(authorization: Option<&str>, refresh_token: String) -> (step: Step)
    ensures
        step@ == refresh_token_opening(text_of(authorization), refresh_token@),
{
    match get_access_token_from_request_headers(authorization) {
        Ok(token) => Step::Ask(
            StoreRequest::FindByAccessToken(token),
            Pending::RefreshLookup { refresh_token },
        ),
        Err(e) => Step::Done(Err(e)),
    }
}

// ---------------------------------------------------------------------------
// The moves that draw on chance or on the clock
// ---------------------------------------------------------------------------

/// How the provisioning of a guest may open: with a fresh guest account
/// handed to the store, or with the failure to issue its tokens.
pub open spec fn guest_opening(secret: Seq<char>, step: StepView) -> bool {
    match step {
        StepView::Ask(StoreRequestView::InsertAccount(account), PendingView::GuestInsert) => {
            account.is_fresh_guest(secret)
        },
        StepView::Done(Err(e)) => e == Error::JWTTokenCreationError,
        _ => false,
    }
}

/// Opens the provisioning of a guest: a fresh guest account is handed to
/// the store.
pub fn sign_up_as_guest(secret: &JwtSecret) -> (step: Step)
    ensures
        guest_opening(secret@, step@),
{
    match InsertableUserAccountEntity::guest(secret) {
        Ok(account) => Step::Ask(StoreRequest::InsertAccount(account), Pending::GuestInsert),
        Err(e) => Step::Done(Err(e)),
    }
}

/// How a registration may open. The request must present the bearer token
/// of the guest who registers. Then a fresh account for the user is handed
/// to the store, unless its tokens or its password hash could not be made.
pub open spec fn registration_opening(
    secret: Seq<char>,
    authorization: Option<Seq<char>>,
    credentials: CredentialsView,
    step: StepView,
) -> bool {
    match bearer_token(authorization) {
        None => step == StepView::failed(Error::TokenInvalid),
        Some(token) => match step {
            StepView::Ask(
                StoreRequestView::InsertAccount(account),
                PendingView::RegisterInsert { guest_token },
            ) => {
                &&& guest_token == token
                &&& account.is_fresh_registered(
                    secret,
                    credentials.user_name,
                    password_bytes(credentials.password),
                )
            },
            StepView::Done(Err(e)) => e == Error::JWTTokenCreationError || (e
                == Error::ConfigurationError && password_bytes(credentials.password).len()
                > MAX_PASSWORD_BYTES),
            _ => false,
        },
    }
}

/// Opens a registration: the password is put to the strength policy, the
/// guest's token is taken from the request, and a fresh account for the
/// user, never the guest's own, is handed to the store.
pub fn sign_up_as_user(
    secret: &JwtSecret,
    authorization: Option<&str>,
    credentials_dto: CredentialsDto,
) -> (step: Step)
    ensures
        registration_opening(secret@, text_of(authorization), credentials_dto@, step@),
{
    match admit_password(check_password_strength(credentials_dto.password.as_str())) {
        Ok(_) => {},
        Err(e) => {
            return Step::Done(Err(e));
        },
    }
    let guest_token = match get_access_token_from_request_headers(authorization) {
        Ok(token) => token,
        Err(e) => {
            return Step::Done(Err(e));
        },
    };
    match InsertableUserAccountEntity::registered_user(
        secret,
        credentials_dto.user_name,
        credentials_dto.password,
    ) {
        Ok(account) => Step::Ask(
            StoreRequest::InsertAccount(account),
            Pending::RegisterInsert { guest_token },
        ),
        Err(e) => Step::Done(Err(e)),
    }
}

/// How a sign-up may open: without credentials as the provisioning of a
/// guest, with them as a registration.
pub open spec fn sign_up_opening(
    secret: Seq<char>,
    authorization: Option<Seq<char>>,
    sign_up_data: Option<CredentialsView>,
    step: StepView,
) -> bool {
    match sign_up_data {
        Some(credentials) => registration_opening(secret, authorization, credentials, step),
        None => guest_opening(secret, step),
    }
}

/// Opens a sign-up. A body without credentials is no mistake: it asks for a
/// guest account.
pub fn begin_sign_up(
    secret: &JwtSecret,
    authorization: Option<&str>,
    sign_up_data_dto: SignUpDataDto,
) -> (step: Step)
    ensures
        sign_up_opening(secret@, text_of(authorization), sign_up_data_dto@, step@),
{
    match sign_up_data_dto.credentials_dto {
        Some(credentials_dto) => sign_up_as_user(secret, authorization, credentials_dto),
        None => sign_up_as_guest(secret),
    }
}

/// How a sign-in may open: with credentials by asking for the account,
/// without them as the provisioning of a guest.
pub open spec fn sign_in_beginning(
    secret: Seq<char>,
    authorization: Option<Seq<char>>,
    sign_in_data: Option<CredentialsView>,
    step: StepView,
) -> bool {
    match sign_in_data {
        Some(credentials) => step == sign_in_opening(authorization, credentials),
        None => guest_opening(secret, step),
    }
}

/// Opens a sign-in. A body without credentials is no mistake: it asks for a
/// guest account.
pub fn begin_sign_in(
    secret: &JwtSecret,
    authorization: Option<&str>,
    sign_in_data_dto: SignUpDataDto,
) -> (step: Step)
    ensures
        sign_in_beginning(secret@, text_of(authorization), sign_in_data_dto@, step@),
{
    match sign_in_data_dto.credentials_dto {
        Some(credentials_dto) => sign_in_as_user(authorization, credentials_dto),
        None => sign_up_as_guest(secret),
    }
}

/// What follows once the account that holds the presented access token is
/// known, at the time `now`. A refresh token other than the account's own
/// ends the conversation at once: no token is issued and nothing is asked of
/// the store. So does one that does not hold at `now`, and so do times that
/// do not fit the machine's word. Otherwise a new access token, issued at
/// `now` for the account, is handed to the store with the refresh token as
/// it was.
pub open spec fn refresh_decision_at(
    secret: Seq<char>,
    refresh_token: Seq<char>,
    account: UserAccountView,
    now: int,
    step: StepView,
) -> bool {
    if refresh_token != account.refresh_token {
        step == StepView::failed(Error::TokenMismatch)
    } else if !jwt_valid_at(refresh_token, secret, now) {
        step == StepView::failed(Error::TokenInvalid)
    } else if token_window(now, ACCESS_TOKEN_SECONDS as int) is None {
        step == StepView::failed(Error::JWTTokenCreationError)
    } else {
        match step {
            StepView::Ask(
                StoreRequestView::UpdateAuthToken { user_id, access_token, refresh_token: kept },
                PendingView::RefreshUpdate,
            ) => {
                &&& user_id == account.user_id
                &&& kept == account.refresh_token
                &&& issued_at(
                    access_token,
                    secret,
                    account.user_id,
                    ACCESS_TOKEN_SECONDS as int,
                    now,
                )
            },
            _ => false,
        }
    }
}

/// What follows once the account that holds the presented access token is
/// known, by the clock: what `refresh_decision_at` says for the time that
/// the clock gave.
pub open spec fn refresh_decision(
    secret: Seq<char>,
    refresh_token: Seq<char>,
    account: UserAccountView,
    step: StepView,
) -> bool {
    exists|now: i64| #[trigger] refresh_decision_at(secret, refresh_token, account, now as int, step)
}

/// Decides a refresh at the time `now`, for the account that holds the
/// presented access token.
pub fn decide_refresh_at(
    secret: &JwtSecret,
    refresh_token: String,
    account: UserAccountEntity,
    now: i64,
) -> (step: Step)
    ensures
        refresh_decision_at(secret@, refresh_token@, account@, now as int, step@),
{
    if refresh_token != account.refresh_token {
        return Step::Done(Err(Error::TokenMismatch));
    }
    match refresh_access_token_at(
        secret,
        refresh_token,
        account.user_id.clone(),
        now,
    ) {
        Ok(access_token) => Step::Ask(
            StoreRequest::UpdateAuthToken {
                user_id: account.user_id,
                access_token,
                refresh_token: account.refresh_token,
            },
            Pending::RefreshUpdate,
        ),
        Err(e) => Step::Done(Err(e)),
    }
}

/// Decides a refresh by the clock.
pub fn decide_refresh(
    secret: &JwtSecret,
    refresh_token: String,
    account: UserAccountEntity,
) -> (step: Step)
    ensures
        refresh_decision(secret@, refresh_token@, account@, step@),
{
    let now = unix_now();
    decide_refresh_at(secret, refresh_token, account, now)
}

/// The rules of the lifecycle: `step` is a move that may follow when the
/// store answers `reply` to a conversation that waits as `pending` says.
pub open spec fn follows(
    secret: Seq<char>,
    pending: PendingView,
    reply: StoreReplyView,
    step: StepView,
) -> bool {
    match pending {
        PendingView::GuestInsert => step == after_guest_insert(reply),
        PendingView::RegisterInsert { guest_token } => step == after_register_insert(
            guest_token,
            reply,
        ),
        PendingView::SignInLookup { password, authorization } => step == after_sign_in_lookup(
            password,
            authorization,
            reply,
        ),
        PendingView::Cleanup { profile } => step == after_cleanup(profile, reply),
        PendingView::DeleteAccount => match reply {
            StoreReplyView::Deleted(_) => guest_opening(secret, step),
            _ => step == StepView::failed(Error::StorageError),
        },
        PendingView::RefreshLookup { refresh_token } => match reply {
            StoreReplyView::Account(account) => refresh_decision(
                secret,
                refresh_token,
                account,
                step,
            ),
            StoreReplyView::NotFound => step == StepView::failed(Error::NotFound),
            _ => step == StepView::failed(Error::StorageError),
        },
        PendingView::RefreshUpdate => step == after_refresh_update(reply),
    }
}

/// Carries a conversation on with the store's answer. Every answer brings
/// the conversation nearer to its end.
pub fn resume(secret: &JwtSecret, pending: Pending, reply: StoreReply) -> (step: Step)
    ensures
        follows(secret@, pending@, reply@, step@),
        step@.rounds_left() < pending@.rounds_left(),
{
    match pending {
        Pending::GuestInsert => match reply {
            StoreReply::Account(account) => Step::Done(
                Ok(Outcome::Profile(map_user_account_entity_to_profile_dto(account))),
            ),
            _ => Step::Done(Err(Error::StorageError)),
        },
        Pending::RegisterInsert { guest_token } => match reply {
            StoreReply::Account(account) => user_sucessfully_authorized(account, Some(guest_token)),
            _ => Step::Done(Err(Error::StorageError)),
        },
        Pending::SignInLookup { password, authorization } => match reply {
            StoreReply::Account(account) => {
                let verdict = match &account.password_hash {
                    Some(hash) => verify_password(password.as_str().as_bytes(), hash.as_str()),
                    None => {
                        return Step::Done(Err(Error::InvalidCredentials));
                    },
                };
                decide_sign_in(account, verdict, authorization)
            },
            StoreReply::NotFound => Step::Done(Err(Error::InvalidCredentials)),
            _ => Step::Done(Err(Error::StorageError)),
        },
        Pending::Cleanup { profile } => match reply {
            StoreReply::Deleted(_) => Step::Done(Ok(Outcome::Profile(profile))),
            _ => Step::Done(Err(Error::StorageError)),
        },
        Pending::DeleteAccount => match reply {
            StoreReply::Deleted(_) => sign_up_as_guest(secret),
            _ => Step::Done(Err(Error::StorageError)),
        },
        Pending::RefreshLookup { refresh_token } => match reply {
            StoreReply::Account(account) => decide_refresh(secret, refresh_token, account),
            StoreReply::NotFound => Step::Done(Err(Error::NotFound)),
            _ => Step::Done(Err(Error::StorageError)),
        },
        Pending::RefreshUpdate => match reply {
            StoreReply::Account(account) => Step::Done(
                Ok(
                    Outcome::Tokens(
                        AuthTokenDto {
                            access_token: account.access_token,
                            refresh_token: account.refresh_token,
                        },
                    ),
                ),
            ),
            StoreReply::NotFound => Step::Done(Err(Error::NotFound)),
            _ => Step::Done(Err(Error::StorageError)),
        },
    }
}

// ---------------------------------------------------------------------------
// Whole conversations
// ---------------------------------------------------------------------------

/// One exchange with the store: it holds `before`, answers `reply` to
/// `request` at the time `now` and holds `after`, and `next` is a move that
/// may follow.
pub open spec fn round(
    secret: Seq<char>,
    before: Seq<UserAccountView>,
    request: StoreRequestView,
    pending: PendingView,
    now: i64,
    reply: StoreReplyView,
    after: Seq<UserAccountView>,
    next: StepView,
) -> bool {
    answers(before, request, now, reply, after) && follows(secret, pending, reply, next)
}

/// A conversation that is at `step`, with a store that holds `before`, may
/// end in `outcome` after at most one exchange, leaving the store with
/// `after`.
pub open spec fn ends_soon(
    secret: Seq<char>,
    before: Seq<UserAccountView>,
    step: StepView,
    outcome: Result<OutcomeView, Error>,
    after: Seq<UserAccountView>,
) -> bool {
    match step {
        StepView::Done(ended) => outcome == ended && after == before,
        StepView::Ask(request, pending) => exists|now: i64, reply: StoreReplyView| #[trigger]
            round(secret, before, request, pending, now, reply, after, StepView::Done(outcome)),
    }
}

/// A conversation that opens with `first`, with a store that holds `before`
/// and answers by its rules, may end in `outcome` and leave the store with
/// `after`.
pub open spec fn runs(
    secret: Seq<char>,
    before: Seq<UserAccountView>,
    first: StepView,
    outcome: Result<OutcomeView, Error>,
    after: Seq<UserAccountView>,
) -> bool {
    match first {
        StepView::Done(ended) => outcome == ended && after == before,
        StepView::Ask(request, pending) => exists|
            now: i64,
            reply: StoreReplyView,
            mid: Seq<UserAccountView>,
            second: StepView,
        | #[trigger]
            round(secret, before, request, pending, now, reply, mid, second) && ends_soon(
                secret,
                mid,
                second,
                outcome,
                after,
            ),
    }
}

/// What the end of a conversation holds.
pub open spec fn outcome_of(outcome: Result<Outcome, Error>) -> Result<OutcomeView, Error> {
    match outcome {
        Ok(o) => Ok(o@),
        Err(e) => Err(e),
    }
}

/// Runs a conversation against the table, from its opening move to its end.
/// The table stamps what it stores with the clock's reading.
pub fn run(table: &mut AccountTable, secret: &JwtSecret, first: Step) -> (outcome: Result<
    Outcome,
    Error,
>)
    requires
        old(table).wf(),
    ensures
        final(table).wf(),
        runs(secret@, old(table)@, first@, outcome_of(outcome), final(table)@),
{
    let ghost before = table@;
    match first {
        Step::Done(ended) => ended,
        Step::Ask(request, pending) => {
            let ghost first_request = request@;
            let ghost first_pending = pending@;
            let now = unix_now();
            let reply = serve(table, request, now);
            let ghost first_reply = reply@;
            let ghost mid = table@;
            let second = resume(secret, pending, reply);
            let ghost second_view = second@;
            assert(round(
                secret@,
                before,
                first_request,
                first_pending,
                now,
                first_reply,
                mid,
                second_view,
            ));
            match second {
                Step::Done(ended) => ended,
                Step::Ask(request, pending) => {
                    let ghost second_request = request@;
                    let ghost second_pending = pending@;
                    let now = unix_now();
                    let reply = serve(table, request, now);
                    let ghost second_reply = reply@;
                    let last = resume(secret, pending, reply);
                    match last {
                        Step::Done(ended) => {
                            assert(round(
                                secret@,
                                mid,
                                second_request,
                                second_pending,
                                now,
                                second_reply,
                                table@,
                                StepView::Done(outcome_of(ended)),
                            ));
                            ended
                        },
                        // Never taken: every answer shortens the conversation.
                        Step::Ask(_, _) => Err(Error::StorageError),
                    }
                },
            }
        },
    }
}

// ---------------------------------------------------------------------------
// What each operation comes to
// ---------------------------------------------------------------------------

/// What the provisioning of a guest comes to. Where it succeeds, exactly one
/// account was added, it is a fresh guest account, and the profile shows it.
/// Where it fails, the store is as it was.
pub open spec fn guest_provisioned(
    secret: Seq<char>,
    before: Seq<UserAccountView>,
    outcome: Result<OutcomeView, Error>,
    after: Seq<UserAccountView>,
) -> bool {
    match outcome {
        Ok(OutcomeView::Profile(profile)) => {
            &&& after.len() == before.len() + 1
            &&& after.drop_last() == before
            &&& after.last().as_inserted().is_fresh_guest(secret)
            &&& insertable(before, after.last().as_inserted())
            &&& profile == profile_of(after.last())
        },
        Ok(OutcomeView::Tokens(_)) => false,
        Err(e) => after == before && (e == Error::JWTTokenCreationError || e
            == Error::StorageError),
    }
}

/// What a registration comes to. A request without a bearer token is turned
/// down. Where the registration succeeds, the guest who held the presented
/// token is gone, exactly one account was added, it is a fresh account for
/// the user, and the profile shows it. Where it fails, the store is as it
/// was. Hashing fails only on a password that is too long.
pub open spec fn registered(
    secret: Seq<char>,
    before: Seq<UserAccountView>,
    authorization: Option<Seq<char>>,
    credentials: CredentialsView,
    outcome: Result<OutcomeView, Error>,
    after: Seq<UserAccountView>,
) -> bool {
    match bearer_token(authorization) {
        None => outcome == Err::<OutcomeView, Error>(Error::TokenInvalid) && after == before,
        Some(token) => match outcome {
            Ok(OutcomeView::Profile(profile)) => {
                &&& after.len() >= 1
                &&& after.drop_last() == without_guest(before, token)
                &&& after.last().as_inserted().is_fresh_registered(
                    secret,
                    credentials.user_name,
                    password_bytes(credentials.password),
                )
                &&& insertable(before, after.last().as_inserted())
                &&& profile == profile_of(after.last())
            },
            Ok(OutcomeView::Tokens(_)) => false,
            Err(e) => after == before && (e == Error::JWTTokenCreationError || (e
                == Error::ConfigurationError && password_bytes(credentials.password).len()
                > MAX_PASSWORD_BYTES) || e == Error::StorageError),
        },
    }
}

/// What a sign-up comes to: a registration with credentials, the
/// provisioning of a guest without.
pub open spec fn signed_up(
    secret: Seq<char>,
    before: Seq<UserAccountView>,
    authorization: Option<Seq<char>>,
    sign_up_data: Option<CredentialsView>,
    outcome: Result<OutcomeView, Error>,
    after: Seq<UserAccountView>,
) -> bool {
    match sign_up_data {
        Some(credentials) => registered(secret, before, authorization, credentials, outcome, after),
        None => guest_provisioned(secret, before, outcome, after),
    }
}

/// Whether `account` lets the credentials in: it has that user name, and
/// the password passes against its hash.
pub open spec fn admits(account: UserAccountView, credentials: CredentialsView) -> bool {
    &&& account.user_name == Some(credentials.user_name)
    &&& account.password_hash matches Some(hash)
    &&& phc_check(hash, password_bytes(credentials.password)) == Some(
        true,
    )
}

/// Whether `account` has the user name of the credentials and a password
/// hash that cannot be read.
pub open spec fn unreadable(account: UserAccountView, credentials: CredentialsView) -> bool {
    &&& account.user_name == Some(credentials.user_name)
    &&& account.password_hash matches Some(hash)
    &&& phc_check(hash, password_bytes(credentials.password)) is None
}

/// The store once the guest who came with `guest_token` was removed for
/// the sake of `account`.
pub open spec fn cleaned(
    before: Seq<UserAccountView>,
    account: UserAccountView,
    guest_token: Option<Seq<char>>,
) -> Seq<UserAccountView> {
    match guest_token {
        Some(token) => if token == account.access_token {
            before
        } else {
            without_guest(before, token)
        },
        None => before,
    }
}

/// Whether the request has a header that carries no bearer token.
pub open spec fn header_is_malformed(authorization: Option<Seq<char>>) -> bool {
    authorization is Some && bearer_token(authorization) is None
}

/// What a sign-in with credentials comes to. The credentials decide first.
/// Where no account lets them in, they are invalid, whether for the name or
/// for the password and whatever the header holds; and where the account
/// with the name has a hash that cannot be read, the service is at fault.
/// Where an account lets them in, the header decides: one that carries no
/// bearer token is turned down; otherwise the profile shows the account with
/// the pair it has, and the guest who came with the presented token is gone.
/// Where the sign-in fails, nothing is issued and the store is as it was.
pub open spec fn signed_in_as_user(
    before: Seq<UserAccountView>,
    authorization: Option<Seq<char>>,
    credentials: CredentialsView,
    outcome: Result<OutcomeView, Error>,
    after: Seq<UserAccountView>,
) -> bool {
    match outcome {
        Ok(OutcomeView::Profile(profile)) => !header_is_malformed(authorization) && exists|i: int|
            0 <= i < before.len() && admits(#[trigger] before[i], credentials) && profile
                == profile_of(before[i]) && after == cleaned(
                before,
                before[i],
                bearer_token(authorization),
            ),
        Ok(OutcomeView::Tokens(_)) => false,
        Err(e) => after == before && match e {
            Error::InvalidCredentials => forall|i: int|
                0 <= i < before.len() ==> !admits(#[trigger] before[i], credentials)
                    && !unreadable(before[i], credentials),
            Error::ConfigurationError => exists|i: int|
                0 <= i < before.len() && unreadable(#[trigger] before[i], credentials),
            Error::TokenInvalid => header_is_malformed(authorization) && exists|i: int|
                0 <= i < before.len() && admits(#[trigger] before[i], credentials),
            _ => false,
        },
    }
}

/// What a sign-in comes to: with credentials what `signed_in_as_user` says,
/// without them the provisioning of a guest.
pub open spec fn signed_in(
    secret: Seq<char>,
    before: Seq<UserAccountView>,
    authorization: Option<Seq<char>>,
    sign_in_data: Option<CredentialsView>,
    outcome: Result<OutcomeView, Error>,
    after: Seq<UserAccountView>,
) -> bool {
    match sign_in_data {
        Some(credentials) => signed_in_as_user(before, authorization, credentials, outcome, after),
        None => guest_provisioned(secret, before, outcome, after),
    }
}

/// What a deletion comes to. A request without a bearer token is turned
/// down. Otherwise the account that held the presented token is gone, and
/// where the deletion succeeds, a fresh guest account was added and the
/// profile shows it.
pub open spec fn account_deleted(
    secret: Seq<char>,
    before: Seq<UserAccountView>,
    authorization: Option<Seq<char>>,
    outcome: Result<OutcomeView, Error>,
    after: Seq<UserAccountView>,
) -> bool {
    match bearer_token(authorization) {
        None => outcome == Err::<OutcomeView, Error>(Error::TokenInvalid) && after == before,
        Some(token) => match outcome {
            Ok(OutcomeView::Profile(profile)) => {
                &&& after.len() >= 1
                &&& after.drop_last() == without_token(before, token)
                &&& after.last().as_inserted().is_fresh_guest(secret)
                &&& insertable(
                    without_token(before, token),
                    after.last().as_inserted(),
                )
                &&& profile == profile_of(after.last())
            },
            Ok(OutcomeView::Tokens(_)) => false,
            Err(e) => after == without_token(before, token) && (e
                == Error::JWTTokenCreationError || e == Error::StorageError),
        },
    }
}

/// What a refresh comes to at the time `now` for the account at `at`, which
/// holds the presented access token and the presented refresh token. A
/// refresh token that does not hold at `now` is invalid, and times that do
/// not fit the machine's word make no token. Otherwise the new access token
/// is the one issued at `now` for the account: where another account holds
/// that very token the store turns it down, else the account has it now,
/// with the refresh token it had. Where the refresh fails, the store is as
/// it was.
pub open spec fn refreshed_account_at(
    secret: Seq<char>,
    before: Seq<UserAccountView>,
    at: int,
    now: int,
    outcome: Result<OutcomeView, Error>,
    after: Seq<UserAccountView>,
) -> bool {
    let account = before[at];
    if !jwt_valid_at(account.refresh_token, secret, now) {
        outcome == Err::<OutcomeView, Error>(Error::TokenInvalid) && after == before
    } else {
        match token_window(now, ACCESS_TOKEN_SECONDS as int) {
            None => outcome == Err::<OutcomeView, Error>(Error::JWTTokenCreationError) && after
                == before,
            Some((iat, exp)) => {
                let token = hs512_token(account.user_id, exp as int, iat as int, secret);
                if token_taken_by_other(before, account.user_id, token) {
                    outcome == Err::<OutcomeView, Error>(Error::StorageError) && after == before
                } else {
                    &&& outcome == Ok::<OutcomeView, Error>(
                        OutcomeView::Tokens(
                            AuthTokenDtoView {
                                access_token: token,
                                refresh_token: account.refresh_token,
                            },
                        ),
                    )
                    &&& issued_at(
                        token,
                        secret,
                        account.user_id,
                        ACCESS_TOKEN_SECONDS as int,
                        now,
                    )
                    &&& after == before.update(
                        at,
                        account.with_tokens(token, account.refresh_token),
                    )
                }
            },
        }
    }
}

/// What a refresh comes to for the account at `at`, which holds the
/// presented access token. A refresh token other than the account's own is a
/// mismatch: no token is issued and the store is as it was. Otherwise the
/// time that the clock gave decides, as `refreshed_account_at` says.
pub open spec fn refreshed_account(
    secret: Seq<char>,
    before: Seq<UserAccountView>,
    at: int,
    refresh_token: Seq<char>,
    outcome: Result<OutcomeView, Error>,
    after: Seq<UserAccountView>,
) -> bool {
    if refresh_token != before[at].refresh_token {
        outcome == Err::<OutcomeView, Error>(Error::TokenMismatch) && after == before
    } else {
        exists|now: i64| #[trigger]
            refreshed_account_at(secret, before, at, now as int, outcome, after)
    }
}

/// What a refresh comes to. A request without a bearer token is turned
/// down, and a token that no account holds finds nothing. Otherwise the
/// account that holds the token decides.
pub open spec fn refreshed(
    secret: Seq<char>,
    before: Seq<UserAccountView>,
    authorization: Option<Seq<char>>,
    refresh_token: Seq<char>,
    outcome: Result<OutcomeView, Error>,
    after: Seq<UserAccountView>,
) -> bool {
    match bearer_token(authorization) {
        None => outcome == Err::<OutcomeView, Error>(Error::TokenInvalid) && after == before,
        Some(token) => if !has_access_token(before, token) {
            outcome == Err::<OutcomeView, Error>(Error::NotFound) && after == before
        } else {
            exists|at: int|
                0 <= at < before.len() && (#[trigger] before[at]).access_token == token
                    && refreshed_account(secret, before, at, refresh_token, outcome, after)
        },
    }
}

/// Every conversation that the provisioning of a guest opens comes to what
/// `guest_provisioned` says.
pub proof fn lemma_guest_conversation(
    secret: Seq<char>,
    before: Seq<UserAccountView>,
    first: StepView,
    outcome: Result<OutcomeView, Error>,
    after: Seq<UserAccountView>,
)
    requires
        is_account_table(before),
        guest_opening(secret, first),
        runs(secret, before, first, outcome, after),
    ensures
        guest_provisioned(secret, before, outcome, after),
        is_account_table(after),
{
    if let StepView::Ask(request, pending) = first {
        let (now, reply, mid, second) = choose|
            now: i64,
            reply: StoreReplyView,
            mid: Seq<UserAccountView>,
            second: StepView,
        | #[trigger]
            round(secret, before, request, pending, now, reply, mid, second) && ends_soon(
                secret,
                mid,
                second,
                outcome,
                after,
            );
        lemma_answers_keeps_table(before, request, now, reply, mid);
        if let StoreReplyView::Account(account) = reply {
            assert(mid.drop_last() =~= before);
        }
    }
}

/// Once a new account stands for the caller and the guest is removed, the
/// store holds what it held without the guest, and the new account.
pub proof fn lemma_cleaned_after_insert(
    before: Seq<UserAccountView>,
    account: UserAccountView,
    token: Seq<char>,
)
    requires
        insertable(before, account.as_inserted()),
    ensures
        cleaned(before.push(account), account, Some(token)) == without_guest(before, token).push(
            account,
        ),
{
    let pushed = before.push(account);
    assert(pushed.drop_last() =~= before);
    if token == account.access_token {
        assert(!has_guest_token(before, token)) by {
            if has_guest_token(before, token) {
                let i = choose|i: int|
                    0 <= i < before.len() && (#[trigger] before[i]).access_token == token
                        && before[i].user_name is None;
                assert(before[i].access_token != account.as_inserted().access_token);
            }
        }
    } else {
        if has_guest_token(before, token) {
            let i = choose|i: int|
                0 <= i < before.len() && (#[trigger] before[i]).access_token == token
                    && before[i].user_name is None;
            assert(pushed[i] == before[i]);
            assert(has_guest_token(pushed, token));
        } else {
            assert(!has_guest_token(pushed, token)) by {
                if has_guest_token(pushed, token) {
                    let i = choose|i: int|
                        0 <= i < pushed.len() && (#[trigger] pushed[i]).access_token == token
                            && pushed[i].user_name is None;
                    assert(before[i] == pushed[i]);
                }
            }
        }
    }
}

/// Every conversation that a registration opens comes to what `registered`
/// says.
pub proof fn lemma_registration_conversation(
    secret: Seq<char>,
    before: Seq<UserAccountView>,
    authorization: Option<Seq<char>>,
    credentials: CredentialsView,
    first: StepView,
    outcome: Result<OutcomeView, Error>,
    after: Seq<UserAccountView>,
)
    requires
        is_account_table(before),
        registration_opening(secret, authorization, credentials, first),
        runs(secret, before, first, outcome, after),
    ensures
        registered(secret, before, authorization, credentials, outcome, after),
        is_account_table(after),
{
    if let StepView::Ask(request, pending) = first {
        let (now, reply, mid, second) = choose|
            now: i64,
            reply: StoreReplyView,
            mid: Seq<UserAccountView>,
            second: StepView,
        | #[trigger]
            round(secret, before, request, pending, now, reply, mid, second) && ends_soon(
                secret,
                mid,
                second,
                outcome,
                after,
            );
        lemma_answers_keeps_table(before, request, now, reply, mid);
        let token = bearer_token(authorization)->0;
        if let StoreReplyView::Account(account) = reply {
            lemma_cleaned_after_insert(before, account, token);
            assert(mid == before.push(account));
            if let StepView::Ask(second_request, second_pending) = second {
                let (later, second_reply) = choose|later: i64, second_reply: StoreReplyView|
                    #[trigger]
                    round(
                        secret,
                        mid,
                        second_request,
                        second_pending,
                        later,
                        second_reply,
                        after,
                        StepView::Done(outcome),
                    );
                lemma_answers_keeps_table(
                    mid,
                    second_request,
                    later,
                    second_reply,
                    after,
                );
                assert(after == cleaned(mid, account, Some(token)));
            }
            let rest = without_guest(before, token);
            assert(rest.push(account).drop_last() =~= rest);
        }
    }
}

/// Every conversation that a sign-in with credentials opens comes to what
/// `signed_in_as_user` says.
pub proof fn lemma_sign_in_conversation(
    secret: Seq<char>,
    before: Seq<UserAccountView>,
    authorization: Option<Seq<char>>,
    credentials: CredentialsView,
    outcome: Result<OutcomeView, Error>,
    after: Seq<UserAccountView>,
)
    requires
        is_account_table(before),
        runs(secret, before, sign_in_opening(authorization, credentials), outcome, after),
    ensures
        signed_in_as_user(before, authorization, credentials, outcome, after),
        is_account_table(after),
{
    let first = sign_in_opening(authorization, credentials);
    if let StepView::Ask(request, pending) = first {
        let (now, reply, mid, second) = choose|
            now: i64,
            reply: StoreReplyView,
            mid: Seq<UserAccountView>,
            second: StepView,
        | #[trigger]
            round(secret, before, request, pending, now, reply, mid, second) && ends_soon(
                secret,
                mid,
                second,
                outcome,
                after,
            );
        assert(mid == before);
        match reply {
            StoreReplyView::Account(account) => {
                let at = choose|i: int| 0 <= i < before.len() && before[i] == account;
                assert(before[at] == account);
                assert forall|i: int| 0 <= i < before.len() && i != at implies (
                #[trigger] before[i]).user_name != Some(credentials.user_name) by {
                    if i < at {
                        assert(!(before[i].user_name is Some && before[i].user_name
                            == before[at].user_name));
                    } else {
                        assert(!(before[at].user_name is Some && before[at].user_name
                            == before[i].user_name));
                    }
                }
                if let StepView::Ask(second_request, second_pending) = second {
                    let (later, second_reply) = choose|later: i64, second_reply: StoreReplyView|
                    #[trigger]
                        round(
                            secret,
                            mid,
                            second_request,
                            second_pending,
                            later,
                            second_reply,
                            after,
                            StepView::Done(outcome),
                        );
                    lemma_answers_keeps_table(
                        mid,
                        second_request,
                        later,
                        second_reply,
                        after,
                    );
                    assert(admits(before[at], credentials));
                    assert(!header_is_malformed(authorization));
                } else {
                    assert(after == before);
                    if outcome is Ok {
                        assert(admits(before[at], credentials));
                        assert(!header_is_malformed(authorization));
                    } else if outcome == Err::<OutcomeView, Error>(Error::TokenInvalid) {
                        assert(admits(before[at], credentials));
                    } else if outcome == Err::<OutcomeView, Error>(Error::ConfigurationError) {
                        assert(unreadable(before[at], credentials));
                    }
                }
            },
            StoreReplyView::NotFound => {
                assert forall|i: int| 0 <= i < before.len() implies !admits(
                    #[trigger] before[i],
                    credentials,
                ) && !unreadable(before[i], credentials) by {
                    assert(before[i].user_name != Some(credentials.user_name));
                }
            },
            _ => {},
        }
    }
}

/// Every conversation that a deletion opens comes to what `account_deleted`
/// says.
pub proof fn lemma_deletion_conversation(
    secret: Seq<char>,
    before: Seq<UserAccountView>,
    authorization: Option<Seq<char>>,
    outcome: Result<OutcomeView, Error>,
    after: Seq<UserAccountView>,
)
    requires
        is_account_table(before),
        runs(secret, before, delete_account_opening(authorization), outcome, after),
    ensures
        account_deleted(secret, before, authorization, outcome, after),
        is_account_table(after),
{
    let first = delete_account_opening(authorization);
    if let StepView::Ask(request, pending) = first {
        let (now, reply, mid, second) = choose|
            now: i64,
            reply: StoreReplyView,
            mid: Seq<UserAccountView>,
            second: StepView,
        | #[trigger]
            round(secret, before, request, pending, now, reply, mid, second) && ends_soon(
                secret,
                mid,
                second,
                outcome,
                after,
            );
        lemma_answers_keeps_table(before, request, now, reply, mid);
        if let StepView::Ask(second_request, second_pending) = second {
            let (later, second_reply) = choose|later: i64, second_reply: StoreReplyView|
                    #[trigger]
                round(
                    secret,
                    mid,
                    second_request,
                    second_pending,
                    later,
                    second_reply,
                    after,
                    StepView::Done(outcome),
                );
            lemma_answers_keeps_table(
                mid,
                second_request,
                later,
                second_reply,
                after,
            );
            if let StoreReplyView::Account(account) = second_reply {
                assert(after.drop_last() =~= mid);
            }
        }
    }
}

/// Every conversation that a refresh opens comes to what `refreshed` says.
pub proof fn lemma_refresh_conversation(
    secret: Seq<char>,
    before: Seq<UserAccountView>,
    authorization: Option<Seq<char>>,
    refresh_token: Seq<char>,
    outcome: Result<OutcomeView, Error>,
    after: Seq<UserAccountView>,
)
    requires
        is_account_table(before),
        runs(secret, before, refresh_token_opening(authorization, refresh_token), outcome, after),
    ensures
        refreshed(secret, before, authorization, refresh_token, outcome, after),
        is_account_table(after),
{
    let first = refresh_token_opening(authorization, refresh_token);
    if let StepView::Ask(request, pending) = first {
        let (now, reply, mid, second) = choose|
            now: i64,
            reply: StoreReplyView,
            mid: Seq<UserAccountView>,
            second: StepView,
        | #[trigger]
            round(secret, before, request, pending, now, reply, mid, second) && ends_soon(
                secret,
                mid,
                second,
                outcome,
                after,
            );
        assert(mid == before);
        let token = bearer_token(authorization)->0;
        if let StoreReplyView::Account(account) = reply {
            let at = choose|i: int| 0 <= i < before.len() && before[i] == account;
            assert(before[at].access_token == token);
            if refresh_token == account.refresh_token {
                let issue = choose|issue: i64| #[trigger]
                    refresh_decision_at(secret, refresh_token, account, issue as int, second);
                if let StepView::Ask(second_request, second_pending) = second {
                    let (later, second_reply) = choose|later: i64, second_reply: StoreReplyView|
                    #[trigger]
                        round(
                            secret,
                            mid,
                            second_request,
                            second_pending,
                            later,
                            second_reply,
                            after,
                            StepView::Done(outcome),
                        );
                    lemma_answers_keeps_table(
                        mid,
                        second_request,
                        later,
                        second_reply,
                        after,
                    );
                    if let StoreRequestView::UpdateAuthToken {
                        user_id,
                        access_token,
                        refresh_token: kept,
                    } = second_request {
                        if let StoreReplyView::Account(changed) = second_reply {
                            let j = choose|j: int|
                                0 <= j < before.len() && (#[trigger] before[j]).user_id
                                    == user_id && changed == before[j].with_tokens(
                                    access_token,
                                    kept,
                                ) && after == before.update(j, changed);
                            if j < at {
                                assert(before[j].user_id != before[at].user_id);
                            } else if at < j {
                                assert(before[at].user_id != before[j].user_id);
                            }
                            assert(j == at);
                        }
                        if let StoreReplyView::NotFound = second_reply {
                            assert(before[at].user_id == account.user_id);
                            assert(has_user_id(before, account.user_id));
                        }
                    }
                }
                assert(refreshed_account_at(secret, before, at, issue as int, outcome, after));
            }
            assert(refreshed_account(secret, before, at, refresh_token, outcome, after));
        }
    }
}

// ---------------------------------------------------------------------------
// The operations, run against a table
// ---------------------------------------------------------------------------

/// The end of a conversation that a profile came out of.
pub open spec fn with_profile(result: Result<ProfileDto, Error>) -> Result<OutcomeView, Error> {
    match result {
        Ok(profile) => Ok(OutcomeView::Profile(profile@)),
        Err(e) => Err(e),
    }
}

/// The end of a conversation that a pair of tokens came out of.
pub open spec fn with_tokens(result: Result<AuthTokenDto, Error>) -> Result<OutcomeView, Error> {
    match result {
        Ok(pair) => Ok(OutcomeView::Tokens(pair@)),
        Err(e) => Err(e),
    }
}

/// Takes the profile out of the end of a conversation.
fn profile_from(outcome: Result<Outcome, Error>) -> (result: Result<ProfileDto, Error>)
    requires
        !(outcome matches Ok(Outcome::Tokens(_))),
    ensures
        with_profile(result) == outcome_of(outcome),
{
    match outcome {
        Ok(Outcome::Profile(profile)) => Ok(profile),
        // Never taken: the conversation ends with a profile.
        Ok(Outcome::Tokens(_)) => Err(Error::StorageError),
        Err(e) => Err(e),
    }
}

/// Takes the pair of tokens out of the end of a conversation.
fn tokens_from(outcome: Result<Outcome, Error>) -> (result: Result<AuthTokenDto, Error>)
    requires
        !(outcome matches Ok(Outcome::Profile(_))),
    ensures
        with_tokens(result) == outcome_of(outcome),
{
    match outcome {
        Ok(Outcome::Tokens(pair)) => Ok(pair),
        // Never taken: the conversation ends with a pair of tokens.
        Ok(Outcome::Profile(_)) => Err(Error::StorageError),
        Err(e) => Err(e),
    }
}

/// Signs the caller up. Without credentials a guest account is provisioned.
/// With credentials the caller, who presents a guest's token, is registered
/// under a new identity, and the guest account is removed afterwards.
pub fn sign_up(
    table: &mut AccountTable,
    secret: &JwtSecret,
    authorization: Option<&str>,
    sign_up_data_dto: SignUpDataDto,
) -> (result: Result<ProfileDto, Error>)
    requires
        old(table).wf(),
    ensures
        final(table).wf(),
        signed_up(
            secret@,
            old(table)@,
            text_of(authorization),
            sign_up_data_dto@,
            with_profile(result),
            final(table)@,
        ),
{
    let ghost before = table@;
    let ghost sign_up_data = sign_up_data_dto@;
    let first = begin_sign_up(secret, authorization, sign_up_data_dto);
    let ghost opening = first@;
    let outcome = run(table, secret, first);
    proof {
        match sign_up_data {
            Some(credentials) => lemma_registration_conversation(
                secret@,
                before,
                text_of(authorization),
                credentials,
                opening,
                outcome_of(outcome),
                table@,
            ),
            None => lemma_guest_conversation(
                secret@,
                before,
                opening,
                outcome_of(outcome),
                table@,
            ),
        }
    }
    profile_from(outcome)
}

/// Signs the caller in. With a user name and a password, the pair that the
/// account has is handed out as it is, and the guest account that the caller
/// came with, if any, is removed afterwards. Without credentials a guest
/// account is provisioned.
pub fn sign_in(
    table: &mut AccountTable,
    secret: &JwtSecret,
    authorization: Option<&str>,
    sign_in_data_dto: SignUpDataDto,
) -> (result: Result<ProfileDto, Error>)
    requires
        old(table).wf(),
    ensures
        final(table).wf(),
        signed_in(
            secret@,
            old(table)@,
            text_of(authorization),
            sign_in_data_dto@,
            with_profile(result),
            final(table)@,
        ),
{
    let ghost before = table@;
    let ghost sign_in_data = sign_in_data_dto@;
    let first = begin_sign_in(secret, authorization, sign_in_data_dto);
    let ghost opening = first@;
    let outcome = run(table, secret, first);
    proof {
        match sign_in_data {
            Some(credentials) => lemma_sign_in_conversation(
                secret@,
                before,
                text_of(authorization),
                credentials,
                outcome_of(outcome),
                table@,
            ),
            None => lemma_guest_conversation(
                secret@,
                before,
                opening,
                outcome_of(outcome),
                table@,
            ),
        }
    }
    profile_from(outcome)
}

/// Deletes the caller's account and provisions a guest account in its
/// place, so that the caller goes on with a session that holds.
pub fn delete_account(
    table: &mut AccountTable,
    secret: &JwtSecret,
    authorization: Option<&str>,
) -> (result: Result<ProfileDto, Error>)
    requires
        old(table).wf(),
    ensures
        final(table).wf(),
        account_deleted(
            secret@,
            old(table)@,
            text_of(authorization),
            with_profile(result),
            final(table)@,
        ),
{
    let ghost before = table@;
    let first = begin_delete_account(authorization);
    let outcome = run(table, secret, first);
    proof {
        lemma_deletion_conversation(
            secret@,
            before,
            text_of(authorization),
            outcome_of(outcome),
            table@,
        );
    }
    profile_from(outcome)
}

/// Hands the caller a new access token on the strength of the refresh
/// token. The account is found by the access token that the request
/// presents; the refresh token stays as it is.
pub fn refresh_token(
    table: &mut AccountTable,
    secret: &JwtSecret,
    authorization: Option<&str>,
    old_refresh_token: String,
) -> (result: Result<AuthTokenDto, Error>)
    requires
        old(table).wf(),
    ensures
        final(table).wf(),
        refreshed(
            secret@,
            old(table)@,
            text_of(authorization),
            old_refresh_token@,
            with_tokens(result),
            final(table)@,
        ),
{
    let ghost before = table@;
    let ghost presented = old_refresh_token@;
    let first = begin_refresh_token(authorization, old_refresh_token);
    let outcome = run(table, secret, first);
    proof {
        lemma_refresh_conversation(
            secret@,
            before,
            text_of(authorization),
            presented,
            outcome_of(outcome),
            table@,
        );
    }
    tokens_from(outcome)
}

// ---------------------------------------------------------------------------
// Laws
// ---------------------------------------------------------------------------

/// A guest who registers is replaced: after the provisioning of a guest and
/// a registration that presents the guest's access token, the guest account
/// is gone, the registered account is there under another identifier, and
/// nothing else has changed. Of the two accounts the caller has had, exactly
/// the registered one is left.
pub proof fn law_registration_replaces_guest(
    secret: Seq<char>,
    start: Seq<UserAccountView>,
    guest: ProfileView,
    with_guest: Seq<UserAccountView>,
    authorization: Option<Seq<char>>,
    credentials: CredentialsView,
    user: ProfileView,
    end: Seq<UserAccountView>,
)
    requires
        is_account_table(start),
        guest_provisioned(secret, start, Ok(OutcomeView::Profile(guest)), with_guest),
        bearer_token(authorization) == Some(guest.auth_token_dto.access_token),
        registered(
            secret,
            with_guest,
            authorization,
            credentials,
            Ok(OutcomeView::Profile(user)),
            end,
        ),
    ensures
        end == start.push(end.last()),
        user == profile_of(end.last()),
        user.user_name == Some(credentials.user_name),
        user.user_id != guest.user_id,
        !has_user_id(end, guest.user_id),
        !has_access_token(end, guest.auth_token_dto.access_token),
        has_user_id(end, user.user_id),
        is_account_table(end),
{
    let token = guest.auth_token_dto.access_token;
    let guest_row = with_guest.last();
    let user_row = end.last();
    assert(with_guest =~= start.push(guest_row));
    assert(!has_access_token(start, token)) by {
        if has_access_token(start, token) {
            let i = choose|i: int|
                0 <= i < start.len() && (#[trigger] start[i]).access_token == token;
            assert(start[i].access_token != guest_row.as_inserted().access_token);
        }
    }
    lemma_without_absent_token(start, token);
    assert(with_guest.drop_last() =~= start);
    assert(without_token(with_guest, token) == start);
    assert(end =~= start.push(user_row));
    assert(with_guest[with_guest.len() - 1] == guest_row);
    assert(user_row.user_id != guest_row.user_id);
    assert(is_account_table(end)) by {
        assert forall|i: int, j: int| 0 <= i < j < end.len() implies {
            &&& (#[trigger] end[i]).user_id != (#[trigger] end[j]).user_id
            &&& end[i].access_token != end[j].access_token
            &&& !(end[i].user_name is Some && end[i].user_name == end[j].user_name)
        } by {
            if j < start.len() {
                assert(start[i].user_id != start[j].user_id);
            } else {
                assert(with_guest[i] == start[i]);
            }
        }
    }
    assert(!has_user_id(end, guest.user_id)) by {
        if has_user_id(end, guest.user_id) {
            let i = choose|i: int|
                0 <= i < end.len() && (#[trigger] end[i]).user_id == guest.user_id;
            if i < start.len() {
                assert(start[i].user_id != guest_row.as_inserted().user_id);
            }
        }
    }
    assert(!has_access_token(end, token)) by {
        if has_access_token(end, token) {
            let i = choose|i: int|
                0 <= i < end.len() && (#[trigger] end[i]).access_token == token;
            if i < start.len() {
                assert(start[i].access_token == token);
            } else {
                assert(with_guest[with_guest.len() - 1].access_token
                    != user_row.as_inserted().access_token);
            }
        }
    }
    assert(end[end.len() - 1].user_id == user.user_id);
}

/// A refresh token that is not the one on record buys nothing: where the
/// account that holds the presented access token has another refresh token,
/// the refresh ends in a mismatch, no token is issued and the store is as
/// it was.
pub proof fn law_refresh_mismatch_changes_nothing(
    secret: Seq<char>,
    before: Seq<UserAccountView>,
    authorization: Option<Seq<char>>,
    refresh_token: Seq<char>,
    outcome: Result<OutcomeView, Error>,
    after: Seq<UserAccountView>,
    at: int,
)
    requires
        is_account_table(before),
        0 <= at < before.len(),
        bearer_token(authorization) == Some(before[at].access_token),
        before[at].refresh_token != refresh_token,
        refreshed(secret, before, authorization, refresh_token, outcome, after),
    ensures
        outcome == Err::<OutcomeView, Error>(Error::TokenMismatch),
        after == before,
{
    let token = before[at].access_token;
    assert(has_access_token(before, token));
    let found = choose|found: int|
        0 <= found < before.len() && (#[trigger] before[found]).access_token == token
            && refreshed_account(secret, before, found, refresh_token, outcome, after);
    if found < at {
        assert(before[found].access_token != before[at].access_token);
    } else if at < found {
        assert(before[at].access_token != before[found].access_token);
    }
}

/// Deleting an account leaves the caller with a new guest identity: where
/// the deletion succeeds, the account that held the presented token is
/// gone, and the profile shows a guest account that was not there before.
/// The new identifier is drawn at random; that it is not the deleted one is
/// asked for here, not shown.
pub proof fn law_deletion_leaves_a_new_guest(
    secret: Seq<char>,
    before: Seq<UserAccountView>,
    authorization: Option<Seq<char>>,
    guest: ProfileView,
    after: Seq<UserAccountView>,
    at: int,
)
    requires
        is_account_table(before),
        0 <= at < before.len(),
        bearer_token(authorization) == Some(before[at].access_token),
        account_deleted(secret, before, authorization, Ok(OutcomeView::Profile(guest)), after),
        guest.user_id != before[at].user_id,
    ensures
        after == before.remove(at).push(after.last()),
        guest == profile_of(after.last()),
        guest.user_name is None,
        after.last().as_inserted().is_fresh_guest(secret),
        !has_user_id(before.remove(at), guest.user_id),
        !has_user_id(after, before[at].user_id),
        has_user_id(after, guest.user_id),
{
    let token = before[at].access_token;
    let rest = before.remove(at);
    assert forall|i: int| 0 <= i < before.len() && i != at implies (
    #[trigger] before[i]).access_token != token by {
        if i < at {
            assert(before[i].access_token != before[at].access_token);
        } else {
            assert(before[at].access_token != before[i].access_token);
        }
    }
    lemma_without_token_at(before, token, at);
    assert(after =~= rest.push(after.last()));
    assert(!has_user_id(rest, guest.user_id)) by {
        if has_user_id(rest, guest.user_id) {
            let i = choose|i: int|
                0 <= i < rest.len() && (#[trigger] rest[i]).user_id == guest.user_id;
            assert(rest[i].user_id != after.last().as_inserted().user_id);
        }
    }
    assert(!has_user_id(after, before[at].user_id)) by {
        if has_user_id(after, before[at].user_id) {
            let i = choose|i: int|
                0 <= i < after.len() && (#[trigger] after[i]).user_id == before[at].user_id;
            if i < rest.len() {
                assert(after[i] == rest[i]);
                if i < at {
                    assert(rest[i] == before[i]);
                    assert(before[i].user_id != before[at].user_id);
                } else {
                    assert(rest[i] == before[i + 1]);
                    assert(before[at].user_id != before[i + 1].user_id);
                }
            }
        }
    }
    assert(after[after.len() - 1].user_id == guest.user_id);
}

/// A sign-in with a wrong password changes nothing: where the account with
/// the user name has a hash that the password does not pass against, the
/// sign-in ends in invalid credentials, whatever the request's header holds;
/// no token is issued and the store is as it was.
pub proof fn law_wrong_password_changes_nothing(
    before: Seq<UserAccountView>,
    authorization: Option<Seq<char>>,
    credentials: CredentialsView,
    outcome: Result<OutcomeView, Error>,
    after: Seq<UserAccountView>,
    at: int,
)
    requires
        is_account_table(before),
        0 <= at < before.len(),
        before[at].user_name == Some(credentials.user_name),
        !admits(before[at], credentials),
        !unreadable(before[at], credentials),
        signed_in_as_user(before, authorization, credentials, outcome, after),
    ensures
        outcome == Err::<OutcomeView, Error>(Error::InvalidCredentials),
        after == before,
{
    assert forall|i: int| 0 <= i < before.len() && i != at implies (#[trigger] before[i]).user_name
        != Some(credentials.user_name) by {
        if i < at {
            assert(!(before[i].user_name is Some && before[i].user_name == before[at].user_name));
        } else {
            assert(!(before[at].user_name is Some && before[at].user_name == before[i].user_name));
        }
    }
}

/// A sign-in under a name that no account has ends as one with a wrong
/// password does: in invalid credentials, whatever the request's header
/// holds, with no token issued and the store as it was. The answer does not
/// tell whether the name is known.
pub proof fn law_unknown_user_changes_nothing(
    before: Seq<UserAccountView>,
    authorization: Option<Seq<char>>,
    credentials: CredentialsView,
    outcome: Result<OutcomeView, Error>,
    after: Seq<UserAccountView>,
)
    requires
        !has_user_name(before, credentials.user_name),
        signed_in_as_user(before, authorization, credentials, outcome, after),
    ensures
        outcome == Err::<OutcomeView, Error>(Error::InvalidCredentials),
        after == before,
{
    assert forall|i: int| 0 <= i < before.len() implies (#[trigger] before[i]).user_name != Some(
        credentials.user_name,
    ) by {}
}

/// A guest who was just provisioned holds a session: the account is new and
/// has no name, and there is a time, that of their issue, at which the
/// access token and the refresh token both verify, each speaking for the
/// new identifier.
pub proof fn law_guest_tokens_hold(
    secret: Seq<char>,
    before: Seq<UserAccountView>,
    guest: ProfileView,
    after: Seq<UserAccountView>,
)
    requires
        guest_provisioned(secret, before, Ok(OutcomeView::Profile(guest)), after),
    ensures
        guest.user_name is None,
        !has_user_id(before, guest.user_id),
        after == before.push(after.last()),
        guest == profile_of(after.last()),
        exists|now: i64| #[trigger]
            is_auth_token_at(
                AuthTokenView {
                    access_token: guest.auth_token_dto.access_token,
                    refresh_token: guest.auth_token_dto.refresh_token,
                },
                secret,
                guest.user_id,
                now as int,
            ) && jwt_valid_at(guest.auth_token_dto.access_token, secret, now as int)
                && jwt_valid_at(guest.auth_token_dto.refresh_token, secret, now as int),
        jwt_claims(guest.auth_token_dto.access_token, secret) matches Some(claims) && claims.sub
            == guest.user_id,
        jwt_claims(guest.auth_token_dto.refresh_token, secret) matches Some(claims) && claims.sub
            == guest.user_id,
{
    let row = after.last();
    assert(after =~= before.push(row));
    assert(!has_user_id(before, guest.user_id)) by {
        if has_user_id(before, guest.user_id) {
            let i = choose|i: int|
                0 <= i < before.len() && (#[trigger] before[i]).user_id == guest.user_id;
            assert(before[i].user_id != row.as_inserted().user_id);
        }
    }
    let pair = row.as_inserted().pair();
    let issue = choose|issue: i64| #[trigger]
        is_auth_token_at(pair, secret, row.user_id, issue as int);
    assert(is_auth_token_at(
        AuthTokenView {
            access_token: guest.auth_token_dto.access_token,
            refresh_token: guest.auth_token_dto.refresh_token,
        },
        secret,
        guest.user_id,
        issue as int,
    ));
}

} // verus!
