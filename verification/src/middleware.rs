//! The guard that every request passes before it is served.

use crate::account_api::{is_open_path, is_open_route};
use crate::error_data::Error;
use crate::security::{
    bearer_token, jwt_claims, request_verifies_at, unix_now,
    verify_access_token_from_request_headers_at, JwtSecret,
};
use crate::text::text_of;
use vstd::prelude::*;

verus! {

/// Whether the guard lets a request through at the time `now`: the open
/// routes always, every other route only with a bearer token that holds.
pub open spec fn guard_admits_at(
    secret: Seq<char>,
    path: Seq<char>,
    authorization: Option<Seq<char>>,
    now: int,
) -> bool {
    is_open_path(path) || request_verifies_at(secret, authorization, now)
}

/// What the guard's answer at the time `now` is: a request that it lets
/// through passes, and every other is turned down as one without a token
/// that holds.
pub open spec fn guard_answer_at(
    passed: Result<(), Error>,
    secret: Seq<char>,
    path: Seq<char>,
    authorization: Option<Seq<char>>,
    now: int,
) -> bool {
    match passed {
        Ok(_) => guard_admits_at(secret, path, authorization, now),
        Err(e) => e == Error::TokenInvalid && !guard_admits_at(secret, path, authorization, now),
    }
}

/// Lets a request through or turns it down, at the time `now`. The guard
/// looks at the token's signature and expiry and asks no store.
pub fn bearer_auth_validator_at(
    secret: &JwtSecret,
    path: &str,
    authorization: Option<&str>,
    now: i64,
) -> (passed: Result<(), Error>)
    ensures
        guard_answer_at(passed, secret@, path@, text_of(authorization), now as int),
{
    if is_open_route(path) {
        Ok(())
    } else if verify_access_token_from_request_headers_at(secret, authorization, now) {
        Ok(())
    } else {
        Err(Error::TokenInvalid)
    }
}

/// Lets a request through or turns it down, by the clock: the answer is
/// that of `bearer_auth_validator_at` for the time that the clock gave.
/// Whatever the clock says, the open routes pass, and no other route passes
/// without a bearer token that carries readable claims under `secret`.
pub fn bearer_auth_validator(
    secret: &JwtSecret,
    path: &str,
    authorization: Option<&str>,
) -> (passed: Result<(), Error>)
    ensures
        exists|now: i64| #[trigger]
            guard_answer_at(passed, secret@, path@, text_of(authorization), now as int),
        is_open_path(path@) ==> passed is Ok,
        match passed {
            Ok(_) => is_open_path(path@) || (bearer_token(text_of(authorization)) matches Some(
                token,
            ) && jwt_claims(token, secret@) is Some),
            Err(e) => e == Error::TokenInvalid,
        },
{
    let now = unix_now();
    bearer_auth_validator_at(secret, path, authorization, now)
}

} // verus!
