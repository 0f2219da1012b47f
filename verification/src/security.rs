//! The credential verifier and the token issuer.
//!
//! Passwords are hashed and checked by `argon2`, tokens are signed and read
//! by `jsonwebtoken`, and the clock is read through `chrono`. What is
//! believed of those calls is written on the private functions that make
//! them; everything around them is proved.

use crate::error_data::Error;
use crate::security_data::{
    AuthToken, AuthTokenView, Claims, ClaimsView, HashAlgorithm, HashData, HashDataView,
    PasswordStrengthIssue, TokenPayload, TokenPayloadView,
};
use crate::text::{string_of, strip_prefix, text_of};
use vstd::prelude::*;

verus! {

/// The request header that carries the bearer token.
pub const AUTHORIZATION_HEADER_KEY: &'static str = "Authorization";

/// What stands before the token in the header's value.
pub const BEARER_PREFIX: &'static str = "Bearer ";

/// How long an access token holds: one day, in seconds.
pub const ACCESS_TOKEN_SECONDS: i64 = 86_400;

/// How long a refresh token holds: thirty days, in seconds.
pub const REFRESH_TOKEN_SECONDS: i64 = 2_592_000;

/// The secret that tokens are signed with. It is made once, from the
/// service's configuration, and only ever read afterwards.
pub struct JwtSecret {
    value: String,
}

impl View for JwtSecret {
    type V = Seq<char>;

    closed spec fn view(&self) -> Seq<char> {
        self.value@
    }
}

impl JwtSecret {
    /// The secret with the given text.
    pub fn new(value: String) -> (secret: JwtSecret)
        ensures
            secret@ == value@,
    {
        JwtSecret { value }
    }

    /// The secret as the configuration gives it. A configuration without
    /// one is turned down.
    pub fn from_configuration(value: Option<String>) -> (made: Result<JwtSecret, Error>)
        ensures
            match made {
                Ok(secret) => value matches Some(v) && secret@ == v@,
                Err(e) => e == Error::ConfigurationError && value is None,
            },
    {
        match value {
            Some(v) => Ok(JwtSecret { value: v }),
            None => Err(Error::ConfigurationError),
        }
    }

    /// The text of the secret.
    pub fn as_str(&self) -> (text: &str)
        ensures
            text@ == self@,
    {
        self.value.as_str()
    }
}

// ---------------------------------------------------------------------------
// Passwords
// ---------------------------------------------------------------------------

/// What the strength policy holds against `password`. The policy is switched
/// off: every password is let through.
pub fn check_password_strength(password: &str) -> (issue: PasswordStrengthIssue)
    ensures
        issue == PasswordStrengthIssue::NoIssue,
{
    PasswordStrengthIssue::NoIssue
}

/// Turns the policy's finding into the request's fate: any issue at all
/// ends the request as a weak password.
pub fn admit_password(issue: PasswordStrengthIssue) -> (admitted: Result<(), Error>)
    ensures
        match admitted {
            Ok(_) => issue == PasswordStrengthIssue::NoIssue,
            Err(e) => e == Error::WeakPassword && issue != PasswordStrengthIssue::NoIssue,
        },
{
    match issue {
        PasswordStrengthIssue::NoIssue => Ok(()),
        _ => Err(Error::WeakPassword),
    }
}

/// The PHC string that Argon2id (version 19, default cost) makes of a
/// password and a salt, or nothing where it turns the two down.
pub uninterp spec fn argon2id_phc(password: Seq<u8>, salt: Seq<char>) -> Option<Seq<char>>;

/// What checking a password against a PHC string gives: `None` where the
/// string cannot be read as one, else whether the password passes.
pub uninterp spec fn phc_check(phc: Seq<char>, password: Seq<u8>) -> Option<bool>;

/// A character of the unpadded Base64 alphabet that PHC strings use.
pub open spec fn is_b64_char(c: char) -> bool {
    ('A' <= c && c <= 'Z') || ('a' <= c && c <= 'z') || ('0' <= c && c <= '9') || c == '+'
        || c == '/'
}

/// The shape of a freshly drawn salt: sixteen bytes in unpadded Base64.
pub open spec fn is_salt_text(salt: Seq<char>) -> bool {
    &&& salt.len() == 22
    &&& forall|i: int| 0 <= i < salt.len() ==> is_b64_char(#[trigger] salt[i])
}

/// The longest password that Argon2id takes, in bytes.
pub const MAX_PASSWORD_BYTES: usize = 0xFFFF_FFFF;

/// Whether Argon2id takes `salt`: with it, every password that is not too
/// long is hashed.
pub open spec fn is_usable_salt(salt: Seq<char>) -> bool {
    forall|password: Seq<u8>|
        password.len() <= MAX_PASSWORD_BYTES ==> (#[trigger] argon2id_phc(password, salt)) is Some
}

/// What stands before the salt in a PHC string of Argon2id, version 19, at
/// the default cost.
pub const PHC_PARAMETERS: &'static str = "$argon2id$v=19$m=4096,t=3,p=1$";

/// How a PHC string made with `salt` begins: the scheme, its version and its
/// cost, the salt, and the sign that opens the hash itself.
pub open spec fn phc_head(salt: Seq<char>) -> Seq<char> {
    PHC_PARAMETERS@ + salt + seq!['$']
}

/// `SaltString::generate` on the operating system's generator, as text.
/// The salt is random. What is claimed holds of every salt that can come
/// out: it is sixteen bytes in unpadded Base64, and `Argon2::default()`
/// hashes with it every password of at most `MAX_PASSWORD_BYTES` bytes.
/// Believed of `password-hash` and `argon2`, not proved.
#[verifier::external_body]
fn fresh_salt() -> (salt: String)
    ensures
        is_salt_text(salt@),
        is_usable_salt(salt@),
{
    argon2::password_hash::SaltString::generate(&mut argon2::password_hash::rand_core::OsRng)
        .as_str()
        .to_string()
}

/// `Argon2::default().hash_password`, as text. The result is the named PHC
/// string of the two arguments. Where there is one, it begins as `phc_head`
/// says, and the same password passes against it. Believed of `argon2`, not
/// proved.
#[verifier::external_body]
fn argon2id_hash(password: &[u8], salt: &str) -> (hash: Option<String>)
    ensures
        string_of(hash) == argon2id_phc(password@, salt@),
        hash matches Some(h) ==> phc_head(salt@).is_prefix_of(h@) && phc_check(h@, password@)
            == Some(true),
{
    argon2::PasswordHasher::hash_password(&argon2::Argon2::default(), password, salt)
        .ok()
        .map(|h| h.to_string())
}

/// `PasswordHash::new` followed by `Argon2::default().verify_password`:
/// `None` where the text is no PHC string, else whether the password
/// passes. The result is the named check of the two arguments. Believed of
/// `argon2`, not proved.
#[verifier::external_body]
fn phc_verify(password: &[u8], phc: &str) -> (verdict: Option<bool>)
    ensures
        verdict == phc_check(phc@, password@),
{
    argon2::PasswordHash::new(phc).ok().map(
        |parsed|
            argon2::PasswordVerifier::verify_password(
                &argon2::Argon2::default(),
                password,
                &parsed,
            ).is_ok(),
    )
}

/// The bytes of a password given as text: its UTF-8 encoding.
pub open spec fn password_bytes(password: Seq<char>) -> Seq<u8> {
    vstd::utf8::encode_utf8(password)
}

/// `data` is a hash of `password`: made from it with the salt it names,
/// which has the shape of a fresh one; a PHC string of Argon2id that shows
/// that salt; and such that the password passes against it.
pub open spec fn hashes_password(data: HashDataView, password: Seq<u8>) -> bool {
    &&& is_salt_text(data.salt)
    &&& argon2id_phc(password, data.salt) == Some(data.hash)
    &&& phc_head(data.salt).is_prefix_of(data.hash)
    &&& phc_check(data.hash, password) == Some(true)
    &&& data.algorithm == HashAlgorithm::Argon2idV19
}

/// Puts a salt and what hashing with it gave into a record. A hashing that
/// failed is a fault of the service, not of the caller.
pub fn assemble_hash_data(salt: String, hash: Option<String>) -> (made: Result<HashData, Error>)
    ensures
        match made {
            Ok(data) => hash matches Some(h) && data@ == (HashDataView {
                hash: h@,
                salt: salt@,
                algorithm: HashAlgorithm::Argon2idV19,
            }),
            Err(e) => e == Error::ConfigurationError && hash is None,
        },
{
    match hash {
        Some(h) => Ok(HashData { hash: h, salt, algorithm: HashAlgorithm::Argon2idV19 }),
        None => Err(Error::ConfigurationError),
    }
}

/// Hashes `password` with a fresh random salt. The result differs from call
/// to call; whatever it is, the password passes against it. Hashing does not
/// fail, unless the password is longer than `MAX_PASSWORD_BYTES`.
pub fn generate_password_hash(password: &[u8]) -> (made: Result<HashData, Error>)
    ensures
        match made {
            Ok(data) => hashes_password(data@, password@),
            Err(e) => e == Error::ConfigurationError && password@.len() > MAX_PASSWORD_BYTES,
        },
{
    let salt = fresh_salt();
    let hash = argon2id_hash(password, salt.as_str());
    assemble_hash_data(salt, hash)
}

/// What checking `password` against the stored `phc` comes to: a stored
/// string that cannot be read is a fault of the service.
pub open spec fn password_verdict(phc: Seq<char>, password: Seq<u8>) -> Result<bool, Error> {
    match phc_check(phc, password) {
        Some(passes) => Ok(passes),
        None => Err(Error::ConfigurationError),
    }
}

/// Turns the outcome of a check into the verdict.
pub fn verdict_of_check(check: Option<bool>) -> (verdict: Result<bool, Error>)
    ensures
        verdict == match check {
            Some(passes) => Ok::<bool, Error>(passes),
            None => Err::<bool, Error>(Error::ConfigurationError),
        },
{
    match check {
        Some(passes) => Ok(passes),
        None => Err(Error::ConfigurationError),
    }
}

/// Checks `password` against a stored hash, with the cost parameters that
/// the hash itself names.
pub fn verify_password(password: &[u8], password_hash: &str) -> (verdict: Result<bool, Error>)
    ensures
        verdict == password_verdict(password_hash@, password@),
{
    verdict_of_check(phc_verify(password, password_hash))
}

/// A password always passes against a hash that was made from it.
pub proof fn law_hash_then_verify(data: HashDataView, password: Seq<u8>)
    requires
        hashes_password(data, password),
    ensures
        password_verdict(data.hash, password) == Ok::<bool, Error>(true),
{
}

// ---------------------------------------------------------------------------
// Tokens
// ---------------------------------------------------------------------------

/// The token that signing the three claims with HMAC-SHA512 under `secret`
/// gives.
pub uninterp spec fn hs512_token(sub: Seq<char>, exp: int, iat: int, secret: Seq<char>) -> Seq<
    char,
>;

/// What reading `token` under `secret` gives: `None` where it is no token,
/// is not signed with HMAC-SHA512 under that secret or carries no `exp`,
/// else the three claims as far as they are there.
pub uninterp spec fn hs512_payload(token: Seq<char>, secret: Seq<char>) -> Option<
    TokenPayloadView,
>;

/// `Utc::now().timestamp()`: the clock, in seconds since the Unix epoch.
/// Nothing is claimed of the reading.
#[verifier::external_body]
pub(crate) fn unix_now() -> i64 {
    chrono::Utc::now().timestamp()
}

/// `jsonwebtoken::encode` with an HS512 header and the three claims. With
/// a secret as the key and claims of these types it does not fail. The
/// result is the named token of the arguments, and reading that token under
/// the same secret gives the three claims back. Believed of `jsonwebtoken`,
/// not proved.
#[verifier::external_body]
fn encode_hs512(sub: &str, exp: usize, iat: usize, secret: &str) -> (token: Option<String>)
    ensures
        token is Some,
        token matches Some(t) ==> t@ == hs512_token(sub@, exp as int, iat as int, secret@)
            && hs512_payload(t@, secret@) == Some(
            TokenPayloadView { sub: Some(sub@), exp: Some(exp as u64), iat: Some(iat as u64) },
        ),
{
    let mut claims = serde_json::Map::new();
    claims.insert("sub".to_string(), serde_json::Value::from(sub));
    claims.insert("exp".to_string(), serde_json::Value::from(exp));
    claims.insert("iat".to_string(), serde_json::Value::from(iat));
    let header = jsonwebtoken::Header::new(jsonwebtoken::Algorithm::HS512);
    let key = jsonwebtoken::EncodingKey::from_secret(secret.as_bytes());
    jsonwebtoken::encode(&header, &claims, &key).ok()
}

/// `jsonwebtoken::decode` for HS512 with the expiry test switched off:
/// structure, algorithm and signature are checked and `exp` must be there.
/// The result is the named payload of the arguments. Believed of
/// `jsonwebtoken`, not proved.
#[verifier::external_body]
fn decode_hs512(token: &str, secret: &str) -> (payload: Option<TokenPayload>)
    ensures
        match payload {
            Some(p) => hs512_payload(token@, secret@) == Some(p@),
            None => hs512_payload(token@, secret@) is None,
        },
{
    let mut validation = jsonwebtoken::Validation::new(jsonwebtoken::Algorithm::HS512);
    validation.validate_exp = false;
    let key = jsonwebtoken::DecodingKey::from_secret(secret.as_bytes());
    let data = jsonwebtoken::decode::<serde_json::Map<String, serde_json::Value>>(
        token,
        &key,
        &validation,
    ).ok()?;
    Some(TokenPayload {
        sub: data.claims.get("sub").and_then(|v| v.as_str()).map(|s| s.to_string()),
        exp: data.claims.get("exp").and_then(|v| v.as_u64()),
        iat: data.claims.get("iat").and_then(|v| v.as_u64()),
    })
}

/// The claims that a payload amounts to: all three must be there, and the
/// two times must fit the machine's word.
pub open spec fn claims_of(payload: TokenPayloadView) -> Option<ClaimsView> {
    match (payload.sub, payload.exp, payload.iat) {
        (Some(sub), Some(exp), Some(iat)) => if exp <= usize::MAX && iat <= usize::MAX {
            Some(ClaimsView { sub, exp: exp as usize, iat: iat as usize })
        } else {
            None
        },
        _ => None,
    }
}

/// The claims of a token whose signature holds under `secret`, if it has
/// them. Expiry plays no part here.
pub open spec fn jwt_claims(token: Seq<char>, secret: Seq<char>) -> Option<ClaimsView> {
    match hs512_payload(token, secret) {
        Some(payload) => claims_of(payload),
        None => None,
    }
}

/// Whether `token` holds at the time `now`: it must carry its claims under
/// `secret`, and its expiry must not lie before `now`.
pub open spec fn jwt_valid_at(token: Seq<char>, secret: Seq<char>, now: int) -> bool {
    jwt_claims(token, secret) matches Some(claims) && now <= claims.exp
}

/// The times a token gets that is issued at `now` for `valid_for` seconds:
/// when it was issued and when it expires. Both must fit the machine's word.
pub open spec fn token_window(now: int, valid_for: int) -> Option<(usize, usize)> {
    if 0 <= now <= usize::MAX && 0 <= now + valid_for <= usize::MAX {
        Some((now as usize, (now + valid_for) as usize))
    } else {
        None
    }
}

/// `token` is what issuing for `sub` at `now`, for `valid_for` seconds and
/// under `secret`, gives.
pub open spec fn issued_at(
    token: Seq<char>,
    secret: Seq<char>,
    sub: Seq<char>,
    valid_for: int,
    now: int,
) -> bool {
    token_window(now, valid_for) matches Some((iat, exp)) && token == hs512_token(
        sub,
        exp as int,
        iat as int,
        secret,
    ) && hs512_payload(token, secret) == Some(
        TokenPayloadView { sub: Some(sub), exp: Some(exp as u64), iat: Some(iat as u64) },
    )
}

/// `token` was issued for `sub`, for `valid_for` seconds and under `secret`,
/// at some time.
pub open spec fn issued(
    token: Seq<char>,
    secret: Seq<char>,
    sub: Seq<char>,
    valid_for: int,
) -> bool {
    jwt_claims(token, secret) matches Some(claims) && claims.sub == sub && claims.exp
        == claims.iat + valid_for
}

/// Turns a payload into claims, or turns it down as unreadable.
pub fn claims_from_payload(payload: TokenPayload) -> (read: Result<Claims, Error>)
    ensures
        match read {
            Ok(claims) => claims_of(payload@) == Some(claims@),
            Err(e) => e == Error::JWTTokenDecodingError && claims_of(payload@) is None,
        },
{
    match (payload.sub, payload.exp, payload.iat) {
        (Some(sub), Some(exp), Some(iat)) => {
            if exp <= usize::MAX as u64 && iat <= usize::MAX as u64 {
                Ok(Claims { sub, exp: exp as usize, iat: iat as usize })
            } else {
                Err(Error::JWTTokenDecodingError)
            }
        },
        _ => Err(Error::JWTTokenDecodingError),
    }
}

/// Turns what reading a token gave into claims.
pub fn claims_from_decoding(payload: Option<TokenPayload>) -> (read: Result<Claims, Error>)
    ensures
        match read {
            Ok(claims) => payload matches Some(p) && claims_of(p@) == Some(claims@),
            Err(e) => e == Error::JWTTokenDecodingError && (payload matches Some(p) ==> claims_of(
                p@,
            ) is None),
        },
{
    match payload {
        Some(p) => claims_from_payload(p),
        None => Err(Error::JWTTokenDecodingError),
    }
}

/// Reads the claims of `jwt`, checking its signature but not its expiry.
pub fn decode_jwt(secret: &JwtSecret, jwt: &str) -> (read: Result<Claims, Error>)
    ensures
        match read {
            Ok(claims) => jwt_claims(jwt@, secret@) == Some(claims@),
            Err(e) => e == Error::JWTTokenDecodingError && jwt_claims(jwt@, secret@) is None,
        },
{
    claims_from_decoding(decode_hs512(jwt, secret.as_str()))
}

/// Whether claims hold at the time `now`.
pub fn claims_hold_at(claims: &Claims, now: i64) -> (holds: bool)
    ensures
        holds == (now <= claims.exp),
{
    now < 0 || (now as u64) <= (claims.exp as u64)
}

/// Whether `jwt` holds at the time `now`: malformed tokens, tokens signed
/// otherwise and tokens that expired before `now` all fail alike.
pub fn verify_jwt_at(secret: &JwtSecret, jwt: &str, now: i64) -> (ok: bool)
    ensures
        ok == jwt_valid_at(jwt@, secret@, now as int),
{
    match decode_jwt(secret, jwt) {
        Ok(claims) => claims_hold_at(&claims, now),
        Err(_) => false,
    }
}

/// Whether `jwt` holds now, by the clock: the answer is that of
/// `verify_jwt_at` for the time that the clock gave. Whatever the clock
/// says, a token without readable claims under `secret` fails.
pub fn verify_jwt(secret: &JwtSecret, jwt: &str) -> (ok: bool)
    ensures
        exists|now: i64| ok == #[trigger] jwt_valid_at(jwt@, secret@, now as int),
        ok ==> jwt_claims(jwt@, secret@) is Some,
{
    let now = unix_now();
    verify_jwt_at(secret, jwt, now)
}

/// The claims of a token for `user_id`, issued at `now` for `valid_for`
/// seconds. Times that do not fit are turned down.
pub fn claims_for(user_id: String, valid_for: i64, now: i64) -> (made: Result<Claims, Error>)
    ensures
        match made {
            Ok(claims) => token_window(now as int, valid_for as int) == Some(
                (claims.iat, claims.exp),
            ) && claims.sub@ == user_id@,
            Err(e) => e == Error::JWTTokenCreationError && token_window(
                now as int,
                valid_for as int,
            ) is None,
        },
{
    let expiry: i128 = now as i128 + valid_for as i128;
    if now < 0 || expiry < 0 || now as u64 > usize::MAX as u64 || expiry > usize::MAX as i128 {
        Err(Error::JWTTokenCreationError)
    } else {
        Ok(Claims { sub: user_id, exp: expiry as usize, iat: now as usize })
    }
}

/// Turns what signing gave into the token, or into the failure to make one.
pub fn token_from_encoding(encoded: Option<String>) -> (made: Result<String, Error>)
    ensures
        match made {
            Ok(token) => encoded == Some(token),
            Err(e) => e == Error::JWTTokenCreationError && encoded is None,
        },
{
    match encoded {
        Some(token) => Ok(token),
        None => Err(Error::JWTTokenCreationError),
    }
}

/// What issuing a token at the time `now` comes to: the token, unless the
/// times do not fit the machine's word.
pub open spec fn jwt_issue_at(
    made: Result<String, Error>,
    secret: Seq<char>,
    sub: Seq<char>,
    valid_for: int,
    now: int,
) -> bool {
    match made {
        Ok(token) => issued_at(token@, secret, sub, valid_for, now),
        Err(e) => e == Error::JWTTokenCreationError && token_window(now, valid_for) is None,
    }
}

/// Issues a token for `user_id` at the time `now`, to hold for `valid_for`
/// seconds. Only times that do not fit are turned down.
pub fn generate_jwt_at(secret: &JwtSecret, user_id: String, valid_for: i64, now: i64) -> (made:
    Result<String, Error>)
    ensures
        jwt_issue_at(made, secret@, user_id@, valid_for as int, now as int),
{
    let claims = claims_for(user_id, valid_for, now)?;
    token_from_encoding(
        encode_hs512(claims.sub.as_str(), claims.exp, claims.iat, secret.as_str()),
    )
}

/// Issues a token for `user_id` now, by the clock, to hold for `valid_for`
/// seconds: the result is that of `generate_jwt_at` for the time that the
/// clock gave.
pub fn generate_jwt(secret: &JwtSecret, user_id: String, valid_for: i64) -> (made: Result<
    String,
    Error,
>)
    ensures
        exists|now: i64| #[trigger]
            jwt_issue_at(made, secret@, user_id@, valid_for as int, now as int),
        match made {
            Ok(token) => issued(token@, secret@, user_id@, valid_for as int),
            Err(e) => e == Error::JWTTokenCreationError,
        },
{
    let now = unix_now();
    generate_jwt_at(secret, user_id, valid_for, now)
}

/// `pair` is a live pair for `sub`: an access token for a day and a refresh
/// token for thirty, both issued at `now`.
pub open spec fn is_auth_token_at(
    pair: AuthTokenView,
    secret: Seq<char>,
    sub: Seq<char>,
    now: int,
) -> bool {
    &&& issued_at(pair.access_token, secret, sub, ACCESS_TOKEN_SECONDS as int, now)
    &&& issued_at(pair.refresh_token, secret, sub, REFRESH_TOKEN_SECONDS as int, now)
}

/// `pair` is a live pair for `sub`: an access token for a day and a refresh
/// token for thirty, both issued at one time.
pub open spec fn is_auth_token_for(pair: AuthTokenView, secret: Seq<char>, sub: Seq<char>) -> bool {
    exists|now: i64| #[trigger] is_auth_token_at(pair, secret, sub, now as int)
}

/// Issues an access token for `user_id`, by the clock: it holds for a day.
pub fn generate_access_token(secret: &JwtSecret, user_id: String) -> (made: Result<String, Error>)
    ensures
        exists|now: i64| #[trigger]
            jwt_issue_at(made, secret@, user_id@, ACCESS_TOKEN_SECONDS as int, now as int),
        match made {
            Ok(token) => issued(token@, secret@, user_id@, ACCESS_TOKEN_SECONDS as int),
            Err(e) => e == Error::JWTTokenCreationError,
        },
{
    generate_jwt(secret, user_id, ACCESS_TOKEN_SECONDS)
}

/// Issues a refresh token for `user_id`, by the clock: it holds for thirty
/// days.
pub fn generate_refresh_token(secret: &JwtSecret, user_id: String) -> (made: Result<String, Error>)
    ensures
        exists|now: i64| #[trigger]
            jwt_issue_at(made, secret@, user_id@, REFRESH_TOKEN_SECONDS as int, now as int),
        match made {
            Ok(token) => issued(token@, secret@, user_id@, REFRESH_TOKEN_SECONDS as int),
            Err(e) => e == Error::JWTTokenCreationError,
        },
{
    generate_jwt(secret, user_id, REFRESH_TOKEN_SECONDS)
}

/// What issuing a pair at the time `now` comes to: the pair, unless the
/// times do not fit the machine's word.
pub open spec fn auth_token_issue_at(
    made: Result<AuthToken, Error>,
    secret: Seq<char>,
    sub: Seq<char>,
    now: int,
) -> bool {
    match made {
        Ok(pair) => is_auth_token_at(pair@, secret, sub, now),
        Err(e) => e == Error::JWTTokenCreationError && token_window(
            now,
            REFRESH_TOKEN_SECONDS as int,
        ) is None,
    }
}

/// Issues the pair for `user_id` at the time `now`. Only times that do not
/// fit are turned down.
pub fn generate_auth_token_at(secret: &JwtSecret, user_id: String, now: i64) -> (made: Result<
    AuthToken,
    Error,
>)
    ensures
        auth_token_issue_at(made, secret@, user_id@, now as int),
{
    let access_token = generate_jwt_at(secret, user_id.clone(), ACCESS_TOKEN_SECONDS, now)?;
    let refresh_token = generate_jwt_at(secret, user_id, REFRESH_TOKEN_SECONDS, now)?;
    Ok(AuthToken { access_token, refresh_token })
}

/// Issues the pair for `user_id`, by the clock, which is read once: the
/// result is that of `generate_auth_token_at` for the time that the clock
/// gave.
pub fn generate_auth_token(secret: &JwtSecret, user_id: String) -> (made: Result<AuthToken, Error>)
    ensures
        exists|now: i64| #[trigger] auth_token_issue_at(made, secret@, user_id@, now as int),
        match made {
            Ok(pair) => is_auth_token_for(pair@, secret@, user_id@),
            Err(e) => e == Error::JWTTokenCreationError,
        },
{
    let now = unix_now();
    let made = generate_auth_token_at(secret, user_id, now);
    proof {
        if made is Ok {
            assert(is_auth_token_at(made->Ok_0@, secret@, user_id@, now as int));
        }
    }
    made
}

/// What a refresh comes to at the time `now`: a refresh token that does not
/// hold at `now` buys nothing; one that holds buys a new access token, unless
/// the times do not fit the machine's word.
pub open spec fn access_token_refresh_at(
    made: Result<String, Error>,
    secret: Seq<char>,
    refresh_token: Seq<char>,
    sub: Seq<char>,
    now: int,
) -> bool {
    if jwt_valid_at(refresh_token, secret, now) {
        jwt_issue_at(made, secret, sub, ACCESS_TOKEN_SECONDS as int, now)
    } else {
        made matches Err(e) && e == Error::TokenInvalid
    }
}

/// Issues a new access token for `user_id` on the strength of a refresh
/// token, at the time `now`. The refresh token itself stays as it is.
pub fn refresh_access_token_at(
    secret: &JwtSecret,
    refresh_token: String,
    user_id: String,
    now: i64,
) -> (made: Result<String, Error>)
    ensures
        access_token_refresh_at(made, secret@, refresh_token@, user_id@, now as int),
{
    if verify_jwt_at(secret, refresh_token.as_str(), now) {
        generate_jwt_at(secret, user_id, ACCESS_TOKEN_SECONDS, now)
    } else {
        Err(Error::TokenInvalid)
    }
}

/// Issues a new access token for `user_id` on the strength of a refresh
/// token, by the clock: the result is that of `refresh_access_token_at` for
/// the time that the clock gave. Whatever the clock says, a refresh token
/// without readable claims under `secret` buys nothing.
pub fn refresh_access_token(secret: &JwtSecret, refresh_token: String, user_id: String) -> (made:
    Result<String, Error>)
    ensures
        exists|now: i64| #[trigger]
            access_token_refresh_at(made, secret@, refresh_token@, user_id@, now as int),
        match made {
            Ok(token) => jwt_claims(refresh_token@, secret@) is Some && issued(
                token@,
                secret@,
                user_id@,
                ACCESS_TOKEN_SECONDS as int,
            ),
            Err(e) => e == Error::TokenInvalid || (e == Error::JWTTokenCreationError && jwt_claims(
                refresh_token@,
                secret@,
            ) is Some),
        },
{
    let now = unix_now();
    refresh_access_token_at(secret, refresh_token, user_id, now)
}

// ---------------------------------------------------------------------------
// The bearer convention
// ---------------------------------------------------------------------------

/// The token that an `Authorization` value carries: the value must begin
/// with `Bearer `, and the token is all that follows that one prefix.
pub open spec fn bearer_token(authorization: Option<Seq<char>>) -> Option<Seq<char>> {
    match authorization {
        Some(value) => if BEARER_PREFIX@.is_prefix_of(value) {
            Some(value.skip(BEARER_PREFIX@.len() as int))
        } else {
            None
        },
        None => None,
    }
}

/// Takes the bearer prefix off a header value, once. A value that does not
/// begin with it carries no token.
pub fn trim_access_token(access_token: &str) -> (token: Option<&str>)
    ensures
        text_of(token) == bearer_token(Some(access_token@)),
{
    strip_prefix(access_token, BEARER_PREFIX)
}

/// The token that the request presents. A request without the header, or
/// with a value that does not begin with `Bearer `, presents none.
pub fn get_access_token_from_request_headers(authorization: Option<&str>) -> (token: Result<
    String,
    Error,
>)
    ensures
        match token {
            Ok(t) => bearer_token(text_of(authorization)) == Some(t@),
            Err(e) => e == Error::TokenInvalid && bearer_token(text_of(authorization)) is None,
        },
{
    match authorization {
        Some(value) => match trim_access_token(value) {
            Some(token) => Ok(token.to_owned()),
            None => Err(Error::TokenInvalid),
        },
        None => Err(Error::TokenInvalid),
    }
}

/// Whether a request with the header value `authorization` presents a
/// token that holds at the time `now`: the header must carry a bearer token,
/// and that token must hold at `now` under `secret`.
pub open spec fn request_verifies_at(
    secret: Seq<char>,
    authorization: Option<Seq<char>>,
    now: int,
) -> bool {
    bearer_token(authorization) matches Some(token) && jwt_valid_at(token, secret, now)
}

/// Whether the request presents a token that holds at the time `now`.
pub fn verify_access_token_from_request_headers_at(
    secret: &JwtSecret,
    authorization: Option<&str>,
    now: i64,
) -> (ok: bool)
    ensures
        ok == request_verifies_at(secret@, text_of(authorization), now as int),
{
    match get_access_token_from_request_headers(authorization) {
        Ok(token) => verify_jwt_at(secret, token.as_str(), now),
        Err(_) => false,
    }
}

/// Whether the request presents a token that holds now, by the clock: the
/// answer is that of `verify_access_token_from_request_headers_at` for the
/// time that the clock gave. Whatever the clock says, a request that
/// presents no token, or one without readable claims under `secret`, fails.
pub fn verify_access_token_from_request_headers(
    secret: &JwtSecret,
    authorization: Option<&str>,
) -> (ok: bool)
    ensures
        exists|now: i64|
            ok == #[trigger] request_verifies_at(secret@, text_of(authorization), now as int),
        ok ==> (bearer_token(text_of(authorization)) matches Some(token) && jwt_claims(
            token,
            secret@,
        ) is Some),
{
    let now = unix_now();
    verify_access_token_from_request_headers_at(secret, authorization, now)
}

/// A token that was just issued holds: at every time from its issue to its
/// expiry, verifying it succeeds.
pub proof fn law_issued_token_verifies(
    token: Seq<char>,
    secret: Seq<char>,
    sub: Seq<char>,
    valid_for: int,
    issue_time: int,
    now: int,
)
    requires
        issued_at(token, secret, sub, valid_for, issue_time),
        now <= issue_time + valid_for,
    ensures
        jwt_valid_at(token, secret, now),
{
}

/// A token whose expiry lies in the past never verifies, whether its
/// signature holds or not: where every reading of the token, if there is one
/// at all, expires before `now`, verifying at `now` fails.
pub proof fn law_expired_token_fails(token: Seq<char>, secret: Seq<char>, now: int)
    requires
        forall|claims: ClaimsView| jwt_claims(token, secret) == Some(claims) ==> claims.exp < now,
    ensures
        !jwt_valid_at(token, secret, now),
{
}

} // verus!
