use notes_backend::account_entity::{clone_text, InsertableUserAccountEntity, UserAccountEntity};
use notes_backend::error_data::Error;
use notes_backend::security::{decode_jwt, verify_jwt, verify_password, JwtSecret};
use notes_backend::security_data::{AuthToken, HashAlgorithm, HashData};

fn secret() -> JwtSecret {
    JwtSecret::new("secret".to_string())
}

fn is_uuid(text: &str) -> bool {
    text.len() == 36
        && text.chars().enumerate().all(|(i, c)| {
            if i == 8 || i == 13 || i == 18 || i == 23 {
                c == '-'
            } else {
                c.is_ascii_digit() || ('a'..='f').contains(&c)
            }
        })
}

#[test]
fn the_algorithm_is_stored_as_its_text() {
    assert_eq!(HashAlgorithm::Argon2idV19.to_sql(), b"argon_2_id_v_19".to_vec());
}

#[test]
fn the_algorithm_is_read_back_from_its_text() {
    assert_eq!(HashAlgorithm::from_sql(Some(b"argon_2_id_v_19")), Ok(HashAlgorithm::Argon2idV19));
    let written = HashAlgorithm::Argon2idV19.to_sql();
    assert_eq!(HashAlgorithm::from_sql(Some(&written)), Ok(HashAlgorithm::Argon2idV19));
}

#[test]
fn an_unknown_or_absent_algorithm_text_is_turned_down() {
    assert_eq!(HashAlgorithm::from_sql(None), Err(Error::StorageError));
    for text in [&b""[..], b"argon_2_id_v_1", b"argon_2_id_v_199", b"Argon_2_id_v_19", b"argon_2_id_v_18", b"bcrypt"] {
        assert_eq!(HashAlgorithm::from_sql(Some(text)), Err(Error::StorageError));
    }
}

#[test]
fn errors_of_the_caller_and_of_the_service_are_told_apart() {
    for e in [
        Error::InvalidCredentials,
        Error::WeakPassword,
        Error::TokenInvalid,
        Error::TokenMismatch,
        Error::JWTTokenDecodingError,
        Error::NotFound,
    ] {
        assert!(e.is_client_error());
    }
    for e in [
        Error::StorageError,
        Error::ConfigurationError,
        Error::JWTTokenCreationError,
    ] {
        assert!(!e.is_client_error());
    }
}

#[test]
fn errors_say_what_they_are() {
    assert_eq!(Error::JWTTokenCreationError.to_string(), "JWT token creation error");
    assert_eq!(Error::JWTTokenDecodingError.to_string(), "JWT token decoding error");
    assert_eq!(Error::InvalidCredentials.to_string(), "invalid credentials");
    assert_eq!(Error::WeakPassword.to_string(), "password is weak");
    assert_eq!(Error::TokenInvalid.to_string(), "token is invalid");
    assert_eq!(Error::TokenMismatch.to_string(), "wrong refresh token");
    assert_eq!(Error::NotFound.to_string(), "not found");
    assert_eq!(Error::StorageError.to_string(), "storage error");
    assert_eq!(Error::ConfigurationError.to_string(), "configuration error");
}

#[test]
fn a_guest_has_an_identifier_and_a_pair_and_nothing_else() {
    let guest = InsertableUserAccountEntity::guest(&secret()).unwrap();
    assert!(is_uuid(&guest.user_id));
    assert_eq!(guest.user_name, None);
    assert_eq!(guest.password_hash, None);
    assert_eq!(guest.password_hash_salt, None);
    assert_eq!(guest.password_hash_algorithm, None);
    assert!(verify_jwt(&secret(), &guest.access_token));
    assert!(verify_jwt(&secret(), &guest.refresh_token));
    let access = decode_jwt(&secret(), &guest.access_token).unwrap();
    let refresh = decode_jwt(&secret(), &guest.refresh_token).unwrap();
    assert_eq!(access.sub, guest.user_id);
    assert_eq!(refresh.sub, guest.user_id);
    assert_eq!(access.exp - access.iat, 86_400);
    assert_eq!(refresh.exp - refresh.iat, 2_592_000);
}

#[test]
fn two_guests_are_two_identities() {
    let first = InsertableUserAccountEntity::guest(&secret()).unwrap();
    let second = InsertableUserAccountEntity::guest(&secret()).unwrap();
    assert_ne!(first.user_id, second.user_id);
    assert_ne!(first.access_token, second.access_token);
    assert_ne!(first.refresh_token, second.refresh_token);
}

#[test]
fn a_registered_user_has_a_name_and_a_hash_of_the_password() {
    let user = InsertableUserAccountEntity::registered_user(
        &secret(),
        "alice".to_string(),
        "Str0ng!pw".to_string(),
    )
    .unwrap();
    assert!(is_uuid(&user.user_id));
    assert_eq!(user.user_name.as_deref(), Some("alice"));
    assert_eq!(user.password_hash_algorithm, Some(HashAlgorithm::Argon2idV19));
    let hash = user.password_hash.clone().unwrap();
    let salt = user.password_hash_salt.clone().unwrap();
    assert_eq!(salt.len(), 22);
    assert!(hash.contains(&salt));
    assert!(!hash.contains("Str0ng!pw"));
    assert_eq!(verify_password(b"Str0ng!pw", &hash), Ok(true));
    assert_eq!(verify_password(b"Str0ng!pW", &hash), Ok(false));
    assert_eq!(decode_jwt(&secret(), &user.access_token).unwrap().sub, user.user_id);
    assert_eq!(decode_jwt(&secret(), &user.refresh_token).unwrap().sub, user.user_id);
}

#[test]
fn an_identifier_comes_with_a_pair_issued_for_it() {
    let (user_id, pair) = InsertableUserAccountEntity::get_uuid_and_auth_token(&secret()).unwrap();
    assert!(is_uuid(&user_id));
    assert_eq!(user_id.chars().nth(14), Some('4'));
    assert_eq!(decode_jwt(&secret(), &pair.access_token).unwrap().sub, user_id);
    assert_eq!(decode_jwt(&secret(), &pair.refresh_token).unwrap().sub, user_id);
}

#[test]
fn accounts_are_put_together_from_their_parts() {
    let pair = || AuthToken { access_token: "a".to_string(), refresh_token: "r".to_string() };
    let guest = InsertableUserAccountEntity::guest_with("id-1".to_string(), pair());
    assert_eq!(guest.user_id, "id-1");
    assert_eq!(guest.user_name, None);
    assert_eq!(guest.password_hash, None);
    assert_eq!(guest.password_hash_salt, None);
    assert_eq!(guest.password_hash_algorithm, None);
    assert_eq!((guest.access_token.as_str(), guest.refresh_token.as_str()), ("a", "r"));
    let user = InsertableUserAccountEntity::registered_with(
        "id-2".to_string(),
        pair(),
        "alice".to_string(),
        HashData {
            hash: "h".to_string(),
            salt: "s".to_string(),
            algorithm: HashAlgorithm::Argon2idV19,
        },
    );
    assert_eq!(user.user_id, "id-2");
    assert_eq!(user.user_name.as_deref(), Some("alice"));
    assert_eq!(user.password_hash.as_deref(), Some("h"));
    assert_eq!(user.password_hash_salt.as_deref(), Some("s"));
    assert_eq!(user.password_hash_algorithm, Some(HashAlgorithm::Argon2idV19));
    assert_eq!((user.access_token.as_str(), user.refresh_token.as_str()), ("a", "r"));
}

fn stored(user_name: Option<&str>) -> UserAccountEntity {
    UserAccountEntity {
        user_id: "id-1".to_string(),
        user_name: user_name.map(|n| n.to_string()),
        created_at: 17,
        password_hash: user_name.map(|_| "h".to_string()),
        password_hash_salt: user_name.map(|_| "s".to_string()),
        password_hash_algorithm: user_name.map(|_| HashAlgorithm::Argon2idV19),
        access_token: "a".to_string(),
        refresh_token: "r".to_string(),
    }
}

#[test]
fn an_account_is_shown_under_its_name_or_as_guest() {
    assert_eq!(stored(Some("alice")).to_string(), "alice");
    assert_eq!(stored(Some("")).to_string(), "");
    assert_eq!(stored(None).to_string(), "guest");
}

#[test]
fn a_copy_of_an_account_holds_the_same() {
    let account = stored(Some("alice"));
    let copy = account.duplicate();
    assert_eq!(copy.user_id, account.user_id);
    assert_eq!(copy.user_name, account.user_name);
    assert_eq!(copy.created_at, 17);
    assert_eq!(copy.password_hash, account.password_hash);
    assert_eq!(copy.password_hash_salt, account.password_hash_salt);
    assert_eq!(copy.password_hash_algorithm, account.password_hash_algorithm);
    assert_eq!(copy.access_token, account.access_token);
    assert_eq!(copy.refresh_token, account.refresh_token);
    assert_eq!(clone_text(&None), None);
    assert_eq!(clone_text(&Some("x".to_string())), Some("x".to_string()));
}
