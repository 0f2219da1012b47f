use notes_backend::account_database::{
    get_user_account_by_access_token, get_user_account_by_user_id,
    get_user_account_by_user_name, insert_user_account, AccountTable,
};
use notes_backend::account_dto::{CredentialsDto, ProfileDto, SignUpDataDto};
use notes_backend::account_entity::InsertableUserAccountEntity;
use notes_backend::account_interaction::{delete_account, refresh_token, sign_in, sign_up};
use notes_backend::error_data::Error;
use notes_backend::security::{
    decode_jwt, generate_jwt_at, generate_password_hash, verify_jwt, JwtSecret,
};
use notes_backend::security_data::HashAlgorithm;

fn secret() -> JwtSecret {
    JwtSecret::new("secret".to_string())
}

fn as_guest() -> SignUpDataDto {
    SignUpDataDto { credentials_dto: None }
}

fn as_user(user_name: &str, password: &str) -> SignUpDataDto {
    SignUpDataDto {
        credentials_dto: Some(CredentialsDto {
            user_name: user_name.to_string(),
            password: password.to_string(),
        }),
    }
}

fn bearer(token: &str) -> String {
    format!("Bearer {}", token)
}

fn new_guest(table: &mut AccountTable) -> ProfileDto {
    sign_up(table, &secret(), None, as_guest()).unwrap()
}

fn new_user(table: &mut AccountTable, user_name: &str, password: &str) -> ProfileDto {
    let guest = new_guest(table);
    let header = bearer(&guest.auth_token_dto.access_token);
    sign_up(table, &secret(), Some(&header), as_user(user_name, password)).unwrap()
}

#[test]
fn a_sign_up_without_credentials_provisions_a_guest() {
    let mut table = AccountTable::new();
    let guest = new_guest(&mut table);
    assert_eq!(table.len(), 1);
    assert_eq!(guest.user_id.len(), 36);
    assert_eq!(guest.user_name, None);
    assert!(verify_jwt(&secret(), &guest.auth_token_dto.access_token));
    assert!(verify_jwt(&secret(), &guest.auth_token_dto.refresh_token));
    assert_eq!(decode_jwt(&secret(), &guest.auth_token_dto.access_token).unwrap().sub, guest.user_id);
    let stored = get_user_account_by_user_id(&table, guest.user_id.clone()).unwrap();
    assert_eq!(stored.user_name, None);
    assert_eq!(stored.password_hash, None);
    assert_eq!(stored.password_hash_salt, None);
    assert_eq!(stored.password_hash_algorithm, None);
    assert_eq!(stored.access_token, guest.auth_token_dto.access_token);
    assert_eq!(stored.refresh_token, guest.auth_token_dto.refresh_token);
}

#[test]
fn a_guest_sign_up_takes_no_notice_of_the_header() {
    let mut table = AccountTable::new();
    assert!(sign_up(&mut table, &secret(), Some("nonsense"), as_guest()).is_ok());
    assert!(sign_up(&mut table, &secret(), Some("Bearer x"), as_guest()).is_ok());
    assert_eq!(table.len(), 2);
}

#[test]
fn a_guest_who_registers_is_replaced_by_the_registered_account() {
    let mut table = AccountTable::new();
    let guest = new_guest(&mut table);
    let header = bearer(&guest.auth_token_dto.access_token);
    let user = sign_up(&mut table, &secret(), Some(&header), as_user("alice", "Str0ng!pw")).unwrap();
    assert_ne!(user.user_id, guest.user_id);
    assert_eq!(user.user_name.as_deref(), Some("alice"));
    assert_ne!(user.auth_token_dto.access_token, guest.auth_token_dto.access_token);
    assert_ne!(user.auth_token_dto.refresh_token, guest.auth_token_dto.refresh_token);
    assert_eq!(decode_jwt(&secret(), &user.auth_token_dto.access_token).unwrap().sub, user.user_id);
    assert_eq!(get_user_account_by_user_id(&table, guest.user_id).err(), Some(Error::NotFound));
    assert_eq!(
        get_user_account_by_access_token(&table, guest.auth_token_dto.access_token).err(),
        Some(Error::NotFound)
    );
    assert_eq!(table.len(), 1);
    let stored = get_user_account_by_user_id(&table, user.user_id.clone()).unwrap();
    assert_eq!(stored.user_name.as_deref(), Some("alice"));
    assert_eq!(stored.password_hash_algorithm, Some(HashAlgorithm::Argon2idV19));
    assert_eq!(stored.access_token, user.auth_token_dto.access_token);
    assert_ne!(stored.password_hash.as_deref(), Some("Str0ng!pw"));
}

#[test]
fn registering_leaves_the_other_accounts_alone() {
    let mut table = AccountTable::new();
    let bystander = new_guest(&mut table);
    let bob = new_user(&mut table, "bob", "hunter42");
    let _alice = new_user(&mut table, "alice", "Str0ng!pw");
    assert_eq!(table.len(), 3);
    assert!(get_user_account_by_user_id(&table, bystander.user_id).is_ok());
    assert!(get_user_account_by_user_id(&table, bob.user_id).is_ok());
}

#[test]
fn registering_without_a_bearer_token_is_turned_down() {
    let mut table = AccountTable::new();
    let guest = new_guest(&mut table);
    assert_eq!(
        sign_up(&mut table, &secret(), None, as_user("alice", "Str0ng!pw")).err(),
        Some(Error::TokenInvalid)
    );
    assert_eq!(
        sign_up(&mut table, &secret(), Some(&guest.auth_token_dto.access_token), as_user("alice", "Str0ng!pw")).err(),
        Some(Error::TokenInvalid)
    );
    assert_eq!(table.len(), 1);
    assert_eq!(get_user_account_by_user_name(&table, "alice".to_string()).err(), Some(Error::NotFound));
}

#[test]
fn registering_under_a_taken_name_fails_and_keeps_the_guest() {
    let mut table = AccountTable::new();
    let _alice = new_user(&mut table, "alice", "Str0ng!pw");
    let guest = new_guest(&mut table);
    let header = bearer(&guest.auth_token_dto.access_token);
    assert_eq!(
        sign_up(&mut table, &secret(), Some(&header), as_user("alice", "another")).err(),
        Some(Error::StorageError)
    );
    assert_eq!(table.len(), 2);
    assert!(get_user_account_by_user_id(&table, guest.user_id).is_ok());
}

#[test]
fn registering_with_a_token_nobody_holds_still_registers() {
    let mut table = AccountTable::new();
    let user = sign_up(&mut table, &secret(), Some("Bearer stale"), as_user("alice", "Str0ng!pw")).unwrap();
    assert_eq!(table.len(), 1);
    assert_eq!(user.user_name.as_deref(), Some("alice"));
}

#[test]
fn signing_in_hands_out_the_pair_on_record() {
    let mut table = AccountTable::new();
    let alice = new_user(&mut table, "alice", "Str0ng!pw");
    let again = sign_in(&mut table, &secret(), None, as_user("alice", "Str0ng!pw")).unwrap();
    assert_eq!(again.user_id, alice.user_id);
    assert_eq!(again.user_name.as_deref(), Some("alice"));
    assert_eq!(again.auth_token_dto.access_token, alice.auth_token_dto.access_token);
    assert_eq!(again.auth_token_dto.refresh_token, alice.auth_token_dto.refresh_token);
    assert_eq!(table.len(), 1);
}

#[test]
fn signing_in_removes_the_guest_the_caller_came_as() {
    let mut table = AccountTable::new();
    let alice = new_user(&mut table, "alice", "Str0ng!pw");
    let guest = new_guest(&mut table);
    let bystander = new_guest(&mut table);
    let header = bearer(&guest.auth_token_dto.access_token);
    let profile = sign_in(&mut table, &secret(), Some(&header), as_user("alice", "Str0ng!pw")).unwrap();
    assert_eq!(profile.user_id, alice.user_id);
    assert_eq!(table.len(), 2);
    assert_eq!(get_user_account_by_user_id(&table, guest.user_id).err(), Some(Error::NotFound));
    assert!(get_user_account_by_user_id(&table, bystander.user_id).is_ok());
    assert!(get_user_account_by_user_id(&table, alice.user_id).is_ok());
}

#[test]
fn signing_in_with_the_accounts_own_token_removes_nothing() {
    let mut table = AccountTable::new();
    let alice = new_user(&mut table, "alice", "Str0ng!pw");
    let header = bearer(&alice.auth_token_dto.access_token);
    let profile = sign_in(&mut table, &secret(), Some(&header), as_user("alice", "Str0ng!pw")).unwrap();
    assert_eq!(profile.user_id, alice.user_id);
    assert_eq!(table.len(), 1);
    assert!(get_user_account_by_user_name(&table, "alice".to_string()).is_ok());
}

#[test]
fn signing_in_without_credentials_provisions_a_guest() {
    let mut table = AccountTable::new();
    let alice = new_user(&mut table, "alice", "Str0ng!pw");
    let guest = sign_in(&mut table, &secret(), None, as_guest()).unwrap();
    assert_eq!(guest.user_name, None);
    assert_ne!(guest.user_id, alice.user_id);
    assert!(verify_jwt(&secret(), &guest.auth_token_dto.access_token));
    assert_eq!(table.len(), 2);
    let stored = get_user_account_by_user_id(&table, guest.user_id).unwrap();
    assert_eq!(stored.user_name, None);
    assert_eq!(stored.password_hash, None);
    assert!(sign_in(&mut table, &secret(), Some("nonsense"), as_guest()).is_ok());
    assert_eq!(table.len(), 3);
}

#[test]
fn a_wrong_password_is_invalid_credentials_and_changes_nothing() {
    let mut table = AccountTable::new();
    let alice = new_user(&mut table, "alice", "Str0ng!pw");
    let guest = new_guest(&mut table);
    let header = bearer(&guest.auth_token_dto.access_token);
    assert_eq!(
        sign_in(&mut table, &secret(), Some(&header), as_user("alice", "Str0ng!pW")).err(),
        Some(Error::InvalidCredentials)
    );
    assert_eq!(
        sign_in(&mut table, &secret(), None, as_user("alice", "")).err(),
        Some(Error::InvalidCredentials)
    );
    assert_eq!(table.len(), 2);
    let stored = get_user_account_by_user_name(&table, "alice".to_string()).unwrap();
    assert_eq!(stored.access_token, alice.auth_token_dto.access_token);
    assert_eq!(stored.refresh_token, alice.auth_token_dto.refresh_token);
    assert!(get_user_account_by_user_id(&table, guest.user_id).is_ok());
}

#[test]
fn an_unknown_user_is_invalid_credentials_as_well() {
    let mut table = AccountTable::new();
    let _alice = new_user(&mut table, "alice", "Str0ng!pw");
    assert_eq!(
        sign_in(&mut table, &secret(), None, as_user("bob", "Str0ng!pw")).err(),
        Some(Error::InvalidCredentials)
    );
    assert_eq!(
        sign_in(&mut table, &secret(), None, as_user("Alice", "Str0ng!pw")).err(),
        Some(Error::InvalidCredentials)
    );
    assert_eq!(table.len(), 1);
}

#[test]
fn a_header_without_a_bearer_token_ends_a_sign_in_once_the_password_has_passed() {
    let mut table = AccountTable::new();
    let alice = new_user(&mut table, "alice", "Str0ng!pw");
    assert_eq!(
        sign_in(&mut table, &secret(), Some("Basic abc"), as_user("alice", "Str0ng!pw")).err(),
        Some(Error::TokenInvalid)
    );
    assert_eq!(
        sign_in(&mut table, &secret(), Some(&alice.auth_token_dto.access_token), as_user("alice", "Str0ng!pw")).err(),
        Some(Error::TokenInvalid)
    );
    assert_eq!(table.len(), 1);
}

#[test]
fn the_credentials_are_judged_before_the_header() {
    let mut table = AccountTable::new();
    let alice = new_user(&mut table, "alice", "Str0ng!pw");
    for header in ["Basic abc", "", "bearer x", "Bearer"] {
        assert_eq!(
            sign_in(&mut table, &secret(), Some(header), as_user("alice", "Str0ng!pW")).err(),
            Some(Error::InvalidCredentials)
        );
        assert_eq!(
            sign_in(&mut table, &secret(), Some(header), as_user("bob", "Str0ng!pw")).err(),
            Some(Error::InvalidCredentials)
        );
    }
    assert_eq!(table.len(), 1);
    let stored = get_user_account_by_user_name(&table, "alice".to_string()).unwrap();
    assert_eq!(stored.access_token, alice.auth_token_dto.access_token);
}

#[test]
fn a_sign_in_never_removes_an_account_with_a_name() {
    let mut table = AccountTable::new();
    let alice = new_user(&mut table, "alice", "Str0ng!pw");
    let bob = new_user(&mut table, "bob", "hunter42");
    let header = bearer(&bob.auth_token_dto.access_token);
    let shown = sign_in(&mut table, &secret(), Some(&header), as_user("alice", "Str0ng!pw")).unwrap();
    assert_eq!(shown.user_id, alice.user_id);
    assert_eq!(table.len(), 2);
    let kept = get_user_account_by_user_id(&table, bob.user_id.clone()).unwrap();
    assert_eq!(kept.user_name.as_deref(), Some("bob"));
    let carol = sign_up(&mut table, &secret(), Some(&header), as_user("carol", "pass-word")).unwrap();
    assert_eq!(carol.user_name.as_deref(), Some("carol"));
    assert_eq!(table.len(), 3);
    assert!(get_user_account_by_user_id(&table, bob.user_id).is_ok());
}

#[test]
fn a_doubled_prefix_presents_another_token() {
    let mut table = AccountTable::new();
    let alice = new_user(&mut table, "alice", "Str0ng!pw");
    let guest = new_guest(&mut table);
    let doubled = format!("Bearer Bearer {}", guest.auth_token_dto.access_token);
    let shown = sign_in(&mut table, &secret(), Some(&doubled), as_user("alice", "Str0ng!pw")).unwrap();
    assert_eq!(shown.user_id, alice.user_id);
    assert_eq!(table.len(), 2);
    assert!(get_user_account_by_user_id(&table, guest.user_id.clone()).is_ok());
    assert_eq!(
        refresh_token(&mut table, &secret(), Some(&doubled), guest.auth_token_dto.refresh_token.clone()).err(),
        Some(Error::NotFound)
    );
    let next = delete_account(&mut table, &secret(), Some(&doubled)).unwrap();
    assert_ne!(next.user_id, guest.user_id);
    assert_eq!(table.len(), 3);
    assert!(get_user_account_by_user_id(&table, guest.user_id).is_ok());
}

#[test]
fn a_stored_hash_that_cannot_be_read_is_a_fault_of_the_service() {
    let mut table = AccountTable::new();
    insert_user_account(
        &mut table,
        InsertableUserAccountEntity {
            user_id: "u1".to_string(),
            user_name: Some("alice".to_string()),
            password_hash: Some("garbage".to_string()),
            password_hash_salt: Some("salt".to_string()),
            password_hash_algorithm: Some(HashAlgorithm::Argon2idV19),
            access_token: "A".to_string(),
            refresh_token: "R".to_string(),
        },
        1,
    )
    .unwrap();
    assert_eq!(
        sign_in(&mut table, &secret(), None, as_user("alice", "Str0ng!pw")).err(),
        Some(Error::ConfigurationError)
    );
}

#[test]
fn an_account_with_a_name_but_no_hash_lets_nobody_in() {
    let mut table = AccountTable::new();
    insert_user_account(
        &mut table,
        InsertableUserAccountEntity {
            user_id: "u1".to_string(),
            user_name: Some("alice".to_string()),
            password_hash: None,
            password_hash_salt: None,
            password_hash_algorithm: None,
            access_token: "A".to_string(),
            refresh_token: "R".to_string(),
        },
        1,
    )
    .unwrap();
    assert_eq!(
        sign_in(&mut table, &secret(), None, as_user("alice", "")).err(),
        Some(Error::InvalidCredentials)
    );
}

#[test]
fn a_refresh_hands_out_a_new_access_token_and_keeps_the_refresh_token() {
    let mut table = AccountTable::new();
    let alice = new_user(&mut table, "alice", "Str0ng!pw");
    let header = bearer(&alice.auth_token_dto.access_token);
    let pair = refresh_token(&mut table, &secret(), Some(&header), alice.auth_token_dto.refresh_token.clone()).unwrap();
    assert_eq!(pair.refresh_token, alice.auth_token_dto.refresh_token);
    assert!(verify_jwt(&secret(), &pair.access_token));
    let claims = decode_jwt(&secret(), &pair.access_token).unwrap();
    assert_eq!(claims.sub, alice.user_id);
    assert_eq!(claims.exp - claims.iat, 86_400);
    let stored = get_user_account_by_user_id(&table, alice.user_id).unwrap();
    assert_eq!(stored.access_token, pair.access_token);
    assert_eq!(stored.refresh_token, pair.refresh_token);
    assert_eq!(stored.user_name.as_deref(), Some("alice"));
    assert_eq!(table.len(), 1);
}

#[test]
fn a_refresh_supersedes_the_old_access_token() {
    let mut table = AccountTable::new();
    let old_access = generate_jwt_at(&secret(), "u1".to_string(), 86_400, 1_000_000_000).unwrap();
    let refresh = generate_jwt_at(&secret(), "u1".to_string(), 4_000_000_000, 1_000_000_000).unwrap();
    insert_user_account(
        &mut table,
        InsertableUserAccountEntity {
            user_id: "u1".to_string(),
            user_name: None,
            password_hash: None,
            password_hash_salt: None,
            password_hash_algorithm: None,
            access_token: old_access.clone(),
            refresh_token: refresh.clone(),
        },
        1,
    )
    .unwrap();
    let pair = refresh_token(&mut table, &secret(), Some(&bearer(&old_access)), refresh.clone()).unwrap();
    assert_ne!(pair.access_token, old_access);
    assert_eq!(pair.refresh_token, refresh);
    assert_eq!(get_user_account_by_access_token(&table, old_access).err(), Some(Error::NotFound));
    assert_eq!(get_user_account_by_access_token(&table, pair.access_token).unwrap().user_id, "u1");
}

#[test]
fn a_refresh_token_that_is_not_on_record_is_a_mismatch() {
    let mut table = AccountTable::new();
    let alice = new_user(&mut table, "alice", "Str0ng!pw");
    let bob = new_user(&mut table, "bob", "hunter42");
    let header = bearer(&alice.auth_token_dto.access_token);
    for presented in [
        bob.auth_token_dto.refresh_token.clone(),
        alice.auth_token_dto.access_token.clone(),
        "".to_string(),
        "stale".to_string(),
    ] {
        assert_eq!(
            refresh_token(&mut table, &secret(), Some(&header), presented).err(),
            Some(Error::TokenMismatch)
        );
    }
    let stored = get_user_account_by_user_id(&table, alice.user_id).unwrap();
    assert_eq!(stored.access_token, alice.auth_token_dto.access_token);
    assert_eq!(stored.refresh_token, alice.auth_token_dto.refresh_token);
    assert_eq!(table.len(), 2);
}

#[test]
fn a_refresh_for_a_token_nobody_holds_finds_nothing() {
    let mut table = AccountTable::new();
    let alice = new_user(&mut table, "alice", "Str0ng!pw");
    assert_eq!(
        refresh_token(&mut table, &secret(), Some("Bearer unknown"), alice.auth_token_dto.refresh_token.clone()).err(),
        Some(Error::NotFound)
    );
    assert_eq!(
        refresh_token(&mut table, &secret(), None, alice.auth_token_dto.refresh_token.clone()).err(),
        Some(Error::TokenInvalid)
    );
    assert_eq!(
        refresh_token(&mut table, &secret(), Some(&alice.auth_token_dto.access_token), alice.auth_token_dto.refresh_token).err(),
        Some(Error::TokenInvalid)
    );
}

#[test]
fn an_expired_refresh_token_buys_nothing_though_it_is_on_record() {
    let mut table = AccountTable::new();
    let access = generate_jwt_at(&secret(), "u1".to_string(), 86_400, 1_000_000_000).unwrap();
    let refresh = generate_jwt_at(&secret(), "u1".to_string(), 2_592_000, 1_000_000_000).unwrap();
    insert_user_account(
        &mut table,
        InsertableUserAccountEntity {
            user_id: "u1".to_string(),
            user_name: None,
            password_hash: None,
            password_hash_salt: None,
            password_hash_algorithm: None,
            access_token: access.clone(),
            refresh_token: refresh.clone(),
        },
        1,
    )
    .unwrap();
    assert_eq!(
        refresh_token(&mut table, &secret(), Some(&bearer(&access)), refresh.clone()).err(),
        Some(Error::TokenInvalid)
    );
    let stored = get_user_account_by_user_id(&table, "u1".to_string()).unwrap();
    assert_eq!(stored.access_token, access);
    assert_eq!(stored.refresh_token, refresh);
}

#[test]
fn deleting_an_account_leaves_the_caller_with_a_new_guest() {
    let mut table = AccountTable::new();
    let alice = new_user(&mut table, "alice", "Str0ng!pw");
    let bystander = new_guest(&mut table);
    let header = bearer(&alice.auth_token_dto.access_token);
    let guest = delete_account(&mut table, &secret(), Some(&header)).unwrap();
    assert_ne!(guest.user_id, alice.user_id);
    assert_ne!(guest.user_id, bystander.user_id);
    assert_eq!(guest.user_name, None);
    assert!(verify_jwt(&secret(), &guest.auth_token_dto.access_token));
    assert_eq!(decode_jwt(&secret(), &guest.auth_token_dto.access_token).unwrap().sub, guest.user_id);
    assert_eq!(table.len(), 2);
    assert_eq!(get_user_account_by_user_id(&table, alice.user_id).err(), Some(Error::NotFound));
    assert_eq!(get_user_account_by_user_name(&table, "alice".to_string()).err(), Some(Error::NotFound));
    assert!(get_user_account_by_user_id(&table, bystander.user_id).is_ok());
    assert_eq!(get_user_account_by_user_id(&table, guest.user_id.clone()).unwrap().user_name, None);
}

#[test]
fn deleting_a_guest_gives_another_guest() {
    let mut table = AccountTable::new();
    let first = new_guest(&mut table);
    let second = delete_account(&mut table, &secret(), Some(&bearer(&first.auth_token_dto.access_token))).unwrap();
    assert_ne!(second.user_id, first.user_id);
    assert_eq!(table.len(), 1);
    assert_eq!(get_user_account_by_user_id(&table, first.user_id).err(), Some(Error::NotFound));
}

#[test]
fn deleting_what_is_already_gone_still_provisions_a_guest() {
    let mut table = AccountTable::new();
    let guest = delete_account(&mut table, &secret(), Some("Bearer unknown")).unwrap();
    assert_eq!(guest.user_name, None);
    assert_eq!(table.len(), 1);
}

#[test]
fn deleting_without_a_bearer_token_is_turned_down() {
    let mut table = AccountTable::new();
    let guest = new_guest(&mut table);
    assert_eq!(delete_account(&mut table, &secret(), None).err(), Some(Error::TokenInvalid));
    assert_eq!(
        delete_account(&mut table, &secret(), Some(&guest.auth_token_dto.access_token)).err(),
        Some(Error::TokenInvalid)
    );
    assert_eq!(table.len(), 1);
    assert!(get_user_account_by_user_id(&table, guest.user_id).is_ok());
}

#[test]
fn a_whole_life_from_guest_to_user_to_guest() {
    let mut table = AccountTable::new();
    let guest = new_guest(&mut table);
    let header = bearer(&guest.auth_token_dto.access_token);
    let user = sign_up(&mut table, &secret(), Some(&header), as_user("alice", "Str0ng!pw")).unwrap();
    let header = bearer(&user.auth_token_dto.access_token);
    let pair = refresh_token(&mut table, &secret(), Some(&header), user.auth_token_dto.refresh_token.clone()).unwrap();
    let header = bearer(&pair.access_token);
    let again = sign_in(&mut table, &secret(), Some(&header), as_user("alice", "Str0ng!pw")).unwrap();
    assert_eq!(again.user_id, user.user_id);
    assert_eq!(again.auth_token_dto.access_token, pair.access_token);
    let last = delete_account(&mut table, &secret(), Some(&header)).unwrap();
    assert_eq!(table.len(), 1);
    assert_ne!(last.user_id, user.user_id);
    assert_ne!(last.user_id, guest.user_id);
    assert_eq!(
        sign_in(&mut table, &secret(), None, as_user("alice", "Str0ng!pw")).err(),
        Some(Error::InvalidCredentials)
    );
}

#[test]
fn a_password_is_never_stored() {
    let mut table = AccountTable::new();
    let alice = new_user(&mut table, "alice", "Str0ng!pw");
    let stored = get_user_account_by_user_id(&table, alice.user_id).unwrap();
    let hash = stored.password_hash.unwrap();
    assert!(hash.starts_with("$argon2id$v=19$"));
    assert!(!hash.contains("Str0ng!pw"));
    assert!(!stored.password_hash_salt.unwrap().contains("Str0ng!pw"));
    let other = generate_password_hash(b"Str0ng!pw").unwrap();
    assert_ne!(other.hash, hash);
}
