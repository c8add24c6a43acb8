use tawny::auth::{hash_password, password_matches, record_key, registration_outcome, AppUser, AuthError};

#[test]
fn a_password_verifies_only_against_itself() {
    let encoded = hash_password("correct horse battery").expect("hash");
    assert!(password_matches("correct horse battery", &encoded));
    assert!(!password_matches("Correct horse battery", &encoded));
}

#[test]
fn the_same_password_hashes_differently_each_time() {
    assert_ne!(
        hash_password("correct horse battery").expect("hash"),
        hash_password("correct horse battery").expect("hash")
    );
}

#[test]
fn a_corrupt_hash_is_refused_rather_than_panicking() {
    assert!(!password_matches("anything", "not-a-phc-string"));
}

#[test]
fn a_sign_in_failure_does_not_reveal_whether_the_account_exists() {
    let message = AuthError::InvalidLogin.message().to_lowercase();
    assert!(!message.contains("not found"));
}

#[test]
fn sessions_are_keyed_by_the_bare_record_key() {
    assert_eq!(record_key("app_user:k3j2h1"), "k3j2h1");
    assert_eq!(record_key("k3j2h1"), "k3j2h1");
}

#[test]
fn accounts_live_in_the_app_user_table() {
    assert_eq!(AppUser::table(), "app_user");
}

use tawny::account::{validate_email, Account, CredentialProblem};
use tawny::auth::{
    account_from_row, owner_from_session, registration_check, sign_in_email, sign_in_outcome,
    SessionUser, StoredCredential,
};

fn guest() -> Account {
    Account { id: "app_user:g".into(), display_name: "Guest".into(), email: None, is_guest: true }
}

#[test]
fn sign_in_looks_up_the_email_registration_stored() {
    let typed = "  Viewer@Example.COM ";
    assert_eq!(sign_in_email(typed), "viewer@example.com");
    assert_eq!(validate_email(typed).unwrap(), sign_in_email(typed));
    assert_eq!(registration_check(&guest(), typed, "longenough").unwrap(), sign_in_email(typed));
}

#[test]
fn only_a_guest_without_an_email_can_register() {
    let member = Account { email: Some("a@b.co".into()), is_guest: false, ..guest() };
    assert_eq!(registration_check(&member, "x@y.co", "longenough"), Err(AuthError::AlreadyRegistered));
    assert_eq!(
        registration_check(&guest(), "nope", "longenough"),
        Err(AuthError::Credential(CredentialProblem::EmailMalformed))
    );
    assert_eq!(
        registration_check(&guest(), "x@y.co", "short"),
        Err(AuthError::Credential(CredentialProblem::PasswordTooShort))
    );
}

#[test]
fn every_refused_sign_in_is_the_same_refusal() {
    let encoded = hash_password("correct horse battery").expect("hash");
    let row = |hash: Option<String>| StoredCredential {
        id: "app_user:k".into(),
        display_name: "v@e.co".into(),
        email: Some("v@e.co".into()),
        password_hash: hash,
    };
    assert_eq!(sign_in_outcome(None, "x").err().unwrap(), AuthError::InvalidLogin);
    assert_eq!(sign_in_outcome(Some(row(None)), "x").err().unwrap(), AuthError::InvalidLogin);
    assert_eq!(sign_in_outcome(Some(row(Some(encoded.clone()))), "wrong").err().unwrap(), AuthError::InvalidLogin);
    let account = sign_in_outcome(Some(row(Some(encoded))), "correct horse battery").unwrap();
    assert_eq!(account.id, "app_user:k");
    assert!(!account.is_guest);
}

#[test]
fn a_request_without_a_live_session_has_no_owner() {
    let user = SessionUser { id: "k3j2h1".into(), anonymous: false };
    let owner = owner_from_session(true, Some(&user)).ok().unwrap();
    assert_eq!(owner.0, "app_user:k3j2h1");
    let anonymous = SessionUser { id: "k".into(), anonymous: true };
    assert_eq!(owner_from_session(true, Some(&anonymous)).err().unwrap().status, 401);
    assert_eq!(owner_from_session(true, None).err().unwrap().status, 401);
    assert_eq!(owner_from_session(false, Some(&user)).err().unwrap().status, 500);
}

#[test]
fn an_old_row_without_a_guest_mark_is_a_guest_when_it_has_no_email() {
    assert!(account_from_row("a".into(), "Guest".into(), None, None).is_guest);
    assert!(!account_from_row("a".into(), "v@e.co".into(), Some("v@e.co".into()), None).is_guest);
    assert!(!account_from_row("a".into(), "Guest".into(), None, Some(false)).is_guest);
}

#[test]
fn a_taken_email_refuses_registration() {
    assert_eq!(registration_outcome(Ok("x@y.co".into()), false), Ok("x@y.co".to_string()));
    assert_eq!(
        registration_outcome(Ok("x@y.co".into()), true),
        Err(AuthError::Credential(CredentialProblem::EmailTaken))
    );
    assert_eq!(
        registration_outcome(Err(AuthError::AlreadyRegistered), true),
        Err(AuthError::AlreadyRegistered)
    );
}

#[test]
fn an_ordinary_password_always_gets_a_hash() {
    assert!(hash_password("").is_some());
    assert!(hash_password("ünïcödé pässwörd").is_some());
}
