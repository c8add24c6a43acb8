use tawny::account::{validate_email, validate_password, Account, CredentialProblem, PASSWORD_MAX_LENGTH};

#[test]
fn email_validation_normalizes_case_and_surrounding_space() {
    assert_eq!(validate_email("  Viewer@Example.COM "), Ok("viewer@example.com".into()));
}

#[test]
fn email_validation_rejects_addresses_that_are_not_address_shaped() {
    for candidate in [
        "",
        "   ",
        "viewer",
        "viewer@",
        "@example.com",
        "viewer@example",
        "viewer@.com",
        "viewer@example.",
        "viewer@exa..mple.com",
        "one@two@example.com",
        "view er@example.com",
    ] {
        assert!(validate_email(candidate).is_err(), "expected {candidate:?} to be rejected");
    }
}

#[test]
fn an_empty_email_and_a_malformed_one_are_told_apart() {
    assert_eq!(validate_email("   "), Err(CredentialProblem::EmailEmpty));
    assert_eq!(validate_email("viewer@"), Err(CredentialProblem::EmailMalformed));
}

#[test]
fn password_length_is_bounded_at_both_ends() {
    assert_eq!(validate_password("short"), Err(CredentialProblem::PasswordTooShort));
    assert!(validate_password("longenough").is_ok());
    assert_eq!(
        validate_password(&"x".repeat(PASSWORD_MAX_LENGTH + 1)),
        Err(CredentialProblem::PasswordTooLong)
    );
}

#[test]
fn password_whitespace_is_significant() {
    assert!(validate_password(" pass a ").is_ok());
}

#[test]
fn only_a_real_account_is_recoverable() {
    let guest = Account {
        id: "app_user:abc".into(),
        display_name: "Guest".into(),
        email: None,
        is_guest: true,
    };
    assert!(!guest.is_recoverable());
    assert_eq!(guest.label(), "Guest");

    let member = Account {
        id: "app_user:abc".into(),
        display_name: "Guest".into(),
        email: Some("viewer@example.com".into()),
        is_guest: false,
    };
    assert!(member.is_recoverable());
    assert_eq!(member.label(), "viewer@example.com");
}
