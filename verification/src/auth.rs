//! Accounts' credentials and sessions: the decisions behind signing up,
//! signing in and recognising who a request comes from.
use vstd::prelude::*;
use argon2::password_hash::{PasswordHasher, PasswordVerifier, SaltString, rand_core::OsRng};
use crate::account::{
    Account, CredentialProblem, email_verdict, password_verdict,
    problem_message, validate_email, validate_password,
};
use crate::text::{
    chars_of, has_prefix, push_str, starts_with, string_of, to_lowercase, trim, trimmed_chars,
    unicode_lowercase,
};

verus! {

#[derive(Clone, Copy, Debug, PartialEq, Eq, Structural)]
pub enum AuthError {
    Credential(CredentialProblem),
    InvalidLogin,
    AlreadyRegistered,
}

pub open spec fn auth_message(error: AuthError) -> Seq<char> {
    match error {
        AuthError::Credential(problem) => problem_message(problem),
        AuthError::InvalidLogin => "That email and password do not match an account."@,
        AuthError::AlreadyRegistered => "This account already has an email address."@,
    }
}

impl AuthError {
    /// What the form says. A failed sign-in does not say whether the
    /// account exists.
    pub fn message(&self) -> (r: String)
        ensures
            r@ == auth_message(*self),
    {
        match self {
            AuthError::Credential(problem) => problem.message().to_string(),
            AuthError::InvalidLogin => "That email and password do not match an account.".to_string(),
            AuthError::AlreadyRegistered => "This account already has an email address.".to_string(),
        }
    }

    /// A refused credential as an error.
    pub fn from_problem(problem: CredentialProblem) -> (r: AuthError)
        ensures
            r == AuthError::Credential(problem),
    {
        AuthError::Credential(problem)
    }
}

/// Tawny's account table: sessions resolve to a row of it.
pub open spec fn account_table() -> Seq<char> {
    "app_user"@
}

/// Tawny's accounts as the session layer sees them: sessions resolve to a
/// row of the account table, named by its display name.
pub struct AppUser;

impl AppUser {
    /// The table an account is a row of.
    pub fn table() -> (r: &'static str)
        ensures
            r@ == account_table(),
    {
        proof {
            reveal_strlit("app_user");
        }
        "app_user"
    }
}

/// The record key of an account id: `k3j2h1` for `app_user:k3j2h1`, and
/// a bare key as it is. Sessions are keyed by the bare key.
pub open spec fn record_key_of(id: Seq<char>) -> Seq<char> {
    if starts_with(id, "app_user:"@) {
        id.skip(9)
    } else {
        id
    }
}

/// The record key of an account id.
pub fn record_key(id: &str) -> (r: &str)
    ensures
        r@ == record_key_of(id@),
{
    let cs = chars_of(id);
    let prefix = chars_of("app_user:");
    if has_prefix(&cs, &prefix) {
        proof {
            reveal_strlit("app_user:");
        }
        id.substring_char(9, cs.len())
    } else {
        id
    }
}

/// An account as the table stores it: a row written before guests were
/// marked has no `is_guest`, and then being a guest means having no email.
pub fn account_from_row(
    id: String,
    display_name: String,
    email: Option<String>,
    is_guest: Option<bool>,
) -> (r: Account)
    ensures
        r.id == id,
        r.display_name == display_name,
        r.email == email,
        r.is_guest == (match is_guest {
            Some(g) => g,
            None => email is None,
        }),
{
    let guest = match is_guest {
        Some(g) => g,
        None => email.is_none(),
    };
    Account { id, display_name, email, is_guest: guest }
}

/// The signed-in account of a request, as the `app_user:<key>` record id
/// every owner-scoped query binds.
pub struct Owner(pub String);

/// A session's user as the session layer reports it.
pub struct SessionUser {
    pub id: String,
    pub anonymous: bool,
}

/// Why a request has no owner: an HTTP status and its message.
pub struct Refusal {
    pub status: u16,
    pub message: &'static str,
}

/// Who a request comes from. Without the session middleware that is a
/// server fault; without a signed-in, non-anonymous user the session has
/// expired.
pub fn owner_from_session(middleware_present: bool, user: Option<&SessionUser>) -> (r: Result<
    Owner,
    Refusal,
>)
    ensures
        !middleware_present ==> (r matches Err(e) && e.status == 500 && e.message@
            == "auth session middleware is missing"@),
        middleware_present && (user is None || user->0.anonymous) ==> (r matches Err(e)
            && e.status == 401 && e.message@ == "your session has expired; please sign in again"@),
        middleware_present && user is Some && !user->0.anonymous ==> (r matches Ok(owner)
            && owner.0@ == account_table() + ":"@ + user->0.id@),
{
    if !middleware_present {
        return Err(Refusal { status: 500, message: "auth session middleware is missing" });
    }
    match user {
        Some(u) => {
            if u.anonymous {
                Err(Refusal { status: 401, message: "your session has expired; please sign in again" })
            } else {
                let mut text = chars_of("app_user");
                push_str(&mut text, ":");
                push_str(&mut text, u.id.as_str());
                Ok(Owner(string_of(text.as_slice())))
            }
        },
        None => Err(Refusal { status: 401, message: "your session has expired; please sign in again" }),
    }
}

/// What registering `account` with these credentials gives, before the
/// database is asked whether the email is taken: the normalized email to
/// register, or why not. Only a guest without an email can register.
pub open spec fn registration_verdict(account: Account, email: Seq<char>, password: Seq<char>) -> Result<
    Seq<char>,
    AuthError,
> {
    if !account.is_guest || account.email is Some {
        Err(AuthError::AlreadyRegistered)
    } else {
        match email_verdict(email) {
            Err(problem) => Err(AuthError::Credential(problem)),
            Ok(normalized) => match password_verdict(password) {
                Err(problem) => Err(AuthError::Credential(problem)),
                Ok(_) => Ok(normalized),
            },
        }
    }
}

/// The checks `register` makes before it asks the database anything.
pub fn registration_check(account: &Account, email: &str, password: &str) -> (r: Result<
    String,
    AuthError,
>)
    ensures
        match r {
            Ok(s) => registration_verdict(*account, email@, password@) == Ok::<Seq<char>, AuthError>(s@),
            Err(e) => registration_verdict(*account, email@, password@) == Err::<Seq<char>, AuthError>(e),
        },
{
    if !account.is_guest || account.email.is_some() {
        return Err(AuthError::AlreadyRegistered);
    }
    let normalized = match validate_email(email) {
        Ok(n) => n,
        Err(problem) => return Err(AuthError::Credential(problem)),
    };
    match validate_password(password) {
        Ok(()) => Ok(normalized),
        Err(problem) => Err(AuthError::Credential(problem)),
    }
}

/// The decision `register` makes after its email lookup: `check` is what
/// `registration_check` gave, `email_taken` what the lookup answered. A
/// refusal from the checks stands; an email that passed them but is taken
/// is refused as taken; otherwise the email is registered.
pub fn registration_outcome(check: Result<String, AuthError>, email_taken: bool) -> (r: Result<
    String,
    AuthError,
>)
    ensures
        match check {
            Err(e) => r == Err::<String, AuthError>(e),
            Ok(email) => if email_taken {
                r == Err::<String, AuthError>(AuthError::Credential(CredentialProblem::EmailTaken))
            } else {
                r matches Ok(s) && s@ == email@
            },
        },
{
    match check {
        Err(e) => Err(e),
        Ok(email) => if email_taken {
            Err(AuthError::Credential(CredentialProblem::EmailTaken))
        } else {
            Ok(email)
        },
    }
}

/// Whether `password` verifies against the PHC-encoded Argon2 hash
/// `encoded`, as `argon2::Argon2::default().verify_password` decides after
/// `PasswordHash::new` has read the encoding.
pub uninterp spec fn argon2_verifies(password: Seq<char>, encoded: Seq<char>) -> bool;

/// `argon2::password_hash::PasswordHash::new` and then
/// `Argon2::default().verify_password`: whether `password` matches the
/// encoded hash. A hash that does not parse matches nothing; the result is
/// named, and depends on the two texts alone.
#[verifier::external_body]
fn argon2_check(password: &str, encoded: &str) -> (r: bool)
    ensures
        r == argon2_verifies(password@, encoded@),
{
    let Ok(parsed) = argon2::password_hash::PasswordHash::new(encoded) else {
        return false;
    };
    argon2::Argon2::default().verify_password(password.as_bytes(), &parsed).is_ok()
}

/// `Argon2::default().hash_password` with a fresh random salt from the
/// operating system (`SaltString::generate` over `OsRng`), encoded as a PHC
/// string; `None` when hashing fails. The salt is random, so the hash is
/// not named. What the crate's source shows is stated: verifying the same
/// password against the hash succeeds, since verification recomputes the
/// hash with the stored salt and parameters; and hashing fails only for a
/// password over `MAX_PWD_LEN` (0xFFFFFFFF) bytes, since the generated
/// 16-byte salt and the default parameters are always valid and a failing
/// random source panics rather than returning an error. A password of at
/// most 0x3fff_ffff characters takes at most 0xFFFF_FFFC bytes.
#[verifier::external_body]
fn argon2_hash(password: &str) -> (r: Option<String>)
    ensures
        r matches Some(encoded) ==> argon2_verifies(password@, encoded@),
        password@.len() <= 0x3fff_ffff ==> r is Some,
{
    let salt = SaltString::generate(&mut OsRng);
    match argon2::Argon2::default().hash_password(password.as_bytes(), &salt) {
        Ok(hash) => Some(hash.to_string()),
        Err(_) => None,
    }
}

/// Whether `password` matches the encoded Argon2 hash; a corrupt hash is
/// refused rather than panicking.
pub fn password_matches(password: &str, encoded: &str) -> (r: bool)
    ensures
        r == argon2_verifies(password@, encoded@),
{
    argon2_check(password, encoded)
}

/// `password` hashed with Argon2 and a fresh salt, so the same password
/// hashes differently each time; the hash verifies the password. Every
/// password short enough for Argon2 gets a hash.
pub fn hash_password(password: &str) -> (r: Option<String>)
    ensures
        r matches Some(encoded) ==> argon2_verifies(password@, encoded@),
        password@.len() <= 0x3fff_ffff ==> r is Some,
{
    argon2_hash(password)
}

/// An account's row as sign-in reads it.
pub struct StoredCredential {
    pub id: String,
    pub display_name: String,
    pub email: Option<String>,
    pub password_hash: Option<String>,
}

/// Why signing in with `password` against the row found for the email is
/// refused, or `None` when it is not: a missing row, a row without a
/// password and a wrong password are all the same refusal.
pub open spec fn sign_in_refusal(candidate: Option<StoredCredential>, password: Seq<char>) -> Option<AuthError> {
    match candidate {
        Some(row) => match row.password_hash {
            Some(hash) => if argon2_verifies(password, hash@) {
                None
            } else {
                Some(AuthError::InvalidLogin)
            },
            None => Some(AuthError::InvalidLogin),
        },
        None => Some(AuthError::InvalidLogin),
    }
}

/// A refused sign-in does not reveal whether the account exists: whatever
/// went wrong, two refusals are the same error, and so say the same thing.
pub proof fn law_refused_sign_ins_are_indistinguishable(
    first: Option<StoredCredential>,
    first_password: Seq<char>,
    second: Option<StoredCredential>,
    second_password: Seq<char>,
)
    requires
        sign_in_refusal(first, first_password) is Some,
        sign_in_refusal(second, second_password) is Some,
    ensures
        sign_in_refusal(first, first_password) == sign_in_refusal(second, second_password),
        auth_message(sign_in_refusal(first, first_password)->0) == auth_message(
            sign_in_refusal(second, second_password)->0,
        ),
{
}

/// What signing in with `password` against the row found for the email
/// gives: the account when there is a row with a hash the password
/// verifies against, and the same refusal whatever else went wrong.
pub fn sign_in_outcome(candidate: Option<StoredCredential>, password: &str) -> (r: Result<
    Account,
    AuthError,
>)
    ensures
        match candidate {
            Some(row) => match row.password_hash {
                Some(hash) => if argon2_verifies(password@, hash@) {
                    r matches Ok(account) && account.id == row.id && account.display_name
                        == row.display_name && account.email == row.email && !account.is_guest
                } else {
                    r == Err::<Account, AuthError>(AuthError::InvalidLogin)
                },
                None => r == Err::<Account, AuthError>(AuthError::InvalidLogin),
            },
            None => r == Err::<Account, AuthError>(AuthError::InvalidLogin),
        },
        match r {
            Ok(_) => sign_in_refusal(candidate, password@) is None,
            Err(e) => sign_in_refusal(candidate, password@) == Some(e),
        },
{
    let row = match candidate {
        Some(row) => row,
        None => return Err(AuthError::InvalidLogin),
    };
    let matches = match &row.password_hash {
        Some(hash) => password_matches(password, hash.as_str()),
        None => return Err(AuthError::InvalidLogin),
    };
    if !matches {
        return Err(AuthError::InvalidLogin);
    }
    Ok(Account { id: row.id, display_name: row.display_name, email: row.email, is_guest: false })
}

/// The email sign-in looks an account up by: trimmed and lowercased, the
/// form registration stores.
pub fn sign_in_email(email: &str) -> (r: String)
    ensures
        r@ == unicode_lowercase(trim(email@)),
{
    let t = trimmed_chars(email);
    let s = string_of(t.as_slice());
    to_lowercase(s.as_str())
}

/// An account registered with an email is found again by signing in with
/// the same text: the key sign-in looks up is the email registration
/// stored.
pub proof fn law_a_registered_email_is_found_at_sign_in(account: Account, email: Seq<char>, password: Seq<char>)
    requires
        registration_verdict(account, email, password) is Ok,
    ensures
        registration_verdict(account, email, password) == Ok::<Seq<char>, AuthError>(
            unicode_lowercase(trim(email)),
        ),
{
}

} // verus!
