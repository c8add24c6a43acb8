//! Accounts and the credentials that sign into them.
use vstd::prelude::*;
use crate::text::{
    Separator, chars_of, contains, contains_run, is_white_space, split, split_pieces, string_of,
    to_lowercase, trim, trimmed_chars, unicode_lowercase,
};

verus! {

/// Who the client is currently acting as. There is always someone: a first
/// launch mints a guest rather than showing a sign-in wall.
pub struct Account {
    pub id: String,
    pub display_name: String,
    /// `None` for a guest. Its presence is what "has a real account" means.
    pub email: Option<String>,
    pub is_guest: bool,
}

impl Account {
    /// A guest has nothing to sign back in with, so clearing its cookie
    /// loses the library; this is the test the UI asks before saying so.
    pub fn is_recoverable(&self) -> (r: bool)
        ensures
            r == (!self.is_guest && self.email is Some),
    {
        !self.is_guest && self.email.is_some()
    }

    /// The email when there is one, else the display name.
    pub fn label(&self) -> (r: &str)
        ensures
            r@ == (match self.email {
                Some(e) => e@,
                None => self.display_name@,
            }),
    {
        match &self.email {
            Some(email) => email.as_str(),
            None => self.display_name.as_str(),
        }
    }
}

pub struct Credentials {
    pub email: String,
    pub password: String,
}

/// Why a credential was refused, in the terms the form needs: which field
/// to mark, not only what to say.
#[derive(Clone, Copy, Debug, PartialEq, Eq, Structural)]
pub enum CredentialProblem {
    EmailEmpty,
    EmailMalformed,
    EmailTaken,
    PasswordTooShort,
    PasswordTooLong,
}

pub open spec fn problem_message(problem: CredentialProblem) -> Seq<char> {
    match problem {
        CredentialProblem::EmailEmpty => "Enter an email address."@,
        CredentialProblem::EmailMalformed => "That does not look like an email address."@,
        CredentialProblem::EmailTaken => "An account already uses that email."@,
        CredentialProblem::PasswordTooShort => "Use at least 8 characters."@,
        CredentialProblem::PasswordTooLong => "Use at most 512 characters."@,
    }
}

impl CredentialProblem {
    pub fn message(self) -> (r: &'static str)
        ensures
            r@ == problem_message(self),
    {
        match self {
            CredentialProblem::EmailEmpty => "Enter an email address.",
            CredentialProblem::EmailMalformed => "That does not look like an email address.",
            CredentialProblem::EmailTaken => "An account already uses that email.",
            CredentialProblem::PasswordTooShort => "Use at least 8 characters.",
            CredentialProblem::PasswordTooLong => "Use at most 512 characters.",
        }
    }
}

/// Argon2 is deliberately slow, so a password long enough to be a denial
/// of service is refused before it reaches the hasher.
pub const PASSWORD_MIN_LENGTH: usize = 8;

pub const PASSWORD_MAX_LENGTH: usize = 512;

/// Whether a domain is dotted the way an address's domain is: it holds a
/// point, but neither starts nor ends with one nor holds two in a row.
pub open spec fn domain_is_dotted(domain: Seq<char>) -> bool {
    &&& domain.contains('.')
    &&& !(domain.len() > 0 && domain[0] == '.')
    &&& !(domain.len() > 0 && domain.last() == '.')
    &&& !contains_run(domain, ".."@)
}

/// What `validate_email` makes of an address: trimmed and lowercased, it
/// must be non-empty, hold exactly one `@` with something on both sides, a
/// dotted domain, and no whitespace.
pub open spec fn email_verdict(email: Seq<char>) -> Result<Seq<char>, CredentialProblem> {
    let normalized = unicode_lowercase(trim(email));
    let parts = split_pieces(normalized, Separator::Char('@'));
    if normalized.len() == 0 {
        Err(CredentialProblem::EmailEmpty)
    } else if parts.len() != 2 {
        Err(CredentialProblem::EmailMalformed)
    } else if parts[0].len() == 0 || parts[1].len() == 0 || !domain_is_dotted(parts[1]) {
        Err(CredentialProblem::EmailMalformed)
    } else if exists|i: int| 0 <= i < normalized.len() && is_white_space(#[trigger] normalized[i]) {
        Err(CredentialProblem::EmailMalformed)
    } else {
        Ok(normalized)
    }
}

/// What `validate_password` makes of a password: its characters counted
/// as they are, surrounding spaces included.
pub open spec fn password_verdict(password: Seq<char>) -> Result<(), CredentialProblem> {
    if password.len() < 8 {
        Err(CredentialProblem::PasswordTooShort)
    } else if password.len() > 512 {
        Err(CredentialProblem::PasswordTooLong)
    } else {
        Ok(())
    }
}

/// An email result by its text.
pub open spec fn email_result_view(r: Result<String, CredentialProblem>) -> Result<
    Seq<char>,
    CredentialProblem,
> {
    match r {
        Ok(s) => Ok(s@),
        Err(p) => Err(p),
    }
}

fn holds_char(s: &Vec<char>, c: char) -> (r: bool)
    ensures
        r == s@.contains(c),
{
    let mut i: usize = 0;
    while i < s.len()
        invariant
            i <= s.len(),
            forall|k: int| 0 <= k < i ==> s@[k] != c,
        decreases s.len() - i,
    {
        if s[i] == c {
            assert(s@[i as int] == c);
            return true;
        }
        i = i + 1;
    }
    false
}

fn any_whitespace(s: &Vec<char>) -> (r: bool)
    ensures
        r == exists|i: int| 0 <= i < s@.len() && is_white_space(#[trigger] s@[i]),
{
    let mut i: usize = 0;
    while i < s.len()
        invariant
            i <= s.len(),
            forall|k: int| 0 <= k < i ==> !is_white_space(#[trigger] s@[k]),
        decreases s.len() - i,
    {
        if crate::text::is_whitespace(s[i]) {
            return true;
        }
        i = i + 1;
    }
    false
}

/// Shared by both sides so a client-side form and the server agree on
/// what is acceptable. Deliberately not an RFC 5322 parser: the only thing
/// this can usefully establish is that the viewer typed something
/// address-shaped.
pub fn validate_email(email: &str) -> (r: Result<String, CredentialProblem>)
    ensures
        email_result_view(r) == email_verdict(email@),
{
    let trimmed = trimmed_chars(email);
    let trimmed_text = string_of(trimmed.as_slice());
    let lowered = to_lowercase(trimmed_text.as_str());
    let normalized = chars_of(lowered.as_str());
    if normalized.len() == 0 {
        return Err(CredentialProblem::EmailEmpty);
    }
    let parts = split(&normalized, Separator::Char('@'));
    if parts.len() != 2 {
        return Err(CredentialProblem::EmailMalformed);
    }
    let local = &parts[0];
    let domain = &parts[1];
    let dots = chars_of("..");
    let dotted = holds_char(domain, '.') && !(domain.len() > 0 && domain[0] == '.') && !(
    domain.len() > 0 && domain[domain.len() - 1] == '.') && !contains(domain, &dots);
    if local.len() == 0 || domain.len() == 0 || !dotted {
        return Err(CredentialProblem::EmailMalformed);
    }
    if any_whitespace(&normalized) {
        return Err(CredentialProblem::EmailMalformed);
    }
    Ok(lowered)
}

/// Not trimmed: leading and trailing spaces are legitimate password
/// characters, and removing them would lock out anyone who used one.
pub fn validate_password(password: &str) -> (r: Result<(), CredentialProblem>)
    ensures
        r == password_verdict(password@),
{
    let count = password.unicode_len();
    if count < PASSWORD_MIN_LENGTH {
        return Err(CredentialProblem::PasswordTooShort);
    }
    if count > PASSWORD_MAX_LENGTH {
        return Err(CredentialProblem::PasswordTooLong);
    }
    Ok(())
}

} // verus!
