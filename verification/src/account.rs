//! Account endpoints of the gateway: password checks, the errors requests
//! are refused with, and the answers those errors give.

use crate::token::{token_bytes_of, Token};
use argon2::password_hash::rand_core::OsRng;
use argon2::password_hash::{PasswordHash, PasswordHasher, PasswordVerifier, SaltString};
use argon2::Argon2;
use vstd::prelude::*;

verus! {

/// What checking `password` against the PHC string `phc` with the default
/// Argon2 instance gives: `Some(true)` when it matches, `Some(false)` when
/// the password is wrong, `None` when the check fails otherwise (for instance
/// an unreadable PHC string).
pub uninterp spec fn argon2_verdict(password: Seq<u8>, phc: Seq<char>) -> Option<bool>;

/// Why a password check did not succeed.
pub enum PasswordFailure {
    /// The password does not match.
    WrongPassword,
    /// The check could not be made; the error's text.
    Other(String),
}

/// Parses `phc` with `argon2::password_hash::PasswordHash::new` and checks
/// `password` against it with `PasswordVerifier::verify_password` of
/// `Argon2::default()`. Stated: the outcome is the named verdict of the two
/// arguments. The text of other errors is not stated.
#[verifier::external_body]
fn argon2_verify(password: &[u8], phc: &str) -> (result: Result<(), PasswordFailure>)
    ensures
        result is Ok <==> argon2_verdict(password@, phc@) == Some(true),
        result matches Err(PasswordFailure::WrongPassword) <==> argon2_verdict(password@, phc@) == Some(false),
{
    let hash = match PasswordHash::new(phc) {
        Ok(hash) => hash,
        Err(error) => return Err(PasswordFailure::Other(error.to_string())),
    };
    match Argon2::default().verify_password(password, &hash) {
        Ok(()) => Ok(()),
        Err(argon2::password_hash::Error::Password) => Err(PasswordFailure::WrongPassword),
        Err(error) => Err(PasswordFailure::Other(error.to_string())),
    }
}

/// Hashes `password` with `PasswordHasher::hash_password` of
/// `Argon2::default()` and a fresh salt from `SaltString::generate` on
/// `OsRng`, giving the PHC string. The salt is random, so the string is not
/// stated; stated is that checking the same password against it with the
/// same instance matches, which is what the verifier recomputes from the
/// string's parameters and salt. The call fails only for a password longer
/// than `argon2::MAX_PWD_LEN` (`0xFFFF_FFFF`) bytes: the generated salt, the
/// default parameters and the default output length are always accepted.
/// The text of an error is not stated.
#[verifier::external_body]
fn argon2_hash(password: &[u8]) -> (result: Result<String, String>)
    ensures
        result matches Ok(phc) ==> argon2_verdict(password@, phc@) == Some(true),
        password@.len() <= 0xFFFF_FFFF ==> result is Ok,
{
    let salt = SaltString::generate(&mut OsRng);
    match Argon2::default().hash_password(password, &salt) {
        Ok(hash) => Ok(hash.to_string()),
        Err(error) => Err(error.to_string()),
    }
}

/// Why a token request was refused.
pub enum GetTokenError {
    AccountDoesNotExist,
    IncorrectPassword,
    /// Any other failure; its text, which is logged.
    Internal(String),
}

/// Why a connection request was refused.
pub enum ConnectError {
    /// Any failure; its text, which is logged.
    Internal(String),
}

/// Why an account could not be created.
pub enum CreateAccountError {
    AccountExists,
    /// Any other failure; its text, which is logged.
    Internal(String),
}

/// Why a request was not authenticated.
pub enum AuthenticationError {
    Unauthorized,
    /// Any other failure; its text, which is logged.
    Internal(String),
}

/// The page returned when an account was created.
pub open spec fn account_created_body() -> Seq<char> {
    "<p style=\"color:green\">Account Created!</p>"@
}

/// The body answered to a successful account creation.
pub fn account_created() -> (body: &'static str)
    ensures
        body@ == account_created_body(),
{
    "<p style=\"color:green\">Account Created!</p>"
}

impl GetTokenError {
    /// The status code and body a refused token request is answered with.
    pub fn status_and_body(&self) -> (answer: (u16, &'static str))
        ensures
            answer == (match self {
                GetTokenError::AccountDoesNotExist => (404u16, "Account does not exist"),
                GetTokenError::IncorrectPassword => (401u16, "Incorrect Password"),
                GetTokenError::Internal(_) => (500u16, "Internal / Unknown Error"),
            }),
    {
        match self {
            GetTokenError::AccountDoesNotExist => (404, "Account does not exist"),
            GetTokenError::IncorrectPassword => (401, "Incorrect Password"),
            GetTokenError::Internal(_) => (500, "Internal / Unknown Error"),
        }
    }
}

impl ConnectError {
    /// The status code and body a refused connection request is answered with.
    pub fn status_and_body(&self) -> (answer: (u16, &'static str))
        ensures
            answer == (500u16, "Internal / Unknown Error"),
    {
        (500, "Internal / Unknown Error")
    }
}

impl CreateAccountError {
    /// The status code and body a refused account creation is answered with.
    pub fn status_and_body(&self) -> (answer: (u16, &'static str))
        ensures
            answer == (match self {
                CreateAccountError::AccountExists => (409u16, "<p style=\"color:red\">Account Exists!</p>"),
                CreateAccountError::Internal(_) => (500u16, "<p style=\"color:red\">Internal / Unknown Error!</p>"),
            }),
    {
        match self {
            CreateAccountError::AccountExists => (409, "<p style=\"color:red\">Account Exists!</p>"),
            CreateAccountError::Internal(_) => (500, "<p style=\"color:red\">Internal / Unknown Error!</p>"),
        }
    }
}

impl AuthenticationError {
    /// The status code and body an unauthenticated request is answered with.
    pub fn status_and_body(&self) -> (answer: (u16, &'static str))
        ensures
            answer == (match self {
                AuthenticationError::Unauthorized => (401u16, "Unauthorized"),
                AuthenticationError::Internal(_) => (500u16, "Internal Error"),
            }),
    {
        match self {
            AuthenticationError::Unauthorized => (401, "Unauthorized"),
            AuthenticationError::Internal(_) => (500, "Internal Error"),
        }
    }
}

/// The verdict of checking the text `password` (by its UTF-8 bytes) against
/// the PHC string `phc`.
pub open spec fn password_verdict(password: Seq<char>, phc: Seq<char>) -> Option<bool> {
    argon2_verdict(vstd::utf8::encode_utf8(password), phc)
}

/// Checks a login password against the account's stored PHC string: a match
/// passes, a wrong password is `IncorrectPassword`, and a check that cannot
/// be made is `Internal`.
pub fn check_password(password: &str, phc: &str) -> (result: Result<(), GetTokenError>)
    ensures
        result is Ok <==> password_verdict(password@, phc@) == Some(true),
        result matches Err(GetTokenError::IncorrectPassword) <==> password_verdict(password@, phc@) == Some(false),
        result matches Err(GetTokenError::Internal(_)) <==> password_verdict(password@, phc@) is None,
        !(result matches Err(GetTokenError::AccountDoesNotExist)),
{
    match argon2_verify(password.as_bytes(), phc) {
        Ok(()) => Ok(()),
        Err(PasswordFailure::WrongPassword) => Err(GetTokenError::IncorrectPassword),
        Err(PasswordFailure::Other(message)) => {
            let ghost verdict = password_verdict(password@, phc@);
            assert(verdict != Some(true) && verdict != Some(false));
            assert(verdict is None) by {
                if verdict is Some {
                    assert(verdict == Some(verdict->0));
                }
            }
            Err(GetTokenError::Internal(message))
        },
    }
}

/// Hashes a new account's password into the PHC string that is stored; a
/// failure is `Internal`, and comes only for a password of more than
/// `0xFFFF_FFFF` bytes. Checking the same password against the stored
/// string passes.
pub fn hash_password(password: &str) -> (result: Result<String, CreateAccountError>)
    ensures
        result matches Ok(phc) ==> password_verdict(password@, phc@) == Some(true),
        vstd::utf8::encode_utf8(password@).len() <= 0xFFFF_FFFF ==> result is Ok,
        !(result matches Err(CreateAccountError::AccountExists)),
{
    match argon2_hash(password.as_bytes()) {
        Ok(phc) => Ok(phc),
        Err(message) => Err(CreateAccountError::Internal(message)),
    }
}

/// The token a request authenticates with, from its `Authorization` header:
/// a missing header, or one that is not visible ASCII text (`None` here), is
/// `Unauthorized`; otherwise the header's text is read as a token.
pub fn token_from_authorization(header: Option<&str>) -> (result: Result<Token, AuthenticationError>)
    ensures
        match header {
            None => result matches Err(AuthenticationError::Unauthorized),
            Some(text) => result matches Ok(token) && token@ == token_bytes_of(text@),
        },
{
    match header {
        None => Err(AuthenticationError::Unauthorized),
        Some(text) => Ok(Token::from(text)),
    }
}

} // verus!
