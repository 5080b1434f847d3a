//! Email addresses of accounts.

use email_address::{EmailAddress, Options};
use vstd::prelude::*;

verus! {

/// What `email_address::EmailAddress::parse_with_options` reports for
/// `address` under the given options: `None` when it accepts the address,
/// otherwise the text of its error.
pub uninterp spec fn email_parse_error(
    address: Seq<char>,
    minimum_sub_domains: usize,
    allow_domain_literal: bool,
    allow_display_text: bool,
) -> Option<Seq<char>>;

/// Calls `email_address::EmailAddress::parse_with_options` with options made
/// of the three flags. Stated: the outcome is the named result of the
/// address and options, and an accepted address is kept as given (the
/// crate stores the text it was handed).
#[verifier::external_body]
fn parse_with_options(
    address: &str,
    minimum_sub_domains: usize,
    allow_domain_literal: bool,
    allow_display_text: bool,
) -> (result: Result<String, String>)
    ensures
        match result {
            Ok(text) => {
                &&& text@ == address@
                &&& email_parse_error(address@, minimum_sub_domains, allow_domain_literal, allow_display_text) is None
            },
            Err(message) => email_parse_error(address@, minimum_sub_domains, allow_domain_literal, allow_display_text)
                == Some(message@),
        },
{
    let options = Options { minimum_sub_domains, allow_domain_literal, allow_display_text };
    match EmailAddress::parse_with_options(address, options) {
        Ok(parsed) => Ok(parsed.as_str().to_string()),
        Err(error) => Err(error.to_string()),
    }
}

/// A valid email address, which may or may not be verified or in use.
pub struct Email(String);

impl View for Email {
    type V = Seq<char>;

    closed spec fn view(&self) -> Seq<char> {
        self.0@
    }
}

/// The rules an account's email address is checked against: at least two
/// sub-domains (`example.com`, not `example`), a domain literal is allowed,
/// display text (`Name <name@example.com>`) is not.
pub open spec fn account_email_error(address: Seq<char>) -> Option<Seq<char>> {
    email_parse_error(address, 2, true, false)
}

impl Email {
    /// Checks `address` against the account rules; an accepted address is
    /// kept as given, a refused one gives the checker's message.
    pub fn parse(address: &str) -> (result: Result<Email, String>)
        ensures
            match result {
                Ok(email) => email@ == address@ && account_email_error(address@) is None,
                Err(message) => account_email_error(address@) == Some(message@),
            },
    {
        match parse_with_options(address, 2, true, false) {
            Ok(text) => Ok(Email(text)),
            Err(message) => Err(message),
        }
    }

    /// An address read back from storage, where only checked addresses are
    /// written; it is not checked again.
    pub fn new_unchecked(address: String) -> (email: Email)
        ensures
            email@ == address@,
    {
        Email(address)
    }

    /// The address's text.
    pub fn as_str(&self) -> (text: &str)
        ensures
            text@ == self@,
    {
        self.0.as_str()
    }
}

} // verus!
