//! Validation of account usernames and of the names players connect with.

use crate::hex::chars_of;
use std::sync::Arc;
use vstd::prelude::*;

verus! {

/// A character allowed in a username: `0-9`, `A-Z`, `a-z` or `_`.
pub open spec fn is_username_char(c: char) -> bool {
    ('0' <= c && c <= '9') || ('A' <= c && c <= 'Z') || ('a' <= c && c <= 'z') || c == '_'
}

/// A character allowed in a player's connection name: a username character,
/// `-` or `.`.
pub open spec fn is_player_name_char(c: char) -> bool {
    is_username_char(c) || c == '-' || c == '.'
}

/// A character allowed in a player's name (`player_name`) or in a username.
pub open spec fn allowed_char(c: char, player_name: bool) -> bool {
    if player_name { is_player_name_char(c) } else { is_username_char(c) }
}

/// Every character of `s` is allowed in a player's name (`player_name`) or
/// in a username.
pub open spec fn all_allowed(s: Seq<char>, player_name: bool) -> bool {
    forall|i: int| 0 <= i < s.len() ==> allowed_char(#[trigger] s[i], player_name)
}

/// Why a username was refused.
#[derive(Debug, Clone, Copy, PartialEq, Eq)]
pub enum UsernameError {
    /// The name is empty or longer than 32 bytes; the length in bytes.
    InvalidLength(usize),
    /// The first character that is not allowed.
    InvalidCharacter(char),
}

/// A valid username, which may or may not be registered: 1 to 32 bytes, made
/// of `0-9`, `A-Z`, `a-z` and `_`.
pub struct Username(String);

impl View for Username {
    type V = Seq<char>;

    closed spec fn view(&self) -> Seq<char> {
        self.0@
    }
}

/// Index of the first character of `s` that `allowed` refuses, if any.
fn first_refused(chars: &Vec<char>, player_name: bool) -> (found: Option<usize>)
    ensures
        match found {
            Some(i) => {
                &&& i < chars@.len()
                &&& !allowed_char(chars@[i as int], player_name)
                &&& forall|j: int| 0 <= j < i ==> allowed_char(#[trigger] chars@[j], player_name)
            },
            None => forall|j: int| 0 <= j < chars@.len() ==> allowed_char(#[trigger] chars@[j], player_name),
        },
{
    let mut i: usize = 0;
    while i < chars.len()
        invariant
            i <= chars@.len(),
            forall|j: int| 0 <= j < i ==> allowed_char(#[trigger] chars@[j], player_name),
        decreases chars.len() - i,
    {
        let c = chars[i];
        let allowed = match c {
            '0'..='9' | 'A'..='Z' | 'a'..='z' | '_' => true,
            '-' | '.' => player_name,
            _ => false,
        };
        if !allowed {
            return Some(i);
        }
        i = i + 1;
    }
    None
}

impl Username {
    /// Checks `username`: its length in bytes first, then its characters in
    /// order.
    pub fn parse(username: &str) -> (result: Result<Username, UsernameError>)
        ensures
            match result {
                Ok(name) => {
                    &&& name@ == username@
                    &&& 1 <= username.len() <= 32
                    &&& all_allowed(username@, false)
                },
                Err(UsernameError::InvalidLength(length)) => {
                    &&& length == username.len()
                    &&& (username.len() == 0 || username.len() > 32)
                },
                Err(UsernameError::InvalidCharacter(c)) => {
                    &&& 1 <= username.len() <= 32
                    &&& exists|i: int| {
                        &&& 0 <= i < username@.len()
                        &&& username@[i] == c
                        &&& !is_username_char(c)
                        &&& forall|j: int| 0 <= j < i ==> is_username_char(#[trigger] username@[j])
                    }
                },
            },
            result is Ok <==> (1 <= username.len() <= 32 && all_allowed(username@, false)),
    {
        let length = username.len();
        if length == 0 || length > 32 {
            return Err(UsernameError::InvalidLength(length));
        }
        let chars = chars_of(username);
        match first_refused(&chars, false) {
            Some(i) => {
                assert(chars@[i as int] == username@[i as int]);
                assert(!allowed_char(username@[i as int], false));
                Err(UsernameError::InvalidCharacter(chars[i]))
            },
            None => Ok(Username(String::from_str(username))),
        }
    }

    /// The username's text.
    pub fn as_str(&self) -> (text: &str)
        ensures
            text@ == self@,
    {
        self.0.as_str()
    }
}

/// Whether `name` may be used to connect: 3 to 32 bytes, made of `-`, `.`,
/// `0-9`, `A-Z`, `_` and `a-z`.
pub fn is_valid_player_name(name: &str) -> (valid: bool)
    ensures
        valid == (3 <= name.len() <= 32 && all_allowed(name@, true)),
{
    let length = name.len();
    if length < 3 || length > 32 {
        return false;
    }
    let chars = chars_of(name);
    match first_refused(&chars, true) {
        Some(i) => {
            assert(!allowed_char(name@[i as int], true));
            false
        },
        None => true,
    }
}

/// The query of a request to join a sector: the name the player connects
/// with.
pub struct NameQuery {
    pub name: Box<str>,
}

impl NameQuery {
    /// The answer to a request whose name may not be used: status 400 with
    /// the rule the name breaks; `None` when the name may be used.
    pub fn rejection(&self) -> (answer: Option<(u16, &'static str)>)
        ensures
            answer is None <==> (3 <= self.name.len() <= 32 && all_allowed(self.name@, true)),
            answer matches Some(refusal) ==> refusal == (400u16, "Name must match `[-.\\w]{3,32}`"),
    {
        if is_valid_player_name(&self.name) {
            None
        } else {
            Some((400, "Name must match `[-.\\w]{3,32}`"))
        }
    }

    /// The answer to the request, given whether the sector it names exists:
    /// the name is checked first (400 with the rule it breaks), then an
    /// unknown sector is 404 with an empty body; `None` when the connection
    /// is accepted.
    pub fn refusal(&self, sector_exists: bool) -> (answer: Option<(u16, &'static str)>)
        ensures
            !(3 <= self.name.len() <= 32 && all_allowed(self.name@, true))
                ==> answer == Some((400u16, "Name must match `[-.\\w]{3,32}`")),
            (3 <= self.name.len() <= 32 && all_allowed(self.name@, true)) && !sector_exists
                ==> answer == Some((404u16, "")),
            (3 <= self.name.len() <= 32 && all_allowed(self.name@, true)) && sector_exists
                ==> answer is None,
    {
        match self.rejection() {
            Some(refusal) => Some(refusal),
            None => if sector_exists { None } else { Some((404, "")) },
        }
    }
}

/// The query of a request to open a game connection: the player's
/// username.
pub struct UsernameQuery {
    pub username: Arc<str>,
}

impl UsernameQuery {
    /// The answer to a request whose username may not be used: status 400
    /// with the rule the name breaks; `None` when the name may be used.
    pub fn rejection(&self) -> (answer: Option<(u16, &'static str)>)
        ensures
            answer is None <==> (3 <= self.username.len() <= 32 && all_allowed(self.username@, true)),
            answer matches Some(refusal) ==> refusal == (400u16, "Username must match `[-.\\w]{3,32}`"),
    {
        if is_valid_player_name(&self.username) {
            None
        } else {
            Some((400, "Username must match `[-.\\w]{3,32}`"))
        }
    }

    /// The answer to the request, given whether the sector it names exists:
    /// the name is checked first (400 with the rule it breaks), then an
    /// unknown sector is 404 with an empty body; `None` when the connection
    /// is accepted.
    pub fn refusal(&self, sector_exists: bool) -> (answer: Option<(u16, &'static str)>)
        ensures
            !(3 <= self.username.len() <= 32 && all_allowed(self.username@, true))
                ==> answer == Some((400u16, "Username must match `[-.\\w]{3,32}`")),
            (3 <= self.username.len() <= 32 && all_allowed(self.username@, true)) && !sector_exists
                ==> answer == Some((404u16, "")),
            (3 <= self.username.len() <= 32 && all_allowed(self.username@, true)) && sector_exists
                ==> answer is None,
    {
        match self.rejection() {
            Some(refusal) => Some(refusal),
            None => if sector_exists { None } else { Some((404, "")) },
        }
    }
}

/// A username may use exactly the ASCII digits (code points 48–57), the
/// ASCII capital letters (65–90), the ASCII small letters (97–122) and the
/// underscore (95); every other character, `.` and `-` among them, is
/// refused.
pub proof fn lemma_username_alphabet(c: char)
    ensures
        is_username_char(c) <==> {
            ||| 48 <= c as u32 <= 57
            ||| 65 <= c as u32 <= 90
            ||| 97 <= c as u32 <= 122
            ||| c as u32 == 95
        },
{
}

/// The characters of a player's name are those of a username and, besides,
/// exactly `-` and `.`.
pub proof fn lemma_player_name_alphabet(c: char)
    ensures
        is_username_char(c) <==> (is_player_name_char(c) && c != '-' && c != '.'),
        is_player_name_char(c) <==> (is_username_char(c) || c as u32 == 45 || c as u32 == 46),
{
}

/// A text is accepted as a username exactly when it has 1 to 32 bytes and
/// every character is an ASCII digit, an ASCII letter or `_`.
pub proof fn lemma_username_accepted(text: Seq<char>, bytes: int)
    ensures
        (1 <= bytes <= 32 && all_allowed(text, false)) <==> (1 <= bytes <= 32 && forall|i: int| 0 <= i < text.len() ==> {
            ||| 48 <= #[trigger] text[i] as u32 <= 57
            ||| 65 <= text[i] as u32 <= 90
            ||| 97 <= text[i] as u32 <= 122
            ||| text[i] as u32 == 95
        }),
{
    assert forall|i: int| 0 <= i < text.len() implies (allowed_char(#[trigger] text[i], false) <==> {
        ||| 48 <= text[i] as u32 <= 57
        ||| 65 <= text[i] as u32 <= 90
        ||| 97 <= text[i] as u32 <= 122
        ||| text[i] as u32 == 95
    }) by {
        lemma_username_alphabet(text[i]);
    }
}

} // verus!
