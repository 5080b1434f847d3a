use solarscape::names::{is_valid_player_name, NameQuery, Username, UsernameError, UsernameQuery};
use std::sync::Arc;

#[test]
fn username_accepts_letters_digits_and_underscore() {
    let name = Username::parse("Player_01").ok().unwrap();
    assert_eq!(name.as_str(), "Player_01");
}

#[test]
fn username_length_limits() {
    assert_eq!(Username::parse("").err(), Some(UsernameError::InvalidLength(0)));
    assert!(Username::parse("a").is_ok());
    assert!(Username::parse(&"a".repeat(32)).is_ok());
    assert_eq!(Username::parse(&"a".repeat(33)).err(), Some(UsernameError::InvalidLength(33)));
}

#[test]
fn username_reports_first_refused_character() {
    assert_eq!(Username::parse("bad name!").err(), Some(UsernameError::InvalidCharacter(' ')));
    assert_eq!(Username::parse("h\u{e9}llo").err(), Some(UsernameError::InvalidCharacter('\u{e9}')));
    assert_eq!(Username::parse("a-b").err(), Some(UsernameError::InvalidCharacter('-')));
}

#[test]
fn username_length_is_counted_in_bytes() {
    let name = "\u{e9}".repeat(17);
    assert_eq!(Username::parse(&name).err(), Some(UsernameError::InvalidLength(34)));
}

#[test]
fn player_name_rules() {
    assert!(!is_valid_player_name("ab"));
    assert!(is_valid_player_name("abc"));
    assert!(is_valid_player_name("a-b.c_D9"));
    assert!(!is_valid_player_name("abc!"));
    assert!(is_valid_player_name(&"x".repeat(32)));
    assert!(!is_valid_player_name(&"x".repeat(33)));
    assert!(!is_valid_player_name("\u{e9}\u{e9}"));
}

#[test]
fn join_requests_with_bad_names_are_refused() {
    let ok = NameQuery { name: Box::from("player.one-2") };
    assert_eq!(ok.rejection(), None);
    let short = NameQuery { name: Box::from("ab") };
    assert_eq!(short.rejection(), Some((400, "Name must match `[-.\\w]{3,32}`")));
    let spaced = NameQuery { name: Box::from("a b c") };
    assert_eq!(spaced.rejection(), Some((400, "Name must match `[-.\\w]{3,32}`")));
}

#[test]
fn connections_with_bad_usernames_are_refused() {
    let ok = UsernameQuery { username: Arc::from("Astral_chroma") };
    assert_eq!(ok.rejection(), None);
    let long = UsernameQuery { username: Arc::from("x".repeat(33).as_str()) };
    assert_eq!(long.rejection(), Some((400, "Username must match `[-.\\w]{3,32}`")));
    let exact = UsernameQuery { username: Arc::from("y".repeat(32).as_str()) };
    assert_eq!(exact.rejection(), None);
}

#[test]
fn join_requests_check_the_name_before_the_sector() {
    let bad = NameQuery { name: Box::from("x") };
    assert_eq!(bad.refusal(false), Some((400, "Name must match `[-.\\w]{3,32}`")));
    let good = NameQuery { name: Box::from("player") };
    assert_eq!(good.refusal(false), Some((404, "")));
    assert_eq!(good.refusal(true), None);
    let bad_user = UsernameQuery { username: Arc::from("no spaces") };
    assert_eq!(bad_user.refusal(false), Some((400, "Username must match `[-.\\w]{3,32}`")));
    let user = UsernameQuery { username: Arc::from("someone") };
    assert_eq!(user.refusal(false), Some((404, "")));
    assert_eq!(user.refusal(true), None);
}
