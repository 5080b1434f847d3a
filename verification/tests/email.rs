use solarscape::email::Email;

#[test]
fn email_with_domain_is_accepted_unchanged() {
    let email = Email::parse("name@example.com").ok().unwrap();
    assert_eq!(email.as_str(), "name@example.com");
}

#[test]
fn email_needs_two_sub_domains() {
    assert!(Email::parse("name@localhost").is_err());
}

#[test]
fn email_refuses_display_text() {
    assert!(Email::parse("Name <name@example.com>").is_err());
}

#[test]
fn email_refuses_missing_separator() {
    let message = Email::parse("name.example.com").err().unwrap();
    assert!(!message.is_empty());
}

#[test]
fn unchecked_email_is_kept() {
    assert_eq!(Email::new_unchecked(String::from("a@b.c")).as_str(), "a@b.c");
}
