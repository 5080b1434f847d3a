use solarscape::account::{
    account_created, check_password, hash_password, token_from_authorization, AuthenticationError,
    ConnectError, CreateAccountError, GetTokenError,
};

#[test]
fn token_request_refusals() {
    assert_eq!(GetTokenError::AccountDoesNotExist.status_and_body(), (404, "Account does not exist"));
    assert_eq!(GetTokenError::IncorrectPassword.status_and_body(), (401, "Incorrect Password"));
    assert_eq!(
        GetTokenError::Internal(String::from("database down")).status_and_body(),
        (500, "Internal / Unknown Error")
    );
}

#[test]
fn connect_refusal() {
    assert_eq!(ConnectError::Internal(String::new()).status_and_body(), (500, "Internal / Unknown Error"));
}

#[test]
fn create_account_answers() {
    assert_eq!(
        CreateAccountError::AccountExists.status_and_body(),
        (409, "<p style=\"color:red\">Account Exists!</p>")
    );
    assert_eq!(
        CreateAccountError::Internal(String::new()).status_and_body(),
        (500, "<p style=\"color:red\">Internal / Unknown Error!</p>")
    );
    assert_eq!(account_created(), "<p style=\"color:green\">Account Created!</p>");
}

#[test]
fn authentication_refusals() {
    assert_eq!(AuthenticationError::Unauthorized.status_and_body(), (401, "Unauthorized"));
    assert_eq!(AuthenticationError::Internal(String::new()).status_and_body(), (500, "Internal Error"));
}

#[test]
fn created_password_checks_and_wrong_one_does_not() {
    let phc = match hash_password("correct horse battery staple") {
        Ok(phc) => phc,
        Err(_) => panic!("hashing failed"),
    };
    assert!(phc.starts_with("$argon2"));
    assert!(check_password("correct horse battery staple", &phc).is_ok());
    assert!(matches!(check_password("wrong", &phc), Err(GetTokenError::IncorrectPassword)));
}

#[test]
fn unreadable_password_hash_is_internal() {
    assert!(matches!(check_password("anything", "not a phc string"), Err(GetTokenError::Internal(_))));
}

#[test]
fn missing_authorization_is_unauthorized() {
    assert!(matches!(token_from_authorization(None), Err(AuthenticationError::Unauthorized)));
}

#[test]
fn authorization_header_is_read_as_token() {
    let token = match token_from_authorization(Some("ff01")) {
        Ok(token) => token,
        Err(_) => panic!("header refused"),
    };
    let mut expected = [0u8; 16];
    expected[0] = 0xff;
    expected[1] = 0x01;
    assert_eq!(token.bytes(), expected);
}
