use solarscape::token::{new_unused_token, Token};

#[test]
fn token_from_full_hex() {
    let token = Token::from("00112233445566778899aabbccddeeff");
    assert_eq!(
        token.bytes(),
        [0x00, 0x11, 0x22, 0x33, 0x44, 0x55, 0x66, 0x77, 0x88, 0x99, 0xaa, 0xbb, 0xcc, 0xdd, 0xee, 0xff]
    );
}

#[test]
fn token_from_empty_text_is_zero() {
    assert_eq!(Token::from("").bytes(), [0; 16]);
}

#[test]
fn token_from_short_text_is_padded_with_zeros() {
    let mut expected = [0u8; 16];
    expected[0] = 0xff;
    assert_eq!(Token::from("ff").bytes(), expected);
}

#[test]
fn token_from_long_text_keeps_sixteen_bytes() {
    let text = "000102030405060708090a0b0c0d0e0f10";
    let expected: [u8; 16] = [0, 1, 2, 3, 4, 5, 6, 7, 8, 9, 10, 11, 12, 13, 14, 15];
    assert_eq!(Token::from(text).bytes(), expected);
}

#[test]
fn token_encode_is_lowercase_hex() {
    let token = Token::from("0123456789abcdef0123456789abcdef");
    assert_eq!(token.encode(), "0123456789abcdef0123456789abcdef");
}

#[test]
fn new_token_round_trips_through_its_text() {
    let token = Token::new();
    let text = token.encode();
    assert_eq!(text.len(), 32);
    assert!(text.chars().all(|c| c.is_ascii_digit() || ('a'..='f').contains(&c)));
    assert_eq!(Token::from(text.as_str()).bytes(), token.bytes());
}

#[test]
fn new_tokens_differ() {
    assert_ne!(Token::new().bytes(), Token::new().bytes());
}

#[test]
fn new_unused_token_avoids_used_tokens() {
    let first = new_unused_token(&vec![]);
    let used = vec![first.bytes(), [0u8; 16], [0xffu8; 16]];
    for _ in 0..32 {
        let token = new_unused_token(&used);
        assert!(!used.contains(&token.bytes()));
    }
}
