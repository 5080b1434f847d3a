use solarscape::handshake::{find_handshake_key, handshake_message, prefix_length};

#[test]
fn handshake_message_is_length_prefixed_sealed_version() {
    let key = [7u8; 32];
    let message = handshake_message(&key);
    assert_eq!(message.len(), 22);
    assert_eq!(prefix_length([message[0], message[1]]), 20);
    assert_eq!(message[0], 20);
    assert_eq!(message[1], 0);
}

#[test]
fn handshake_is_sealed_not_plain() {
    let message = handshake_message(&[7u8; 32]);
    assert_ne!(&message[2..6], &[0u8, 0, 0, 0]);
    assert_ne!(handshake_message(&[8u8; 32]), message);
}

#[test]
fn server_finds_the_clients_key() {
    let key = [7u8; 32];
    let other = [9u8; 32];
    let message = handshake_message(&key);
    let payload = &message[2..];
    assert_eq!(find_handshake_key(&vec![key], payload), Some(0));
    assert_eq!(find_handshake_key(&vec![other, key], payload), Some(1));
    assert_eq!(find_handshake_key(&vec![other], payload), None);
    assert_eq!(find_handshake_key(&vec![], payload), None);
}

#[test]
fn tampered_handshake_is_refused() {
    let key = [7u8; 32];
    let mut message = handshake_message(&key);
    message[3] ^= 1;
    assert_eq!(find_handshake_key(&vec![key], &message[2..]), None);
    assert_eq!(find_handshake_key(&vec![key], &message[2..10]), None);
}

#[test]
fn prefix_length_is_little_endian() {
    assert_eq!(prefix_length([0x34, 0x12]), 0x1234);
}
