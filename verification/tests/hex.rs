use solarscape::hex::{to_bytes, to_string};

#[test]
fn to_string_encodes_two_lowercase_digits_per_byte() {
    assert_eq!(to_string(&[0x00, 0x0f, 0xa5, 0xff]), "000fa5ff");
}

#[test]
fn to_string_of_nothing_is_empty() {
    assert_eq!(to_string(&[]), "");
}

#[test]
fn to_bytes_decodes_pairs() {
    assert_eq!(to_bytes("000fa5ff"), vec![0x00, 0x0f, 0xa5, 0xff]);
}

#[test]
fn to_bytes_ignores_trailing_unpaired_character() {
    assert_eq!(to_bytes("abc"), vec![0xab]);
}

#[test]
fn to_bytes_skips_pairs_that_are_not_two_digits() {
    assert_eq!(to_bytes("zz01"), vec![0x01]);
    assert_eq!(to_bytes("0g12"), vec![0x12]);
    assert_eq!(to_bytes("g012"), vec![0x12]);
}

#[test]
fn to_bytes_accepts_only_lowercase() {
    assert_eq!(to_bytes("AB"), Vec::<u8>::new());
    assert_eq!(to_bytes("Ab"), Vec::<u8>::new());
}

#[test]
fn to_bytes_pairs_characters_not_bytes() {
    assert_eq!(to_bytes("\u{e9}1ab"), vec![0xab]);
}

#[test]
fn hex_round_trip_of_every_byte() {
    let bytes: Vec<u8> = (0..=255u8).collect();
    let text = to_string(&bytes);
    assert_eq!(text.len(), 512);
    assert_eq!(to_bytes(&text), bytes);
}

#[test]
fn encoding_keeps_byte_order() {
    let samples: Vec<Vec<u8>> = vec![vec![], vec![0], vec![0, 0], vec![9], vec![10], vec![0x0f, 0xff], vec![0x10], vec![0xff], vec![0xff, 0]];
    for a in &samples {
        for b in &samples {
            assert_eq!(to_string(a).cmp(&to_string(b)), a.cmp(b));
        }
    }
}
