//! The handshake that opens a connection to a sector server. The gateway
//! gives the client and the sector server the same key; the client sends the
//! protocol version (four zero bytes) sealed with that key, behind a two-byte
//! little-endian length, and the server looks for the key that opens it.

use chacha20poly1305::aead::{Aead, AeadInPlace, KeyInit, Payload};
use chacha20poly1305::ChaCha20Poly1305;
use vstd::prelude::*;

verus! {

/// What ChaCha20-Poly1305 sealing of `plaintext` under `key`, `nonce` and
/// associated data `aad` gives: the ciphertext followed by the tag.
pub uninterp spec fn chacha_seal(key: Seq<u8>, nonce: Seq<u8>, aad: Seq<u8>, plaintext: Seq<u8>) -> Seq<u8>;

/// What ChaCha20-Poly1305 opening of `ciphertext` under `key`, `nonce` and
/// associated data `aad` gives: the plaintext, or `None` when it does not
/// authenticate.
pub uninterp spec fn chacha_open(key: Seq<u8>, nonce: Seq<u8>, aad: Seq<u8>, ciphertext: Seq<u8>) -> Option<Seq<u8>>;

/// Longest plaintext that `chacha20poly1305` seals without panicking: the
/// cipher starts its keystream at block 1, so `u32::MAX - 1` blocks of 64
/// bytes are left for the message.
pub open spec fn seal_limit() -> int {
    64int * 4294967294int
}

/// Longest ciphertext that `chacha20poly1305` opens without panicking: the
/// longest plaintext and its 16-byte tag.
pub open spec fn open_limit() -> int {
    seal_limit() + 16
}

/// Seals `plaintext` with `AeadInPlace::encrypt_in_place` of
/// `ChaCha20Poly1305::new(key)`. Stated: the result is the named sealing,
/// sixteen bytes longer than the plaintext (the appended tag), and opening
/// it under the same key, nonce and associated data gives the plaintext back.
/// A plaintext longer than `seal_limit()` bytes makes the call fail or panic
/// (the keystream runs out); `requires` leaves it out.
#[verifier::external_body]
fn seal(key: &[u8; 32], nonce: &[u8; 12], aad: &[u8], plaintext: &[u8]) -> (sealed: Vec<u8>)
    requires
        plaintext@.len() <= seal_limit(),
    ensures
        sealed@ == chacha_seal(key@, nonce@, aad@, plaintext@),
        sealed@.len() == plaintext@.len() + 16,
        chacha_open(key@, nonce@, aad@, sealed@) == Some(plaintext@),
{
    let cipher = ChaCha20Poly1305::new(key.into());
    let mut buffer = plaintext.to_vec();
    cipher.encrypt_in_place(nonce.into(), aad, &mut buffer).unwrap();
    buffer
}

/// Opens `ciphertext` with `Aead::decrypt` of `ChaCha20Poly1305::new(key)`.
/// Stated: the result is the named opening. A ciphertext longer than
/// `open_limit()` bytes can make the call panic once its tag checks (the
/// keystream runs out); `requires` leaves it out.
#[verifier::external_body]
fn open(key: &[u8; 32], nonce: &[u8; 12], aad: &[u8], ciphertext: &[u8]) -> (opened: Option<Vec<u8>>)
    requires
        ciphertext@.len() <= open_limit(),
    ensures
        match opened {
            Some(plaintext) => chacha_open(key@, nonce@, aad@, ciphertext@) == Some(plaintext@),
            None => chacha_open(key@, nonce@, aad@, ciphertext@) is None,
        },
{
    let cipher = ChaCha20Poly1305::new(key.into());
    cipher.decrypt(nonce.into(), Payload { msg: ciphertext, aad }).ok()
}

/// The nonce of the handshake: twelve zero bytes.
pub open spec fn handshake_nonce() -> Seq<u8> {
    Seq::new(12, |i: int| 0u8)
}

/// The protocol version the client announces: four zero bytes.
pub open spec fn protocol_version() -> Seq<u8> {
    Seq::new(4, |i: int| 0u8)
}

/// The sealed version message of the handshake under `key`.
pub open spec fn sealed_version(key: Seq<u8>) -> Seq<u8> {
    chacha_seal(key, handshake_nonce(), Seq::empty(), protocol_version())
}

/// The two little-endian bytes of a length below 65536.
pub open spec fn length_prefix(length: nat) -> Seq<u8> {
    seq![(length % 256) as u8, (length / 256) as u8]
}

/// The bytes a client sends to open a connection with `key`: the length of
/// the sealed version, then the sealed version.
pub open spec fn handshake_bytes(key: Seq<u8>) -> Seq<u8> {
    length_prefix(sealed_version(key).len()) + sealed_version(key)
}

/// The bytes a client sends to open a connection with `key`.
pub fn handshake_message(key: &[u8; 32]) -> (message: Vec<u8>)
    ensures
        message@ == handshake_bytes(key@),
        message@.len() == 22,
        prefix_value(message@[0], message@[1]) == 20,
        opens_to_version(key@, message@.subrange(2, 22)),
        message@.subrange(2, 22) == chacha_seal(key@, Seq::new(12, |i: int| 0u8), Seq::empty(), seq![0u8, 0u8, 0u8, 0u8]),
{
    let nonce = [0u8; 12];
    let version = [0u8; 4];
    let aad: [u8; 0] = [];
    assert(nonce@ == handshake_nonce());
    assert(version@ == protocol_version());
    assert(aad@ == Seq::<u8>::empty());
    let sealed = seal(key, &nonce, aad.as_slice(), version.as_slice());
    let length = sealed.len();
    let mut message: Vec<u8> = Vec::new();
    message.push((length % 256) as u8);
    message.push((length / 256) as u8);
    let mut i: usize = 0;
    while i < sealed.len()
        invariant
            i <= sealed@.len(),
            sealed@.len() == 20,
            message@ == length_prefix(20) + sealed@.take(i as int),
        decreases sealed.len() - i,
    {
        message.push(sealed[i]);
        assert(sealed@.take(i + 1) == sealed@.take(i as int).push(sealed@[i as int]));
        i = i + 1;
    }
    assert(sealed@.take(20) == sealed@);
    assert(message@.subrange(2, 22) == sealed@);
    assert(version@ =~= seq![0u8, 0u8, 0u8, 0u8]);
    message
}

/// The value of a two-byte little-endian length prefix.
pub open spec fn prefix_value(low: u8, high: u8) -> int {
    low as int + 256 * high as int
}

/// The length a two-byte little-endian length prefix stands for.
pub fn prefix_length(prefix: [u8; 2]) -> (length: usize)
    ensures
        length == prefix_value(prefix[0], prefix[1]),
{
    prefix[0] as usize + 256 * (prefix[1] as usize)
}

/// Whether `key` opens `payload` to the protocol version.
pub open spec fn opens_to_version(key: Seq<u8>, payload: Seq<u8>) -> bool {
    chacha_open(key, handshake_nonce(), Seq::empty(), payload) == Some(protocol_version())
}

/// The first of the expected keys, in the order given, that opens the
/// handshake `payload` (the bytes after the length prefix) to the protocol
/// version; its index, or `None` when no key does. The payload is at most
/// `open_limit()` bytes long (a handshake's length prefix allows at most
/// 65535).
pub fn find_handshake_key(keys: &Vec<[u8; 32]>, payload: &[u8]) -> (found: Option<usize>)
    requires
        payload@.len() <= open_limit(),
    ensures
        match found {
            Some(i) => {
                &&& i < keys@.len()
                &&& opens_to_version(keys@[i as int]@, payload@)
                &&& forall|j: int| 0 <= j < i ==> !opens_to_version(#[trigger] keys@[j]@, payload@)
            },
            None => forall|j: int| 0 <= j < keys@.len() ==> !opens_to_version(#[trigger] keys@[j]@, payload@),
        },
{
    let nonce = [0u8; 12];
    let aad: [u8; 0] = [];
    assert(nonce@ == handshake_nonce());
    assert(aad@ == Seq::<u8>::empty());
    let mut i: usize = 0;
    while i < keys.len()
        invariant
            i <= keys@.len(),
            payload@.len() <= open_limit(),
            nonce@ == handshake_nonce(),
            aad@ == Seq::<u8>::empty(),
            forall|j: int| 0 <= j < i ==> !opens_to_version(#[trigger] keys@[j]@, payload@),
        decreases keys.len() - i,
    {
        match open(&keys[i], &nonce, aad.as_slice(), payload) {
            Some(version) => {
                if version.len() == 4 && version[0] == 0 && version[1] == 0 && version[2] == 0 && version[3] == 0 {
                    assert(version@ == protocol_version());
                    return Some(i);
                }
                assert(version@ != protocol_version()) by {
                    if version@.len() == 4 {
                        assert(protocol_version()[0] == 0u8);
                    }
                }
            },
            None => {},
        }
        i = i + 1;
    }
    None
}

/// The protocol version is the four zero bytes under a nonce of twelve zero
/// bytes and no associated data: a key opens a handshake payload to the
/// version exactly when ChaCha20-Poly1305 opening under that nonce gives
/// `[0, 0, 0, 0]`, and the handshake a client sends with a key is its
/// length, 20, in two little-endian bytes, then the sealing of `[0, 0, 0, 0]`
/// under that key and nonce.
pub proof fn lemma_handshake_version(key: Seq<u8>, payload: Seq<u8>)
    ensures
        opens_to_version(key, payload) <==> chacha_open(key, Seq::new(12, |i: int| 0u8), Seq::empty(), payload)
            == Some(seq![0u8, 0u8, 0u8, 0u8]),
        sealed_version(key) == chacha_seal(key, Seq::new(12, |i: int| 0u8), Seq::empty(), seq![0u8, 0u8, 0u8, 0u8]),
        sealed_version(key).len() == 20 ==> handshake_bytes(key) == seq![20u8, 0u8] + chacha_seal(
            key,
            Seq::new(12, |i: int| 0u8),
            Seq::empty(),
            seq![0u8, 0u8, 0u8, 0u8],
        ),
{
    assert(protocol_version() =~= seq![0u8, 0u8, 0u8, 0u8]);
    assert(handshake_nonce() =~= Seq::new(12, |i: int| 0u8));
    assert(length_prefix(20) =~= seq![20u8, 0u8]);
}

} // verus!
