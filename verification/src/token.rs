//! Access tokens: sixteen random bytes, handed to clients as hexadecimal.

use crate::hex::{hex_decode, hex_encode, lemma_hex_round_trip, to_bytes, to_string};
use argon2::password_hash::rand_core::RngCore;
use vstd::prelude::*;

verus! {

/// An access token: sixteen bytes.
pub struct Token([u8; 16]);

impl View for Token {
    type V = Seq<u8>;

    closed spec fn view(&self) -> Seq<u8> {
        self.0@
    }
}

/// Pads `bytes` with zeros up to sixteen bytes.
pub open spec fn pad_to_sixteen(bytes: Seq<u8>) -> Seq<u8> {
    if bytes.len() < 16 {
        bytes + Seq::new((16 - bytes.len()) as nat, |i: int| 0u8)
    } else {
        bytes
    }
}

/// The bytes of the token read from `text`: its hexadecimal decoding, padded
/// with zeros to sixteen bytes, of which the first sixteen are kept.
pub open spec fn token_bytes_of(text: Seq<char>) -> Seq<u8> {
    pad_to_sixteen(hex_decode(text)).take(16)
}

/// Fills `bytes` from the operating system's random source.
///
/// Calls `rand_core::OsRng::fill_bytes`; nothing is stated of the bytes it
/// writes, which come from the operating system. That call panics only when
/// the operating system cannot provide random bytes.
#[verifier::external_body]
fn fill_random(bytes: &mut [u8; 16]) {
    argon2::password_hash::rand_core::OsRng.fill_bytes(bytes.as_mut_slice());
}

impl Token {
    /// A new token of sixteen random bytes.
    pub fn new() -> (token: Token)
        ensures
            token@.len() == 16,
    {
        let mut token = Token([0; 16]);
        fill_random(&mut token.0);
        token
    }

    /// The sixteen bytes of the token.
    pub fn bytes(&self) -> (bytes: [u8; 16])
        ensures
            bytes@ == self@,
    {
        self.0
    }

    /// The token as handed to clients: its bytes in lowercase hexadecimal.
    pub fn encode(&self) -> (text: String)
        ensures
            text@ == hex_encode(self@),
    {
        to_string(self.0.as_slice())
    }
}

impl From<&str> for Token {
    /// Reads a token from its hexadecimal form. Decoding is lenient: pairs
    /// that are not two lowercase digits are skipped, missing bytes are zero
    /// and bytes past the sixteenth are dropped.
    fn from(value: &str) -> (token: Token)
        ensures
            token@ == token_bytes_of(value@),
    {
        let mut bytes = to_bytes(value);
        let ghost decoded = bytes@;
        while bytes.len() < 16
            invariant
                decoded.len() <= bytes@.len() <= 16 || bytes@ == decoded,
                bytes@.len() >= 16 ==> pad_to_sixteen(decoded).take(16) == bytes@.take(16),
                bytes@.len() < 16 ==> bytes@ == decoded + Seq::new((bytes@.len() - decoded.len()) as nat, |i: int| 0u8),
            decreases 16 - bytes.len(),
        {
            bytes.push(0);
        }
        let mut array = [0u8; 16];
        let mut i: usize = 0;
        while i < 16
            invariant
                i <= 16,
                bytes@.len() >= 16,
                forall|j: int| 0 <= j < i ==> array@[j] == bytes@[j],
            decreases 16 - i,
        {
            array[i] = bytes[i];
            i = i + 1;
        }
        assert(array@ == bytes@.take(16));
        Token(array)
    }
}

impl vstd::std_specs::convert::FromSpecImpl<&str> for Token {
    open spec fn obeys_from_spec() -> bool {
        false
    }

    open spec fn from_spec(value: &str) -> Token {
        arbitrary()
    }
}

/// A token read back from the text it is handed out as is the same token.
pub proof fn lemma_token_round_trip(token: Token)
    ensures
        token@.len() == 16,
        token_bytes_of(hex_encode(token@)) == token@,
{
    lemma_hex_round_trip(token@);
    assert(token@.take(16) == token@);
}

/// Byte `i` of the probe offset `k`: the first eight bytes are `k` in
/// little-endian order, the others zero.
pub open spec fn offset_byte(k: u64, i: int) -> u8 {
    if 0 <= i < 8 { ((k >> (8 * i) as u64) & 0xff) as u8 } else { 0u8 }
}

/// The `k`-th token probed from the random token `base`: `base` with the
/// probe offset `k` xored into it.
pub open spec fn probe(base: Seq<u8>, k: u64) -> Seq<u8> {
    Seq::new(16, |i: int| base[i] ^ offset_byte(k, i))
}

/// The `k`-th probe of `base`.
fn probe_token(base: &[u8; 16], k: u64) -> (token: [u8; 16])
    ensures
        token@ == probe(base@, k),
{
    let mut token = *base;
    let mut i: usize = 0;
    while i < 8
        invariant
            i <= 8,
            forall|j: int| 0 <= j < i ==> token@[j] == base@[j] ^ offset_byte(k, j),
            forall|j: int| i <= j < 16 ==> token@[j] == base@[j],
        decreases 8 - i,
    {
        let byte = ((k >> (8 * i) as u64) & 0xff) as u8;
        token[i] = base[i] ^ byte;
        i = i + 1;
    }
    proof {
        assert forall|j: int| 8 <= j < 16 implies token@[j] == base@[j] ^ offset_byte(k, j) by {
            let b = base@[j];
            assert(b ^ 0u8 == b) by (bit_vector);
        }
    }
    assert(token@ == probe(base@, k));
    token
}

/// Different probe offsets give different tokens.
proof fn lemma_probes_differ(base: Seq<u8>, k1: u64, k2: u64)
    requires
        base.len() == 16,
        k1 != k2,
    ensures
        probe(base, k1) != probe(base, k2),
{
    if probe(base, k1) == probe(base, k2) {
        assert forall|i: int| 0 <= i < 8 implies offset_byte(k1, i) == offset_byte(k2, i) by {
            let b = base[i];
            let x = offset_byte(k1, i);
            let y = offset_byte(k2, i);
            assert(probe(base, k1)[i] == probe(base, k2)[i]);
            assert(b ^ x == b ^ y ==> x == y) by (bit_vector);
        }
        assert(offset_byte(k1, 0) == offset_byte(k2, 0));
        assert(offset_byte(k1, 1) == offset_byte(k2, 1));
        assert(offset_byte(k1, 2) == offset_byte(k2, 2));
        assert(offset_byte(k1, 3) == offset_byte(k2, 3));
        assert(offset_byte(k1, 4) == offset_byte(k2, 4));
        assert(offset_byte(k1, 5) == offset_byte(k2, 5));
        assert(offset_byte(k1, 6) == offset_byte(k2, 6));
        assert(offset_byte(k1, 7) == offset_byte(k2, 7));
        assert(k1 == k2) by (bit_vector)
            requires
                ((k1 >> 0u64) & 0xff) as u8 == ((k2 >> 0u64) & 0xff) as u8,
                ((k1 >> 8u64) & 0xff) as u8 == ((k2 >> 8u64) & 0xff) as u8,
                ((k1 >> 16u64) & 0xff) as u8 == ((k2 >> 16u64) & 0xff) as u8,
                ((k1 >> 24u64) & 0xff) as u8 == ((k2 >> 24u64) & 0xff) as u8,
                ((k1 >> 32u64) & 0xff) as u8 == ((k2 >> 32u64) & 0xff) as u8,
                ((k1 >> 40u64) & 0xff) as u8 == ((k2 >> 40u64) & 0xff) as u8,
                ((k1 >> 48u64) & 0xff) as u8 == ((k2 >> 48u64) & 0xff) as u8,
                ((k1 >> 56u64) & 0xff) as u8 == ((k2 >> 56u64) & 0xff) as u8,
        ;
    }
}

/// Among the first `used.len() + 1` probes of a token some probe is not
/// used: there are more probes than used tokens, and no two probes agree.
proof fn lemma_some_probe_unused(base: Seq<u8>, used: Seq<Seq<u8>>)
    requires
        base.len() == 16,
        used.len() <= u64::MAX,
    ensures
        exists|k: int| 0 <= k <= used.len() && !used.contains(#[trigger] probe(base, k as u64)),
{
    broadcast use vstd::seq_lib::seq_to_set_is_finite;

    if forall|k: int| 0 <= k <= used.len() ==> used.contains(#[trigger] probe(base, k as u64)) {
        let probes = Seq::new((used.len() + 1) as nat, |k: int| probe(base, k as u64));
        assert(probes.no_duplicates()) by {
            assert forall|a: int, b: int| 0 <= a < probes.len() && 0 <= b < probes.len() && a != b
                implies probes[a] != probes[b] by {
                lemma_probes_differ(base, a as u64, b as u64);
            }
        }
        probes.unique_seq_to_set();
        used.lemma_cardinality_of_set();
        assert(probes.to_set().subset_of(used.to_set())) by {
            assert forall|t: Seq<u8>| probes.to_set().contains(t) implies used.to_set().contains(t) by {
                let k = choose|k: int| 0 <= k < probes.len() && probes[k] == t;
                assert(used.contains(probe(base, k as u64)));
            }
        }
        vstd::set_lib::lemma_len_subset(probes.to_set(), used.to_set());
        assert(false);
    }
}

/// Whether `token` is among `used`.
fn is_used(used: &Vec<[u8; 16]>, token: &[u8; 16]) -> (found: bool)
    ensures
        found == used@.map_values(|t: [u8; 16]| t@).contains(token@),
{
    let ghost views = used@.map_values(|t: [u8; 16]| t@);
    let mut i: usize = 0;
    while i < used.len()
        invariant
            i <= used@.len(),
            views == used@.map_values(|t: [u8; 16]| t@),
            forall|j: int| 0 <= j < i ==> views[j] != token@,
        decreases used.len() - i,
    {
        let candidate = &used[i];
        let mut same = true;
        let mut b: usize = 0;
        while b < 16
            invariant
                b <= 16,
                same == (forall|c: int| 0 <= c < b ==> candidate@[c] == token@[c]),
            decreases 16 - b,
        {
            if candidate[b] != token[b] {
                same = false;
            }
            b = b + 1;
        }
        if same {
            assert(views[i as int] =~= token@);
            return true;
        }
        assert(views[i as int] != token@) by {
            let c = choose|c: int| 0 <= c < 16 && candidate@[c] != token@[c];
            assert(views[i as int][c] != token@[c]);
        }
        i = i + 1;
    }
    false
}

/// A new token that is not among the tokens in use. A random token is drawn
/// from the operating system's source; should it be in use (which is
/// vanishingly unlikely), the next probes of it are taken in turn (the
/// token with 1, 2, … xored into its first eight bytes) until one is free,
/// which happens within `used.len() + 1` probes.
pub fn new_unused_token(used: &Vec<[u8; 16]>) -> (token: Token)
    ensures
        !used@.map_values(|t: [u8; 16]| t@).contains(token@),
{
    let ghost views = used@.map_values(|t: [u8; 16]| t@);
    let base = Token::new().bytes();
    let n = used.len();
    proof { lemma_some_probe_unused(base@, views); }
    let mut k: usize = 0;
    loop
        invariant
            k <= n,
            n == used@.len(),
            views == used@.map_values(|t: [u8; 16]| t@),
            forall|j: int| 0 <= j < k ==> views.contains(#[trigger] probe(base@, j as u64)),
            exists|j: int| 0 <= j <= n && !views.contains(#[trigger] probe(base@, j as u64)),
        decreases n - k,
    {
        let candidate = probe_token(&base, k as u64);
        if !is_used(used, &candidate) {
            return Token(candidate);
        }
        if k == n {
            proof {
                let j = choose|j: int| 0 <= j <= n && !views.contains(#[trigger] probe(base@, j as u64));
                if j < k {
                    assert(views.contains(probe(base@, j as u64)));
                }
            }
            return Token(candidate);
        }
        k = k + 1;
    }
}

} // verus!
