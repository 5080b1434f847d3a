//! Lowercase hexadecimal encoding of byte strings, as used for access tokens.

use vstd::prelude::*;

verus! {

/// The sixteen lowercase hexadecimal digits, indexed by their value.
pub const LOOKUP: [char; 16] = ['0', '1', '2', '3', '4', '5', '6', '7', '8', '9', 'a', 'b', 'c', 'd', 'e', 'f'];

/// The digit that stands for the nibble `n`.
pub open spec fn hex_digit(n: int) -> char {
    if n < 10 { (n + 48) as char } else { (n + 87) as char }
}

/// The value of a lowercase hexadecimal digit, if `c` is one.
pub open spec fn hex_value(c: char) -> Option<u8> {
    if '0' <= c && c <= '9' {
        Some((c as int - 48) as u8)
    } else if 'a' <= c && c <= 'f' {
        Some((c as int - 87) as u8)
    } else {
        None
    }
}

/// The two digits that encode one byte, high nibble first.
pub open spec fn byte_digits(b: u8) -> Seq<char> {
    seq![hex_digit(b as int / 16), hex_digit(b as int % 16)]
}

/// Encoding of a byte string: two digits per byte, in order.
pub open spec fn hex_encode(bytes: Seq<u8>) -> Seq<char>
    decreases bytes.len(),
{
    if bytes.len() == 0 {
        Seq::empty()
    } else {
        hex_encode(bytes.drop_last()) + byte_digits(bytes.last())
    }
}

/// The bytes decoded from the first `k` pairs of characters: a pair of two
/// digits gives one byte, a pair holding anything else gives nothing.
pub open spec fn decode_pairs(chars: Seq<char>, k: nat) -> Seq<u8>
    decreases k,
{
    if k == 0 {
        Seq::empty()
    } else {
        let rest = decode_pairs(chars, (k - 1) as nat);
        match (hex_value(chars[2 * k - 2]), hex_value(chars[2 * k - 1])) {
            (Some(hi), Some(lo)) => rest.push((hi * 16 + lo) as u8),
            _ => rest,
        }
    }
}

/// Decoding of a character string: each complete pair of characters is
/// decoded on its own, and a trailing unpaired character is ignored.
pub open spec fn hex_decode(chars: Seq<char>) -> Seq<u8> {
    decode_pairs(chars, chars.len() / 2)
}

proof fn lemma_lookup()
    ensures
        forall|n: int| 0 <= n < 16 ==> #[trigger] LOOKUP@[n] == hex_digit(n),
{
    assert forall|n: int| 0 <= n < 16 implies #[trigger] LOOKUP@[n] == hex_digit(n) by {
        assert(LOOKUP@[0] == '0');
    }
}

/// Appends `c` with `String::push`. Stated, as its documentation says: the
/// text afterwards is the text before followed by `c`.
#[verifier::external_body]
fn push_char(string: &mut String, c: char)
    ensures
        final(string)@ == old(string)@.push(c),
{
    string.push(c);
}

/// Encodes `bytes` as lowercase hexadecimal, two digits per byte.
pub fn to_string(bytes: &[u8]) -> (string: String)
    ensures
        string@ == hex_encode(bytes@),
{
    let mut string = String::new();
    let mut i: usize = 0;
    while i < bytes.len()
        invariant
            i <= bytes.len(),
            string@ == hex_encode(bytes@.take(i as int)),
        decreases bytes.len() - i,
    {
        let byte = bytes[i];
        assert(byte >> 4 == byte / 16 && byte & 0xF == byte % 16) by (bit_vector);
        proof { lemma_lookup(); }
        push_char(&mut string, LOOKUP[(byte >> 4) as usize]);
        push_char(&mut string, LOOKUP[(byte & 0xF) as usize]);
        assert(bytes@.take(i + 1).drop_last() == bytes@.take(i as int));
        i = i + 1;
    }
    assert(bytes@.take(bytes.len() as int) == bytes@);
    string
}

proof fn lemma_digit_value(n: int)
    requires
        0 <= n < 16,
    ensures
        hex_value(hex_digit(n)) == Some(n as u8),
{
}

proof fn lemma_value_digit(c: char)
    ensures
        hex_value(c) matches Some(v) ==> v < 16 && hex_digit(v as int) == c,
{
}

/// The value of the digit `c`, found by its position in [`LOOKUP`].
fn nibble_of(c: char) -> (nibble: Option<u8>)
    ensures
        nibble == hex_value(c),
{
    proof {
        lemma_lookup();
        lemma_value_digit(c);
    }
    let mut n: usize = 0;
    while n < 16
        invariant
            n <= 16,
            forall|j: int| 0 <= j < n ==> LOOKUP@[j] != c,
            forall|j: int| 0 <= j < 16 ==> #[trigger] LOOKUP@[j] == hex_digit(j),
        decreases 16 - n,
    {
        if LOOKUP[n] == c {
            proof { lemma_digit_value(n as int); }
            return Some(n as u8);
        }
        n = n + 1;
    }
    None
}

/// The characters of `string`, in order.
pub(crate) fn chars_of(string: &str) -> (chars: Vec<char>)
    ensures
        chars@ == string@,
{
    let mut chars: Vec<char> = Vec::new();
    for c in it: string.chars()
        invariant
            chars@ == it.seq().take(it.index()),
    {
        chars.push(c);
    }
    chars
}

/// Decodes lowercase hexadecimal: characters are taken in pairs, a pair of
/// two digits gives one byte, a pair with any other character is skipped,
/// and a trailing unpaired character is ignored.
pub fn to_bytes(string: &str) -> (bytes: Vec<u8>)
    ensures
        bytes@ == hex_decode(string@),
{
    let chars = chars_of(string);
    let pairs = chars.len() / 2;
    let mut bytes: Vec<u8> = Vec::new();
    let mut k: usize = 0;
    while k < pairs
        invariant
            k <= pairs,
            pairs == chars@.len() / 2,
            chars@ == string@,
            bytes@ == decode_pairs(chars@, k as nat),
        decreases pairs - k,
    {
        let first = chars[2 * k];
        let second = chars[2 * k + 1];
        k = k + 1;
        let hi = match nibble_of(first) {
            Some(hi) => hi,
            None => continue,
        };
        let lo = match nibble_of(second) {
            Some(lo) => lo,
            None => continue,
        };
        proof { lemma_value_digit(first); lemma_value_digit(second); }
        assert((hi << 4) == hi * 16 && hi * 16 + lo < 256) by (bit_vector)
            requires hi < 16, lo < 16;
        let mut byte: u8 = 0;
        byte += hi << 4;
        byte += lo;
        bytes.push(byte);
    }
    bytes
}

proof fn lemma_encode_shape(bytes: Seq<u8>)
    ensures
        hex_encode(bytes).len() == 2 * bytes.len(),
        forall|j: int|
            0 <= j < bytes.len() ==> {
                &&& #[trigger] hex_encode(bytes)[2 * j] == hex_digit(bytes[j] as int / 16)
                &&& hex_encode(bytes)[2 * j + 1] == hex_digit(bytes[j] as int % 16)
            },
    decreases bytes.len(),
{
    if bytes.len() > 0 {
        let prefix = bytes.drop_last();
        lemma_encode_shape(prefix);
        assert forall|j: int| 0 <= j < bytes.len() implies {
            &&& #[trigger] hex_encode(bytes)[2 * j] == hex_digit(bytes[j] as int / 16)
            &&& hex_encode(bytes)[2 * j + 1] == hex_digit(bytes[j] as int % 16)
        } by {
            if j < bytes.len() - 1 {
                assert(prefix[j] == bytes[j]);
                assert(hex_encode(prefix)[2 * j] == hex_digit(prefix[j] as int / 16));
            }
        }
    }
}

proof fn lemma_decode_prefix(bytes: Seq<u8>, k: nat)
    requires
        k <= bytes.len(),
    ensures
        decode_pairs(hex_encode(bytes), k) == bytes.take(k as int),
    decreases k,
{
    if k > 0 {
        lemma_decode_prefix(bytes, (k - 1) as nat);
        lemma_encode_shape(bytes);
        let j = k - 1;
        let b = bytes[j];
        let e = hex_encode(bytes);
        assert(e[2 * j] == hex_digit(b as int / 16));
        lemma_digit_value(b as int / 16);
        lemma_digit_value(b as int % 16);
        assert((b / 16) * 16 + b % 16 == b) by (nonlinear_arith);
        assert(bytes.take(j).push(b) == bytes.take(k as int));
    }
}

/// Decoding gives back exactly the bytes that were encoded.
pub proof fn lemma_hex_round_trip(bytes: Seq<u8>)
    ensures
        hex_decode(hex_encode(bytes)) == bytes,
        hex_encode(bytes).len() == 2 * bytes.len(),
{
    lemma_encode_shape(bytes);
    lemma_decode_prefix(bytes, bytes.len());
    assert(bytes.take(bytes.len() as int) == bytes);
}

/// `a` comes before `b` in lexicographic order of bytes.
pub open spec fn bytes_before(a: Seq<u8>, b: Seq<u8>) -> bool
    decreases a.len(),
{
    if a.len() == 0 {
        b.len() > 0
    } else if b.len() == 0 {
        false
    } else if a[0] != b[0] {
        a[0] < b[0]
    } else {
        bytes_before(a.drop_first(), b.drop_first())
    }
}

/// `a` comes before `b` in lexicographic order of characters.
pub open spec fn chars_before(a: Seq<char>, b: Seq<char>) -> bool
    decreases a.len(),
{
    if a.len() == 0 {
        b.len() > 0
    } else if b.len() == 0 {
        false
    } else if a[0] != b[0] {
        a[0] < b[0]
    } else {
        chars_before(a.drop_first(), b.drop_first())
    }
}

proof fn lemma_encode_front(bytes: Seq<u8>)
    requires
        bytes.len() > 0,
    ensures
        hex_encode(bytes) == byte_digits(bytes[0]) + hex_encode(bytes.drop_first()),
{
    let rest = bytes.drop_first();
    lemma_encode_shape(bytes);
    lemma_encode_shape(rest);
    let lhs = hex_encode(bytes);
    let rhs = byte_digits(bytes[0]) + hex_encode(rest);
    assert forall|i: int| 0 <= i < lhs.len() implies lhs[i] == rhs[i] by {
        let j = i / 2;
        if i % 2 == 0 {
            assert(i == 2 * j);
            assert(lhs[2 * j] == hex_digit(bytes[j] as int / 16));
            if j > 0 {
                assert(rest[j - 1] == bytes[j]);
                assert(hex_encode(rest)[2 * (j - 1)] == hex_digit(rest[j - 1] as int / 16));
            }
        } else {
            assert(i == 2 * j + 1);
            assert(lhs[2 * j] == hex_digit(bytes[j] as int / 16));
            assert(lhs[2 * j + 1] == hex_digit(bytes[j] as int % 16));
            if j > 0 {
                assert(rest[j - 1] == bytes[j]);
                assert(hex_encode(rest)[2 * (j - 1)] == hex_digit(rest[j - 1] as int / 16));
                assert(hex_encode(rest)[2 * (j - 1) + 1] == hex_digit(rest[j - 1] as int % 16));
            }
        }
    }
    assert(lhs =~= rhs);
}

proof fn lemma_digit_order(n: int, m: int)
    requires
        0 <= n < 16,
        0 <= m < 16,
    ensures
        (hex_digit(n) == hex_digit(m)) == (n == m),
        (hex_digit(n) < hex_digit(m)) == (n < m),
{
}

/// Hexadecimal encoding keeps the order of byte strings: one encoding comes
/// before another in lexicographic order exactly when the bytes do.
pub proof fn lemma_hex_keeps_order(a: Seq<u8>, b: Seq<u8>)
    ensures
        chars_before(hex_encode(a), hex_encode(b)) == bytes_before(a, b),
    decreases a.len(),
{
    lemma_encode_shape(a);
    lemma_encode_shape(b);
    if a.len() > 0 && b.len() > 0 {
        lemma_encode_front(a);
        lemma_encode_front(b);
        let (p, q) = (a[0], b[0]);
        let (x, y) = (hex_encode(a.drop_first()), hex_encode(b.drop_first()));
        let (ea, eb) = (hex_encode(a), hex_encode(b));
        lemma_digit_order(p as int / 16, q as int / 16);
        lemma_digit_order(p as int % 16, q as int % 16);
        assert(ea[0] == hex_digit(p as int / 16) && eb[0] == hex_digit(q as int / 16));
        assert(ea.drop_first()[0] == hex_digit(p as int % 16));
        assert(eb.drop_first()[0] == hex_digit(q as int % 16));
        assert(ea.drop_first().drop_first() =~= x);
        assert(eb.drop_first().drop_first() =~= y);
        assert(p == (p / 16) * 16 + p % 16 && q == (q / 16) * 16 + q % 16);
        assert(ea.len() > 0 && eb.len() > 0);
        if p / 16 != q / 16 {
            assert(ea[0] != eb[0]);
            assert(chars_before(ea, eb) == (ea[0] < eb[0]));
            assert((p / 16 < q / 16) == (p < q));
        } else {
            assert(ea[0] == eb[0]);
            assert(chars_before(ea, eb) == chars_before(ea.drop_first(), eb.drop_first()));
            let (da, db) = (ea.drop_first(), eb.drop_first());
            assert(da.len() > 0 && db.len() > 0);
            if p % 16 != q % 16 {
                assert(da[0] != db[0]);
                assert(chars_before(da, db) == (da[0] < db[0]));
                assert((p % 16 < q % 16) == (p < q));
            } else {
                assert(p == q);
                assert(da[0] == db[0]);
                assert(chars_before(da, db) == chars_before(x, y));
                assert(bytes_before(a, b) == bytes_before(a.drop_first(), b.drop_first()));
                lemma_hex_keeps_order(a.drop_first(), b.drop_first());
            }
        }
    }
}

} // verus!
