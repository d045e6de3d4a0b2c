//! Cryptographic and encoding primitives taken from outside crates: HMAC-SHA256
//! (`hmac`, `sha2`), lowercase hex (`hex`), constant-time comparison
//! (`subtle`) and standard base64 (`base64`).

use vstd::prelude::*;

verus! {

/// The HMAC-SHA256 tag (RFC 2104 over SHA-256) of `message` under `key`.
pub uninterp spec fn hmac_sha256_tag(key: Seq<u8>, message: Seq<u8>) -> Seq<u8>;

/// Computes HMAC-SHA256 with `hmac::Hmac<sha2::Sha256>`: keyed from `key`
/// (any length is accepted, so `new_from_slice` cannot fail), fed `message`,
/// finalized. The tag is trusted to be `hmac_sha256_tag(key, message)`, a
/// function of the two inputs alone, and to be 32 bytes long (SHA-256's
/// output size); its bytes are not otherwise stated.
#[verifier::external_body]
pub(crate) fn hmac_sha256(key: &[u8], message: &[u8]) -> (tag: Vec<u8>)
    ensures
        tag@ == hmac_sha256_tag(key@, message@),
        tag@.len() == 32,
{
    let mut mac = <hmac::Hmac<sha2::Sha256> as hmac::Mac>::new_from_slice(key).expect(
        "HMAC accepts a key of any length",
    );
    hmac::Mac::update(&mut mac, message);
    hmac::Mac::finalize(mac).into_bytes().to_vec()
}

/// The sixteen lowercase hexadecimal digits, in order.
pub open spec fn hex_digit_chars() -> Seq<char> {
    seq!['0', '1', '2', '3', '4', '5', '6', '7', '8', '9', 'a', 'b', 'c', 'd', 'e', 'f']
}

/// Lowercase hexadecimal encoding: two digits per byte, high nibble first.
pub open spec fn hex_lower(bytes: Seq<u8>) -> Seq<char>
    decreases bytes.len(),
{
    if bytes.len() == 0 {
        Seq::<char>::empty()
    } else {
        hex_lower(bytes.drop_last()) + seq![
            hex_digit_chars()[(bytes.last() / 16) as int],
            hex_digit_chars()[(bytes.last() % 16) as int],
        ]
    }
}

/// Encodes bytes as lowercase hex with `hex::encode`, trusted to produce
/// exactly `hex_lower(bytes)` (the crate's `HEX_CHARS_LOWER` table, high
/// nibble first).
#[verifier::external_body]
pub(crate) fn hex_encode(bytes: &[u8]) -> (s: String)
    ensures
        s@ == hex_lower(bytes@),
{
    hex::encode(bytes)
}

/// Compares two byte slices with `subtle::ConstantTimeEq::ct_eq`, trusted to
/// yield `true` exactly when the slices are equal (it returns a false
/// `Choice` at once on differing lengths, and otherwise compares every byte).
#[verifier::external_body]
pub(crate) fn ct_eq_bytes(a: &[u8], b: &[u8]) -> (r: bool)
    ensures
        r == (a@ == b@),
{
    bool::from(subtle::ConstantTimeEq::ct_eq(a, b))
}

/// The RFC 4648 base64 alphabet: `A-Z`, `a-z`, `0-9`, `+`, `/`.
pub open spec fn base64_char(d: int) -> char {
    if d < 26 {
        ((65 + d) as u32) as char
    } else if d < 52 {
        ((97 + d - 26) as u32) as char
    } else if d < 62 {
        ((48 + d - 52) as u32) as char
    } else if d == 62 {
        '+'
    } else {
        '/'
    }
}

/// The standard base64 encoding of `bytes` (RFC 4648): each group of three
/// bytes becomes four characters of six bits each; a final group of one or
/// two bytes becomes two or three characters padded with `=` to four.
pub open spec fn base64_standard(bytes: Seq<u8>) -> Seq<char>
    decreases bytes.len(),
{
    if bytes.len() == 0 {
        Seq::empty()
    } else if bytes.len() == 1 {
        seq![base64_char((bytes[0] / 4) as int), base64_char((bytes[0] % 4) * 16), '=', '=']
    } else if bytes.len() == 2 {
        seq![
            base64_char((bytes[0] / 4) as int),
            base64_char((bytes[0] % 4) * 16 + bytes[1] / 16),
            base64_char((bytes[1] % 16) * 4),
            '=',
        ]
    } else {
        seq![
            base64_char((bytes[0] / 4) as int),
            base64_char((bytes[0] % 4) * 16 + bytes[1] / 16),
            base64_char((bytes[1] % 16) * 4 + bytes[2] / 64),
            base64_char((bytes[2] % 64) as int),
        ] + base64_standard(bytes.skip(3))
    }
}

/// Encodes bytes with `base64::engine::general_purpose::STANDARD` (the
/// standard alphabet, with padding), trusted to yield exactly
/// `base64_standard(bytes)`.
#[verifier::external_body]
pub(crate) fn base64_encode(bytes: &[u8]) -> (s: String)
    ensures
        s@ == base64_standard(bytes@),
{
    base64::Engine::encode(&base64::engine::general_purpose::STANDARD, bytes)
}

/// `c` is one of `0-9` or `a-f`.
pub open spec fn is_hex_char(c: char) -> bool {
    (48 <= c as u32 && c as u32 <= 57) || (97 <= c as u32 && c as u32 <= 102)
}

proof fn lemma_hex_digit_chars(d: int)
    requires
        0 <= d < 16,
    ensures
        is_hex_char(hex_digit_chars()[d]),
{
    assert(hex_digit_chars()[0] == '0');
    assert(hex_digit_chars()[1] == '1');
    assert(hex_digit_chars()[2] == '2');
    assert(hex_digit_chars()[3] == '3');
    assert(hex_digit_chars()[4] == '4');
    assert(hex_digit_chars()[5] == '5');
    assert(hex_digit_chars()[6] == '6');
    assert(hex_digit_chars()[7] == '7');
    assert(hex_digit_chars()[8] == '8');
    assert(hex_digit_chars()[9] == '9');
    assert(hex_digit_chars()[10] == 'a');
    assert(hex_digit_chars()[11] == 'b');
    assert(hex_digit_chars()[12] == 'c');
    assert(hex_digit_chars()[13] == 'd');
    assert(hex_digit_chars()[14] == 'e');
    assert(hex_digit_chars()[15] == 'f');
}

/// Every character of a hex encoding is a lowercase hex digit, two per byte.
pub proof fn lemma_hex_lower_digits(bytes: Seq<u8>)
    ensures
        forall|i: int| 0 <= i < hex_lower(bytes).len() ==> is_hex_char(#[trigger] hex_lower(bytes)[i]),
        hex_lower(bytes).len() == 2 * bytes.len(),
    decreases bytes.len(),
{
    if bytes.len() > 0 {
        let prev = bytes.drop_last();
        lemma_hex_lower_digits(prev);
        let hi = hex_digit_chars()[(bytes.last() / 16) as int];
        let lo = hex_digit_chars()[(bytes.last() % 16) as int];
        lemma_hex_digit_chars((bytes.last() / 16) as int);
        lemma_hex_digit_chars((bytes.last() % 16) as int);
        let h = hex_lower(bytes);
        assert forall|i: int| 0 <= i < h.len() implies is_hex_char(#[trigger] h[i]) by {
            if i < hex_lower(prev).len() {
                assert(h[i] == hex_lower(prev)[i]);
            } else if i == hex_lower(prev).len() {
                assert(h[i] == hi);
            } else {
                assert(h[i] == lo);
            }
        }
    }
}

} // verus!
