//! Assembling a request: its headers (with the automatic idempotency key),
//! its path segments and its URL.

use vstd::prelude::*;
use vstd::utf8::encode_utf8;

use crate::crypto::{hex_digit_chars, hex_encode, hex_lower, is_hex_char, lemma_hex_lower_digits};
use crate::error::header_views;
use crate::text::{chars_of, push_char, push_str, string_of};
use crate::version::VERSION;

verus! {

broadcast use vstd::string::group_string_axioms;

// ---------------------------------------------------------------------------
// Idempotency keys
// ---------------------------------------------------------------------------

/// `s` has the shape of a random (version 4, variant 1) UUID in lowercase
/// hex: `xxxxxxxx-xxxx-4xxx-Yxxx-xxxxxxxxxxxx` with `Y` one of `8 9 a b`.
pub open spec fn is_uuid_v4(s: Seq<char>) -> bool {
    &&& s.len() == 36
    &&& forall|i: int|
        0 <= i < 36 ==> if i == 8 || i == 13 || i == 18 || i == 23 {
            #[trigger] s[i] == '-'
        } else {
            is_hex_char(s[i])
        }
    &&& s[14] == '4'
    &&& s[19] == '8' || s[19] == '9' || s[19] == 'a' || s[19] == 'b'
}

/// The 32 hex digits of a UUID, grouped 8-4-4-4-12 with dashes.
pub open spec fn dashed(h: Seq<char>) -> Seq<char> {
    h.subrange(0, 8) + seq!['-'] + h.subrange(8, 12) + seq!['-'] + h.subrange(12, 16) + seq!['-']
        + h.subrange(16, 20) + seq!['-'] + h.subrange(20, 32)
}

/// A random byte from `fastrand::u8(..)`. Nothing is promised of its value.
#[verifier::external_body]
fn random_byte() -> u8 {
    fastrand::u8(..)
}

/// `b` is a byte that a draw of `random_byte` can give.
pub closed spec fn random_draw(b: u8) -> bool {
    call_ensures(random_byte, (), b)
}

proof fn lemma_hex_lower_at(bytes: Seq<u8>, i: int)
    requires
        0 <= i < bytes.len(),
    ensures
        hex_lower(bytes)[2 * i] == hex_digit_chars()[(bytes[i] / 16) as int],
        hex_lower(bytes)[2 * i + 1] == hex_digit_chars()[(bytes[i] % 16) as int],
    decreases bytes.len(),
{
    let prev = bytes.drop_last();
    lemma_hex_lower_digits(prev);
    if i < bytes.len() - 1 {
        lemma_hex_lower_at(prev, i);
        assert(hex_lower(bytes)[2 * i] == hex_lower(prev)[2 * i]);
        assert(hex_lower(bytes)[2 * i + 1] == hex_lower(prev)[2 * i + 1]);
    }
}

proof fn lemma_upper_nibbles(x: u8, y: u8)
    ensures
        ((x & 0x0f) | 0x40) / 16 == 4,
        8 <= ((y & 0x3f) | 0x80) / 16 <= 11,
{
    assert(((x & 0x0f) | 0x40) / 16 == 4) by (bit_vector);
    assert(8 <= ((y & 0x3f) | 0x80) / 16 <= 11) by (bit_vector);
}

/// The bytes with the version (4) and variant (RFC 4122) bits set: the high
/// nibble of byte 6 becomes `4`, the top two bits of byte 8 become `10`.
pub open spec fn with_version_bits(bytes: Seq<u8>) -> Seq<u8> {
    bytes.update(6, (bytes[6] & 0x0f) | 0x40).update(8, (bytes[8] & 0x3f) | 0x80)
}

/// The UUID that 16 bytes give: the version and variant bits set, then
/// lowercase hex laid out 8-4-4-4-12 with dashes.
pub open spec fn uuid_text(bytes: Seq<u8>) -> Seq<char> {
    dashed(hex_lower(with_version_bits(bytes)))
}

/// The version-4 UUID that 16 bytes give.
pub fn uuid_from_bytes(bytes: &[u8]) -> (s: String)
    requires
        bytes@.len() == 16,
    ensures
        s@ == uuid_text(bytes@),
        is_uuid_v4(s@),
{
    let mut v: Vec<u8> = Vec::new();
    let mut n: usize = 0;
    while n < 16
        invariant
            0 <= n <= 16,
            bytes@.len() == 16,
            v@ == bytes@.take(n as int),
        decreases 16 - n,
    {
        v.push(bytes[n]);
        assert(v@ =~= bytes@.take(n + 1));
        n = n + 1;
    }
    assert(v@ =~= bytes@);
    let b6 = (v[6] & 0x0f) | 0x40;  // version 4
    let b8 = (v[8] & 0x3f) | 0x80;  // variant 1
    proof {
        lemma_upper_nibbles(v[6], v[8]);
    }
    v.set(6, b6);
    v.set(8, b8);
    assert(v@ =~= with_version_bits(bytes@));
    let hex = hex_encode(v.as_slice());
    let h = chars_of(hex.as_str());
    proof {
        lemma_hex_lower_digits(v@);
        lemma_hex_lower_at(v@, 6);
        lemma_hex_lower_at(v@, 8);
        assert(hex_digit_chars()[4] == '4');
        assert(hex_digit_chars()[8] == '8');
        assert(hex_digit_chars()[9] == '9');
        assert(hex_digit_chars()[10] == 'a');
        assert(hex_digit_chars()[11] == 'b');
    }
    let mut s = string_of(h.as_slice(), 0, 8);
    push_char(&mut s, '-');
    let part = string_of(h.as_slice(), 8, 12);
    push_str(&mut s, part.as_str());
    push_char(&mut s, '-');
    let part = string_of(h.as_slice(), 12, 16);
    push_str(&mut s, part.as_str());
    push_char(&mut s, '-');
    let part = string_of(h.as_slice(), 16, 20);
    push_str(&mut s, part.as_str());
    push_char(&mut s, '-');
    let part = string_of(h.as_slice(), 20, 32);
    push_str(&mut s, part.as_str());
    proof {
        let d = dashed(h@);
        assert(s@ =~= d);
        assert forall|i: int| 0 <= i < 36 implies if i == 8 || i == 13 || i == 18 || i == 23 {
            #[trigger] d[i] == '-'
        } else {
            is_hex_char(d[i])
        } by {
            if i < 8 {
                assert(d[i] == h@[i]);
            } else if 8 < i < 13 {
                assert(d[i] == h@[i - 1]);
            } else if 13 < i < 18 {
                assert(d[i] == h@[i - 2]);
            } else if 18 < i < 23 {
                assert(d[i] == h@[i - 3]);
            } else if i > 23 {
                assert(d[i] == h@[i - 4]);
            }
        }
        assert(d[14] == h@[12]);
        assert(d[19] == h@[16]);
    }
    s
}

/// A random version-4 UUID, used as an automatic idempotency key: the UUID
/// of 16 random bytes. Uniqueness, not cryptographic strength, is what
/// matters here.
pub fn uuid_v4() -> (s: String)
    ensures
        is_uuid_v4(s@),
        exists|drawn: Seq<u8>|
            drawn.len() == 16 && (forall|i: int| 0 <= i < 16 ==> #[trigger] random_draw(drawn[i]))
                && s@ == uuid_text(drawn),
{
    let mut bytes: Vec<u8> = Vec::new();
    let mut n: usize = 0;
    while n < 16
        invariant
            0 <= n <= 16,
            bytes@.len() == n,
            forall|i: int| 0 <= i < n ==> #[trigger] random_draw(bytes@[i]),
        decreases 16 - n,
    {
        let b = random_byte();
        assert(random_draw(b));
        bytes.push(b);
        n = n + 1;
    }
    let s = uuid_from_bytes(bytes.as_slice());
    assert(bytes@.len() == 16 && (forall|i: int| 0 <= i < 16 ==> #[trigger] random_draw(bytes@[i])));
    s
}

// ---------------------------------------------------------------------------
// Headers
// ---------------------------------------------------------------------------

/// The headers every request carries: bearer authorization, JSON accept and
/// the SDK's user agent.
pub open spec fn base_headers(api_key: Seq<char>) -> Seq<(Seq<char>, Seq<char>)> {
    seq![
        ("Authorization"@, "Bearer "@ + api_key),
        ("Accept"@, "application/json"@),
        ("User-Agent"@, "anypost-rust/"@ + VERSION@),
    ]
}

/// The headers before any idempotency key: the base headers, the
/// client-wide defaults in order, and the JSON content type when there is a
/// body.
pub open spec fn fixed_headers(
    api_key: Seq<char>,
    defaults: Seq<(Seq<char>, Seq<char>)>,
    has_body: bool,
) -> Seq<(Seq<char>, Seq<char>)> {
    base_headers(api_key) + defaults + if has_body {
        seq![("Content-Type"@, "application/json"@)]
    } else {
        Seq::<(Seq<char>, Seq<char>)>::empty()
    }
}

/// A caller-supplied idempotency key that is present and non-empty.
pub open spec fn key_given(key: Option<&str>) -> bool {
    match key {
        Some(k) => k@.len() > 0,
        None => false,
    }
}

fn header_pair(name: &str, value: String) -> (h: (String, String))
    ensures
        h.0@ == name@,
        h.1@ == value@,
{
    (name.to_string(), value)
}

/// The headers of one request. An idempotent request (a send) carries
/// `Idempotency-Key`: the caller's key when it is non-empty, otherwise a
/// fresh random UUID when retries are enabled (so built-in retries of a send
/// cannot deliver twice), otherwise none.
pub fn request_headers(
    api_key: &str,
    default_headers: &[(String, String)],
    has_body: bool,
    idempotent: bool,
    idempotency_key: Option<&str>,
    max_retries: u32,
) -> (headers: Vec<(String, String)>)
    ensures
        ({
            let fixed = fixed_headers(api_key@, header_views(default_headers@), has_body);
            let got = header_views(headers@);
            if idempotent && key_given(idempotency_key) {
                got == fixed.push(("Idempotency-Key"@, idempotency_key->0@))
            } else if idempotent && max_retries > 0 {
                &&& got.len() == fixed.len() + 1
                &&& got.drop_last() == fixed
                &&& got.last().0 == "Idempotency-Key"@
                &&& is_uuid_v4(got.last().1)
            } else {
                got == fixed
            }
        }),
{
    let mut authorization = "Bearer ".to_string();
    push_str(&mut authorization, api_key);
    let mut agent = "anypost-rust/".to_string();
    push_str(&mut agent, VERSION);
    let mut headers: Vec<(String, String)> = Vec::new();
    headers.push(header_pair("Authorization", authorization));
    headers.push(header_pair("Accept", "application/json".to_string()));
    headers.push(header_pair("User-Agent", agent));
    assert(header_views(headers@) =~= base_headers(api_key@));
    let ghost base = header_views(headers@);
    let mut i: usize = 0;
    while i < default_headers.len()
        invariant
            0 <= i <= default_headers@.len(),
            header_views(headers@) == base + header_views(default_headers@).take(i as int),
        decreases default_headers.len() - i,
    {
        let name = default_headers[i].0.clone();
        let value = default_headers[i].1.clone();
        let ghost before = headers@;
        headers.push((name, value));
        assert(header_views(headers@) =~= header_views(before).push(
            (default_headers@[i as int].0@, default_headers@[i as int].1@),
        ));
        assert(header_views(default_headers@).take(i + 1) =~= header_views(default_headers@).take(
            i as int,
        ).push((default_headers@[i as int].0@, default_headers@[i as int].1@)));
        assert(header_views(headers@) =~= base + header_views(default_headers@).take(i + 1));
        i = i + 1;
    }
    assert(header_views(default_headers@).take(default_headers@.len() as int) =~= header_views(
        default_headers@,
    ));
    if has_body {
        headers.push(header_pair("Content-Type", "application/json".to_string()));
    }
    let ghost fixed = header_views(headers@);
    assert(fixed =~= fixed_headers(api_key@, header_views(default_headers@), has_body));
    if idempotent {
        match idempotency_key {
            Some(key) if !key.is_empty() => {
                headers.push(header_pair("Idempotency-Key", key.to_string()));
                assert(header_views(headers@) =~= fixed.push(("Idempotency-Key"@, key@)));
            },
            _ => {
                if max_retries > 0 {
                    headers.push(header_pair("Idempotency-Key", uuid_v4()));
                    assert(header_views(headers@).drop_last() =~= fixed);
                }
            },
        }
    }
    headers
}

// ---------------------------------------------------------------------------
// Paths
// ---------------------------------------------------------------------------

/// The RFC 3986 unreserved bytes `A-Z a-z 0-9 - _ . ~`, left intact in a
/// path segment.
pub open spec fn is_unreserved(b: u8) -> bool {
    (48 <= b <= 57) || (65 <= b <= 90) || (97 <= b <= 122) || b == 45 || b == 95 || b == 46 || b
        == 126
}

/// The sixteen uppercase hexadecimal digits, in order.
pub open spec fn upper_hex_chars() -> Seq<char> {
    seq!['0', '1', '2', '3', '4', '5', '6', '7', '8', '9', 'A', 'B', 'C', 'D', 'E', 'F']
}

/// Percent-encoding of a path segment's bytes: unreserved bytes are kept,
/// every other byte becomes `%XX` in uppercase hex.
pub open spec fn percent_encode(bytes: Seq<u8>) -> Seq<char>
    decreases bytes.len(),
{
    if bytes.len() == 0 {
        Seq::<char>::empty()
    } else {
        let b = bytes.last();
        percent_encode(bytes.drop_last()) + if is_unreserved(b) {
            seq![b as char]
        } else {
            seq!['%', upper_hex_chars()[(b / 16) as int], upper_hex_chars()[(b % 16) as int]]
        }
    }
}

fn upper_hex_char(d: u8) -> (c: char)
    requires
        d < 16,
    ensures
        c == upper_hex_chars()[d as int],
{
    if d < 10 {
        proof {
            assert(upper_hex_chars()[d as int] == ((48 + d) as u32) as char) by {
                reveal_upper_hex_chars();
            }
        }
        ((48 + d) as u8) as char
    } else {
        proof {
            assert(upper_hex_chars()[d as int] == ((55 + d) as u32) as char) by {
                reveal_upper_hex_chars();
            }
        }
        ((55 + d) as u8) as char
    }
}

proof fn reveal_upper_hex_chars()
    ensures
        forall|d: int| 0 <= d < 10 ==> #[trigger] upper_hex_chars()[d] == ((48 + d) as u32) as char,
        forall|d: int| 10 <= d < 16 ==> #[trigger] upper_hex_chars()[d] == ((55 + d) as u32) as char,
{
    assert(upper_hex_chars()[0] == '0');
    assert(upper_hex_chars()[1] == '1');
    assert(upper_hex_chars()[2] == '2');
    assert(upper_hex_chars()[3] == '3');
    assert(upper_hex_chars()[4] == '4');
    assert(upper_hex_chars()[5] == '5');
    assert(upper_hex_chars()[6] == '6');
    assert(upper_hex_chars()[7] == '7');
    assert(upper_hex_chars()[8] == '8');
    assert(upper_hex_chars()[9] == '9');
    assert(upper_hex_chars()[10] == 'A');
    assert(upper_hex_chars()[11] == 'B');
    assert(upper_hex_chars()[12] == 'C');
    assert(upper_hex_chars()[13] == 'D');
    assert(upper_hex_chars()[14] == 'E');
    assert(upper_hex_chars()[15] == 'F');
}

/// Appends the percent-encoding of `segment` (RFC 3986 unreserved characters
/// kept, every other UTF-8 byte as `%XX`).
pub fn push_encoded_segment(s: &mut String, segment: &str)
    ensures
        final(s)@ == old(s)@ + percent_encode(encode_utf8(segment@)),
{
    let bytes = segment.as_bytes();
    let mut i: usize = 0;
    while i < bytes.len()
        invariant
            0 <= i <= bytes@.len(),
            bytes@ == encode_utf8(segment@),
            s@ == old(s)@ + percent_encode(bytes@.take(i as int)),
        decreases bytes.len() - i,
    {
        let b = bytes[i];
        assert(bytes@.take(i + 1).drop_last() =~= bytes@.take(i as int));
        let unreserved = (48 <= b && b <= 57) || (65 <= b && b <= 90) || (97 <= b && b <= 122) || b
            == 45 || b == 95 || b == 46 || b == 126;
        if unreserved {
            push_char(s, b as char);
        } else {
            push_char(s, '%');
            push_char(s, upper_hex_char(b / 16));
            push_char(s, upper_hex_char(b % 16));
        }
        assert(s@ =~= old(s)@ + percent_encode(bytes@.take(i + 1)));
        i = i + 1;
    }
    assert(bytes@.take(bytes@.len() as int) =~= bytes@);
}

/// The path of one item of a collection, `<collection>/<id><suffix>`, with
/// the id percent-encoded as a single path segment.
pub fn item_path(collection: &str, id: &str, suffix: &str) -> (p: String)
    ensures
        p@ == collection@ + seq!['/'] + percent_encode(encode_utf8(id@)) + suffix@,
{
    let mut p = collection.to_string();
    push_char(&mut p, '/');
    push_encoded_segment(&mut p, id);
    push_str(&mut p, suffix);
    p
}

// ---------------------------------------------------------------------------
// URLs
// ---------------------------------------------------------------------------

/// The serialization of the URL parsed from `input`, or `None` when it does
/// not parse.
pub uninterp spec fn url_text(input: Seq<char>) -> Option<Seq<char>>;

/// The serialization of the URL parsed from `input` with `query` appended as
/// `application/x-www-form-urlencoded` pairs, or `None` when it does not
/// parse.
pub uninterp spec fn url_text_with_query(input: Seq<char>, query: Seq<(Seq<char>, Seq<char>)>) -> Option<
    Seq<char>,
>;

/// The text of the `url::ParseError` that parsing `input` gives.
pub uninterp spec fn url_parse_error(input: Seq<char>) -> Seq<char>;

/// Parses and re-serializes a URL with `reqwest::Url::parse` (the `url`
/// crate): trusted to yield `url_text(input)`, a function of the input alone.
/// On failure, the parse error's text, `url_parse_error(input)`.
#[verifier::external_body]
fn parse_url(input: &str) -> (r: Result<String, String>)
    ensures
        match r {
            Ok(u) => url_text(input@) == Some(u@),
            Err(m) => url_text(input@) == None::<Seq<char>> && m@ == url_parse_error(input@),
        },
{
    match reqwest::Url::parse(input) {
        Ok(url) => Ok(url.to_string()),
        Err(e) => Err(e.to_string()),
    }
}

/// Parses a URL and appends query pairs with `reqwest::Url::parse_with_params`
/// (each pair form-urlencoded by `append_pair`), then re-serializes it:
/// trusted to yield `url_text_with_query(input, query)`, a function of its
/// arguments alone. On failure, the text of the error that parsing the
/// input gives, `url_parse_error(input)` (the pairs are appended only after
/// a successful parse).
#[verifier::external_body]
fn parse_url_with_query(input: &str, query: &[(String, String)]) -> (r: Result<String, String>)
    ensures
        match r {
            Ok(u) => url_text_with_query(input@, header_views(query@)) == Some(u@),
            Err(m) => url_text_with_query(input@, header_views(query@)) == None::<Seq<char>>
                && m@ == url_parse_error(input@),
        },
{
    match reqwest::Url::parse_with_params(input, query) {
        Ok(url) => Ok(url.to_string()),
        Err(e) => Err(e.to_string()),
    }
}

/// The full URL of a request: the base URL followed by the path, with the
/// query pairs appended when there are any. On failure,
/// `could not build request URL: ` followed by the parse error's text.
pub fn build_url(base_url: &str, path: &str, query: &[(String, String)]) -> (r: Result<String, String>)
    ensures
        ({
            let full = base_url@ + path@;
            let parsed = if query@.len() == 0 {
                url_text(full)
            } else {
                url_text_with_query(full, header_views(query@))
            };
            match r {
                Ok(u) => parsed == Some(u@),
                Err(m) => parsed == None::<Seq<char>> && m@ == "could not build request URL: "@
                    + url_parse_error(full),
            }
        }),
{
    let mut full = base_url.to_string();
    push_str(&mut full, path);
    let parsed = if query.len() == 0 {
        parse_url(full.as_str())
    } else {
        parse_url_with_query(full.as_str(), query)
    };
    match parsed {
        Ok(url) => Ok(url),
        Err(detail) => {
            let mut message = "could not build request URL: ".to_string();
            proof {
                reveal_strlit("could not build request URL: ");
            }
            push_str(&mut message, detail.as_str());
            Err(message)
        },
    }
}

} // verus!
