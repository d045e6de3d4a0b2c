//! Verification of the signature on an Anypost webhook delivery.
//!
//! The `Anypost-Signature` header is a comma-separated list of `key=value`
//! components: one `t=` Unix timestamp and one or more `v1=` signatures. A
//! `v1` signature is the lowercase hex HMAC-SHA256, under the signing secret,
//! of the decimal timestamp, a `.`, and the raw request body.

use vstd::prelude::*;
use vstd::utf8::encode_utf8;

use crate::json::{json_object_or_empty, object_or_empty};
use crate::response::Response;
use crate::crypto::{
    ct_eq_bytes, hex_encode, hex_lower, hmac_sha256, hmac_sha256_tag, is_hex_char,
    lemma_hex_lower_digits,
};
use crate::text::{
    all_digits, chars_of, dec_bytes, dec_chars, decimal_value, find_char, first_index_of,
    is_digit, is_ws, lemma_dec_chars, lemma_first_index_of_at, lemma_split_on_append,
    lemma_split_on_free, lemma_trim_empty, lemma_trim_noop, parse_digits_i64, push_decimal, push_decimal_bytes, push_str, split_on,
    string_of, trim, trim_bounds,
};

verus! {

broadcast use vstd::string::group_string_axioms;

/// The default freshness window, in seconds.
pub const DEFAULT_TOLERANCE_SECONDS: u64 = 300;

/// Why a webhook signature failed to verify. Branch on this rather than the
/// message.
#[derive(Clone, Copy, Debug, PartialEq, Eq, Structural)]
pub enum WebhookErrorReason {
    /// The `Anypost-Signature` header was empty or malformed.
    MalformedHeader,
    /// The header carried no `t=` timestamp.
    NoTimestamp,
    /// The header carried no `v1=` signature.
    NoSignatures,
    /// The timestamp was older than the allowed tolerance.
    TimestampOutOfTolerance,
    /// No signature in the header matched the computed signature.
    NoMatch,
}

/// Raised when a webhook delivery's signature cannot be verified.
#[derive(Clone, Debug)]
pub struct WebhookVerificationError {
    reason: WebhookErrorReason,
    message: String,
}

impl View for WebhookVerificationError {
    type V = (WebhookErrorReason, Seq<char>);

    closed spec fn view(&self) -> (WebhookErrorReason, Seq<char>) {
        (self.reason, self.message@)
    }
}

impl WebhookVerificationError {
    fn new(reason: WebhookErrorReason, message: String) -> (e: Self)
        ensures
            e@ == (reason, message@),
    {
        WebhookVerificationError { reason, message }
    }

    /// The machine-readable failure reason.
    pub fn reason(&self) -> (r: WebhookErrorReason)
        ensures
            r == self@.0,
    {
        self.reason
    }

    /// The human-readable description of the failure.
    pub fn message(&self) -> (m: String)
        ensures
            m@ == self@.1,
    {
        self.message.clone()
    }
}

/// Options for [`verify_with_options`] / [`unwrap_with_options`].
#[derive(Clone, Debug)]
pub struct VerifyOptions {
    /// Reject deliveries older than this many seconds. `0` disables the check.
    pub tolerance_seconds: u64,
    /// Override "now" (Unix seconds) for the freshness check. Mainly for tests.
    pub now: Option<i64>,
}

impl Default for VerifyOptions {
    fn default() -> (o: Self)
        ensures
            o.tolerance_seconds == DEFAULT_TOLERANCE_SECONDS,
            o.now is None,
    {
        VerifyOptions { tolerance_seconds: DEFAULT_TOLERANCE_SECONDS, now: None }
    }
}

// ---------------------------------------------------------------------------
// The meaning of a signature header
// ---------------------------------------------------------------------------

/// What the header scan has gathered so far: the last valid `t=` value (as
/// `str::parse::<i64>` reads it) and every `v1=` value, in order.
pub type HeaderScan = (Option<int>, Seq<Seq<char>>);

/// The effect of one comma-separated component on the scan. A component
/// without `=` is ignored; key and value are trimmed; `t` takes a non-empty
/// all-digit value (replacing any earlier one, and `None` when it overflows
/// `i64`); `v1` adds a signature; any other key is ignored.
pub open spec fn scan_part(acc: HeaderScan, part: Seq<char>) -> HeaderScan {
    match first_index_of(part, '=') {
        None => acc,
        Some(i) => {
            let key = trim(part.take(i));
            let value = trim(part.skip(i + 1));
            if key == seq!['t'] {
                if value.len() > 0 && all_digits(value) {
                    (
                        if decimal_value(value) <= i64::MAX {
                            Some(decimal_value(value) as int)
                        } else {
                            None
                        },
                        acc.1,
                    )
                } else {
                    acc
                }
            } else if key == seq!['v', '1'] {
                (acc.0, acc.1.push(value))
            } else {
                acc
            }
        },
    }
}

/// The scan over a list of components, left to right.
pub open spec fn scan_parts(parts: Seq<Seq<char>>) -> HeaderScan
    decreases parts.len(),
{
    if parts.len() == 0 {
        (None, Seq::<Seq<char>>::empty())
    } else {
        scan_part(scan_parts(parts.drop_last()), parts.last())
    }
}

/// The timestamp and signatures a header carries, or why it carries none.
pub open spec fn parse_header_spec(header: Seq<char>) -> Result<
    (int, Seq<Seq<char>>),
    WebhookErrorReason,
> {
    if trim(header).len() == 0 {
        Err(WebhookErrorReason::MalformedHeader)
    } else {
        let scan = scan_parts(split_on(header, ','));
        match scan.0 {
            None => Err(WebhookErrorReason::NoTimestamp),
            Some(t) => if scan.1.len() == 0 {
                Err(WebhookErrorReason::NoSignatures)
            } else {
                Ok((t, scan.1))
            },
        }
    }
}

/// The bytes that are signed: the decimal timestamp, `.`, and the payload.
pub open spec fn signed_payload(timestamp: int, payload: Seq<u8>) -> Seq<u8> {
    dec_bytes(timestamp as nat) + seq![46u8] + payload
}

/// The signature a delivery must carry: lowercase hex of the HMAC-SHA256 tag.
pub open spec fn expected_signature(secret: Seq<u8>, timestamp: int, payload: Seq<u8>) -> Seq<
    char,
> {
    hex_lower(hmac_sha256_tag(secret, signed_payload(timestamp, payload)))
}

/// The outcome of verifying `payload` against `header` with the secret's
/// bytes, a tolerance (`0` disables the freshness check) and the time `now`.
pub open spec fn verify_spec(
    payload: Seq<u8>,
    header: Seq<char>,
    secret: Seq<u8>,
    tolerance: nat,
    now: int,
) -> Result<(), WebhookErrorReason> {
    match parse_header_spec(header) {
        Err(reason) => Err(reason),
        Ok((t, signatures)) => if tolerance > 0 && now - t > tolerance {
            Err(WebhookErrorReason::TimestampOutOfTolerance)
        } else if signatures.contains(expected_signature(secret, t, payload)) {
            Ok(())
        } else {
            Err(WebhookErrorReason::NoMatch)
        },
    }
}

/// The timestamp a header carries, or `0` when it does not parse.
pub open spec fn header_timestamp(header: Seq<char>) -> int {
    match parse_header_spec(header) {
        Ok((t, _)) => t,
        Err(_) => 0,
    }
}

/// The message that accompanies each failure reason.
pub open spec fn failure_message(reason: WebhookErrorReason, timestamp: int, tolerance: nat) -> Seq<
    char,
> {
    match reason {
        WebhookErrorReason::MalformedHeader => "The Anypost-Signature header is empty."@,
        WebhookErrorReason::NoTimestamp => "The Anypost-Signature header has no timestamp (t=)."@,
        WebhookErrorReason::NoSignatures => "The Anypost-Signature header has no v1= signature."@,
        WebhookErrorReason::TimestampOutOfTolerance => "Timestamp "@ + dec_chars(timestamp as nat)
            + " is older than the "@ + dec_chars(tolerance) + "s tolerance."@,
        WebhookErrorReason::NoMatch => "No signature in the header matched the computed signature."@,
    }
}

/// The outcome of a verification call, with the error reduced to its reason.
pub open spec fn outcome(r: Result<(), WebhookVerificationError>) -> Result<(), WebhookErrorReason> {
    match r {
        Ok(()) => Ok(()),
        Err(e) => Err(e@.0),
    }
}

/// A verification call's result agrees with `verify_spec` at time `now`,
/// message included.
pub open spec fn verified_as(
    r: Result<(), WebhookVerificationError>,
    payload: Seq<u8>,
    header: Seq<char>,
    secret: Seq<u8>,
    tolerance: nat,
    now: int,
) -> bool {
    &&& outcome(r) == verify_spec(payload, header, secret, tolerance, now)
    &&& r matches Err(e) ==> e@.1 == failure_message(e@.0, header_timestamp(header), tolerance)
}

/// The characters of the signature strings.
pub open spec fn signature_views(v: Seq<String>) -> Seq<Seq<char>> {
    v.map_values(|s: String| s@)
}

/// The timestamp variable as a mathematical option.
pub open spec fn timestamp_view(t: Option<i64>) -> Option<int> {
    match t {
        Some(x) => Some(x as int),
        None => None,
    }
}

// ---------------------------------------------------------------------------
// Parsing the header
// ---------------------------------------------------------------------------

fn all_digits_in(s: &[char], lo: usize, hi: usize) -> (r: bool)
    requires
        lo <= hi <= s@.len(),
    ensures
        r == all_digits(s@.subrange(lo as int, hi as int)),
{
    let ghost part = s@.subrange(lo as int, hi as int);
    let mut i = lo;
    while i < hi
        invariant
            lo <= i <= hi <= s@.len(),
            part == s@.subrange(lo as int, hi as int),
            forall|k: int| 0 <= k < i - lo ==> is_digit(#[trigger] part[k]),
        decreases hi - i,
    {
        let u = s[i] as u32;
        if !(48 <= u && u <= 57) {
            assert(!is_digit(part[i - lo]));
            return false;
        }
        i = i + 1;
    }
    true
}

/// Applies one header component `s[lo..hi]` to the scan state.
fn scan_component(
    s: &[char],
    lo: usize,
    hi: usize,
    timestamp: &mut Option<i64>,
    signatures: &mut Vec<String>,
)
    requires
        lo <= hi <= s@.len(),
    ensures
        (timestamp_view(*final(timestamp)), signature_views(final(signatures)@)) == scan_part(
            (timestamp_view(*old(timestamp)), signature_views(old(signatures)@)),
            s@.subrange(lo as int, hi as int),
        ),
{
    let ghost part = s@.subrange(lo as int, hi as int);
    match find_char(s, lo, hi, '=') {
        None => {},
        Some(k) => {
            let eq = lo + k;
            let (ka, kb) = trim_bounds(s, lo, eq);
            let (va, vb) = trim_bounds(s, eq + 1, hi);
            assert(part.take(k as int) =~= s@.subrange(lo as int, eq as int));
            assert(part.skip(k + 1) =~= s@.subrange(eq + 1, hi as int));
            let ghost key = s@.subrange(ka as int, kb as int);
            let ghost value = s@.subrange(va as int, vb as int);
            if kb - ka == 1 && s[ka] == 't' {
                assert(key =~= seq!['t']);
                if vb > va && all_digits_in(s, va, vb) {
                    let digits = &s[va..vb];
                    assert(digits@ =~= s@.subrange(va as int, vb as int));
                    let parsed = parse_digits_i64(digits);
                    *timestamp = parsed;
                }
            } else if kb - ka == 2 && s[ka] == 'v' && s[ka + 1] == '1' {
                assert(key =~= seq!['v', '1']);
                let sig = string_of(s, va, vb);
                signatures.push(sig);
                assert(signature_views(signatures@) =~= signature_views(old(signatures)@).push(
                    value,
                ));
            } else {
                assert(key != seq!['t']) by {
                    if key == seq!['t'] {
                        assert(key.len() == 1 && key[0] == 't');
                    }
                }
                assert(key != seq!['v', '1']) by {
                    if key == seq!['v', '1'] {
                        assert(key.len() == 2 && key[0] == 'v' && key[1] == '1');
                    }
                }
            }
        },
    }
}

/// Splits a signature header into its timestamp and `v1` signatures.
fn parse_header(header: &str) -> (r: Result<(i64, Vec<String>), WebhookVerificationError>)
    ensures
        match r {
            Ok((t, sigs)) => parse_header_spec(header@) == Ok::<
                (int, Seq<Seq<char>>),
                WebhookErrorReason,
            >((t as int, signature_views(sigs@))),
            Err(e) => parse_header_spec(header@) == Err::<(int, Seq<Seq<char>>), WebhookErrorReason>(
                e@.0,
            ) && e@.1 == failure_message(e@.0, 0, 0),
        },
{
    let cs = chars_of(header);
    let (a, b) = trim_bounds(cs.as_slice(), 0, cs.len());
    assert(cs@.subrange(0, cs@.len() as int) =~= cs@);
    if a == b {
        let message = "The Anypost-Signature header is empty.".to_string();
        return Err(WebhookVerificationError::new(WebhookErrorReason::MalformedHeader, message));
    }
    let mut timestamp: Option<i64> = None;
    let mut signatures: Vec<String> = Vec::new();
    let ghost mut done: Seq<Seq<char>> = Seq::empty();
    let mut start: usize = 0;
    let mut i: usize = 0;
    assert(cs@.take(0) =~= Seq::<char>::empty());
    assert(cs@.subrange(0, 0) =~= Seq::<char>::empty());
    assert(signature_views(signatures@) =~= Seq::<Seq<char>>::empty());
    while i < cs.len()
        invariant
            0 <= start <= i <= cs@.len(),
            cs@ == header@,
            split_on(cs@.take(i as int), ',') == done.push(cs@.subrange(start as int, i as int)),
            scan_parts(done) == (timestamp_view(timestamp), signature_views(signatures@)),
        decreases cs.len() - i,
    {
        assert(cs@.take(i + 1).drop_last() =~= cs@.take(i as int));
        assert(cs@.take(i + 1).last() == cs@[i as int]);
        if cs[i] == ',' {
            scan_component(cs.as_slice(), start, i, &mut timestamp, &mut signatures);
            proof {
                let piece = cs@.subrange(start as int, i as int);
                assert(done.push(piece).drop_last() =~= done);
                done = done.push(piece);
                assert(cs@.subrange(i + 1, i + 1) =~= Seq::<char>::empty());
            }
            start = i + 1;
        } else {
            proof {
                let piece = cs@.subrange(start as int, i as int);
                let p = done.push(piece);
                assert(piece.push(cs@[i as int]) =~= cs@.subrange(start as int, i + 1));
                assert(p.update(p.len() - 1, p.last().push(cs@[i as int])) =~= done.push(
                    cs@.subrange(start as int, i + 1),
                ));
            }
        }
        i = i + 1;
    }
    scan_component(cs.as_slice(), start, cs.len(), &mut timestamp, &mut signatures);
    proof {
        let piece = cs@.subrange(start as int, cs@.len() as int);
        assert(cs@.take(cs@.len() as int) =~= cs@);
        assert(done.push(piece).drop_last() =~= done);
    }
    match timestamp {
        None => {
            let message = "The Anypost-Signature header has no timestamp (t=).".to_string();
            Err(WebhookVerificationError::new(WebhookErrorReason::NoTimestamp, message))
        },
        Some(t) => {
            if signatures.len() == 0 {
                let message = "The Anypost-Signature header has no v1= signature.".to_string();
                Err(WebhookVerificationError::new(WebhookErrorReason::NoSignatures, message))
            } else {
                Ok((t, signatures))
            }
        },
    }
}

// ---------------------------------------------------------------------------
// Verifying
// ---------------------------------------------------------------------------

/// The current Unix time in whole seconds, from `std::time::SystemTime::now`
/// (`0` if the clock reads before the epoch). It depends on the machine's
/// clock, so nothing is promised of the value.
#[verifier::external_body]
fn current_unix() -> i64 {
    match std::time::SystemTime::now().duration_since(std::time::UNIX_EPOCH) {
        Ok(elapsed) => elapsed.as_secs() as i64,
        Err(_) => 0,
    }
}

/// `n` is a value a reading of the machine clock (`current_unix`, whole
/// seconds since the Unix epoch) can return.
pub closed spec fn clock_reading(n: i64) -> bool {
    call_ensures(current_unix, (), n)
}

/// Whether two strings are equal, comparing their bytes in constant time.
fn secure_eq(left: &str, right: &str) -> (r: bool)
    ensures
        r == (left@ == right@),
{
    let l = left.as_bytes();
    let r = right.as_bytes();
    proof {
        vstd::utf8::encode_utf8_decode_utf8(left@);
        vstd::utf8::encode_utf8_decode_utf8(right@);
    }
    if l.len() != r.len() {
        return false;
    }
    ct_eq_bytes(l, r)
}

/// The hex HMAC-SHA256 signature of `timestamp.payload` under `secret`.
fn hex_hmac(secret: &str, timestamp: i64, payload: &[u8]) -> (s: String)
    requires
        timestamp >= 0,
    ensures
        s@ == expected_signature(encode_utf8(secret@), timestamp as int, payload@),
{
    let mut message: Vec<u8> = Vec::new();
    push_decimal_bytes(&mut message, timestamp as u64);
    message.push(46u8);
    let ghost head = message@;
    let mut i: usize = 0;
    while i < payload.len()
        invariant
            0 <= i <= payload@.len(),
            message@ == head + payload@.take(i as int),
        decreases payload.len() - i,
    {
        message.push(payload[i]);
        assert(message@ =~= head + payload@.take(i + 1));
        i = i + 1;
    }
    assert(payload@.take(payload@.len() as int) =~= payload@);
    assert(message@ =~= signed_payload(timestamp as int, payload@));
    let tag = hmac_sha256(secret.as_bytes(), message.as_slice());
    hex_encode(tag.as_slice())
}

proof fn lemma_scan_timestamp_nonneg(parts: Seq<Seq<char>>)
    ensures
        scan_parts(parts).0 matches Some(t) ==> t >= 0,
    decreases parts.len(),
{
    if parts.len() > 0 {
        lemma_scan_timestamp_nonneg(parts.drop_last());
    }
}

/// Verifies a webhook signature at the given time `now` (Unix seconds).
///
/// The header may carry more than one `v1=` component during a secret
/// rotation; a match on any one passes.
pub fn verify_at(
    payload: &[u8],
    signature_header: &str,
    secret: &str,
    tolerance_seconds: u64,
    now: i64,
) -> (r: Result<(), WebhookVerificationError>)
    ensures
        verified_as(
            r,
            payload@,
            signature_header@,
            encode_utf8(secret@),
            tolerance_seconds as nat,
            now as int,
        ),
{
    let (timestamp, signatures) = match parse_header(signature_header) {
        Ok(parsed) => parsed,
        Err(e) => {
            return Err(e);
        },
    };
    proof {
        lemma_scan_timestamp_nonneg(split_on(signature_header@, ','));
    }
    if tolerance_seconds > 0 {
        if (now as i128) - (timestamp as i128) > tolerance_seconds as i128 {
            let mut message = "Timestamp ".to_string();
            push_decimal(&mut message, timestamp as u64);
            push_str(&mut message, " is older than the ");
            push_decimal(&mut message, tolerance_seconds);
            push_str(&mut message, "s tolerance.");
            return Err(
                WebhookVerificationError::new(WebhookErrorReason::TimestampOutOfTolerance, message),
            );
        }
    }
    let expected = hex_hmac(secret, timestamp, payload);
    let ghost views = signature_views(signatures@);
    // Every candidate is compared, with no early exit.
    let mut matched = false;
    let mut i: usize = 0;
    while i < signatures.len()
        invariant
            0 <= i <= signatures@.len(),
            views == signature_views(signatures@),
            matched == exists|k: int| 0 <= k < i && views[k] == expected@,
        decreases signatures.len() - i,
    {
        assert(views[i as int] == signatures@[i as int]@);
        if secure_eq(signatures[i].as_str(), expected.as_str()) {
            matched = true;
        }
        i = i + 1;
    }
    if !matched {
        let message = "No signature in the header matched the computed signature.".to_string();
        return Err(WebhookVerificationError::new(WebhookErrorReason::NoMatch, message));
    }
    Ok(())
}

/// Verifies a webhook signature with explicit options. Without
/// `options.now` (and with a non-zero tolerance) "now" is the machine clock.
pub fn verify_with_options(
    payload: &[u8],
    signature_header: &str,
    secret: &str,
    options: &VerifyOptions,
) -> (r: Result<(), WebhookVerificationError>)
    ensures
        options.now matches Some(n) ==> verified_as(
            r,
            payload@,
            signature_header@,
            encode_utf8(secret@),
            options.tolerance_seconds as nat,
            n as int,
        ),
        options.tolerance_seconds == 0 ==> verified_as(
            r,
            payload@,
            signature_header@,
            encode_utf8(secret@),
            0,
            0,
        ),
        exists|n: i64|
            verified_as(
                r,
                payload@,
                signature_header@,
                encode_utf8(secret@),
                options.tolerance_seconds as nat,
                n as int,
            ),
        options.now is None && options.tolerance_seconds > 0 ==> exists|n: i64|
            #[trigger] clock_reading(n) && verified_as(
                r,
                payload@,
                signature_header@,
                encode_utf8(secret@),
                options.tolerance_seconds as nat,
                n as int,
            ),
{
    let now = match options.now {
        Some(n) => n,
        None => if options.tolerance_seconds > 0 {
            let clock = current_unix();
            assert(clock_reading(clock));
            clock
        } else {
            0
        },
    };
    let r = verify_at(payload, signature_header, secret, options.tolerance_seconds, now);
    proof {
        if options.tolerance_seconds == 0 {
            lemma_tolerance_zero_ignores_clock(
                payload@,
                signature_header@,
                encode_utf8(secret@),
                now as int,
                0,
            );
        }
    }
    r
}

/// Verifies a webhook signature with the default options: a 300-second
/// tolerance against the machine clock.
pub fn verify(payload: &[u8], signature_header: &str, secret: &str) -> (r: Result<
    (),
    WebhookVerificationError,
>)
    ensures
        exists|n: i64|
            verified_as(
                r,
                payload@,
                signature_header@,
                encode_utf8(secret@),
                DEFAULT_TOLERANCE_SECONDS as nat,
                n as int,
            ),
        exists|n: i64|
            #[trigger] clock_reading(n) && verified_as(
                r,
                payload@,
                signature_header@,
                encode_utf8(secret@),
                DEFAULT_TOLERANCE_SECONDS as nat,
                n as int,
            ),
{
    let options = VerifyOptions::default();
    verify_with_options(payload, signature_header, secret, &options)
}

/// An unwrap result with the parsed body dropped.
pub open spec fn without_body(r: Result<Response, WebhookVerificationError>) -> Result<
    (),
    WebhookVerificationError,
> {
    match r {
        Ok(_) => Ok(()),
        Err(e) => Err(e),
    }
}

/// Verifies a delivery (with options) and returns its parsed body as a
/// [`Response`]: the JSON object the payload holds, or an empty object when
/// the payload is not a JSON object.
pub fn unwrap_with_options(
    payload: &[u8],
    signature_header: &str,
    secret: &str,
    options: &VerifyOptions,
) -> (r: Result<Response, WebhookVerificationError>)
    ensures
        options.now matches Some(n) ==> verified_as(
            without_body(r),
            payload@,
            signature_header@,
            encode_utf8(secret@),
            options.tolerance_seconds as nat,
            n as int,
        ),
        exists|n: i64|
            verified_as(
                without_body(r),
                payload@,
                signature_header@,
                encode_utf8(secret@),
                options.tolerance_seconds as nat,
                n as int,
            ),
        options.now is None && options.tolerance_seconds > 0 ==> exists|n: i64|
            #[trigger] clock_reading(n) && verified_as(
                without_body(r),
                payload@,
                signature_header@,
                encode_utf8(secret@),
                options.tolerance_seconds as nat,
                n as int,
            ),
        r matches Ok(body) ==> object_or_empty(payload@, body.json()),
{
    let checked = verify_with_options(payload, signature_header, secret, options);
    let ghost checked_copy = checked;
    let r = match checked {
        Err(e) => {
            assert(checked_copy == Err::<(), WebhookVerificationError>(e));
            Err(e)
        },
        Ok(u) => {
            assert(checked_copy == Ok::<(), WebhookVerificationError>(u));
            let body = json_object_or_empty(payload);
            Ok(Response::new(body))
        },
    };
    proof {
        assert(without_body(r) == checked_copy);
        let n = choose|n: i64|
            verified_as(
                checked_copy,
                payload@,
                signature_header@,
                encode_utf8(secret@),
                options.tolerance_seconds as nat,
                n as int,
            );
        assert(verified_as(
            without_body(r),
            payload@,
            signature_header@,
            encode_utf8(secret@),
            options.tolerance_seconds as nat,
            n as int,
        ));
        if options.now is None && options.tolerance_seconds > 0 {
            let c = choose|c: i64|
                #[trigger] clock_reading(c) && verified_as(
                    checked_copy,
                    payload@,
                    signature_header@,
                    encode_utf8(secret@),
                    options.tolerance_seconds as nat,
                    c as int,
                );
            assert(clock_reading(c) && verified_as(
                without_body(r),
                payload@,
                signature_header@,
                encode_utf8(secret@),
                options.tolerance_seconds as nat,
                c as int,
            ));
        }
    }
    r
}

/// Verifies a delivery with the default options and returns its parsed body
/// (the payload's JSON object, or an empty object).
pub fn unwrap(payload: &[u8], signature_header: &str, secret: &str) -> (r: Result<
    Response,
    WebhookVerificationError,
>)
    ensures
        exists|n: i64|
            verified_as(
                without_body(r),
                payload@,
                signature_header@,
                encode_utf8(secret@),
                DEFAULT_TOLERANCE_SECONDS as nat,
                n as int,
            ),
        exists|n: i64|
            #[trigger] clock_reading(n) && verified_as(
                without_body(r),
                payload@,
                signature_header@,
                encode_utf8(secret@),
                DEFAULT_TOLERANCE_SECONDS as nat,
                n as int,
            ),
        r matches Ok(body) ==> object_or_empty(payload@, body.json()),
{
    let options = VerifyOptions::default();
    unwrap_with_options(payload, signature_header, secret, &options)
}

// ---------------------------------------------------------------------------
// Laws
// ---------------------------------------------------------------------------

/// The header `t=<timestamp>,v1=<signature>`.
pub open spec fn signature_header(timestamp: nat, signature: Seq<char>) -> Seq<char> {
    seq!['t', '='] + dec_chars(timestamp) + seq![',', 'v', '1', '='] + signature
}

/// With the freshness check disabled, the result does not depend on the clock.
pub proof fn lemma_tolerance_zero_ignores_clock(
    payload: Seq<u8>,
    header: Seq<char>,
    secret: Seq<u8>,
    now1: int,
    now2: int,
)
    ensures
        verify_spec(payload, header, secret, 0, now1) == verify_spec(
            payload,
            header,
            secret,
            0,
            now2,
        ),
{
}

proof fn lemma_scan_two(first: Seq<char>, second: Seq<char>)
    ensures
        scan_parts(seq![first, second]) == scan_part(
            scan_part((None, Seq::<Seq<char>>::empty()), first),
            second,
        ),
{
    let empty = Seq::<Seq<char>>::empty();
    assert(seq![first, second].drop_last() =~= seq![first]);
    assert(seq![first].drop_last() =~= empty);
    assert(scan_parts(empty) == (None::<int>, Seq::<Seq<char>>::empty()));
    assert(scan_parts(seq![first]) == scan_part(scan_parts(empty), first));
    assert(scan_parts(seq![first, second]) == scan_part(scan_parts(seq![first]), second));
}

/// The header `t=<timestamp>,v1=<signature>` carries that timestamp and that
/// one signature, when the signature is lowercase hex.
pub proof fn lemma_signature_header_parses(timestamp: nat, signature: Seq<char>)
    requires
        timestamp <= i64::MAX,
        forall|i: int| 0 <= i < signature.len() ==> is_hex_char(#[trigger] signature[i]),
    ensures
        parse_header_spec(signature_header(timestamp, signature)) == Ok::<
            (int, Seq<Seq<char>>),
            WebhookErrorReason,
        >((timestamp as int, seq![signature])),
{
    let d = dec_chars(timestamp);
    let sig = signature;
    lemma_dec_chars(timestamp);
    let first = seq!['t', '='] + d;
    let second = seq!['v', '1', '='] + sig;
    let header = signature_header(timestamp, sig);
    assert(header =~= first.push(',') + second);
    assert forall|i: int| 0 <= i < second.len() implies second[i] != ',' by {
        if i >= 3 {
            assert(second[i] == sig[i - 3]);
            assert(is_hex_char(sig[i - 3]));
        }
    }
    assert forall|i: int| 0 <= i < first.len() implies first[i] != ',' by {
        if i >= 2 {
            assert(first[i] == d[i - 2]);
            assert(is_digit(d[i - 2]));
        }
    }
    lemma_split_on_free(first, ',');
    lemma_split_on_append(first, ',', second);
    assert(split_on(header, ',') =~= seq![first, second]);
    lemma_scan_two(first, second);
    // The timestamp component.
    lemma_first_index_of_at(first, '=', 1);
    assert(first.take(1) =~= seq!['t']);
    lemma_trim_noop(seq!['t']);
    assert(first.skip(2) =~= d);
    assert(is_digit(d[0]) && is_digit(d.last()));
    lemma_trim_noop(d);
    let after_first = scan_part((None, Seq::<Seq<char>>::empty()), first);
    assert(after_first == (Some(timestamp as int), Seq::<Seq<char>>::empty()));
    // The signature component.
    lemma_first_index_of_at(second, '=', 2);
    assert(second.take(2) =~= seq!['v', '1']);
    lemma_trim_noop(seq!['v', '1']);
    assert(second.skip(3) =~= sig);
    if sig.len() > 0 {
        assert(is_hex_char(sig[0]) && is_hex_char(sig.last()));
    }
    lemma_trim_noop(sig);
    let scan = scan_part(after_first, second);
    assert(scan.1 =~= seq![sig]);
    // The header is not blank.
    lemma_trim_empty(header);
    assert(!is_ws(header[0]));
}

/// A delivery signed with the secret verifies: the header
/// `t=<timestamp>,v1=<signature>`, where the signature is the one the secret
/// gives for this timestamp and payload, is accepted whenever the timestamp
/// is within the tolerance of `now` or the tolerance is zero.
pub proof fn lemma_signed_header_verifies(
    secret: Seq<u8>,
    payload: Seq<u8>,
    timestamp: nat,
    tolerance: nat,
    now: int,
)
    requires
        timestamp <= i64::MAX,
        tolerance == 0 || now - timestamp <= tolerance,
    ensures
        verify_spec(
            payload,
            signature_header(timestamp, expected_signature(secret, timestamp as int, payload)),
            secret,
            tolerance,
            now,
        ) == Ok::<(), WebhookErrorReason>(()),
{
    let sig = expected_signature(secret, timestamp as int, payload);
    lemma_hex_lower_digits(hmac_sha256_tag(secret, signed_payload(timestamp as int, payload)));
    lemma_signature_header_parses(timestamp, sig);
    assert(seq![sig][0] == sig);
}

/// A delivery signed at the moment it is checked verifies, whatever the
/// tolerance: the header `t=<now>,v1=<the secret's signature>` is accepted
/// at the time `now` it carries.
pub proof fn lemma_delivery_signed_now_verifies(
    secret: Seq<u8>,
    payload: Seq<u8>,
    now: i64,
    tolerance: nat,
)
    requires
        now >= 0,
    ensures
        verify_spec(
            payload,
            signature_header(now as nat, expected_signature(secret, now as int, payload)),
            secret,
            tolerance,
            now as int,
        ) == Ok::<(), WebhookErrorReason>(()),
{
    lemma_signed_header_verifies(secret, payload, now as nat, tolerance, now as int);
}

/// A signature other than the one the secret gives for the timestamp and
/// payload is refused: within the tolerance, the header
/// `t=<timestamp>,v1=<signature>` is rejected because nothing matched.
pub proof fn lemma_wrong_signature_is_rejected(
    secret: Seq<u8>,
    payload: Seq<u8>,
    timestamp: nat,
    signature: Seq<char>,
    tolerance: nat,
    now: int,
)
    requires
        timestamp <= i64::MAX,
        forall|i: int| 0 <= i < signature.len() ==> is_hex_char(#[trigger] signature[i]),
        signature != expected_signature(secret, timestamp as int, payload),
        tolerance == 0 || now - timestamp <= tolerance,
    ensures
        verify_spec(payload, signature_header(timestamp, signature), secret, tolerance, now)
            == Err::<(), WebhookErrorReason>(WebhookErrorReason::NoMatch),
{
    lemma_signature_header_parses(timestamp, signature);
    let expected = expected_signature(secret, timestamp as int, payload);
    assert(!seq![signature].contains(expected)) by {
        if seq![signature].contains(expected) {
            let k = choose|k: int| 0 <= k < seq![signature].len() && seq![signature][k] == expected;
            assert(k == 0);
        }
    }
}

/// A stale delivery is refused whatever it carries: with a non-zero
/// tolerance, the header `t=<timestamp>,v1=<signature>` is rejected as out
/// of tolerance once `now` is more than the tolerance past the timestamp.
pub proof fn lemma_stale_header_is_rejected(
    secret: Seq<u8>,
    payload: Seq<u8>,
    timestamp: nat,
    signature: Seq<char>,
    tolerance: nat,
    now: int,
)
    requires
        timestamp <= i64::MAX,
        forall|i: int| 0 <= i < signature.len() ==> is_hex_char(#[trigger] signature[i]),
        tolerance > 0,
        now - timestamp > tolerance,
    ensures
        verify_spec(payload, signature_header(timestamp, signature), secret, tolerance, now)
            == Err::<(), WebhookErrorReason>(WebhookErrorReason::TimestampOutOfTolerance),
{
    lemma_signature_header_parses(timestamp, signature);
}

/// Adding a further `v1=` component to a header that verifies keeps it
/// verifying: during a secret rotation a match on any one signature passes.
pub proof fn lemma_extra_signature_keeps_verifying(
    payload: Seq<u8>,
    header: Seq<char>,
    secret: Seq<u8>,
    tolerance: nat,
    now: int,
    extra: Seq<char>,
)
    requires
        verify_spec(payload, header, secret, tolerance, now) is Ok,
        forall|i: int| 0 <= i < extra.len() ==> extra[i] != ',',
    ensures
        verify_spec(
            payload,
            header.push(',') + (seq!['v', '1', '='] + extra),
            secret,
            tolerance,
            now,
        ) is Ok,
{
    let component = seq!['v', '1', '='] + extra;
    let longer = header.push(',') + component;
    assert forall|i: int| 0 <= i < component.len() implies component[i] != ',' by {
        if i >= 3 {
            assert(component[i] == extra[i - 3]);
        }
    }
    lemma_split_on_append(header, ',', component);
    let parts = split_on(header, ',');
    assert(parts.push(component).drop_last() =~= parts);
    lemma_first_index_of_at(component, '=', 2);
    assert(component.take(2) =~= seq!['v', '1']);
    lemma_trim_noop(seq!['v', '1']);
    let before = scan_parts(parts);
    let after = scan_parts(split_on(longer, ','));
    assert(after == (before.0, before.1.push(trim(component.skip(3)))));
    let t = before.0->0;
    let expected = expected_signature(secret, t, payload);
    assert(before.1.contains(expected));
    let k = choose|k: int| 0 <= k < before.1.len() && before.1[k] == expected;
    assert(after.1[k] == expected);
    lemma_trim_empty(header);
    lemma_trim_empty(longer);
    let j = choose|j: int| 0 <= j < header.len() && !is_ws(header[j]);
    assert(longer[j] == header[j]);
}

} // verus!
