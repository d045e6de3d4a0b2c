//! The retry policy of the request loop: which outcomes are retried, how many
//! times, and the ceiling of the full-jitter backoff before each retry.
//!
//! The loop itself (performing the request and sleeping) is driven by the
//! caller; each round it hands the outcome of one attempt to [`next_step`].

use vstd::arithmetic::power2::{lemma2_to64, lemma_pow2_strictly_increases, lemma_pow2_unfold, pow2};
use vstd::prelude::*;

use crate::error::{header_views, lookup_header};
use crate::transport::{HttpRequest, HttpResponse, TransportError};

verus! {

/// The first backoff ceiling, in milliseconds.
pub const BASE_BACKOFF_MS: u64 = 500;

/// The largest backoff, in milliseconds.
pub const MAX_BACKOFF_MS: u64 = 8000;

/// How one attempt ended.
#[derive(Clone, Copy, Debug, PartialEq, Eq, Structural)]
pub enum AttemptOutcome {
    /// No HTTP response was produced (network failure or timeout).
    TransportFailed,
    /// The server answered with this status.
    Responded(u16),
}

/// What the request loop does after an attempt.
#[derive(Clone, Copy, Debug, PartialEq, Eq, Structural)]
pub enum NextStep {
    /// The response is a success (2xx); decode and return it.
    Succeed,
    /// Back off, then send the same request again.
    Retry,
    /// Give up with a connection error.
    FailConnection,
    /// Give up with the error the response describes.
    FailStatus,
}

/// `429`, `502` and `503` are transient and retried.
pub open spec fn is_retryable_status_spec(status: u16) -> bool {
    status == 429 || status == 502 || status == 503
}

/// The decision after attempt number `attempt` (counting from 0) with a
/// budget of `max_retries` retries.
pub open spec fn next_step_spec(attempt: nat, max_retries: nat, outcome: AttemptOutcome) -> NextStep {
    match outcome {
        AttemptOutcome::TransportFailed => if attempt < max_retries {
            NextStep::Retry
        } else {
            NextStep::FailConnection
        },
        AttemptOutcome::Responded(status) => if 200 <= status && status < 300 {
            NextStep::Succeed
        } else if is_retryable_status_spec(status) && attempt < max_retries {
            NextStep::Retry
        } else {
            NextStep::FailStatus
        },
    }
}

/// The ceiling of the backoff before retry number `attempt + 1`:
/// `500 ms * 2^min(attempt, 20)`, capped at 8 s.
pub open spec fn backoff_ceiling_spec(attempt: nat) -> nat {
    let shift: nat = if attempt < 20 { attempt } else { 20 };
    let raw: nat = (BASE_BACKOFF_MS * pow2(shift)) as nat;
    if raw < MAX_BACKOFF_MS { raw } else { MAX_BACKOFF_MS as nat }
}

/// Whether a status is transient and worth retrying.
pub fn is_retryable_status(status: u16) -> (r: bool)
    ensures
        r == is_retryable_status_spec(status),
{
    status == 429 || status == 502 || status == 503
}

/// What to do after an attempt ends with `outcome`.
pub fn next_step(attempt: u32, max_retries: u32, outcome: AttemptOutcome) -> (step: NextStep)
    ensures
        step == next_step_spec(attempt as nat, max_retries as nat, outcome),
{
    match outcome {
        AttemptOutcome::TransportFailed => if attempt < max_retries {
            NextStep::Retry
        } else {
            NextStep::FailConnection
        },
        AttemptOutcome::Responded(status) => if 200 <= status && status < 300 {
            NextStep::Succeed
        } else if is_retryable_status(status) && attempt < max_retries {
            NextStep::Retry
        } else {
            NextStep::FailStatus
        },
    }
}

/// How the transport's result for one attempt ended.
pub fn attempt_outcome(result: &Result<HttpResponse, TransportError>) -> (o: AttemptOutcome)
    ensures
        o == match result {
            Ok(response) => AttemptOutcome::Responded(response.status),
            Err(_) => AttemptOutcome::TransportFailed,
        },
{
    match result {
        Ok(response) => AttemptOutcome::Responded(response.status),
        Err(_) => AttemptOutcome::TransportFailed,
    }
}

/// The full-jitter ceiling, in milliseconds, for the backoff after attempt
/// `attempt`; the delay actually slept is this times a jitter in `[0, 1]`.
pub fn backoff_ceiling_ms(attempt: u32) -> (ms: u64)
    ensures
        ms == backoff_ceiling_spec(attempt as nat),
{
    let shift: u32 = if attempt < 20 { attempt } else { 20 };
    let mut factor: u64 = 1;
    let mut k: u32 = 0;
    proof {
        lemma2_to64();
    }
    while k < shift
        invariant
            0 <= k <= shift <= 20,
            factor == pow2(k as nat),
            pow2(20) == 1048576,
        decreases shift - k,
    {
        proof {
            lemma_pow2_unfold((k + 1) as nat);
            if k + 1 < 20 {
                lemma_pow2_strictly_increases((k + 1) as nat, 20);
            }
        }
        factor = factor * 2;
        k = k + 1;
    }
    proof {
        if shift < 20 {
            lemma_pow2_strictly_increases(shift as nat, 20);
        }
    }
    let raw = BASE_BACKOFF_MS * factor;
    if raw < MAX_BACKOFF_MS {
        raw
    } else {
        MAX_BACKOFF_MS
    }
}

/// The bytes of an optional body.
pub open spec fn body_view(body: Option<Vec<u8>>) -> Option<Seq<u8>> {
    match body {
        Some(b) => Some(b@),
        None => None,
    }
}

/// `a` and `b` are the same request: method, URL, headers (the idempotency
/// key among them) and body.
pub open spec fn same_request(a: HttpRequest, b: HttpRequest) -> bool {
    &&& a.method == b.method
    &&& a.url@ == b.url@
    &&& header_views(a.headers@) == header_views(b.headers@)
    &&& body_view(a.body) == body_view(b.body)
}

fn copy_bytes(bytes: &Vec<u8>) -> (r: Vec<u8>)
    ensures
        r@ == bytes@,
{
    let mut r: Vec<u8> = Vec::new();
    let mut i: usize = 0;
    while i < bytes.len()
        invariant
            0 <= i <= bytes@.len(),
            r@ == bytes@.take(i as int),
        decreases bytes.len() - i,
    {
        r.push(bytes[i]);
        assert(r@ =~= bytes@.take(i + 1));
        i = i + 1;
    }
    assert(bytes@.take(bytes@.len() as int) =~= bytes@);
    r
}

/// The request an attempt sends. Every attempt of one call sends the same
/// request, so a retried send carries the same idempotency key.
pub fn attempt_request(request: &HttpRequest) -> (r: HttpRequest)
    ensures
        same_request(r, *request),
{
    let mut headers: Vec<(String, String)> = Vec::new();
    let mut i: usize = 0;
    while i < request.headers.len()
        invariant
            0 <= i <= request.headers@.len(),
            header_views(headers@) == header_views(request.headers@).take(i as int),
        decreases request.headers.len() - i,
    {
        let ghost before = headers@;
        headers.push((request.headers[i].0.clone(), request.headers[i].1.clone()));
        assert(header_views(headers@) =~= header_views(before).push(
            header_views(request.headers@)[i as int],
        ));
        assert(header_views(request.headers@).take(i + 1) =~= header_views(request.headers@).take(
            i as int,
        ).push(header_views(request.headers@)[i as int]));
        i = i + 1;
    }
    assert(header_views(request.headers@).take(request.headers@.len() as int) =~= header_views(
        request.headers@,
    ));
    let body = match &request.body {
        Some(b) => Some(copy_bytes(b)),
        None => None,
    };
    HttpRequest { method: request.method, url: request.url.clone(), headers, body }
}

// ---------------------------------------------------------------------------
// Laws
// ---------------------------------------------------------------------------

/// How many requests the loop sends, from attempt `attempt` on, when the
/// successive attempts end with `outcomes` (it stops at the first outcome
/// that is not retried, or when the outcomes run out).
pub open spec fn requests_sent(attempt: nat, max_retries: nat, outcomes: Seq<AttemptOutcome>) -> nat
    decreases outcomes.len(),
{
    if outcomes.len() == 0 {
        0
    } else if next_step_spec(attempt, max_retries, outcomes[0]) == NextStep::Retry {
        1 + requests_sent(attempt + 1, max_retries, outcomes.drop_first())
    } else {
        1
    }
}

/// The loop gives up after `max_retries` retries: whatever the transport
/// does, at most `max_retries + 1` requests are sent.
pub proof fn lemma_retries_are_bounded(max_retries: nat, outcomes: Seq<AttemptOutcome>)
    ensures
        requests_sent(0, max_retries, outcomes) <= max_retries + 1,
{
    lemma_requests_sent_from(0, max_retries, outcomes);
}

proof fn lemma_requests_sent_from(attempt: nat, max_retries: nat, outcomes: Seq<AttemptOutcome>)
    requires
        attempt <= max_retries,
    ensures
        requests_sent(attempt, max_retries, outcomes) <= max_retries + 1 - attempt,
    decreases outcomes.len(),
{
    if outcomes.len() > 0 && next_step_spec(attempt, max_retries, outcomes[0]) == NextStep::Retry {
        lemma_requests_sent_from(attempt + 1, max_retries, outcomes.drop_first());
    }
}

/// An attempt that failed transiently: no response, or a 429, 502 or 503.
pub open spec fn is_transient(outcome: AttemptOutcome) -> bool {
    match outcome {
        AttemptOutcome::TransportFailed => true,
        AttemptOutcome::Responded(status) => is_retryable_status_spec(status),
    }
}

/// The whole budget is used against a persistently failing server: when
/// every attempt fails transiently, exactly `max_retries + 1` requests are
/// sent before the loop gives up.
pub proof fn lemma_transient_failures_use_the_budget(max_retries: nat, outcomes: Seq<AttemptOutcome>)
    requires
        outcomes.len() > max_retries,
        forall|i: int| 0 <= i < outcomes.len() ==> is_transient(#[trigger] outcomes[i]),
    ensures
        requests_sent(0, max_retries, outcomes) == max_retries + 1,
{
    lemma_transient_requests_from(0, max_retries, outcomes);
}

proof fn lemma_transient_requests_from(attempt: nat, max_retries: nat, outcomes: Seq<AttemptOutcome>)
    requires
        attempt <= max_retries,
        outcomes.len() > max_retries - attempt,
        forall|i: int| 0 <= i < outcomes.len() ==> is_transient(#[trigger] outcomes[i]),
    ensures
        requests_sent(attempt, max_retries, outcomes) == max_retries + 1 - attempt,
    decreases outcomes.len(),
{
    assert(is_transient(outcomes[0]));
    if attempt < max_retries {
        let rest = outcomes.drop_first();
        assert forall|i: int| 0 <= i < rest.len() implies is_transient(#[trigger] rest[i]) by {
            assert(rest[i] == outcomes[i + 1]);
        }
        lemma_transient_requests_from(attempt + 1, max_retries, rest);
    }
}

/// Every attempt of a send carries one idempotency key: the request an
/// attempt sends has the same `Idempotency-Key` header (or the same lack of
/// one) as the first.
pub proof fn lemma_attempts_share_the_idempotency_key(first: HttpRequest, again: HttpRequest)
    requires
        same_request(again, first),
    ensures
        lookup_header(header_views(again.headers@), "Idempotency-Key"@) == lookup_header(
            header_views(first.headers@),
            "Idempotency-Key"@,
        ),
{
}

/// Only transient failures are retried: a success is never retried, and a
/// response with a status other than 429, 502 or 503 ends the loop.
pub proof fn lemma_only_transient_failures_retry(attempt: nat, max_retries: nat, status: u16)
    ensures
        200 <= status < 300 ==> next_step_spec(attempt, max_retries, AttemptOutcome::Responded(status))
            == NextStep::Succeed,
        !(200 <= status < 300) && !is_retryable_status_spec(status) ==> next_step_spec(
            attempt,
            max_retries,
            AttemptOutcome::Responded(status),
        ) == NextStep::FailStatus,
{
}

/// The backoff ceiling starts at 500 ms, never exceeds 8 s, and never shrinks
/// from one attempt to the next.
pub proof fn lemma_backoff_ceiling_bounds(a: nat, b: nat)
    requires
        a <= b,
    ensures
        BASE_BACKOFF_MS <= backoff_ceiling_spec(a) <= MAX_BACKOFF_MS,
        backoff_ceiling_spec(a) <= backoff_ceiling_spec(b),
{
    lemma2_to64();
    let sa: nat = if a < 20 { a } else { 20 };
    let sb: nat = if b < 20 { b } else { 20 };
    if sa < sb {
        lemma_pow2_strictly_increases(sa, sb);
    }
    if sa > 0 {
        lemma_pow2_strictly_increases(0, sa);
    }
}

} // verus!
