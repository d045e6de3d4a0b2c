use anypost::retry::{
    attempt_outcome, attempt_request, backoff_ceiling_ms, is_retryable_status, next_step, AttemptOutcome, NextStep,
};
use anypost::transport::{HttpRequest, HttpResponse, Method, TransportError};

#[test]
fn a_503_is_retried_while_the_budget_lasts() {
    assert_eq!(next_step(0, 2, AttemptOutcome::Responded(503)), NextStep::Retry);
    assert_eq!(next_step(1, 2, AttemptOutcome::Responded(503)), NextStep::Retry);
    assert_eq!(next_step(2, 2, AttemptOutcome::Responded(503)), NextStep::FailStatus);
}

#[test]
fn network_errors_are_retried_then_surface_as_connection_errors() {
    assert_eq!(next_step(0, 2, AttemptOutcome::TransportFailed), NextStep::Retry);
    assert_eq!(next_step(0, 0, AttemptOutcome::TransportFailed), NextStep::FailConnection);
    assert_eq!(next_step(2, 2, AttemptOutcome::TransportFailed), NextStep::FailConnection);
}

#[test]
fn client_errors_are_not_retried() {
    assert_eq!(next_step(0, 2, AttemptOutcome::Responded(400)), NextStep::FailStatus);
    assert_eq!(next_step(0, 2, AttemptOutcome::Responded(500)), NextStep::FailStatus);
    assert_eq!(next_step(0, 2, AttemptOutcome::Responded(404)), NextStep::FailStatus);
}

#[test]
fn successes_end_the_loop() {
    assert_eq!(next_step(0, 2, AttemptOutcome::Responded(200)), NextStep::Succeed);
    assert_eq!(next_step(5, 0, AttemptOutcome::Responded(207)), NextStep::Succeed);
    assert_eq!(next_step(0, 2, AttemptOutcome::Responded(299)), NextStep::Succeed);
    assert_eq!(next_step(0, 2, AttemptOutcome::Responded(300)), NextStep::FailStatus);
}

#[test]
fn only_429_502_503_are_transient() {
    assert!(is_retryable_status(429));
    assert!(is_retryable_status(502));
    assert!(is_retryable_status(503));
    assert!(!is_retryable_status(500));
    assert!(!is_retryable_status(504));
}

#[test]
fn a_loop_with_one_retry_sends_two_requests() {
    // The loop: attempt, then follow next_step until it stops retrying.
    let outcomes = [AttemptOutcome::Responded(503), AttemptOutcome::Responded(503)];
    let mut sent = 0;
    let mut attempt = 0;
    loop {
        let outcome = outcomes[sent];
        sent += 1;
        match next_step(attempt, 1, outcome) {
            NextStep::Retry => attempt += 1,
            step => {
                assert_eq!(step, NextStep::FailStatus);
                break;
            }
        }
    }
    assert_eq!(sent, 2);
}

#[test]
fn backoff_ceilings_double_up_to_eight_seconds() {
    assert_eq!(backoff_ceiling_ms(0), 500);
    assert_eq!(backoff_ceiling_ms(1), 1000);
    assert_eq!(backoff_ceiling_ms(2), 2000);
    assert_eq!(backoff_ceiling_ms(3), 4000);
    assert_eq!(backoff_ceiling_ms(4), 8000);
    assert_eq!(backoff_ceiling_ms(20), 8000);
    assert_eq!(backoff_ceiling_ms(u32::MAX), 8000);
}

#[test]
fn transport_results_become_outcomes() {
    let ok: Result<HttpResponse, TransportError> = Ok(HttpResponse {
        status: 202,
        headers: Vec::new(),
        body: Vec::new(),
    });
    assert_eq!(attempt_outcome(&ok), AttemptOutcome::Responded(202));
    let failed: Result<HttpResponse, TransportError> = Err(TransportError {
        message: "connection reset".to_string(),
        timeout: false,
    });
    assert_eq!(attempt_outcome(&failed), AttemptOutcome::TransportFailed);
}

#[test]
fn every_attempt_sends_the_same_request() {
    let request = HttpRequest {
        method: Method::Post,
        url: "https://api.test/v1/email".to_string(),
        headers: vec![
            ("Authorization".to_string(), "Bearer k".to_string()),
            ("Idempotency-Key".to_string(), "order-4823".to_string()),
        ],
        body: Some(b"{}".to_vec()),
    };
    let again = attempt_request(&request);
    assert_eq!(again.method, request.method);
    assert_eq!(again.url, request.url);
    assert_eq!(again.headers, request.headers);
    assert_eq!(again.body, request.body);
}
