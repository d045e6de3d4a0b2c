use anypost::error::{
    classify, connection_message, default_message, header, kind_for_status_code,
    read_request_id, resolve_error, type_from_status, ErrorEnvelope, ErrorKind,
};

fn canonical(error_type: &str, message: &str) -> ErrorEnvelope {
    ErrorEnvelope::Canonical {
        error_type: Some(error_type.to_string()),
        message: Some(message.to_string()),
    }
}

fn headers(pairs: &[(&str, &str)]) -> Vec<(String, String)> {
    pairs
        .iter()
        .map(|(k, v)| (k.to_string(), v.to_string()))
        .collect()
}

#[test]
fn validation_type_maps_to_validation() {
    let r = resolve_error(422, &canonical("validation_error", "Invalid"));
    assert_eq!(r.kind, ErrorKind::Validation);
    assert_eq!(r.error_type, "validation_error");
    assert_eq!(r.message, "Invalid");
}

#[test]
fn documented_types_decide_the_kind() {
    assert_eq!(classify(401, "authentication_error"), ErrorKind::Authentication);
    assert_eq!(classify(403, "permission_error"), ErrorKind::Permission);
    assert_eq!(classify(404, "not_found"), ErrorKind::NotFound);
    assert_eq!(classify(409, "idempotency_concurrent"), ErrorKind::Conflict);
    assert_eq!(classify(409, "webhook_rotation_in_progress"), ErrorKind::Conflict);
    assert_eq!(classify(409, "conflict"), ErrorKind::Conflict);
    assert_eq!(classify(422, "idempotency_mismatch"), ErrorKind::IdempotencyMismatch);
    assert_eq!(classify(429, "rate_limit_exceeded"), ErrorKind::RateLimit);
    assert_eq!(classify(413, "payload_too_large"), ErrorKind::PayloadTooLarge);
    assert_eq!(classify(500, "internal_error"), ErrorKind::Api);
    assert_eq!(classify(503, "provisioning_error"), ErrorKind::Api);
}

#[test]
fn the_type_wins_over_the_status() {
    // A documented type decides even when the status says otherwise.
    assert_eq!(classify(500, "not_found"), ErrorKind::NotFound);
    assert_eq!(classify(400, "rate_limit_exceeded"), ErrorKind::RateLimit);
}

#[test]
fn unknown_types_fall_back_to_the_status() {
    assert_eq!(classify(401, "x"), ErrorKind::Authentication);
    assert_eq!(classify(403, "x"), ErrorKind::Permission);
    assert_eq!(classify(404, "x"), ErrorKind::NotFound);
    assert_eq!(classify(409, "x"), ErrorKind::Conflict);
    assert_eq!(classify(413, "x"), ErrorKind::PayloadTooLarge);
    assert_eq!(classify(429, "x"), ErrorKind::RateLimit);
    assert_eq!(classify(400, "x"), ErrorKind::Validation);
    assert_eq!(classify(422, "x"), ErrorKind::Validation);
    assert_eq!(classify(503, "x"), ErrorKind::Api);
    assert_eq!(classify(302, "x"), ErrorKind::Api);
    assert_eq!(kind_for_status_code(418), ErrorKind::Api);
}

#[test]
fn status_implies_a_type() {
    assert_eq!(type_from_status(400), "validation_error");
    assert_eq!(type_from_status(422), "validation_error");
    assert_eq!(type_from_status(401), "authentication_error");
    assert_eq!(type_from_status(403), "permission_error");
    assert_eq!(type_from_status(404), "not_found");
    assert_eq!(type_from_status(409), "conflict");
    assert_eq!(type_from_status(413), "payload_too_large");
    assert_eq!(type_from_status(429), "rate_limit_exceeded");
    assert_eq!(type_from_status(500), "internal_error");
    assert_eq!(type_from_status(599), "internal_error");
    assert_eq!(type_from_status(302), "api_error");
}

#[test]
fn flat_envelope_reads_its_code() {
    let envelope = ErrorEnvelope::Flat {
        code: "payload_too_large".to_string(),
        message: None,
    };
    let r = resolve_error(413, &envelope);
    assert_eq!(r.kind, ErrorKind::PayloadTooLarge);
    assert_eq!(r.error_type, "payload_too_large");
    assert_eq!(r.message, "payload too large");
}

#[test]
fn flat_envelope_keeps_its_message() {
    let envelope = ErrorEnvelope::Flat {
        code: "rate_limit_exceeded".to_string(),
        message: Some("slow down".to_string()),
    };
    let r = resolve_error(429, &envelope);
    assert_eq!(r.kind, ErrorKind::RateLimit);
    assert_eq!(r.message, "slow down");
}

#[test]
fn missing_envelope_uses_the_status() {
    let r = resolve_error(404, &ErrorEnvelope::Missing);
    assert_eq!(r.kind, ErrorKind::NotFound);
    assert_eq!(r.error_type, "not_found");
    assert_eq!(r.message, "Anypost request failed with status 404.");
}

#[test]
fn canonical_envelope_fills_gaps_from_the_status() {
    let envelope = ErrorEnvelope::Canonical {
        error_type: None,
        message: None,
    };
    let r = resolve_error(503, &envelope);
    assert_eq!(r.kind, ErrorKind::Api);
    assert_eq!(r.error_type, "internal_error");
    assert_eq!(r.message, "Anypost request failed with status 503.");
}

#[test]
fn server_type_maps_to_api() {
    let r = resolve_error(500, &canonical("internal_error", "boom"));
    assert_eq!(r.kind, ErrorKind::Api);
}

#[test]
fn messages_are_formatted() {
    assert_eq!(default_message(500), "Anypost request failed with status 500.");
    assert_eq!(default_message(0), "Anypost request failed with status 0.");
    assert_eq!(
        connection_message("connection reset"),
        "Could not reach Anypost: connection reset"
    );
}

#[test]
fn header_lookup_ignores_ascii_case() {
    let hs = headers(&[("Content-Type", "a"), ("retry-after", "12"), ("Retry-After", "7")]);
    assert_eq!(header(&hs, "RETRY-AFTER"), Some("12"));
    assert_eq!(header(&hs, "content-type"), Some("a"));
    assert_eq!(header(&hs, "x-missing"), None);
}

#[test]
fn request_id_comes_from_the_first_named_header() {
    let hs = headers(&[("Anypost-Request-Id", "req_abc123")]);
    assert_eq!(read_request_id(&hs).as_deref(), Some("req_abc123"));

    let hs = headers(&[("X-Request-Id", "req_3"), ("X-Anypost-Request-Id", "req_2")]);
    assert_eq!(read_request_id(&hs).as_deref(), Some("req_2"));

    // An empty value is skipped in favour of the next name.
    let hs = headers(&[("anypost-request-id", ""), ("x-request-id", "req_3")]);
    assert_eq!(read_request_id(&hs).as_deref(), Some("req_3"));

    assert_eq!(read_request_id(&headers(&[("other", "x")])), None);
}
