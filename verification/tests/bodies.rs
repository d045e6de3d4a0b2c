use anypost::error::{api_error_parts, ErrorKind};
use anypost::json::{encode_body, json_object_or_empty};
use anypost::response::{absorb_page, page_from_body, page_from_parts, rows_from_body};
use anypost::Response;

fn value_of(text: &str) -> serde_json::Value {
    serde_json::from_str(text).unwrap()
}

#[test]
fn a_canonical_validation_body_exposes_field_problems() {
    let body = br#"{"error":{"type":"validation_error","message":"Invalid","errors":{"from":["required",7],"to":"not a list"}}}"#;
    let headers = vec![("Anypost-Request-Id".to_string(), "req_1".to_string())];
    let parts = api_error_parts(422, body, &headers);
    assert_eq!(parts.kind, ErrorKind::Validation);
    assert_eq!(parts.error_type, "validation_error");
    assert_eq!(parts.message, "Invalid");
    assert_eq!(parts.request_id.as_deref(), Some("req_1"));
    assert_eq!(
        parts.errors,
        vec![("from".to_string(), vec!["required".to_string()])]
    );
    assert!(!parts.retry_after_applies);
    assert_eq!(parts.body, Some(value_of(std::str::from_utf8(body).unwrap())));
}

#[test]
fn field_problems_belong_to_validation_errors_only() {
    let body = br#"{"error":{"type":"not_found","message":"gone","errors":{"id":["unknown"]}}}"#;
    let parts = api_error_parts(404, body, &[]);
    assert_eq!(parts.kind, ErrorKind::NotFound);
    assert!(parts.errors.is_empty());
    assert_eq!(parts.request_id, None);
}

#[test]
fn a_flat_body_reads_its_code_and_message() {
    let parts = api_error_parts(413, br#"{"error":"payload_too_large"}"#, &[]);
    assert_eq!(parts.kind, ErrorKind::PayloadTooLarge);
    assert_eq!(parts.error_type, "payload_too_large");
    assert_eq!(parts.message, "payload too large");
    let parts = api_error_parts(429, br#"{"error":"rate_limit_exceeded","message":"slow down"}"#, &[]);
    assert_eq!(parts.kind, ErrorKind::RateLimit);
    assert_eq!(parts.message, "slow down");
    assert!(parts.retry_after_applies);
}

#[test]
fn a_body_that_is_not_json_falls_back_on_the_status() {
    let parts = api_error_parts(503, b"<html>bad gateway</html>", &[]);
    assert_eq!(parts.kind, ErrorKind::Api);
    assert_eq!(parts.error_type, "internal_error");
    assert_eq!(parts.message, "Anypost request failed with status 503.");
    assert_eq!(parts.body, None);
    let parts = api_error_parts(401, br#"{"error":{"message":"who are you"}}"#, &[]);
    assert_eq!(parts.kind, ErrorKind::Authentication);
    assert_eq!(parts.error_type, "authentication_error");
    assert_eq!(parts.message, "who are you");
}

#[test]
fn a_page_reads_rows_flag_and_cursor() {
    let page = page_from_body(
        br#"{"data":[{"id":"domain_1"},{"id":"domain_2"}],"has_more":true,"next_cursor":"cursor_2"}"#,
    );
    assert_eq!(page.data.len(), 2);
    assert_eq!(page.data[0].as_value()["id"], "domain_1");
    assert_eq!(page.data[1].as_value()["id"], "domain_2");
    assert!(page.has_more);
    assert_eq!(page.next_cursor.as_deref(), Some("cursor_2"));
}

#[test]
fn the_last_page_carries_no_cursor() {
    let page = page_from_body(br#"{"data":[],"has_more":false,"next_cursor":"stale"}"#);
    assert!(!page.has_more);
    assert_eq!(page.next_cursor, None);
    let page = page_from_body(br#"{"data":"nope","has_more":"yes","next_cursor":"c"}"#);
    assert!(page.data.is_empty());
    assert!(!page.has_more);
    assert_eq!(page.next_cursor, None);
    let page = page_from_body(b"");
    assert!(page.data.is_empty() && !page.has_more && page.next_cursor.is_none());
}

#[test]
fn page_parts_keep_the_cursor_only_while_more_pages_exist() {
    let rows = vec![Response::new(value_of(r#"{"id":1}"#))];
    let page = page_from_parts(rows, Some(true), Some("c".to_string()));
    assert_eq!(page.data.len(), 1);
    assert!(page.has_more);
    assert_eq!(page.next_cursor.as_deref(), Some("c"));
    let page = page_from_parts(Vec::new(), None, Some("c".to_string()));
    assert!(!page.has_more);
    assert_eq!(page.next_cursor, None);
}

#[test]
fn rows_come_from_the_data_array() {
    let rows = rows_from_body(br#"{"data":[{"email":"a@x.com","topic":"marketing"}]}"#);
    assert_eq!(rows.len(), 1);
    assert_eq!(rows[0].as_value()["topic"], "marketing");
    assert!(rows_from_body(br#"{"items":[1]}"#).is_empty());
}

#[test]
fn only_a_json_object_is_kept() {
    assert_eq!(json_object_or_empty(br#"{"a":1}"#), value_of(r#"{"a":1}"#));
    assert_eq!(json_object_or_empty(b"[1]"), value_of("{}"));
    assert_eq!(json_object_or_empty(b"not json"), value_of("{}"));
}

#[test]
fn a_walk_gathers_rows_and_follows_the_cursor() {
    let first = page_from_body(br#"{"data":[{"id":1}],"has_more":true,"next_cursor":"c2"}"#);
    let (items, next) = absorb_page(Vec::new(), first);
    assert_eq!(items.len(), 1);
    assert_eq!(next.as_deref(), Some("c2"));
    let last = page_from_body(br#"{"data":[{"id":2},{"id":3}],"has_more":false}"#);
    let (items, next) = absorb_page(items, last);
    assert_eq!(items.len(), 3);
    assert_eq!(items[2].as_value()["id"], 3);
    assert_eq!(next, None);
}

#[test]
fn a_response_reads_as_its_json_value() {
    let r = Response::new(value_of(r#"{"id":"email_1","n":2}"#));
    assert_eq!(r["id"], "email_1");
    assert_eq!(r.get("n").and_then(|v| v.as_u64()), Some(2));
}

#[test]
fn request_bodies_are_written_as_json_text() {
    assert_eq!(encode_body(None), Ok(None));
    let bytes = encode_body(Some(value_of(r#"{"to":["a@example.com"]}"#))).unwrap().unwrap();
    assert_eq!(bytes, br#"{"to":["a@example.com"]}"#.to_vec());
}
