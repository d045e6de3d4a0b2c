use anypost::{
    unwrap_with_options, verify, verify_with_options, VerifyOptions,
    WebhookErrorReason,
};
use anypost::webhook::verify_at;
use hmac::{Hmac, Mac};
use sha2::Sha256;

type HmacSha256 = Hmac<Sha256>;

const SECRET: &str = "whsec_test_secret";

fn sign(secret: &str, timestamp: i64, payload: &[u8]) -> String {
    let mut mac = HmacSha256::new_from_slice(secret.as_bytes()).unwrap();
    mac.update(timestamp.to_string().as_bytes());
    mac.update(b".");
    mac.update(payload);
    hex::encode(mac.finalize().into_bytes())
}

fn at(timestamp: i64) -> VerifyOptions {
    VerifyOptions {
        tolerance_seconds: 300,
        now: Some(timestamp),
    }
}

#[test]
fn verifies_a_valid_signature() {
    let payload = br#"{"events":[]}"#;
    let header = format!("t=1000,v1={}", sign(SECRET, 1000, payload));
    assert!(verify_with_options(payload, &header, SECRET, &at(1000)).is_ok());
}

#[test]
fn accepts_any_matching_signature_during_rotation() {
    let payload = br#"{"events":[]}"#;
    let good = sign(SECRET, 1000, payload);
    let header = format!("t=1000,v1=deadbeefdeadbeef,v1={good}");
    assert!(verify_with_options(payload, &header, SECRET, &at(1000)).is_ok());
}

#[test]
fn rejects_a_tampered_signature() {
    let payload = br#"{"events":[]}"#;
    let header = format!("t=1000,v1={}", sign(SECRET, 1000, b"different"));
    let err = verify_with_options(payload, &header, SECRET, &at(1000)).unwrap_err();
    assert_eq!(err.reason(), WebhookErrorReason::NoMatch);
}

#[test]
fn rejects_an_out_of_tolerance_timestamp() {
    let payload = br#"{"events":[]}"#;
    let header = format!("t=1000,v1={}", sign(SECRET, 1000, payload));
    // now is 301s after the signed timestamp; tolerance is 300.
    let err = verify_with_options(payload, &header, SECRET, &at(1301)).unwrap_err();
    assert_eq!(err.reason(), WebhookErrorReason::TimestampOutOfTolerance);
}

#[test]
fn tolerance_zero_disables_the_freshness_check() {
    let payload = br#"{"events":[]}"#;
    let header = format!("t=1000,v1={}", sign(SECRET, 1000, payload));
    let options = VerifyOptions {
        tolerance_seconds: 0,
        now: Some(9_999_999),
    };
    assert!(verify_with_options(payload, &header, SECRET, &options).is_ok());
}

#[test]
fn rejects_a_malformed_header() {
    let err = verify(b"{}", "", SECRET).unwrap_err();
    assert_eq!(err.reason(), WebhookErrorReason::MalformedHeader);
}

#[test]
fn requires_a_timestamp() {
    let err = verify_with_options(b"{}", "v1=abc", SECRET, &at(1000)).unwrap_err();
    assert_eq!(err.reason(), WebhookErrorReason::NoTimestamp);
}

#[test]
fn requires_a_signature() {
    let err = verify_with_options(b"{}", "t=1000", SECRET, &at(1000)).unwrap_err();
    assert_eq!(err.reason(), WebhookErrorReason::NoSignatures);
}

#[test]
fn unwrap_returns_the_parsed_body() {
    let payload = br#"{"events":[{"type":"email.delivered","data":{"email_id":"email_1"}}]}"#;
    let header = format!("t=1000,v1={}", sign(SECRET, 1000, payload));
    let delivery = unwrap_with_options(payload, &header, SECRET, &at(1000)).unwrap();
    assert_eq!(delivery.as_value()["events"][0]["type"], "email.delivered");
    assert_eq!(delivery.as_value()["events"][0]["data"]["email_id"], "email_1");
}

// ---------------------------------------------------------------------------
// Further cases
// ---------------------------------------------------------------------------

#[test]
fn a_blank_header_is_malformed() {
    let err = verify_at(b"{}", " \t ", SECRET, 300, 1000).unwrap_err();
    assert_eq!(err.reason(), WebhookErrorReason::MalformedHeader);
    assert_eq!(err.message(), "The Anypost-Signature header is empty.");
}

#[test]
fn the_failure_messages_name_the_problem() {
    let err = verify_at(b"{}", "v1=abc", SECRET, 300, 1000).unwrap_err();
    assert_eq!(
        err.message(),
        "The Anypost-Signature header has no timestamp (t=)."
    );
    let err = verify_at(b"{}", "t=1000", SECRET, 300, 1000).unwrap_err();
    assert_eq!(
        err.message(),
        "The Anypost-Signature header has no v1= signature."
    );
    let err = verify_at(b"{}", "t=1000,v1=00", SECRET, 300, 1000).unwrap_err();
    assert_eq!(
        err.message(),
        "No signature in the header matched the computed signature."
    );
    let err = verify_at(b"{}", "t=1000,v1=00", SECRET, 300, 1301).unwrap_err();
    assert_eq!(
        err.message(),
        "Timestamp 1000 is older than the 300s tolerance."
    );
}

#[test]
fn the_edge_of_the_tolerance_window_is_accepted() {
    let payload = b"body";
    let header = format!("t=1000,v1={}", sign(SECRET, 1000, payload));
    assert!(verify_at(payload, &header, SECRET, 300, 1300).is_ok());
    assert!(verify_at(payload, &header, SECRET, 300, 1301).is_err());
    // A timestamp from the future is not too old.
    assert!(verify_at(payload, &header, SECRET, 300, 0).is_ok());
}

#[test]
fn components_are_trimmed_and_unknown_ones_ignored() {
    let payload = b"body";
    let header = format!(
        " t = 1000 , junk, x=1 ,v0=zz,  v1 =  {}  ",
        sign(SECRET, 1000, payload)
    );
    assert!(verify_at(payload, &header, SECRET, 300, 1000).is_ok());
}

#[test]
fn leading_zeros_in_the_timestamp_do_not_change_what_is_signed() {
    let payload = b"body";
    // The signed text is the timestamp's canonical decimal form.
    let header = format!("t=0001000,v1={}", sign(SECRET, 1000, payload));
    assert!(verify_at(payload, &header, SECRET, 0, 0).is_ok());
}

#[test]
fn a_later_timestamp_component_replaces_an_earlier_one() {
    let payload = b"body";
    let header = format!("t=5,t=1000,v1={}", sign(SECRET, 1000, payload));
    assert!(verify_at(payload, &header, SECRET, 0, 0).is_ok());
    // A non-numeric timestamp is ignored rather than replacing a good one.
    let header = format!("t=1000,t=abc,v1={}", sign(SECRET, 1000, payload));
    assert!(verify_at(payload, &header, SECRET, 0, 0).is_ok());
}

#[test]
fn an_overflowing_timestamp_counts_as_missing() {
    let err = verify_at(b"{}", "t=99999999999999999999,v1=ab", SECRET, 0, 0).unwrap_err();
    assert_eq!(err.reason(), WebhookErrorReason::NoTimestamp);
}

#[test]
fn a_signature_under_another_secret_does_not_match() {
    let payload = b"body";
    let header = format!("t=1000,v1={}", sign("whsec_other", 1000, payload));
    let err = verify_at(payload, &header, SECRET, 0, 0).unwrap_err();
    assert_eq!(err.reason(), WebhookErrorReason::NoMatch);
}

#[test]
fn uppercase_hex_does_not_match() {
    let payload = b"body";
    let header = format!("t=1000,v1={}", sign(SECRET, 1000, payload).to_uppercase());
    let err = verify_at(payload, &header, SECRET, 0, 0).unwrap_err();
    assert_eq!(err.reason(), WebhookErrorReason::NoMatch);
}

#[test]
fn unwrap_of_a_non_object_body_is_an_empty_object() {
    let payload = b"[1,2,3]";
    let header = format!("t=1000,v1={}", sign(SECRET, 1000, payload));
    let delivery = unwrap_with_options(payload, &header, SECRET, &at(1000)).unwrap();
    assert_eq!(
        delivery.as_value(),
        &serde_json::Value::Object(serde_json::Map::new())
    );
}

#[test]
fn unwrap_fails_as_verify_does() {
    let err = unwrap_with_options(b"{}", "t=1000,v1=00", SECRET, &at(1000)).unwrap_err();
    assert_eq!(err.reason(), WebhookErrorReason::NoMatch);
}

#[test]
fn default_options_hold_a_five_minute_window() {
    let options = VerifyOptions::default();
    assert_eq!(options.tolerance_seconds, 300);
    assert!(options.now.is_none());
}

#[test]
fn the_tolerance_is_measured_in_whole_seconds_of_age() {
    let payload = br#"{"events":[]}"#;
    let header = format!("t=1000,v1={}", sign(SECRET, 1000, payload));
    // A tolerance larger than any i64 still admits an old delivery.
    assert!(verify_at(payload, &header, SECRET, u64::MAX, i64::MAX).is_ok());
    // A clock behind the timestamp is never "too old".
    assert!(verify_at(payload, &header, SECRET, 1, i64::MIN).is_ok());
}

#[test]
fn without_a_given_time_the_clock_rejects_an_old_delivery() {
    let payload = br#"{"events":[]}"#;
    let header = format!("t=1000,v1={}", sign(SECRET, 1000, payload));
    let options = VerifyOptions {
        tolerance_seconds: 300,
        now: None,
    };
    let err = verify_with_options(payload, &header, SECRET, &options).unwrap_err();
    assert_eq!(err.reason(), WebhookErrorReason::TimestampOutOfTolerance);
    let err = verify(payload, &header, SECRET).unwrap_err();
    assert_eq!(err.reason(), WebhookErrorReason::TimestampOutOfTolerance);
}
