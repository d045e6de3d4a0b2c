use anypost::request::{build_url, item_path, request_headers, uuid_from_bytes, uuid_v4};

fn is_hex(c: char) -> bool {
    c.is_ascii_digit() || ('a'..='f').contains(&c)
}

fn assert_uuid_v4(s: &str) {
    let chars: Vec<char> = s.chars().collect();
    assert_eq!(chars.len(), 36, "looks like a uuid");
    for (i, c) in chars.iter().enumerate() {
        if i == 8 || i == 13 || i == 18 || i == 23 {
            assert_eq!(*c, '-');
        } else {
            assert!(is_hex(*c));
        }
    }
    assert_eq!(chars[14], '4');
    assert!(matches!(chars[19], '8' | '9' | 'a' | 'b'));
}

#[test]
fn uuids_are_version_four() {
    for _ in 0..50 {
        assert_uuid_v4(&uuid_v4());
    }
    assert_ne!(uuid_v4(), uuid_v4());
}

fn find<'a>(headers: &'a [(String, String)], name: &str) -> Option<&'a str> {
    headers
        .iter()
        .find(|(k, _)| k == name)
        .map(|(_, v)| v.as_str())
}

#[test]
fn every_request_carries_the_base_headers() {
    let defaults = vec![("X-My-Header".to_string(), "value".to_string())];
    let hs = request_headers("ap_test_key", &defaults, true, false, None, 2);
    assert_eq!(hs.len(), 5);
    assert_eq!(hs[0], ("Authorization".to_string(), "Bearer ap_test_key".to_string()));
    assert_eq!(hs[1], ("Accept".to_string(), "application/json".to_string()));
    assert_eq!(hs[2].0, "User-Agent");
    assert!(hs[2].1.starts_with("anypost-rust/"));
    assert_eq!(hs[3], ("X-My-Header".to_string(), "value".to_string()));
    assert_eq!(hs[4], ("Content-Type".to_string(), "application/json".to_string()));
}

#[test]
fn requests_without_a_body_carry_no_content_type() {
    let hs = request_headers("k", &[], false, false, None, 2);
    assert_eq!(hs.len(), 3);
    assert_eq!(find(&hs, "Content-Type"), None);
}

#[test]
fn sends_get_an_automatic_idempotency_key() {
    let hs = request_headers("k", &[], true, true, None, 2);
    let key = find(&hs, "Idempotency-Key").expect("an idempotency key should be generated");
    assert_uuid_v4(key);
    // An empty explicit key counts as none.
    let hs = request_headers("k", &[], true, true, Some(""), 2);
    assert_uuid_v4(find(&hs, "Idempotency-Key").unwrap());
}

#[test]
fn an_explicit_idempotency_key_is_used_as_given() {
    let hs = request_headers("k", &[], true, true, Some("order-4823"), 2);
    assert_eq!(find(&hs, "Idempotency-Key"), Some("order-4823"));
    let hs = request_headers("k", &[], true, true, Some("order-4823"), 0);
    assert_eq!(find(&hs, "Idempotency-Key"), Some("order-4823"));
}

#[test]
fn no_automatic_key_without_retries_or_for_other_requests() {
    let hs = request_headers("k", &[], true, true, None, 0);
    assert_eq!(find(&hs, "Idempotency-Key"), None);
    let hs = request_headers("k", &[], true, false, Some("order-4823"), 2);
    assert_eq!(find(&hs, "Idempotency-Key"), None);
}

#[test]
fn item_paths_encode_their_segment() {
    assert_eq!(item_path("/domains", "domain_1", ""), "/domains/domain_1");
    assert_eq!(item_path("/domains", "domain_1", "/verify"), "/domains/domain_1/verify");
    assert_eq!(
        item_path("/suppressions", "alice@example.com", ""),
        "/suppressions/alice%40example.com"
    );
    assert_eq!(item_path("/suppressions/a", "*", ""), "/suppressions/a/%2A");
    assert_eq!(item_path("/x", "a b/c-d_e.f~g", ""), "/x/a%20b%2Fc-d_e.f~g");
    assert_eq!(item_path("/x", "é", ""), "/x/%C3%A9");
}

#[test]
fn urls_join_the_base_and_path() {
    assert_eq!(
        build_url("https://api.test/v1", "/domains/domain_1", &[]).unwrap(),
        "https://api.test/v1/domains/domain_1"
    );
}

#[test]
fn query_pairs_are_form_encoded() {
    let query = vec![
        ("event_type".to_string(), "email.bounced".to_string()),
        ("tags".to_string(), "welcome,onboarding".to_string()),
    ];
    assert_eq!(
        build_url("https://api.test/v1", "/events", &query).unwrap(),
        "https://api.test/v1/events?event_type=email.bounced&tags=welcome%2Conboarding"
    );
}

#[test]
fn a_bad_base_url_is_reported() {
    let err = build_url("not a url", "/email", &[]).unwrap_err();
    assert!(err.starts_with("could not build request URL: "));
}

#[test]
fn uuids_lay_out_the_drawn_bytes_in_order() {
    assert_eq!(uuid_from_bytes(&[0u8; 16]), "00000000-0000-4000-8000-000000000000");
    let bytes: Vec<u8> = (0u8..16).collect();
    assert_eq!(uuid_from_bytes(&bytes), "00010203-0405-4607-8809-0a0b0c0d0e0f");
    assert_eq!(uuid_from_bytes(&[0xffu8; 16]), "ffffffff-ffff-4fff-bfff-ffffffffffff");
}

#[test]
fn a_bad_url_reports_the_parse_error() {
    let expected = format!(
        "could not build request URL: {}",
        reqwest::Url::parse("not a url/email").unwrap_err()
    );
    assert_eq!(build_url("not a url", "/email", &[]).unwrap_err(), expected);
    let query = vec![("limit".to_string(), "5".to_string())];
    assert_eq!(build_url("not a url", "/email", &query).unwrap_err(), expected);
}
