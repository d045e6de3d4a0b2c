use anypost::types::params::{
    clean_query, page_query, without_param, EventListParams, ListParams, SuppressionListParams,
};

fn owned(pairs: &[(&str, Option<&str>)]) -> Vec<(String, Option<String>)> {
    pairs
        .iter()
        .map(|(k, v)| (k.to_string(), v.map(|s| s.to_string())))
        .collect()
}

#[test]
fn list_params_query_carries_limit_and_cursor() {
    let q = ListParams::new().limit(50).query();
    assert_eq!(q, owned(&[("limit", Some("50")), ("after", None)]));
    let q = ListParams::new().after("cursor_2").query();
    assert_eq!(q, owned(&[("limit", None), ("after", Some("cursor_2"))]));
    assert_eq!(ListParams::new().limit(7).walk_query(), owned(&[("limit", Some("7"))]));
}

#[test]
fn event_params_thread_every_filter() {
    let q = EventListParams::new()
        .event_type("email.bounced")
        .tags(&["welcome", "onboarding"])
        .query();
    let cleaned = clean_query(q);
    assert_eq!(
        cleaned,
        vec![
            ("event_type".to_string(), "email.bounced".to_string()),
            ("tags".to_string(), "welcome,onboarding".to_string()),
        ]
    );
}

#[test]
fn event_params_in_order() {
    let p = EventListParams::new()
        .limit(10)
        .after("c")
        .start("s")
        .end("e")
        .recipient("r")
        .email_id("i")
        .message_id("m")
        .domain("d")
        .topic("t")
        .campaign("cm")
        .template_id("tp")
        .tags(&["x"]);
    let keys: Vec<String> = p.query().into_iter().map(|(k, _)| k).collect();
    assert_eq!(
        keys,
        vec![
            "limit", "after", "start", "end", "event_type", "recipient", "email_id",
            "message_id", "domain", "topic", "campaign", "template_id", "tags"
        ]
    );
    assert_eq!(clean_query(p.query()).len(), 12);
}

#[test]
fn tags_accumulate() {
    let p = EventListParams::new().tags(&["a"]).tags(&["b", "c"]);
    assert_eq!(p.tags, vec!["a".to_string(), "b".to_string(), "c".to_string()]);
    assert_eq!(
        clean_query(p.query()),
        vec![("tags".to_string(), "a,b,c".to_string())]
    );
}

#[test]
fn suppression_params_query() {
    let q = SuppressionListParams::new()
        .reason("complaint")
        .email_contains("alice")
        .topic("marketing")
        .origin("manual")
        .limit(3)
        .after("c1")
        .query();
    assert_eq!(
        q,
        owned(&[
            ("limit", Some("3")),
            ("after", Some("c1")),
            ("email_contains", Some("alice")),
            ("topic", Some("marketing")),
            ("reason", Some("complaint")),
            ("origin", Some("manual")),
        ])
    );
}

#[test]
fn a_walk_drops_any_starting_cursor() {
    let q = EventListParams::new().after("c0").event_type("x").query();
    let walked = without_param(q, "after");
    assert!(walked.iter().all(|(k, _)| k != "after"));
    assert_eq!(walked.len(), 12);
}

#[test]
fn later_pages_add_the_cursor() {
    let base = ListParams::new().walk_query();
    assert_eq!(page_query(&base, &None), owned(&[("limit", None)]));
    assert_eq!(
        page_query(&base, &Some("c1".to_string())),
        owned(&[("limit", None), ("after", Some("c1"))])
    );
}
