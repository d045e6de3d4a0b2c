use anypost::types::email::{
    Attachment, BatchEmail, ReplyTo, SendEmail, Tracking, Unsubscribe, UnsubscribeMode,
};

fn header_value(m: &SendEmail, name: &str) -> Option<String> {
    m.headers.as_ref().and_then(|hs| {
        hs.iter()
            .rev()
            .find(|(k, _)| k == name)
            .map(|(_, v)| v.clone())
    })
}

#[test]
fn new_sets_sender_and_recipients() {
    let m = SendEmail::new(
        "Acme <you@yourdomain.com>",
        &["a@example.com", "b@example.com"],
    )
    .cc(&["team@example.com"])
    .reply_to("support@yourdomain.com")
    .subject("Receipt")
    .html("<p>Thanks</p>")
    .tag("receipt");
    assert_eq!(m.from.as_deref(), Some("Acme <you@yourdomain.com>"));
    assert_eq!(m.to, vec!["a@example.com".to_string(), "b@example.com".to_string()]);
    assert_eq!(m.cc, vec!["team@example.com".to_string()]);
    assert!(m.bcc.is_empty());
    assert!(matches!(&m.reply_to, Some(ReplyTo::One(a)) if a == "support@yourdomain.com"));
    assert_eq!(m.subject.as_deref(), Some("Receipt"));
    assert_eq!(m.html.as_deref(), Some("<p>Thanks</p>"));
    assert_eq!(m.tags, vec!["receipt".to_string()]);
    assert!(m.text.is_none());
}

#[test]
fn batch_entries_can_omit_the_sender() {
    let m = SendEmail::to(&["a@example.com"]).subject("Hi A").text("..");
    assert!(m.from.is_none());
    assert_eq!(m.to, vec!["a@example.com".to_string()]);
    let m = m.from("override@example.com");
    assert_eq!(m.from.as_deref(), Some("override@example.com"));
}

#[test]
fn later_headers_win() {
    let m = SendEmail::new("you@x.com", &["a@example.com"])
        .header("X-A", "1")
        .headers(&[("X-B", "2"), ("X-A", "3")])
        .header("X-C", "4");
    assert_eq!(header_value(&m, "X-A").as_deref(), Some("3"));
    assert_eq!(header_value(&m, "X-B").as_deref(), Some("2"));
    assert_eq!(header_value(&m, "X-C").as_deref(), Some("4"));
    let hs = m.headers.unwrap();
    assert_eq!(hs.len(), 3, "each name is held once");
}

#[test]
fn lists_accumulate_in_order() {
    let m = SendEmail::new("you@x.com", &["a@example.com"])
        .cc(&["c1"])
        .cc(&["c2", "c3"])
        .bcc(&["b1"])
        .tags(&["t1", "t2"])
        .tag("t3")
        .reply_to_many(&["r1", "r2"])
        .attachment(Attachment::new("a.txt", b"a".to_vec()))
        .attachments(vec![
            Attachment::new("b.txt", b"b".to_vec()),
            Attachment::new("c.txt", b"c".to_vec()),
        ]);
    assert_eq!(m.cc, vec!["c1", "c2", "c3"]);
    assert_eq!(m.bcc, vec!["b1"]);
    assert_eq!(m.tags, vec!["t1", "t2", "t3"]);
    assert!(matches!(&m.reply_to, Some(ReplyTo::Many(v)) if v == &vec!["r1".to_string(), "r2".to_string()]));
    let names: Vec<&str> = m.attachments.iter().map(|a| a.filename.as_str()).collect();
    assert_eq!(names, vec!["a.txt", "b.txt", "c.txt"]);
}

#[test]
fn remaining_setters() {
    let m = SendEmail::new("you@x.com", &["a@example.com"])
        .text("hi")
        .template_id("template_1")
        .campaign("spring")
        .topic("marketing")
        .tracking(Tracking::new().opens(true).clicks(false))
        .unsubscribe(Unsubscribe::generate().display_name("Acme"))
        .variables(Some(serde_json::Value::Bool(true)));
    assert_eq!(m.text.as_deref(), Some("hi"));
    assert_eq!(m.template_id.as_deref(), Some("template_1"));
    assert_eq!(m.campaign.as_deref(), Some("spring"));
    assert_eq!(m.topic.as_deref(), Some("marketing"));
    assert_eq!(
        m.tracking,
        Some(Tracking {
            opens: Some(true),
            clicks: Some(false)
        })
    );
    let u = m.unsubscribe.unwrap();
    assert_eq!(u.mode, UnsubscribeMode::Generate);
    assert_eq!(u.display_name.as_deref(), Some("Acme"));
    assert_eq!(m.variables, Some(serde_json::Value::Bool(true)));
    assert_eq!(Unsubscribe::none().mode, UnsubscribeMode::Disabled);
}

#[test]
fn attachments_encode_as_base64() {
    let a = Attachment::new("hello.txt", b"hello".to_vec()).content_type("text/plain");
    assert_eq!(a.filename, "hello.txt");
    assert_eq!(a.content_type.as_deref(), Some("text/plain"));
    assert_eq!(a.encoded_content(), "aGVsbG8=");
    let a = a.content_id("logo");
    assert_eq!(a.content_id.as_deref(), Some("logo"));
    assert_eq!(Attachment::new("e", Vec::new()).encoded_content(), "");
}

#[test]
fn batches_collect_messages() {
    let batch = BatchEmail::new(vec![
        SendEmail::to(&["a@example.com"]).subject("Hi A").text(".."),
        SendEmail::to(&["b@example.com"]).subject("Hi B").text(".."),
    ])
    .defaults(Some(serde_json::Value::Null))
    .push(SendEmail::to(&["c@example.com"]));
    assert_eq!(batch.emails.len(), 3);
    assert_eq!(batch.defaults, Some(serde_json::Value::Null));
    assert_eq!(batch.emails[2].to, vec!["c@example.com".to_string()]);
}
