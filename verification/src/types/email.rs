//! Typed builders for the send endpoints.
//!
//! Build a [`SendEmail`] with [`SendEmail::new`] and chain setters. Attachment
//! `content` is the raw file bytes; it is base64-encoded on the wire. Do not
//! pre-encode it.

use vstd::prelude::*;

use crate::crypto::{base64_encode, base64_standard};
use crate::types::params::{appended, opt_view, owned_strings, string_views};

verus! {

broadcast use vstd::string::group_string_axioms;

/// One or more `Reply-To` addresses.
#[derive(Clone, Debug)]
pub enum ReplyTo {
    One(String),
    Many(Vec<String>),
}

/// What a [`ReplyTo`] holds.
pub enum ReplyToView {
    One(Seq<char>),
    Many(Seq<Seq<char>>),
}

impl View for ReplyTo {
    type V = ReplyToView;

    open spec fn view(&self) -> ReplyToView {
        match self {
            ReplyTo::One(a) => ReplyToView::One(a@),
            ReplyTo::Many(v) => ReplyToView::Many(string_views(v@)),
        }
    }
}

/// Per-message override of the sending domain's open/click tracking.
#[derive(Clone, Copy, Debug, Default, PartialEq, Eq, Structural)]
pub struct Tracking {
    pub opens: Option<bool>,
    pub clicks: Option<bool>,
}

impl Tracking {
    /// Neither override set.
    pub fn new() -> (t: Self)
        ensures
            t == (Tracking { opens: None, clicks: None }),
    {
        Tracking { opens: None, clicks: None }
    }

    /// Override open tracking.
    pub fn opens(self, enabled: bool) -> (t: Self)
        ensures
            t == (Tracking { opens: Some(enabled), ..self }),
    {
        Tracking { opens: Some(enabled), clicks: self.clicks }
    }

    /// Override click tracking.
    pub fn clicks(self, enabled: bool) -> (t: Self)
        ensures
            t == (Tracking { clicks: Some(enabled), ..self }),
    {
        Tracking { opens: self.opens, clicks: Some(enabled) }
    }
}

/// One-click unsubscribe header behavior.
#[derive(Clone, Copy, Debug, PartialEq, Eq, Structural)]
pub enum UnsubscribeMode {
    /// Inject the headers (sent as `generate`).
    Generate,
    /// Inject nothing (sent as `none`).
    Disabled,
}

/// One-click unsubscribe configuration for a send.
#[derive(Clone, Debug)]
pub struct Unsubscribe {
    pub mode: UnsubscribeMode,
    pub display_name: Option<String>,
}

/// What an [`Unsubscribe`] holds.
pub struct UnsubscribeView {
    pub mode: UnsubscribeMode,
    pub display_name: Option<Seq<char>>,
}

impl View for Unsubscribe {
    type V = UnsubscribeView;

    open spec fn view(&self) -> UnsubscribeView {
        UnsubscribeView { mode: self.mode, display_name: opt_view(self.display_name) }
    }
}

impl Unsubscribe {
    /// Mint a per-recipient signed token and inject RFC 8058 headers. Requires
    /// a `topic` on the send.
    pub fn generate() -> (u: Self)
        ensures
            u@ == (UnsubscribeView { mode: UnsubscribeMode::Generate, display_name: None }),
    {
        Unsubscribe { mode: UnsubscribeMode::Generate, display_name: None }
    }

    /// No header injection, for transactional sends that must not carry
    /// unsubscribe semantics.
    pub fn none() -> (u: Self)
        ensures
            u@ == (UnsubscribeView { mode: UnsubscribeMode::Disabled, display_name: None }),
    {
        Unsubscribe { mode: UnsubscribeMode::Disabled, display_name: None }
    }

    /// The display name shown on the unsubscribe page.
    pub fn display_name(self, name: &str) -> (u: Self)
        ensures
            u@ == (UnsubscribeView { display_name: Some(name@), ..self@ }),
    {
        Unsubscribe { mode: self.mode, display_name: Some(name.to_string()) }
    }
}

/// An inline attachment. `content` is raw bytes; it is base64-encoded on the
/// wire.
#[derive(Clone, Debug)]
pub struct Attachment {
    pub filename: String,
    pub content: Vec<u8>,
    pub content_type: Option<String>,
    pub content_id: Option<String>,
}

/// What an [`Attachment`] holds.
pub struct AttachmentView {
    pub filename: Seq<char>,
    pub content: Seq<u8>,
    pub content_type: Option<Seq<char>>,
    pub content_id: Option<Seq<char>>,
}

impl View for Attachment {
    type V = AttachmentView;

    open spec fn view(&self) -> AttachmentView {
        AttachmentView {
            filename: self.filename@,
            content: self.content@,
            content_type: opt_view(self.content_type),
            content_id: opt_view(self.content_id),
        }
    }
}

impl Attachment {
    /// An attachment from raw bytes (e.g. what `std::fs::read` returns).
    pub fn new(filename: &str, content: Vec<u8>) -> (a: Self)
        ensures
            a@ == (AttachmentView {
                filename: filename@,
                content: content@,
                content_type: None,
                content_id: None,
            }),
    {
        Attachment { filename: filename.to_string(), content, content_type: None, content_id: None }
    }

    /// Set the MIME type.
    pub fn content_type(self, content_type: &str) -> (a: Self)
        ensures
            a@ == (AttachmentView { content_type: Some(content_type@), ..self@ }),
    {
        Attachment {
            filename: self.filename,
            content: self.content,
            content_type: Some(content_type.to_string()),
            content_id: self.content_id,
        }
    }

    /// Set a Content-ID, marking the attachment inline (referenced via `cid:`).
    pub fn content_id(self, content_id: &str) -> (a: Self)
        ensures
            a@ == (AttachmentView { content_id: Some(content_id@), ..self@ }),
    {
        Attachment {
            filename: self.filename,
            content: self.content,
            content_type: self.content_type,
            content_id: Some(content_id.to_string()),
        }
    }

    /// The content as it goes on the wire: standard base64.
    pub fn encoded_content(&self) -> (s: String)
        ensures
            s@ == base64_standard(self.content@),
    {
        base64_encode(self.content.as_slice())
    }
}

// ---------------------------------------------------------------------------
// Custom headers, held as a list whose later entries win
// ---------------------------------------------------------------------------

/// The header map a list of pairs denotes: each pair sets its name, later
/// pairs overriding earlier ones.
pub open spec fn pairs_map(pairs: Seq<(Seq<char>, Seq<char>)>) -> Map<Seq<char>, Seq<char>>
    decreases pairs.len(),
{
    if pairs.len() == 0 {
        Map::empty()
    } else {
        pairs_map(pairs.drop_last()).insert(pairs.last().0, pairs.last().1)
    }
}

/// `pairs` without the entries named `name`.
pub open spec fn without_name(pairs: Seq<(Seq<char>, Seq<char>)>, name: Seq<char>) -> Seq<
    (Seq<char>, Seq<char>),
>
    decreases pairs.len(),
{
    if pairs.len() == 0 {
        Seq::empty()
    } else {
        let rest = without_name(pairs.drop_last(), name);
        if pairs.last().0 == name {
            rest
        } else {
            rest.push(pairs.last())
        }
    }
}

/// The characters of each name/value pair.
pub open spec fn header_pair_views(pairs: Seq<(String, String)>) -> Seq<(Seq<char>, Seq<char>)> {
    pairs.map_values(|p: (String, String)| (p.0@, p.1@))
}

/// Removing a name's entries removes it from the map.
pub proof fn lemma_without_name(pairs: Seq<(Seq<char>, Seq<char>)>, name: Seq<char>)
    ensures
        pairs_map(without_name(pairs, name)) == pairs_map(pairs).remove(name),
    decreases pairs.len(),
{
    if pairs.len() > 0 {
        lemma_without_name(pairs.drop_last(), name);
        let rest = without_name(pairs.drop_last(), name);
        if pairs.last().0 != name {
            assert(rest.push(pairs.last()).drop_last() =~= rest);
        }
        assert(pairs_map(without_name(pairs, name)) =~= pairs_map(pairs).remove(name));
    } else {
        assert(pairs_map(pairs).remove(name) =~= Map::<Seq<char>, Seq<char>>::empty());
    }
}

/// Sets `name` to `value` in a header list: drops the name's earlier
/// entries, then appends the new one.
fn set_header(pairs: Vec<(String, String)>, name: String, value: String) -> (r: Vec<(String, String)>)
    ensures
        pairs_map(header_pair_views(r@)) == pairs_map(header_pair_views(pairs@)).insert(
            name@,
            value@,
        ),
{
    let ghost views = header_pair_views(pairs@);
    let mut kept: Vec<(String, String)> = Vec::new();
    let mut i: usize = 0;
    while i < pairs.len()
        invariant
            0 <= i <= pairs@.len(),
            views == header_pair_views(pairs@),
            header_pair_views(kept@) == without_name(views.take(i as int), name@),
        decreases pairs.len() - i,
    {
        assert(views.take(i + 1).drop_last() =~= views.take(i as int));
        assert(views[i as int] == (pairs@[i as int].0@, pairs@[i as int].1@));
        if pairs[i].0 != name {
            let ghost before = kept@;
            kept.push((pairs[i].0.clone(), pairs[i].1.clone()));
            assert(header_pair_views(kept@) =~= header_pair_views(before).push(views[i as int]));
        }
        i = i + 1;
    }
    assert(views.take(pairs@.len() as int) =~= views);
    proof {
        lemma_without_name(views, name@);
    }
    let ghost before = kept@;
    kept.push((name, value));
    assert(header_pair_views(kept@) =~= header_pair_views(before).push((name@, value@)));
    assert(header_pair_views(kept@).drop_last() =~= header_pair_views(before));
    assert(pairs_map(header_pair_views(kept@)) =~= pairs_map(views).insert(name@, value@));
    kept
}

// ---------------------------------------------------------------------------
// Messages
// ---------------------------------------------------------------------------

/// A single message. Build it with [`SendEmail::new`] (or [`SendEmail::to`]
/// for a batch entry that inherits its sender) and chain setters.
///
/// One of `text`, `html`, or `template_id` must also be set (enforced by the
/// API).
#[derive(Clone, Debug)]
pub struct SendEmail {
    pub from: Option<String>,
    pub to: Vec<String>,
    pub cc: Vec<String>,
    pub bcc: Vec<String>,
    pub reply_to: Option<ReplyTo>,
    pub subject: Option<String>,
    pub text: Option<String>,
    pub html: Option<String>,
    pub template_id: Option<String>,
    /// Custom headers; a later entry for a name overrides an earlier one.
    pub headers: Option<Vec<(String, String)>>,
    pub attachments: Vec<Attachment>,
    pub tags: Vec<String>,
    pub tracking: Option<Tracking>,
    pub variables: Option<serde_json::Value>,
    pub campaign: Option<String>,
    pub topic: Option<String>,
    pub unsubscribe: Option<Unsubscribe>,
}

/// What a [`SendEmail`] holds.
pub struct SendEmailView {
    pub from: Option<Seq<char>>,
    pub to: Seq<Seq<char>>,
    pub cc: Seq<Seq<char>>,
    pub bcc: Seq<Seq<char>>,
    pub reply_to: Option<ReplyToView>,
    pub subject: Option<Seq<char>>,
    pub text: Option<Seq<char>>,
    pub html: Option<Seq<char>>,
    pub template_id: Option<Seq<char>>,
    pub headers: Option<Map<Seq<char>, Seq<char>>>,
    pub attachments: Seq<AttachmentView>,
    pub tags: Seq<Seq<char>>,
    pub tracking: Option<Tracking>,
    pub variables: Option<serde_json::Value>,
    pub campaign: Option<Seq<char>>,
    pub topic: Option<Seq<char>>,
    pub unsubscribe: Option<UnsubscribeView>,
}

/// The optional reply-to's contents.
pub open spec fn reply_to_view(r: Option<ReplyTo>) -> Option<ReplyToView> {
    match r {
        Some(x) => Some(x@),
        None => None,
    }
}

/// The optional header list's map.
pub open spec fn headers_view(h: Option<Vec<(String, String)>>) -> Option<Map<Seq<char>, Seq<char>>> {
    match h {
        Some(v) => Some(pairs_map(header_pair_views(v@))),
        None => None,
    }
}

/// The optional unsubscribe configuration's contents.
pub open spec fn unsubscribe_view(u: Option<Unsubscribe>) -> Option<UnsubscribeView> {
    match u {
        Some(x) => Some(x@),
        None => None,
    }
}

/// The contents of each attachment.
pub open spec fn attachment_views(a: Seq<Attachment>) -> Seq<AttachmentView> {
    a.map_values(|x: Attachment| x@)
}

/// The characters of each string slice.
pub open spec fn str_views(items: Seq<&str>) -> Seq<Seq<char>> {
    items.map_values(|s: &str| s@)
}

/// `start` with each pair set in turn.
pub open spec fn set_all(start: Map<Seq<char>, Seq<char>>, pairs: Seq<(&str, &str)>) -> Map<
    Seq<char>,
    Seq<char>,
>
    decreases pairs.len(),
{
    if pairs.len() == 0 {
        start
    } else {
        set_all(start, pairs.drop_last()).insert(pairs.last().0@, pairs.last().1@)
    }
}

impl View for SendEmail {
    type V = SendEmailView;

    open spec fn view(&self) -> SendEmailView {
        SendEmailView {
            from: opt_view(self.from),
            to: string_views(self.to@),
            cc: string_views(self.cc@),
            bcc: string_views(self.bcc@),
            reply_to: reply_to_view(self.reply_to),
            subject: opt_view(self.subject),
            text: opt_view(self.text),
            html: opt_view(self.html),
            template_id: opt_view(self.template_id),
            headers: headers_view(self.headers),
            attachments: attachment_views(self.attachments@),
            tags: string_views(self.tags@),
            tracking: self.tracking,
            variables: self.variables,
            campaign: opt_view(self.campaign),
            topic: opt_view(self.topic),
            unsubscribe: unsubscribe_view(self.unsubscribe),
        }
    }
}

/// A message with only recipients set.
pub open spec fn recipients_only(to: Seq<Seq<char>>) -> SendEmailView {
    SendEmailView {
        from: None,
        to,
        cc: Seq::empty(),
        bcc: Seq::empty(),
        reply_to: None,
        subject: None,
        text: None,
        html: None,
        template_id: None,
        headers: None,
        attachments: Seq::empty(),
        tags: Seq::empty(),
        tracking: None,
        variables: None,
        campaign: None,
        topic: None,
        unsubscribe: None,
    }
}

impl SendEmail {
    /// Start a batch entry with its recipients and no sender: the batch
    /// `defaults` supply `from` (and any other field the entry omits).
    pub fn to(recipients: &[&str]) -> (m: Self)
        ensures
            m@ == recipients_only(str_views(recipients@)),
    {
        let m = SendEmail {
            from: None,
            to: owned_strings(recipients),
            cc: Vec::new(),
            bcc: Vec::new(),
            reply_to: None,
            subject: None,
            text: None,
            html: None,
            template_id: None,
            headers: None,
            attachments: Vec::new(),
            tags: Vec::new(),
            tracking: None,
            variables: None,
            campaign: None,
            topic: None,
            unsubscribe: None,
        };
        assert(string_views(m.cc@) =~= Seq::<Seq<char>>::empty());
        assert(string_views(m.bcc@) =~= Seq::<Seq<char>>::empty());
        assert(string_views(m.tags@) =~= Seq::<Seq<char>>::empty());
        assert(attachment_views(m.attachments@) =~= Seq::<AttachmentView>::empty());
        assert(m@ == recipients_only(str_views(recipients@)));
        m
    }

    /// Start a message with the required sender and recipients.
    pub fn new(from: &str, to: &[&str]) -> (m: Self)
        ensures
            m@ == (SendEmailView { from: Some(from@), ..recipients_only(str_views(to@)) }),
    {
        SendEmail::to(to).from(from)
    }

    /// Set (or override) the sender.
    pub fn from(self, from: &str) -> (m: Self)
        ensures
            m@ == (SendEmailView { from: Some(from@), ..self@ }),
    {
        SendEmail { from: Some(from.to_string()), ..self }
    }

    /// Add carbon-copy recipients.
    pub fn cc(self, addrs: &[&str]) -> (m: Self)
        ensures
            m@ == (SendEmailView { cc: self@.cc + str_views(addrs@), ..self@ }),
    {
        let cc = appended(self.cc, addrs);
        SendEmail { cc, ..self }
    }

    /// Add blind-carbon-copy recipients.
    pub fn bcc(self, addrs: &[&str]) -> (m: Self)
        ensures
            m@ == (SendEmailView { bcc: self@.bcc + str_views(addrs@), ..self@ }),
    {
        let bcc = appended(self.bcc, addrs);
        SendEmail { bcc, ..self }
    }

    /// Set a single `Reply-To` address.
    pub fn reply_to(self, addr: &str) -> (m: Self)
        ensures
            m@ == (SendEmailView { reply_to: Some(ReplyToView::One(addr@)), ..self@ }),
    {
        SendEmail { reply_to: Some(ReplyTo::One(addr.to_string())), ..self }
    }

    /// Set multiple `Reply-To` addresses (maximum 10).
    pub fn reply_to_many(self, addrs: &[&str]) -> (m: Self)
        ensures
            m@ == (SendEmailView {
                reply_to: Some(ReplyToView::Many(str_views(addrs@))),
                ..self@
            }),
    {
        SendEmail { reply_to: Some(ReplyTo::Many(owned_strings(addrs))), ..self }
    }

    pub fn subject(self, subject: &str) -> (m: Self)
        ensures
            m@ == (SendEmailView { subject: Some(subject@), ..self@ }),
    {
        SendEmail { subject: Some(subject.to_string()), ..self }
    }

    pub fn text(self, text: &str) -> (m: Self)
        ensures
            m@ == (SendEmailView { text: Some(text@), ..self@ }),
    {
        SendEmail { text: Some(text.to_string()), ..self }
    }

    pub fn html(self, html: &str) -> (m: Self)
        ensures
            m@ == (SendEmailView { html: Some(html@), ..self@ }),
    {
        SendEmail { html: Some(html.to_string()), ..self }
    }

    pub fn template_id(self, template_id: &str) -> (m: Self)
        ensures
            m@ == (SendEmailView { template_id: Some(template_id@), ..self@ }),
    {
        SendEmail { template_id: Some(template_id.to_string()), ..self }
    }

    /// Add a single custom header (a later value for the same name wins).
    pub fn header(self, name: &str, value: &str) -> (m: Self)
        ensures
            m@ == (SendEmailView {
                headers: Some(
                    match self@.headers {
                        Some(h) => h,
                        None => Map::empty(),
                    }.insert(name@, value@),
                ),
                ..self@
            }),
    {
        let current = match self.headers {
            Some(h) => h,
            None => Vec::new(),
        };
        proof {
            if self.headers is None {
                assert(pairs_map(header_pair_views(current@)) =~= Map::<
                    Seq<char>,
                    Seq<char>,
                >::empty());
            }
        }
        let updated = set_header(current, name.to_string(), value.to_string());
        SendEmail { headers: Some(updated), ..self }
    }

    /// Add several custom headers, in order.
    pub fn headers(self, headers: &[(&str, &str)]) -> (m: Self)
        ensures
            m@ == (SendEmailView {
                headers: Some(
                    set_all(
                        match self@.headers {
                            Some(h) => h,
                            None => Map::empty(),
                        },
                        headers@,
                    ),
                ),
                ..self@
            }),
    {
        let ghost start = match self@.headers {
            Some(h) => h,
            None => Map::<Seq<char>, Seq<char>>::empty(),
        };
        let mut current = match self.headers {
            Some(h) => h,
            None => Vec::new(),
        };
        proof {
            if self.headers is None {
                assert(pairs_map(header_pair_views(current@)) =~= Map::<
                    Seq<char>,
                    Seq<char>,
                >::empty());
            }
        }
        let mut i: usize = 0;
        while i < headers.len()
            invariant
                0 <= i <= headers@.len(),
                pairs_map(header_pair_views(current@)) == set_all(start, headers@.take(i as int)),
            decreases headers.len() - i,
        {
            let (name, value) = headers[i];
            let ghost before = pairs_map(header_pair_views(current@));
            current = set_header(current, name.to_string(), value.to_string());
            assert(headers@.take(i + 1).drop_last() =~= headers@.take(i as int));
            assert(headers@.take(i + 1).last() == headers@[i as int]);
            i = i + 1;
        }
        assert(headers@.take(headers@.len() as int) =~= headers@);
        SendEmail { headers: Some(current), ..self }
    }

    /// Add one attachment.
    pub fn attachment(self, attachment: Attachment) -> (m: Self)
        ensures
            m@ == (SendEmailView { attachments: self@.attachments.push(attachment@), ..self@ }),
    {
        let mut attachments = self.attachments;
        let ghost before = attachments@;
        let ghost added = attachment@;
        attachments.push(attachment);
        assert(attachment_views(attachments@) =~= attachment_views(before).push(added));
        SendEmail { attachments, ..self }
    }

    /// Add several attachments, in order.
    pub fn attachments(self, attachments: Vec<Attachment>) -> (m: Self)
        ensures
            m@ == (SendEmailView {
                attachments: self@.attachments + attachment_views(attachments@),
                ..self@
            }),
    {
        let mut all = self.attachments;
        let mut more = attachments;
        let ghost before = all@;
        let ghost added = more@;
        all.append(&mut more);
        assert(attachment_views(all@) =~= attachment_views(before) + attachment_views(added));
        SendEmail { attachments: all, ..self }
    }

    /// Add one tag.
    pub fn tag(self, tag: &str) -> (m: Self)
        ensures
            m@ == (SendEmailView { tags: self@.tags.push(tag@), ..self@ }),
    {
        let mut tags = self.tags;
        let ghost before = tags@;
        tags.push(tag.to_string());
        assert(string_views(tags@) =~= string_views(before).push(tag@));
        SendEmail { tags, ..self }
    }

    /// Add several tags, in order.
    pub fn tags(self, tags: &[&str]) -> (m: Self)
        ensures
            m@ == (SendEmailView { tags: self@.tags + str_views(tags@), ..self@ }),
    {
        let all = appended(self.tags, tags);
        SendEmail { tags: all, ..self }
    }

    pub fn tracking(self, tracking: Tracking) -> (m: Self)
        ensures
            m@ == (SendEmailView { tracking: Some(tracking), ..self@ }),
    {
        SendEmail { tracking: Some(tracking), ..self }
    }

    /// Set the per-send substitution map (a JSON value, `None` to clear it).
    pub fn variables(self, variables: Option<serde_json::Value>) -> (m: Self)
        ensures
            m@ == (SendEmailView { variables, ..self@ }),
    {
        SendEmail { variables, ..self }
    }

    pub fn campaign(self, campaign: &str) -> (m: Self)
        ensures
            m@ == (SendEmailView { campaign: Some(campaign@), ..self@ }),
    {
        SendEmail { campaign: Some(campaign.to_string()), ..self }
    }

    pub fn topic(self, topic: &str) -> (m: Self)
        ensures
            m@ == (SendEmailView { topic: Some(topic@), ..self@ }),
    {
        SendEmail { topic: Some(topic.to_string()), ..self }
    }

    pub fn unsubscribe(self, unsubscribe: Unsubscribe) -> (m: Self)
        ensures
            m@ == (SendEmailView { unsubscribe: Some(unsubscribe@), ..self@ }),
    {
        SendEmail { unsubscribe: Some(unsubscribe), ..self }
    }
}

/// A batch of 1 to 100 messages. `defaults` fills any field an entry omits
/// (`to` is always per-entry).
#[derive(Clone, Debug)]
pub struct BatchEmail {
    pub defaults: Option<serde_json::Value>,
    pub emails: Vec<SendEmail>,
}

impl BatchEmail {
    /// A batch of these messages, with no defaults.
    pub fn new(emails: Vec<SendEmail>) -> (b: Self)
        ensures
            b.defaults is None,
            b.emails@ == emails@,
    {
        BatchEmail { defaults: None, emails }
    }

    /// Set batch-wide defaults (a JSON object, `None` to clear them).
    pub fn defaults(self, defaults: Option<serde_json::Value>) -> (b: Self)
        ensures
            b.defaults == defaults,
            b.emails@ == self.emails@,
    {
        BatchEmail { defaults, emails: self.emails }
    }

    /// Add one more message.
    pub fn push(self, email: SendEmail) -> (b: Self)
        ensures
            b.defaults == self.defaults,
            b.emails@ == self.emails@.push(email),
    {
        let mut emails = self.emails;
        emails.push(email);
        BatchEmail { defaults: self.defaults, emails }
    }
}

} // verus!
