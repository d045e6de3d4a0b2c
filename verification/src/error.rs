//! How a failed HTTP response is classified.
//!
//! The error type is keyed primarily on the canonical, machine-readable
//! `error.type`, falling back to the HTTP status when the type is unknown or
//! absent. The response body is read into an [`ErrorEnvelope`] (canonical or
//! flat) and its field-level problems.

use vstd::prelude::*;

use crate::json::{
    as_array, as_entries, as_string, doc_member, doc_member_of, entry_views, is_object,
    json_array, json_entries, json_member, json_string, member, member_string, member_string_of,
    parse_json, parsed_json,
};
use crate::text::{
    dec_chars, eq_ignore_ascii_case, eq_ignore_ascii_case_spec, push_decimal, push_str,
    replace_char, replace_char_in, str_eq,
};
use crate::types::params::{opt_view, string_views};

verus! {

broadcast use vstd::string::group_string_axioms;

/// The family an API error belongs to; each corresponds to one variant of
/// the client's error type.
#[derive(Clone, Copy, Debug, PartialEq, Eq, Structural)]
pub enum ErrorKind {
    /// `validation_error` (400/422).
    Validation,
    /// `authentication_error` (401).
    Authentication,
    /// `permission_error` (403).
    Permission,
    /// `not_found` (404).
    NotFound,
    /// `conflict`, `idempotency_concurrent`, or `webhook_rotation_in_progress` (409).
    Conflict,
    /// `idempotency_mismatch` (422).
    IdempotencyMismatch,
    /// `rate_limit_exceeded` (429).
    RateLimit,
    /// `payload_too_large` (413).
    PayloadTooLarge,
    /// A server error (5xx), including `internal_error` and `provisioning_error`.
    Api,
}

/// The kind named by a canonical error type, if the type is one the API
/// documents.
pub open spec fn kind_for_type(t: Seq<char>) -> Option<ErrorKind> {
    if t == "validation_error"@ {
        Some(ErrorKind::Validation)
    } else if t == "authentication_error"@ {
        Some(ErrorKind::Authentication)
    } else if t == "permission_error"@ {
        Some(ErrorKind::Permission)
    } else if t == "not_found"@ {
        Some(ErrorKind::NotFound)
    } else if t == "conflict"@ || t == "idempotency_concurrent"@ || t
        == "webhook_rotation_in_progress"@ {
        Some(ErrorKind::Conflict)
    } else if t == "idempotency_mismatch"@ {
        Some(ErrorKind::IdempotencyMismatch)
    } else if t == "rate_limit_exceeded"@ {
        Some(ErrorKind::RateLimit)
    } else if t == "payload_too_large"@ {
        Some(ErrorKind::PayloadTooLarge)
    } else if t == "provisioning_error"@ || t == "internal_error"@ {
        Some(ErrorKind::Api)
    } else {
        None
    }
}

/// The kind an HTTP status maps to when the type does not decide.
pub open spec fn kind_for_status(status: u16) -> ErrorKind {
    if status == 401 {
        ErrorKind::Authentication
    } else if status == 403 {
        ErrorKind::Permission
    } else if status == 404 {
        ErrorKind::NotFound
    } else if status == 409 {
        ErrorKind::Conflict
    } else if status == 413 {
        ErrorKind::PayloadTooLarge
    } else if status == 429 {
        ErrorKind::RateLimit
    } else if status == 400 || status == 422 {
        ErrorKind::Validation
    } else {
        ErrorKind::Api
    }
}

/// The kind of an error with this status and type: the type decides when it
/// is a documented one, the status otherwise.
pub open spec fn classify_spec(status: u16, error_type: Seq<char>) -> ErrorKind {
    match kind_for_type(error_type) {
        Some(kind) => kind,
        None => kind_for_status(status),
    }
}

/// The error type implied by a bare HTTP status.
pub open spec fn type_for_status(status: u16) -> Seq<char> {
    if status == 400 || status == 422 {
        "validation_error"@
    } else if status == 401 {
        "authentication_error"@
    } else if status == 403 {
        "permission_error"@
    } else if status == 404 {
        "not_found"@
    } else if status == 409 {
        "conflict"@
    } else if status == 413 {
        "payload_too_large"@
    } else if status == 429 {
        "rate_limit_exceeded"@
    } else if status >= 500 {
        "internal_error"@
    } else {
        "api_error"@
    }
}

/// The message used when the body carries none.
pub open spec fn default_message_spec(status: u16) -> Seq<char> {
    "Anypost request failed with status "@ + dec_chars(status as nat) + "."@
}

/// Classifies an error by its type, falling back to its status.
pub fn classify(status: u16, error_type: &str) -> (kind: ErrorKind)
    ensures
        kind == classify_spec(status, error_type@),
{
    if str_eq(error_type, "validation_error") {
        ErrorKind::Validation
    } else if str_eq(error_type, "authentication_error") {
        ErrorKind::Authentication
    } else if str_eq(error_type, "permission_error") {
        ErrorKind::Permission
    } else if str_eq(error_type, "not_found") {
        ErrorKind::NotFound
    } else if str_eq(error_type, "conflict") || str_eq(error_type, "idempotency_concurrent")
        || str_eq(error_type, "webhook_rotation_in_progress") {
        ErrorKind::Conflict
    } else if str_eq(error_type, "idempotency_mismatch") {
        ErrorKind::IdempotencyMismatch
    } else if str_eq(error_type, "rate_limit_exceeded") {
        ErrorKind::RateLimit
    } else if str_eq(error_type, "payload_too_large") {
        ErrorKind::PayloadTooLarge
    } else if str_eq(error_type, "provisioning_error") || str_eq(error_type, "internal_error") {
        ErrorKind::Api
    } else {
        kind_for_status_code(status)
    }
}

/// The kind a bare HTTP status maps to.
pub fn kind_for_status_code(status: u16) -> (kind: ErrorKind)
    ensures
        kind == kind_for_status(status),
{
    if status == 401 {
        ErrorKind::Authentication
    } else if status == 403 {
        ErrorKind::Permission
    } else if status == 404 {
        ErrorKind::NotFound
    } else if status == 409 {
        ErrorKind::Conflict
    } else if status == 413 {
        ErrorKind::PayloadTooLarge
    } else if status == 429 {
        ErrorKind::RateLimit
    } else if status == 400 || status == 422 {
        ErrorKind::Validation
    } else {
        ErrorKind::Api
    }
}

/// The error type implied by a bare HTTP status.
pub fn type_from_status(status: u16) -> (t: &'static str)
    ensures
        t@ == type_for_status(status),
{
    if status == 400 || status == 422 {
        "validation_error"
    } else if status == 401 {
        "authentication_error"
    } else if status == 403 {
        "permission_error"
    } else if status == 404 {
        "not_found"
    } else if status == 409 {
        "conflict"
    } else if status == 413 {
        "payload_too_large"
    } else if status == 429 {
        "rate_limit_exceeded"
    } else if status >= 500 {
        "internal_error"
    } else {
        "api_error"
    }
}

/// `"Anypost request failed with status <status>."`
pub fn default_message(status: u16) -> (m: String)
    ensures
        m@ == default_message_spec(status),
{
    let mut m = "Anypost request failed with status ".to_string();
    push_decimal(&mut m, status as u64);
    push_str(&mut m, ".");
    m
}

/// The message of a connection failure.
pub fn connection_message(detail: &str) -> (m: String)
    ensures
        m@ == "Could not reach Anypost: "@ + detail@,
{
    let mut m = "Could not reach Anypost: ".to_string();
    push_str(&mut m, detail);
    m
}

// ---------------------------------------------------------------------------
// The response body's error envelope
// ---------------------------------------------------------------------------

/// What an error response body says about the error.
#[derive(Clone, Debug)]
pub enum ErrorEnvelope {
    /// The canonical envelope `{ "error": { "type", "message", ... } }`;
    /// either string may be absent.
    Canonical { error_type: Option<String>, message: Option<String> },
    /// The flat envelope `{ "error": "<code>", "message"? }`.
    Flat { code: String, message: Option<String> },
    /// No recognizable envelope.
    Missing,
}

/// What an [`ErrorEnvelope`] holds.
pub enum ErrorEnvelopeView {
    Canonical { error_type: Option<Seq<char>>, message: Option<Seq<char>> },
    Flat { code: Seq<char>, message: Option<Seq<char>> },
    Missing,
}

impl View for ErrorEnvelope {
    type V = ErrorEnvelopeView;

    open spec fn view(&self) -> ErrorEnvelopeView {
        match self {
            ErrorEnvelope::Canonical { error_type, message } => ErrorEnvelopeView::Canonical {
                error_type: opt_view(*error_type),
                message: opt_view(*message),
            },
            ErrorEnvelope::Flat { code, message } => ErrorEnvelopeView::Flat {
                code: code@,
                message: opt_view(*message),
            },
            ErrorEnvelope::Missing => ErrorEnvelopeView::Missing,
        }
    }
}

/// The error type an envelope resolves to.
pub open spec fn envelope_type(status: u16, envelope: ErrorEnvelopeView) -> Seq<char> {
    match envelope {
        ErrorEnvelopeView::Canonical { error_type, .. } => match error_type {
            Some(t) => t,
            None => type_for_status(status),
        },
        ErrorEnvelopeView::Flat { code, .. } => code,
        ErrorEnvelopeView::Missing => type_for_status(status),
    }
}

/// The message an envelope resolves to. A flat envelope without a message
/// reads its code with underscores as spaces.
pub open spec fn envelope_message(status: u16, envelope: ErrorEnvelopeView) -> Seq<char> {
    match envelope {
        ErrorEnvelopeView::Canonical { message, .. } => match message {
            Some(m) => m,
            None => default_message_spec(status),
        },
        ErrorEnvelopeView::Flat { code, message } => match message {
            Some(m) => m,
            None => replace_char(code, '_', ' '),
        },
        ErrorEnvelopeView::Missing => default_message_spec(status),
    }
}

/// An error response reduced to its kind, type and message.
#[derive(Clone, Debug)]
pub struct ResolvedError {
    /// Which family the error belongs to.
    pub kind: ErrorKind,
    /// The machine-readable `error.type`.
    pub error_type: String,
    /// A single human-readable sentence.
    pub message: String,
}

/// Resolves an error response: its type and message from the envelope
/// (falling back on the status), and its kind from that type and status.
pub fn resolve_error(status: u16, envelope: &ErrorEnvelope) -> (r: ResolvedError)
    ensures
        r.error_type@ == envelope_type(status, envelope@),
        r.message@ == envelope_message(status, envelope@),
        r.kind == classify_spec(status, envelope_type(status, envelope@)),
{
    let (error_type, message) = match envelope {
        ErrorEnvelope::Canonical { error_type, message } => {
            let t = match error_type {
                Some(t) => t.clone(),
                None => type_from_status(status).to_string(),
            };
            let m = match message {
                Some(m) => m.clone(),
                None => default_message(status),
            };
            (t, m)
        },
        ErrorEnvelope::Flat { code, message } => {
            let m = match message {
                Some(m) => m.clone(),
                None => replace_char_in(code.as_str(), '_', ' '),
            };
            (code.clone(), m)
        },
        ErrorEnvelope::Missing => (type_from_status(status).to_string(), default_message(status)),
    };
    let kind = classify(status, error_type.as_str());
    ResolvedError { kind, error_type, message }
}

// ---------------------------------------------------------------------------
// Response headers
// ---------------------------------------------------------------------------

/// The characters of each header name and value.
pub open spec fn header_views(headers: Seq<(String, String)>) -> Seq<(Seq<char>, Seq<char>)> {
    headers.map_values(|h: (String, String)| (h.0@, h.1@))
}

/// The value of the first header whose name matches `name` ignoring ASCII
/// case.
pub open spec fn lookup_header(headers: Seq<(Seq<char>, Seq<char>)>, name: Seq<char>) -> Option<
    Seq<char>,
>
    decreases headers.len(),
{
    if headers.len() == 0 {
        None
    } else if eq_ignore_ascii_case_spec(headers[0].0, name) {
        Some(headers[0].1)
    } else {
        lookup_header(headers.drop_first(), name)
    }
}

/// Case-insensitive single-value header lookup: the value of the first
/// header named `name`.
pub fn header<'a>(headers: &'a [(String, String)], name: &str) -> (r: Option<&'a str>)
    ensures
        match r {
            Some(v) => lookup_header(header_views(headers@), name@) == Some(v@),
            None => lookup_header(header_views(headers@), name@) == None::<Seq<char>>,
        },
{
    let ghost all = header_views(headers@);
    assert(all.skip(0) =~= all);
    let mut i: usize = 0;
    while i < headers.len()
        invariant
            0 <= i <= headers@.len(),
            all == header_views(headers@),
            lookup_header(all, name@) == lookup_header(all.skip(i as int), name@),
        decreases headers.len() - i,
    {
        let ghost rest = all.skip(i as int);
        assert(rest[0] == (headers@[i as int].0@, headers@[i as int].1@));
        assert(rest.drop_first() =~= all.skip(i + 1));
        if eq_ignore_ascii_case(headers[i].0.as_str(), name) {
            return Some(headers[i].1.as_str());
        }
        i = i + 1;
    }
    assert(all.skip(i as int) =~= Seq::<(Seq<char>, Seq<char>)>::empty());
    None
}

/// The request id: the first of `anypost-request-id`, `x-anypost-request-id`
/// and `x-request-id` whose (first) value is non-empty.
pub open spec fn request_id_spec(headers: Seq<(Seq<char>, Seq<char>)>) -> Option<Seq<char>> {
    let first = lookup_header(headers, "anypost-request-id"@);
    let second = lookup_header(headers, "x-anypost-request-id"@);
    let third = lookup_header(headers, "x-request-id"@);
    if first matches Some(v) && v.len() > 0 {
        first
    } else if second matches Some(v) && v.len() > 0 {
        second
    } else if third matches Some(v) && v.len() > 0 {
        third
    } else {
        None
    }
}

fn non_empty_header(headers: &[(String, String)], name: &str) -> (r: Option<String>)
    ensures
        match lookup_header(header_views(headers@), name@) {
            Some(v) => if v.len() > 0 {
                r matches Some(s) && s@ == v
            } else {
                r is None
            },
            None => r is None,
        },
        r matches Some(s) ==> lookup_header(header_views(headers@), name@) == Some(s@),
{
    match header(headers, name) {
        Some(v) => if v.is_empty() {
            None
        } else {
            Some(v.to_string())
        },
        None => None,
    }
}

/// The request id from the response headers, when present.
pub fn read_request_id(headers: &[(String, String)]) -> (r: Option<String>)
    ensures
        match r {
            Some(v) => request_id_spec(header_views(headers@)) == Some(v@),
            None => request_id_spec(header_views(headers@)) == None::<Seq<char>>,
        },
{
    if let Some(v) = non_empty_header(headers, "anypost-request-id") {
        return Some(v);
    }
    if let Some(v) = non_empty_header(headers, "x-anypost-request-id") {
        return Some(v);
    }
    non_empty_header(headers, "x-request-id")
}

// ---------------------------------------------------------------------------
// Reading an error response
// ---------------------------------------------------------------------------

/// The envelope a decoded body carries: `error` as an object is the
/// canonical form (its `type` and `message` strings), `error` as a string is
/// the flat form (with the body's own `message` string); anything else, or
/// no JSON at all, carries none.
pub open spec fn envelope_of_json(doc: Option<serde_json::Value>) -> ErrorEnvelopeView {
    match doc_member(doc, "error"@) {
        Some(e) => if json_entries(e) is Some {
            ErrorEnvelopeView::Canonical {
                error_type: member_string(Some(e), "type"@),
                message: member_string(Some(e), "message"@),
            }
        } else {
            match json_string(e) {
                Some(code) => ErrorEnvelopeView::Flat {
                    code,
                    message: member_string(doc, "message"@),
                },
                None => ErrorEnvelopeView::Missing,
            }
        },
        None => ErrorEnvelopeView::Missing,
    }
}

/// The strings among JSON values, in order; other values are skipped.
pub open spec fn strings_in(items: Seq<serde_json::Value>) -> Seq<Seq<char>>
    decreases items.len(),
{
    if items.len() == 0 {
        Seq::empty()
    } else {
        let rest = strings_in(items.drop_last());
        match json_string(items.last()) {
            Some(s) => rest.push(s),
            None => rest,
        }
    }
}

/// The strings among two runs of values are those of the first run
/// followed by those of the second: nothing is dropped, reordered or
/// repeated.
pub proof fn lemma_strings_in_concat(a: Seq<serde_json::Value>, b: Seq<serde_json::Value>)
    ensures
        strings_in(a + b) == strings_in(a) + strings_in(b),
    decreases b.len(),
{
    if b.len() == 0 {
        assert(a + b =~= a);
        assert(strings_in(a) + strings_in(b) =~= strings_in(a));
    } else {
        lemma_strings_in_concat(a, b.drop_last());
        assert((a + b).drop_last() =~= a + b.drop_last());
        assert((a + b).last() == b.last());
        match json_string(b.last()) {
            Some(t) => {
                assert(strings_in(a) + strings_in(b) =~= (strings_in(a) + strings_in(b.drop_last())).push(t));
            },
            None => {},
        }
    }
}

/// A field's problems are exactly the strings in its array: every string
/// item is kept, in order, and every other item is skipped. In particular
/// an array of strings keeps all of them.
pub proof fn lemma_strings_in_keeps_every_string(items: Seq<serde_json::Value>)
    ensures
        strings_in(items).len() <= items.len(),
        (forall|i: int| 0 <= i < items.len() ==> (#[trigger] json_string(items[i])) is Some) ==> {
            &&& strings_in(items).len() == items.len()
            &&& forall|i: int| 0 <= i < items.len() ==> Some(#[trigger] strings_in(items)[i])
                == json_string(items[i])
        },
    decreases items.len(),
{
    if items.len() > 0 {
        let rest = items.drop_last();
        lemma_strings_in_keeps_every_string(rest);
        if forall|i: int| 0 <= i < items.len() ==> (#[trigger] json_string(items[i])) is Some {
            assert forall|i: int| 0 <= i < rest.len() implies (#[trigger] json_string(rest[i])) is Some by {
                assert(rest[i] == items[i]);
                assert(json_string(items[i]) is Some);
            }
            assert(json_string(items[items.len() - 1]) is Some);
            assert forall|i: int| 0 <= i < items.len() implies Some(#[trigger] strings_in(items)[i])
                == json_string(items[i]) by {
                if i < items.len() - 1 {
                    assert(rest[i] == items[i]);
                    assert(Some(strings_in(rest)[i]) == json_string(rest[i]));
                }
            }
        }
    }
}

/// The entries whose value is an array, each with the strings in it.
pub open spec fn array_fields(entries: Seq<(Seq<char>, serde_json::Value)>) -> Seq<
    (Seq<char>, Seq<Seq<char>>),
>
    decreases entries.len(),
{
    if entries.len() == 0 {
        Seq::empty()
    } else {
        let rest = array_fields(entries.drop_last());
        match json_array(entries.last().1) {
            Some(items) => rest.push((entries.last().0, strings_in(items))),
            None => rest,
        }
    }
}

/// The field-level problems of a canonical envelope: each member of
/// `error.errors` that is an array, with its strings.
pub open spec fn field_errors_of(doc: Option<serde_json::Value>) -> Seq<
    (Seq<char>, Seq<Seq<char>>),
> {
    match doc_member(doc, "error"@) {
        Some(e) => if json_entries(e) is Some {
            match json_member(e, "errors"@) {
                Some(m) => match json_entries(m) {
                    Some(entries) => array_fields(entries),
                    None => Seq::empty(),
                },
                None => Seq::empty(),
            }
        } else {
            Seq::empty()
        },
        None => Seq::empty(),
    }
}

/// The characters of each field name and of its problems.
pub open spec fn field_views(fields: Seq<(String, Vec<String>)>) -> Seq<(Seq<char>, Seq<Seq<char>>)> {
    fields.map_values(|f: (String, Vec<String>)| (f.0@, string_views(f.1@)))
}

fn strings_among(items: &Vec<serde_json::Value>) -> (r: Vec<String>)
    ensures
        string_views(r@) == strings_in(items@),
{
    let mut r: Vec<String> = Vec::new();
    let mut i: usize = 0;
    while i < items.len()
        invariant
            0 <= i <= items@.len(),
            string_views(r@) == strings_in(items@.take(i as int)),
        decreases items.len() - i,
    {
        assert(items@.take(i + 1).drop_last() =~= items@.take(i as int));
        match as_string(&items[i]) {
            Some(text) => {
                let ghost before = r@;
                r.push(text);
                assert(string_views(r@) =~= string_views(before).push(r@.last()@));
            },
            None => {},
        }
        i = i + 1;
    }
    assert(items@.take(items@.len() as int) =~= items@);
    r
}

fn fields_of_entries(entries: &Vec<(String, serde_json::Value)>) -> (r: Vec<(String, Vec<String>)>)
    ensures
        field_views(r@) == array_fields(entry_views(entries@)),
{
    let ghost views = entry_views(entries@);
    let mut r: Vec<(String, Vec<String>)> = Vec::new();
    let mut i: usize = 0;
    while i < entries.len()
        invariant
            0 <= i <= entries@.len(),
            views == entry_views(entries@),
            field_views(r@) == array_fields(views.take(i as int)),
        decreases entries.len() - i,
    {
        assert(views.take(i + 1).drop_last() =~= views.take(i as int));
        assert(views[i as int] == (entries@[i as int].0@, entries@[i as int].1));
        match as_array(&entries[i].1) {
            Some(items) => {
                let problems = strings_among(&items);
                let ghost before = r@;
                r.push((entries[i].0.clone(), problems));
                assert(field_views(r@) =~= field_views(before).push(
                    (entries@[i as int].0@, strings_in(items@)),
                ));
            },
            None => {},
        }
        i = i + 1;
    }
    assert(views.take(entries@.len() as int) =~= views);
    r
}

fn string_member(value: &serde_json::Value, key: &str) -> (r: Option<String>)
    ensures
        opt_view(r) == member_string(Some(*value), key@),
{
    match member(value, key) {
        Some(m) => as_string(&m),
        None => None,
    }
}

/// Reads the error envelope and the field-level problems out of a decoded
/// body.
pub fn read_error_body(doc: &Option<serde_json::Value>) -> (r: (ErrorEnvelope, Vec<(String, Vec<String>)>))
    ensures
        r.0@ == envelope_of_json(*doc),
        field_views(r.1@) == field_errors_of(*doc),
{
    match doc_member_of(doc, "error") {
        Some(e) => if is_object(&e) {
            let error_type = string_member(&e, "type");
            let message = string_member(&e, "message");
            let fields = match member(&e, "errors") {
                Some(m) => match as_entries(&m) {
                    Some(entries) => fields_of_entries(&entries),
                    None => Vec::new(),
                },
                None => Vec::new(),
            };
            proof {
                if fields@.len() == 0 {
                    assert(field_views(fields@) =~= Seq::<(Seq<char>, Seq<Seq<char>>)>::empty());
                }
            }
            (ErrorEnvelope::Canonical { error_type, message }, fields)
        } else {
            let empty: Vec<(String, Vec<String>)> = Vec::new();
            assert(field_views(empty@) =~= Seq::<(Seq<char>, Seq<Seq<char>>)>::empty());
            match as_string(&e) {
                Some(code) => {
                    let message = member_string_of(doc, "message");
                    (ErrorEnvelope::Flat { code, message }, empty)
                },
                None => (ErrorEnvelope::Missing, empty),
            }
        },
        None => {
            let empty: Vec<(String, Vec<String>)> = Vec::new();
            assert(field_views(empty@) =~= Seq::<(Seq<char>, Seq<Seq<char>>)>::empty());
            (ErrorEnvelope::Missing, empty)
        },
    }
}

/// What an error response resolves to, apart from the `Retry-After` delay.
#[derive(Clone, Debug)]
pub struct ApiErrorParts {
    /// Which family the error belongs to.
    pub kind: ErrorKind,
    /// The machine-readable `error.type`.
    pub error_type: String,
    /// A single human-readable sentence.
    pub message: String,
    /// The request id from the response headers, when present.
    pub request_id: Option<String>,
    /// Field-level problems, populated only for `validation_error`.
    pub errors: Vec<(String, Vec<String>)>,
    /// Whether a `Retry-After` delay belongs to the error: only for
    /// `rate_limit_exceeded`.
    pub retry_after_applies: bool,
    /// The decoded body, when it is JSON.
    pub body: Option<serde_json::Value>,
}

/// Resolves an error response from its status, raw body and headers: the
/// envelope and field-level problems read from the body, the type, message
/// and kind they resolve to, and the request id.
pub fn api_error_parts(status: u16, body: &[u8], headers: &[(String, String)]) -> (r: ApiErrorParts)
    ensures
        ({
            let doc = parsed_json(body@);
            let t = envelope_type(status, envelope_of_json(doc));
            &&& r.error_type@ == t
            &&& r.message@ == envelope_message(status, envelope_of_json(doc))
            &&& r.kind == classify_spec(status, t)
            &&& opt_view(r.request_id) == request_id_spec(header_views(headers@))
            &&& field_views(r.errors@) == (if t == "validation_error"@ {
                field_errors_of(doc)
            } else {
                Seq::empty()
            })
            &&& r.retry_after_applies == (t == "rate_limit_exceeded"@)
            &&& r.body == doc
        }),
{
    let doc = parse_json(body);
    let (envelope, fields) = read_error_body(&doc);
    let resolved = resolve_error(status, &envelope);
    let request_id = read_request_id(headers);
    let errors = if str_eq(resolved.error_type.as_str(), "validation_error") {
        fields
    } else {
        let empty: Vec<(String, Vec<String>)> = Vec::new();
        assert(field_views(empty@) =~= Seq::<(Seq<char>, Seq<Seq<char>>)>::empty());
        empty
    };
    let retry_after_applies = str_eq(resolved.error_type.as_str(), "rate_limit_exceeded");
    ApiErrorParts {
        kind: resolved.kind,
        error_type: resolved.error_type,
        message: resolved.message,
        request_id,
        errors,
        retry_after_applies,
        body: doc,
    }
}

// ---------------------------------------------------------------------------
// Laws
// ---------------------------------------------------------------------------

proof fn lemma_type_literals()
    ensures
        "validation_error"@.len() == 16,
        "validation_error"@[0] == 'v',
        "authentication_error"@.len() == 20,
        "authentication_error"@[0] == 'a',
        "permission_error"@.len() == 16,
        "permission_error"@[0] == 'p',
        "not_found"@.len() == 9,
        "not_found"@[0] == 'n',
        "conflict"@.len() == 8,
        "conflict"@[0] == 'c',
        "idempotency_concurrent"@.len() == 22,
        "idempotency_concurrent"@[0] == 'i',
        "webhook_rotation_in_progress"@.len() == 28,
        "webhook_rotation_in_progress"@[0] == 'w',
        "idempotency_mismatch"@.len() == 20,
        "idempotency_mismatch"@[0] == 'i',
        "rate_limit_exceeded"@.len() == 19,
        "rate_limit_exceeded"@[0] == 'r',
        "payload_too_large"@.len() == 17,
        "payload_too_large"@[0] == 'p',
        "provisioning_error"@.len() == 18,
        "provisioning_error"@[0] == 'p',
        "internal_error"@.len() == 14,
        "internal_error"@[0] == 'i',
        "api_error"@.len() == 9,
        "api_error"@[0] == 'a',
{
    reveal_strlit("validation_error");
    reveal_strlit("authentication_error");
    reveal_strlit("permission_error");
    reveal_strlit("not_found");
    reveal_strlit("conflict");
    reveal_strlit("idempotency_concurrent");
    reveal_strlit("webhook_rotation_in_progress");
    reveal_strlit("idempotency_mismatch");
    reveal_strlit("rate_limit_exceeded");
    reveal_strlit("payload_too_large");
    reveal_strlit("provisioning_error");
    reveal_strlit("internal_error");
    reveal_strlit("api_error");
}

/// The type implied by a status classifies back to the status's own kind: a
/// body without an envelope lands in the variant the status alone names.
pub proof fn lemma_status_type_round_trip(status: u16)
    ensures
        classify_spec(status, type_for_status(status)) == kind_for_status(status),
{
    lemma_type_literals();
    let t = type_for_status(status);
    if status == 400 || status == 422 {
        assert(kind_for_type(t) == Some(ErrorKind::Validation));
    } else if status == 401 {
        assert(kind_for_type(t) == Some(ErrorKind::Authentication));
    } else if status == 403 {
        assert(kind_for_type(t) == Some(ErrorKind::Permission));
    } else if status == 404 {
        assert(kind_for_type(t) == Some(ErrorKind::NotFound));
    } else if status == 409 {
        assert(kind_for_type(t) == Some(ErrorKind::Conflict));
    } else if status == 413 {
        assert(kind_for_type(t) == Some(ErrorKind::PayloadTooLarge));
    } else if status == 429 {
        assert(kind_for_type(t) == Some(ErrorKind::RateLimit));
    } else if status >= 500 {
        assert(kind_for_type(t) == Some(ErrorKind::Api));
    } else {
        assert(kind_for_type(t) == None::<ErrorKind>);
    }
}

} // verus!
