//! Response wrappers: a decoded JSON object and one page of a list result.

use vstd::prelude::*;

use crate::json::{
    as_array, as_bool, doc_member, doc_member_of, json_array, json_bool, member_string,
    member_string_of, parse_json, parsed_json,
};
use crate::types::params::opt_view;

verus! {

/// A parsed JSON document (`serde_json::Value`). Opaque here: the library
/// carries it through without reading inside it.
#[verifier::external_type_specification]
#[verifier::external_body]
pub struct ExJsonValue(serde_json::Value);

/// `serde_json::Value` derives `Clone`: a clone is a structurally equal value.
pub assume_specification[ <serde_json::Value as Clone>::clone ](value: &serde_json::Value) -> (r: serde_json::Value)
    ensures
        r == *value,
;

/// An immutable view over a decoded JSON response object.
#[derive(Clone, Debug, PartialEq)]
pub struct Response {
    value: serde_json::Value,
}

impl Response {
    /// The JSON value this response holds.
    pub closed spec fn json(&self) -> serde_json::Value {
        self.value
    }

    /// Wrap a decoded JSON value.
    pub fn new(value: serde_json::Value) -> (r: Self)
        ensures
            r.json() == value,
    {
        Response { value }
    }

    /// Borrow the underlying JSON value.
    pub fn as_value(&self) -> (v: &serde_json::Value)
        ensures
            *v == self.json(),
    {
        &self.value
    }

    /// Consume the response, returning the underlying JSON value.
    pub fn into_value(self) -> (v: serde_json::Value)
        ensures
            v == self.json(),
    {
        self.value
    }
}

/// A response reads as its JSON value: `response["id"]`, `response.get(..)`.
impl core::ops::Deref for Response {
    type Target = serde_json::Value;

    fn deref(&self) -> (v: &serde_json::Value)
        ensures
            *v == self.json(),
    {
        &self.value
    }
}

/// One page of a list result.
///
/// To walk every page, pass [`Page::next_cursor`] back as the `after` parameter
/// of the next call, or use the resource's `list_all` helper to collect them
/// all.
#[derive(Clone, Debug)]
pub struct Page {
    /// The items on this page.
    pub data: Vec<Response>,
    /// Whether another page exists.
    pub has_more: bool,
    /// The cursor for the next page, or `None` when `has_more` is false.
    pub next_cursor: Option<String>,
}

/// The JSON values a list of responses holds.
pub open spec fn responses_json(rs: Seq<Response>) -> Seq<serde_json::Value> {
    rs.map_values(|r: Response| r.json())
}

/// The rows of a document: the items of its `data` array, none when `data`
/// is missing or not an array.
pub open spec fn rows_of(doc: Option<serde_json::Value>) -> Seq<serde_json::Value> {
    match doc_member(doc, "data"@) {
        Some(d) => match json_array(d) {
            Some(items) => items,
            None => Seq::empty(),
        },
        None => Seq::empty(),
    }
}

/// The `has_more` member of a document, when it is a boolean.
pub open spec fn has_more_of(doc: Option<serde_json::Value>) -> Option<bool> {
    match doc_member(doc, "has_more"@) {
        Some(m) => json_bool(m),
        None => None,
    }
}

/// A page from its members as a list body gives them: another page exists
/// only when `has_more` is `true`, and the cursor is kept only then.
pub fn page_from_parts(data: Vec<Response>, has_more: Option<bool>, next_cursor: Option<String>) -> (p: Page)
    ensures
        p.data@ == data@,
        p.has_more == (has_more == Some(true)),
        p.next_cursor == (if p.has_more {
            next_cursor
        } else {
            None
        }),
{
    let more = match has_more {
        Some(b) => b,
        None => false,
    };
    if more {
        Page { data, has_more: true, next_cursor }
    } else {
        Page { data, has_more: false, next_cursor: None }
    }
}

/// One step of a walk over every page: the rows gathered so far followed by
/// this page's rows, and the cursor of the page to fetch next (`None` once
/// the walk is over).
pub fn absorb_page(items: Vec<Response>, page: Page) -> (r: (Vec<Response>, Option<String>))
    ensures
        r.0@ == items@ + page.data@,
        r.1 == (if page.has_more {
            page.next_cursor
        } else {
            None
        }),
{
    let cursor = page.continuation();
    let mut items = items;
    let mut rows = page.data;
    items.append(&mut rows);
    (items, cursor)
}

fn rows_from_doc(doc: &Option<serde_json::Value>) -> (r: Vec<Response>)
    ensures
        responses_json(r@) == rows_of(*doc),
{
    let items = match doc_member_of(doc, "data") {
        Some(d) => match as_array(&d) {
            Some(items) => items,
            None => Vec::new(),
        },
        None => Vec::new(),
    };
    proof {
        if items@.len() == 0 {
            assert(items@ =~= rows_of(*doc));
        }
    }
    let mut rows: Vec<Response> = Vec::new();
    let mut i: usize = 0;
    while i < items.len()
        invariant
            0 <= i <= items@.len(),
            responses_json(rows@) == items@.take(i as int),
        decreases items.len() - i,
    {
        let ghost before = rows@;
        rows.push(Response::new(items[i].clone()));
        assert(responses_json(rows@) =~= responses_json(before).push(items@[i as int]));
        assert(items@.take(i + 1) =~= items@.take(i as int).push(items@[i as int]));
        i = i + 1;
    }
    assert(items@.take(items@.len() as int) =~= items@);
    rows
}

/// The rows of a response body `{ "data": [...] }`; none when the body is
/// not JSON or `data` is not an array.
pub fn rows_from_body(body: &[u8]) -> (r: Vec<Response>)
    ensures
        responses_json(r@) == rows_of(parsed_json(body@)),
{
    let doc = parse_json(body);
    rows_from_doc(&doc)
}

/// One page of a list result, read from the response body: its rows,
/// whether another page exists (only when `has_more` is `true`) and, only
/// then, `next_cursor` when it is a string.
pub fn page_from_body(body: &[u8]) -> (p: Page)
    ensures
        responses_json(p.data@) == rows_of(parsed_json(body@)),
        p.has_more == (has_more_of(parsed_json(body@)) == Some(true)),
        opt_view(p.next_cursor) == (if p.has_more {
            member_string(parsed_json(body@), "next_cursor"@)
        } else {
            None
        }),
{
    let doc = parse_json(body);
    let data = rows_from_doc(&doc);
    let has_more = match doc_member_of(&doc, "has_more") {
        Some(m) => as_bool(&m),
        None => None,
    };
    let cursor = member_string_of(&doc, "next_cursor");
    page_from_parts(data, has_more, cursor)
}

impl Page {
    /// The cursor to fetch the page after this one: `next_cursor` while
    /// `has_more` holds, `None` once the walk is over.
    pub fn continuation(&self) -> (c: Option<String>)
        ensures
            c == (if self.has_more { self.next_cursor } else { None }),
    {
        if self.has_more {
            match &self.next_cursor {
                Some(cursor) => Some(cursor.clone()),
                None => None,
            }
        } else {
            None
        }
    }
}

} // verus!
