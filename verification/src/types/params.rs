//! Parameter builders for the list endpoints, and the query strings they
//! become.

use vstd::prelude::*;

use crate::text::{
    dec_chars, decimal_string, lemma_split_on_append, lemma_split_on_free, push_char, push_str,
    split_on, str_eq,
};

verus! {

broadcast use vstd::string::group_string_axioms;

/// The characters of an optional string.
pub open spec fn opt_view(o: Option<String>) -> Option<Seq<char>> {
    match o {
        Some(s) => Some(s@),
        None => None,
    }
}

/// The decimal text of an optional count.
pub open spec fn dec_opt(o: Option<u32>) -> Option<Seq<char>> {
    match o {
        Some(n) => Some(dec_chars(n as nat)),
        None => None,
    }
}

/// The characters of each string in a list.
pub open spec fn string_views(v: Seq<String>) -> Seq<Seq<char>> {
    v.map_values(|s: String| s@)
}

/// A query under construction: each parameter name with its value, or
/// `None` when the parameter is unset.
pub open spec fn query_views(q: Seq<(String, Option<String>)>) -> Seq<(Seq<char>, Option<Seq<char>>)> {
    q.map_values(|p: (String, Option<String>)| (p.0@, opt_view(p.1)))
}

/// The characters of each name/value pair.
pub open spec fn pair_views(q: Seq<(String, String)>) -> Seq<(Seq<char>, Seq<char>)> {
    q.map_values(|p: (String, String)| (p.0@, p.1@))
}

fn opt_string(o: &Option<String>) -> (r: Option<String>)
    ensures
        opt_view(r) == opt_view(*o),
{
    match o {
        Some(s) => Some(s.clone()),
        None => None,
    }
}

fn opt_decimal(o: Option<u32>) -> (r: Option<String>)
    ensures
        opt_view(r) == dec_opt(o),
{
    match o {
        Some(n) => Some(decimal_string(n as u64)),
        None => None,
    }
}

fn query_entry(name: &str, value: Option<String>) -> (e: (String, Option<String>))
    ensures
        e.0@ == name@,
        opt_view(e.1) == opt_view(value),
{
    (name.to_string(), value)
}

/// Copies a list of string slices into owned strings.
pub fn owned_strings(items: &[&str]) -> (v: Vec<String>)
    ensures
        string_views(v@) == items@.map_values(|s: &str| s@),
{
    let mut v: Vec<String> = Vec::new();
    let mut i: usize = 0;
    while i < items.len()
        invariant
            0 <= i <= items@.len(),
            string_views(v@) == items@.map_values(|s: &str| s@).take(i as int),
        decreases items.len() - i,
    {
        let ghost before = v@;
        v.push(items[i].to_string());
        assert(string_views(v@) =~= string_views(before).push(items@[i as int]@));
        assert(items@.map_values(|s: &str| s@).take(i + 1) =~= items@.map_values(|s: &str| s@).take(
            i as int,
        ).push(items@[i as int]@));
        i = i + 1;
    }
    assert(items@.map_values(|s: &str| s@).take(items@.len() as int) =~= items@.map_values(
        |s: &str| s@,
    ));
    v
}

/// `v` followed by owned copies of `items`.
pub fn appended(v: Vec<String>, items: &[&str]) -> (r: Vec<String>)
    ensures
        string_views(r@) == string_views(v@) + items@.map_values(|s: &str| s@),
{
    let mut all = v;
    let ghost before = all@;
    let added = owned_strings(items);
    let mut i: usize = 0;
    while i < added.len()
        invariant
            0 <= i <= added@.len(),
            string_views(all@) == string_views(before) + string_views(added@).take(i as int),
        decreases added.len() - i,
    {
        let ghost prev = all@;
        all.push(added[i].clone());
        assert(string_views(all@) =~= string_views(prev).push(added@[i as int]@));
        assert(string_views(added@).take(i + 1) =~= string_views(added@).take(i as int).push(
            added@[i as int]@,
        ));
        i = i + 1;
    }
    assert(string_views(added@).take(added@.len() as int) =~= string_views(added@));
    all
}

// ---------------------------------------------------------------------------
// Pagination parameters
// ---------------------------------------------------------------------------

/// Pagination parameters shared by most list endpoints.
#[derive(Clone, Debug, Default)]
pub struct ListParams {
    pub limit: Option<u32>,
    pub after: Option<String>,
}

/// What a [`ListParams`] holds.
pub struct ListParamsView {
    pub limit: Option<u32>,
    pub after: Option<Seq<char>>,
}

impl View for ListParams {
    type V = ListParamsView;

    open spec fn view(&self) -> ListParamsView {
        ListParamsView { limit: self.limit, after: opt_view(self.after) }
    }
}

impl ListParams {
    /// No limit, no cursor.
    pub fn new() -> (p: Self)
        ensures
            p@ == (ListParamsView { limit: None, after: None }),
    {
        ListParams { limit: None, after: None }
    }

    /// Items per page, 1 to 100 (default 20).
    pub fn limit(self, limit: u32) -> (p: Self)
        ensures
            p@ == (ListParamsView { limit: Some(limit), ..self@ }),
    {
        ListParams { limit: Some(limit), after: self.after }
    }

    /// A cursor from a previous page's `next_cursor`.
    pub fn after(self, cursor: &str) -> (p: Self)
        ensures
            p@ == (ListParamsView { after: Some(cursor@), ..self@ }),
    {
        ListParams { limit: self.limit, after: Some(cursor.to_string()) }
    }

    /// The query of one page: `limit` and `after`.
    pub fn query(&self) -> (q: Vec<(String, Option<String>)>)
        ensures
            query_views(q@) == seq![("limit"@, dec_opt(self.limit)), ("after"@, self@.after)],
    {
        let mut q = Vec::new();
        q.push(query_entry("limit", opt_decimal(self.limit)));
        q.push(query_entry("after", opt_string(&self.after)));
        assert(query_views(q@) =~= seq![("limit"@, dec_opt(self.limit)), ("after"@, self@.after)]);
        q
    }

    /// The query a walk over every page starts from: only `limit` (the walk
    /// supplies the cursors).
    pub fn walk_query(&self) -> (q: Vec<(String, Option<String>)>)
        ensures
            query_views(q@) == seq![("limit"@, dec_opt(self.limit))],
    {
        let mut q = Vec::new();
        q.push(query_entry("limit", opt_decimal(self.limit)));
        assert(query_views(q@) =~= seq![("limit"@, dec_opt(self.limit))]);
        q
    }
}

/// Filters for the suppression list.
#[derive(Clone, Debug, Default)]
pub struct SuppressionListParams {
    pub limit: Option<u32>,
    pub after: Option<String>,
    pub email_contains: Option<String>,
    pub topic: Option<String>,
    pub reason: Option<String>,
    pub origin: Option<String>,
}

/// What a [`SuppressionListParams`] holds.
pub struct SuppressionListParamsView {
    pub limit: Option<u32>,
    pub after: Option<Seq<char>>,
    pub email_contains: Option<Seq<char>>,
    pub topic: Option<Seq<char>>,
    pub reason: Option<Seq<char>>,
    pub origin: Option<Seq<char>>,
}

impl View for SuppressionListParams {
    type V = SuppressionListParamsView;

    open spec fn view(&self) -> SuppressionListParamsView {
        SuppressionListParamsView {
            limit: self.limit,
            after: opt_view(self.after),
            email_contains: opt_view(self.email_contains),
            topic: opt_view(self.topic),
            reason: opt_view(self.reason),
            origin: opt_view(self.origin),
        }
    }
}

impl SuppressionListParams {
    /// No filters.
    pub fn new() -> (p: Self)
        ensures
            p@ == (SuppressionListParamsView {
                limit: None,
                after: None,
                email_contains: None,
                topic: None,
                reason: None,
                origin: None,
            }),
    {
        SuppressionListParams {
            limit: None,
            after: None,
            email_contains: None,
            topic: None,
            reason: None,
            origin: None,
        }
    }

    pub fn limit(self, limit: u32) -> (p: Self)
        ensures
            p@ == (SuppressionListParamsView { limit: Some(limit), ..self@ }),
    {
        SuppressionListParams { limit: Some(limit), ..self }
    }

    pub fn after(self, cursor: &str) -> (p: Self)
        ensures
            p@ == (SuppressionListParamsView { after: Some(cursor@), ..self@ }),
    {
        SuppressionListParams { after: Some(cursor.to_string()), ..self }
    }

    pub fn email_contains(self, value: &str) -> (p: Self)
        ensures
            p@ == (SuppressionListParamsView { email_contains: Some(value@), ..self@ }),
    {
        SuppressionListParams { email_contains: Some(value.to_string()), ..self }
    }

    pub fn topic(self, topic: &str) -> (p: Self)
        ensures
            p@ == (SuppressionListParamsView { topic: Some(topic@), ..self@ }),
    {
        SuppressionListParams { topic: Some(topic.to_string()), ..self }
    }

    pub fn reason(self, reason: &str) -> (p: Self)
        ensures
            p@ == (SuppressionListParamsView { reason: Some(reason@), ..self@ }),
    {
        SuppressionListParams { reason: Some(reason.to_string()), ..self }
    }

    pub fn origin(self, origin: &str) -> (p: Self)
        ensures
            p@ == (SuppressionListParamsView { origin: Some(origin@), ..self@ }),
    {
        SuppressionListParams { origin: Some(origin.to_string()), ..self }
    }

    /// The query of one page of suppressions, in the API's parameter order.
    pub fn query(&self) -> (q: Vec<(String, Option<String>)>)
        ensures
            query_views(q@) == seq![
                ("limit"@, dec_opt(self.limit)),
                ("after"@, self@.after),
                ("email_contains"@, self@.email_contains),
                ("topic"@, self@.topic),
                ("reason"@, self@.reason),
                ("origin"@, self@.origin),
            ],
    {
        let mut q = Vec::new();
        q.push(query_entry("limit", opt_decimal(self.limit)));
        q.push(query_entry("after", opt_string(&self.after)));
        q.push(query_entry("email_contains", opt_string(&self.email_contains)));
        q.push(query_entry("topic", opt_string(&self.topic)));
        q.push(query_entry("reason", opt_string(&self.reason)));
        q.push(query_entry("origin", opt_string(&self.origin)));
        assert(query_views(q@) =~= seq![
            ("limit"@, dec_opt(self.limit)),
            ("after"@, self@.after),
            ("email_contains"@, self@.email_contains),
            ("topic"@, self@.topic),
            ("reason"@, self@.reason),
            ("origin"@, self@.origin),
        ]);
        q
    }
}

/// Filters for the event stream. The window defaults to the last 24 hours
/// and is clamped to the plan's retention.
#[derive(Clone, Debug, Default)]
pub struct EventListParams {
    pub limit: Option<u32>,
    pub after: Option<String>,
    pub start: Option<String>,
    pub end: Option<String>,
    pub event_type: Option<String>,
    pub recipient: Option<String>,
    pub email_id: Option<String>,
    pub message_id: Option<String>,
    pub domain: Option<String>,
    pub topic: Option<String>,
    pub campaign: Option<String>,
    pub template_id: Option<String>,
    /// Matched with `hasAny`: an event carrying any of these tags matches.
    pub tags: Vec<String>,
}

/// What an [`EventListParams`] holds.
pub struct EventListParamsView {
    pub limit: Option<u32>,
    pub after: Option<Seq<char>>,
    pub start: Option<Seq<char>>,
    pub end: Option<Seq<char>>,
    pub event_type: Option<Seq<char>>,
    pub recipient: Option<Seq<char>>,
    pub email_id: Option<Seq<char>>,
    pub message_id: Option<Seq<char>>,
    pub domain: Option<Seq<char>>,
    pub topic: Option<Seq<char>>,
    pub campaign: Option<Seq<char>>,
    pub template_id: Option<Seq<char>>,
    pub tags: Seq<Seq<char>>,
}

impl View for EventListParams {
    type V = EventListParamsView;

    open spec fn view(&self) -> EventListParamsView {
        EventListParamsView {
            limit: self.limit,
            after: opt_view(self.after),
            start: opt_view(self.start),
            end: opt_view(self.end),
            event_type: opt_view(self.event_type),
            recipient: opt_view(self.recipient),
            email_id: opt_view(self.email_id),
            message_id: opt_view(self.message_id),
            domain: opt_view(self.domain),
            topic: opt_view(self.topic),
            campaign: opt_view(self.campaign),
            template_id: opt_view(self.template_id),
            tags: string_views(self.tags@),
        }
    }
}

/// The tags joined with commas (`a,b,c`).
pub open spec fn join_commas(tags: Seq<Seq<char>>) -> Seq<char>
    decreases tags.len(),
{
    if tags.len() == 0 {
        Seq::<char>::empty()
    } else if tags.len() == 1 {
        tags[0]
    } else {
        join_commas(tags.drop_last()).push(',') + tags.last()
    }
}

/// The `tags` parameter: `None` when there are no tags, else the tags joined
/// with commas (the API matches with `hasAny`).
pub open spec fn tags_value(tags: Seq<Seq<char>>) -> Option<Seq<char>> {
    if tags.len() == 0 {
        None
    } else {
        Some(join_commas(tags))
    }
}

/// The tags filter is sent exactly when at least one tag was added: no
/// tags, no `tags` parameter (not an empty one).
pub proof fn lemma_tags_sent_only_when_present(tags: Seq<Seq<char>>)
    ensures
        tags_value(tags) is None <==> tags.len() == 0,
{
}

/// The tags filter holds every tag, in order: splitting the sent value at
/// its commas gives the tags back, when no tag itself holds a comma.
pub proof fn lemma_tags_split_back(tags: Seq<Seq<char>>)
    requires
        tags.len() > 0,
        forall|i: int, j: int| 0 <= i < tags.len() && 0 <= j < tags[i].len() ==> #[trigger] tags[i][j]
            != ',',
    ensures
        tags_value(tags) matches Some(v) && split_on(v, ',') == tags,
    decreases tags.len(),
{
    if tags.len() == 1 {
        assert forall|j: int| 0 <= j < tags[0].len() implies tags[0][j] != ',' by {
            assert(tags[0][j] != ',');
        }
        lemma_split_on_free(tags[0], ',');
        assert(seq![tags[0]] =~= tags);
    } else {
        let rest = tags.drop_last();
        assert forall|i: int, j: int| 0 <= i < rest.len() && 0 <= j < rest[i].len() implies #[trigger] rest[i][j]
            != ',' by {
            assert(rest[i] == tags[i]);
            assert(tags[i][j] != ',');
        }
        lemma_tags_split_back(rest);
        let last = tags.last();
        assert forall|j: int| 0 <= j < last.len() implies last[j] != ',' by {
            assert(tags[tags.len() - 1][j] != ',');
        }
        lemma_split_on_append(join_commas(rest), ',', last);
        assert(rest.push(last) =~= tags);
    }
}

fn join_tags(tags: &Vec<String>) -> (r: Option<String>)
    ensures
        opt_view(r) == tags_value(string_views(tags@)),
{
    if tags.len() == 0 {
        return None;
    }
    let ghost views = string_views(tags@);
    let mut joined = tags[0].clone();
    let mut i: usize = 1;
    assert(views.take(1) =~= seq![views[0]]);
    while i < tags.len()
        invariant
            1 <= i <= tags@.len(),
            views == string_views(tags@),
            joined@ == join_commas(views.take(i as int)),
        decreases tags.len() - i,
    {
        push_char(&mut joined, ',');
        push_str(&mut joined, tags[i].as_str());
        assert(views.take(i + 1).drop_last() =~= views.take(i as int));
        assert(views[i as int] == tags@[i as int]@);
        assert(joined@ =~= join_commas(views.take(i + 1)));
        i = i + 1;
    }
    assert(views.take(tags@.len() as int) =~= views);
    Some(joined)
}

impl EventListParams {
    /// No filters.
    pub fn new() -> (p: Self)
        ensures
            p@ == (EventListParamsView {
                limit: None,
                after: None,
                start: None,
                end: None,
                event_type: None,
                recipient: None,
                email_id: None,
                message_id: None,
                domain: None,
                topic: None,
                campaign: None,
                template_id: None,
                tags: Seq::empty(),
            }),
    {
        let p = EventListParams {
            limit: None,
            after: None,
            start: None,
            end: None,
            event_type: None,
            recipient: None,
            email_id: None,
            message_id: None,
            domain: None,
            topic: None,
            campaign: None,
            template_id: None,
            tags: Vec::new(),
        };
        assert(string_views(p.tags@) =~= Seq::<Seq<char>>::empty());
        p
    }

    pub fn limit(self, limit: u32) -> (p: Self)
        ensures
            p@ == (EventListParamsView { limit: Some(limit), ..self@ }),
    {
        EventListParams { limit: Some(limit), ..self }
    }

    pub fn after(self, cursor: &str) -> (p: Self)
        ensures
            p@ == (EventListParamsView { after: Some(cursor@), ..self@ }),
    {
        EventListParams { after: Some(cursor.to_string()), ..self }
    }

    pub fn start(self, start: &str) -> (p: Self)
        ensures
            p@ == (EventListParamsView { start: Some(start@), ..self@ }),
    {
        EventListParams { start: Some(start.to_string()), ..self }
    }

    pub fn end(self, end: &str) -> (p: Self)
        ensures
            p@ == (EventListParamsView { end: Some(end@), ..self@ }),
    {
        EventListParams { end: Some(end.to_string()), ..self }
    }

    pub fn event_type(self, event_type: &str) -> (p: Self)
        ensures
            p@ == (EventListParamsView { event_type: Some(event_type@), ..self@ }),
    {
        EventListParams { event_type: Some(event_type.to_string()), ..self }
    }

    pub fn recipient(self, recipient: &str) -> (p: Self)
        ensures
            p@ == (EventListParamsView { recipient: Some(recipient@), ..self@ }),
    {
        EventListParams { recipient: Some(recipient.to_string()), ..self }
    }

    pub fn email_id(self, email_id: &str) -> (p: Self)
        ensures
            p@ == (EventListParamsView { email_id: Some(email_id@), ..self@ }),
    {
        EventListParams { email_id: Some(email_id.to_string()), ..self }
    }

    pub fn message_id(self, message_id: &str) -> (p: Self)
        ensures
            p@ == (EventListParamsView { message_id: Some(message_id@), ..self@ }),
    {
        EventListParams { message_id: Some(message_id.to_string()), ..self }
    }

    pub fn domain(self, domain: &str) -> (p: Self)
        ensures
            p@ == (EventListParamsView { domain: Some(domain@), ..self@ }),
    {
        EventListParams { domain: Some(domain.to_string()), ..self }
    }

    pub fn topic(self, topic: &str) -> (p: Self)
        ensures
            p@ == (EventListParamsView { topic: Some(topic@), ..self@ }),
    {
        EventListParams { topic: Some(topic.to_string()), ..self }
    }

    pub fn campaign(self, campaign: &str) -> (p: Self)
        ensures
            p@ == (EventListParamsView { campaign: Some(campaign@), ..self@ }),
    {
        EventListParams { campaign: Some(campaign.to_string()), ..self }
    }

    pub fn template_id(self, template_id: &str) -> (p: Self)
        ensures
            p@ == (EventListParamsView { template_id: Some(template_id@), ..self@ }),
    {
        EventListParams { template_id: Some(template_id.to_string()), ..self }
    }

    /// Adds tags to match (any of them).
    pub fn tags(self, tags: &[&str]) -> (p: Self)
        ensures
            p@ == (EventListParamsView {
                tags: self@.tags + tags@.map_values(|s: &str| s@),
                ..self@
            }),
    {
        let all = appended(self.tags, tags);
        EventListParams {
            limit: self.limit,
            after: self.after,
            start: self.start,
            end: self.end,
            event_type: self.event_type,
            recipient: self.recipient,
            email_id: self.email_id,
            message_id: self.message_id,
            domain: self.domain,
            topic: self.topic,
            campaign: self.campaign,
            template_id: self.template_id,
            tags: all,
        }
    }

    /// The query of one page of events, in the API's parameter order; tags
    /// are sent comma-separated.
    pub fn query(&self) -> (q: Vec<(String, Option<String>)>)
        ensures
            query_views(q@) == seq![
                ("limit"@, dec_opt(self.limit)),
                ("after"@, self@.after),
                ("start"@, self@.start),
                ("end"@, self@.end),
                ("event_type"@, self@.event_type),
                ("recipient"@, self@.recipient),
                ("email_id"@, self@.email_id),
                ("message_id"@, self@.message_id),
                ("domain"@, self@.domain),
                ("topic"@, self@.topic),
                ("campaign"@, self@.campaign),
                ("template_id"@, self@.template_id),
                ("tags"@, tags_value(self@.tags)),
            ],
    {
        let mut q = Vec::new();
        q.push(query_entry("limit", opt_decimal(self.limit)));
        q.push(query_entry("after", opt_string(&self.after)));
        q.push(query_entry("start", opt_string(&self.start)));
        q.push(query_entry("end", opt_string(&self.end)));
        q.push(query_entry("event_type", opt_string(&self.event_type)));
        q.push(query_entry("recipient", opt_string(&self.recipient)));
        q.push(query_entry("email_id", opt_string(&self.email_id)));
        q.push(query_entry("message_id", opt_string(&self.message_id)));
        q.push(query_entry("domain", opt_string(&self.domain)));
        q.push(query_entry("topic", opt_string(&self.topic)));
        q.push(query_entry("campaign", opt_string(&self.campaign)));
        q.push(query_entry("template_id", opt_string(&self.template_id)));
        q.push(query_entry("tags", join_tags(&self.tags)));
        assert(query_views(q@) =~= seq![
            ("limit"@, dec_opt(self.limit)),
            ("after"@, self@.after),
            ("start"@, self@.start),
            ("end"@, self@.end),
            ("event_type"@, self@.event_type),
            ("recipient"@, self@.recipient),
            ("email_id"@, self@.email_id),
            ("message_id"@, self@.message_id),
            ("domain"@, self@.domain),
            ("topic"@, self@.topic),
            ("campaign"@, self@.campaign),
            ("template_id"@, self@.template_id),
            ("tags"@, tags_value(self@.tags)),
        ]);
        q
    }
}

// ---------------------------------------------------------------------------
// Query shaping
// ---------------------------------------------------------------------------

/// The parameters that are set, as name/value pairs, in order.
pub open spec fn present_pairs(q: Seq<(Seq<char>, Option<Seq<char>>)>) -> Seq<(Seq<char>, Seq<char>)>
    decreases q.len(),
{
    if q.len() == 0 {
        Seq::empty()
    } else {
        let rest = present_pairs(q.drop_last());
        match q.last().1 {
            Some(v) => rest.push((q.last().0, v)),
            None => rest,
        }
    }
}

/// `q` without the parameters named `name`.
pub open spec fn drop_param(q: Seq<(Seq<char>, Option<Seq<char>>)>, name: Seq<char>) -> Seq<
    (Seq<char>, Option<Seq<char>>),
>
    decreases q.len(),
{
    if q.len() == 0 {
        Seq::empty()
    } else {
        let rest = drop_param(q.drop_last(), name);
        if q.last().0 == name {
            rest
        } else {
            rest.push(q.last())
        }
    }
}

/// Removing a parameter keeps every other entry as it was: the result is
/// the query filtered to the entries with another name, each with its
/// value, in the query's order.
pub proof fn lemma_drop_param_is_filter(q: Seq<(Seq<char>, Option<Seq<char>>)>, name: Seq<char>)
    ensures
        drop_param(q, name) == q.filter(|e: (Seq<char>, Option<Seq<char>>)| e.0 != name),
    decreases q.len(),
{
    reveal(Seq::filter);
    if q.len() > 0 {
        lemma_drop_param_is_filter(q.drop_last(), name);
    }
}

/// Keeps only the parameters that are set.
pub fn clean_query(query: Vec<(String, Option<String>)>) -> (r: Vec<(String, String)>)
    ensures
        pair_views(r@) == present_pairs(query_views(query@)),
{
    let ghost views = query_views(query@);
    let mut r: Vec<(String, String)> = Vec::new();
    let mut i: usize = 0;
    while i < query.len()
        invariant
            0 <= i <= query@.len(),
            views == query_views(query@),
            pair_views(r@) == present_pairs(views.take(i as int)),
        decreases query.len() - i,
    {
        assert(views.take(i + 1).drop_last() =~= views.take(i as int));
        assert(views[i as int] == (query@[i as int].0@, opt_view(query@[i as int].1)));
        match &query[i].1 {
            Some(v) => {
                let ghost before = r@;
                r.push((query[i].0.clone(), v.clone()));
                assert(pair_views(r@) =~= pair_views(before).push((query@[i as int].0@, v@)));
            },
            None => {},
        }
        i = i + 1;
    }
    assert(views.take(query@.len() as int) =~= views);
    r
}

/// Removes every parameter named `name`.
pub fn without_param(query: Vec<(String, Option<String>)>, name: &str) -> (r: Vec<
    (String, Option<String>),
>)
    ensures
        query_views(r@) == drop_param(query_views(query@), name@),
{
    let ghost views = query_views(query@);
    let mut r: Vec<(String, Option<String>)> = Vec::new();
    let mut i: usize = 0;
    while i < query.len()
        invariant
            0 <= i <= query@.len(),
            views == query_views(query@),
            query_views(r@) == drop_param(views.take(i as int), name@),
        decreases query.len() - i,
    {
        assert(views.take(i + 1).drop_last() =~= views.take(i as int));
        assert(views[i as int] == (query@[i as int].0@, opt_view(query@[i as int].1)));
        if !str_eq(query[i].0.as_str(), name) {
            let ghost before = r@;
            r.push((query[i].0.clone(), opt_string(&query[i].1)));
            assert(query_views(r@) =~= query_views(before).push(views[i as int]));
        }
        i = i + 1;
    }
    assert(views.take(query@.len() as int) =~= views);
    r
}

/// The query of one page in a walk over every page: the starting query, plus
/// `after=<cursor>` once a cursor is known.
pub fn page_query(base: &Vec<(String, Option<String>)>, cursor: &Option<String>) -> (r: Vec<
    (String, Option<String>),
>)
    ensures
        query_views(r@) == match cursor {
            Some(c) => query_views(base@).push(("after"@, Some(c@))),
            None => query_views(base@),
        },
{
    let mut r: Vec<(String, Option<String>)> = Vec::new();
    let mut i: usize = 0;
    while i < base.len()
        invariant
            0 <= i <= base@.len(),
            query_views(r@) == query_views(base@).take(i as int),
        decreases base.len() - i,
    {
        let ghost before = r@;
        r.push((base[i].0.clone(), opt_string(&base[i].1)));
        assert(query_views(r@) =~= query_views(before).push(query_views(base@)[i as int]));
        assert(query_views(base@).take(i + 1) =~= query_views(base@).take(i as int).push(
            query_views(base@)[i as int],
        ));
        i = i + 1;
    }
    assert(query_views(base@).take(base@.len() as int) =~= query_views(base@));
    match cursor {
        Some(c) => {
            let ghost before = r@;
            r.push(query_entry("after", Some(c.clone())));
            assert(query_views(r@) =~= query_views(before).push(("after"@, Some(c@))));
        },
        None => {},
    }
    r
}

} // verus!
