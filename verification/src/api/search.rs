//! `POST /rest/api/2/search` with streaming pagination, as a state machine:
//! the caller sends each request body the machine asks for and feeds the
//! answer back.

use vstd::prelude::*;
use std::collections::VecDeque;
use crate::error::Error;
use crate::json::{entries_view, Json, JsonV};
use crate::text::decimal;
use crate::api::{with_body, Method, Request};

verus! {

pub struct SearchParams {
    pub jql: String,
    pub fields: Vec<String>,
    pub expand: Vec<String>,
    pub max: Option<u64>,
    pub page_size: u64,
}

impl Default for SearchParams {
    fn default() -> (p: Self)
        ensures
            p.jql@ == Seq::<char>::empty(),
            p.fields@.len() == 0,
            p.expand@.len() == 0,
            p.max is None,
            p.page_size == 100,
    {
        SearchParams { jql: String::new(), fields: Vec::new(), expand: Vec::new(), max: None, page_size: 100 }
    }
}

/// Whether a list is empty (a list that is empty is left out of the request).
pub fn slice_is_empty(s: &[String]) -> (r: bool)
    ensures
        r == (s@.len() == 0),
{
    s.len() == 0
}

pub open spec fn str_array(v: Seq<String>) -> JsonV {
    JsonV::Array(v.map_values(|s: String| JsonV::Str(s@)))
}

/// The body of one search request: `jql`, `startAt`, `maxResults`, then
/// `fields` and `expand` when they are not empty.
pub open spec fn search_request(p: SearchParams, start_at: u64) -> JsonV {
    let base = seq![
        ("jql"@, JsonV::Str(p.jql@)),
        ("startAt"@, JsonV::Number(decimal(start_at as nat))),
        ("maxResults"@, JsonV::Number(decimal(p.page_size as nat))),
    ];
    let with_fields = if p.fields@.len() > 0 { base.push(("fields"@, str_array(p.fields@))) } else { base };
    let with_expand = if p.expand@.len() > 0 { with_fields.push(("expand"@, str_array(p.expand@))) } else { with_fields };
    JsonV::Object(with_expand)
}

/// The request that sends a search body: `POST /rest/api/2/search`.
pub fn search_page(body: Json) -> (r: Request)
    ensures
        r@ == with_body(Method::Post, "/rest/api/2/search"@, body@),
{
    Request::with_body(Method::Post, "/rest/api/2/search".to_owned(), body)
}

pub fn search_request_body(p: &SearchParams, start_at: u64) -> (r: Json)
    ensures
        r@ == search_request(*p, start_at),
{
    let mut m: Vec<(String, Json)> = Vec::new();
    m.push(("jql".to_owned(), Json::string(p.jql.as_str())));
    m.push(("startAt".to_owned(), Json::uint(start_at)));
    m.push(("maxResults".to_owned(), Json::uint(p.page_size)));
    let ghost base = entries_view(m@);
    proof {
        assert(base =~= seq![
            ("jql"@, JsonV::Str(p.jql@)),
            ("startAt"@, JsonV::Number(decimal(start_at as nat))),
            ("maxResults"@, JsonV::Number(decimal(p.page_size as nat))),
        ]);
    }
    if !slice_is_empty(p.fields.as_slice()) {
        let f = Json::string_array(&p.fields);
        let ghost before = m@;
        m.push(("fields".to_owned(), f));
        proof {
            assert(entries_view(m@) =~= entries_view(before).push(("fields"@, str_array(p.fields@))));
        }
    }
    let ghost mid = entries_view(m@);
    if !slice_is_empty(p.expand.as_slice()) {
        let e = Json::string_array(&p.expand);
        let ghost before = m@;
        m.push(("expand".to_owned(), e));
        proof {
            assert(entries_view(m@) =~= entries_view(before).push(("expand"@, str_array(p.expand@))));
        }
    }
    Json::object(m)
}

/// One page of search results: `startAt`, `total` (may be missing) and the
/// issues.
pub struct SearchPage {
    pub start_at: u64,
    pub total: Option<u64>,
    pub issues: Vec<Json>,
}

/// The state of a search.
pub struct SearchView {
    pub max: Option<u64>,
    /// Offset of the next page.
    pub start_at: u64,
    pub total: Option<u64>,
    /// Issues received and not yet handed out.
    pub buf: Seq<JsonV>,
    pub emitted: u64,
    /// No further request is to be made.
    pub no_more_pages: bool,
}

pub enum SearchStep {
    Issue(JsonV),
    /// Send a search request with this body.
    Request(JsonV),
    Done,
}

/// No more issues than the cap are handed out, and the count of issues
/// handed out and buffered fits in a `u64`.
pub open spec fn search_ok(s: SearchView) -> bool {
    &&& s.emitted + s.buf.len() <= u64::MAX
    &&& (s.max matches Some(m) ==> s.emitted <= m)
}

/// One step: nothing once the cap is reached; else the oldest buffered issue;
/// else nothing when no page is left; else a request for the next page.
pub open spec fn search_poll_spec(s: SearchView, p: SearchParams) -> (SearchView, SearchStep) {
    if s.max matches Some(m) && s.emitted >= m {
        (s, SearchStep::Done)
    } else if s.buf.len() > 0 {
        (SearchView { buf: s.buf.drop_first(), emitted: (s.emitted + 1) as u64, ..s }, SearchStep::Issue(s.buf[0]))
    } else if s.no_more_pages {
        (s, SearchStep::Done)
    } else {
        (s, SearchStep::Request(search_request(p, s.start_at)))
    }
}

/// Taking in a page: its issues join the buffer, the offset moves past them,
/// the total is the page's; an empty page or an offset at or past the total
/// ends the requests.
pub open spec fn search_absorb(s: SearchView, page: SearchPage) -> SearchView {
    let got = page.issues@.len();
    let start_at = (page.start_at + got) as u64;
    let stop = got == 0 || start_at >= (match page.total { Some(t) => t, None => u64::MAX });
    SearchView {
        total: page.total,
        start_at,
        buf: s.buf + page.issues@.map_values(|j: Json| j@),
        no_more_pages: stop || s.no_more_pages,
        ..s
    }
}

pub enum SearchPoll {
    Issue(Json),
    Request(Json),
    Done,
}

pub open spec fn search_poll_matches(r: SearchPoll, v: SearchStep) -> bool {
    match v {
        SearchStep::Issue(j) => r matches SearchPoll::Issue(x) && x@ == j,
        SearchStep::Request(j) => r matches SearchPoll::Request(x) && x@ == j,
        SearchStep::Done => r is Done,
    }
}

/// A search in progress.
pub struct SearchIter {
    params: SearchParams,
    start_at: u64,
    total: Option<u64>,
    buf: VecDeque<Json>,
    emitted: u64,
    no_more_pages: bool,
}

impl View for SearchIter {
    type V = SearchView;

    closed spec fn view(&self) -> SearchView {
        SearchView {
            max: self.params.max,
            start_at: self.start_at,
            total: self.total,
            buf: self.buf@.map_values(|j: Json| j@),
            emitted: self.emitted,
            no_more_pages: self.no_more_pages,
        }
    }
}

/// Start a search from offset 0.
pub fn iter(params: SearchParams) -> (r: SearchIter)
    ensures
        r@ == (SearchView {
            max: params.max,
            start_at: 0,
            total: None,
            buf: Seq::empty(),
            emitted: 0,
            no_more_pages: false,
        }),
        r.params() == params,
        search_ok(r@),
{
    let r = SearchIter { params, start_at: 0, total: None, buf: VecDeque::new(), emitted: 0, no_more_pages: false };
    proof {
        assert(r@.buf =~= Seq::<JsonV>::empty());
    }
    r
}

impl SearchIter {
    pub closed spec fn params(&self) -> SearchParams {
        self.params
    }

    /// The total of the latest page.
    pub fn total(&self) -> (r: Option<u64>)
        ensures
            r == self@.total,
    {
        self.total
    }

    /// How many issues were handed out.
    pub fn emitted(&self) -> (r: u64)
        ensures
            r == self@.emitted,
    {
        self.emitted
    }

    /// How many issues are received and not handed out yet.
    pub fn buffered(&self) -> (r: usize)
        ensures
            r == self@.buf.len(),
    {
        self.buf.len()
    }

    /// The next step: an issue, a request to send, or the end.
    pub fn poll(&mut self) -> (r: SearchPoll)
        requires
            search_ok(old(self)@),
        ensures
            final(self)@ == search_poll_spec(old(self)@, old(self).params()).0,
            search_poll_matches(r, search_poll_spec(old(self)@, old(self).params()).1),
            final(self).params() == old(self).params(),
            search_ok(final(self)@),
    {
        if let Some(max) = self.params.max {
            if self.emitted >= max {
                return SearchPoll::Done;
            }
        }
        let ghost b = self.buf@;
        match self.buf.pop_front() {
            Some(v) => {
                self.emitted = self.emitted + 1;
                proof {
                    assert(self.buf@.map_values(|j: Json| j@) =~= b.map_values(|j: Json| j@).drop_first());
                }
                SearchPoll::Issue(v)
            },
            None => {
                if self.no_more_pages {
                    SearchPoll::Done
                } else {
                    SearchPoll::Request(search_request_body(&self.params, self.start_at))
                }
            },
        }
    }

    /// Take in the answer to the request that `poll` asked for and take the
    /// next step. A failed request ends the search with its error.
    pub fn feed(&mut self, page: Result<SearchPage, Error>) -> (r: Option<Result<Json, Error>>)
        requires
            search_ok(old(self)@),
            page matches Ok(p) ==> p.start_at + p.issues@.len() <= u64::MAX
                && old(self)@.emitted + old(self)@.buf.len() + p.issues@.len() <= u64::MAX,
        ensures
            final(self).params() == old(self).params(),
            search_ok(final(self)@),
            match page {
                Err(e) => final(self)@ == (SearchView { no_more_pages: true, ..old(self)@ })
                    && r == Some(Err::<Json, Error>(e)),
                Ok(p) => {
                    let s1 = search_absorb(old(self)@, p);
                    if s1.buf.len() == 0 {
                        final(self)@ == s1 && r is None
                    } else {
                        let (s2, out) = search_poll_spec(s1, old(self).params());
                        &&& final(self)@ == s2
                        &&& match out {
                            SearchStep::Issue(j) => r matches Some(Ok(x)) && x@ == j,
                            _ => r is None,
                        }
                    }
                },
            },
    {
        match page {
            Err(e) => {
                self.no_more_pages = true;
                Some(Err(e))
            },
            Ok(p) => {
                let ghost s0 = self@;
                let ghost pv = p;
                self.total = p.total;
                let got = p.issues.len() as u64;
                let ghost b0 = self.buf@;
                let mut issues = p.issues;
                let mut rest: VecDeque<Json> = VecDeque::new();
                // Move the page's issues to the buffer, in order.
                let ghost iv = issues@;
                while issues.len() > 0
                    invariant
                        rest@.len() + issues@.len() == iv.len(),
                        forall|j: int| 0 <= j < issues@.len() ==> #[trigger] issues@[j] == iv[j],
                        forall|j: int| 0 <= j < rest@.len() ==> #[trigger] rest@[j] == iv[iv.len() - 1 - j],
                    decreases issues@.len(),
                {
                    let x = issues.pop().unwrap();
                    rest.push_back(x);
                }
                while rest.len() > 0
                    invariant
                        rest@.len() <= iv.len(),
                        forall|j: int| 0 <= j < rest@.len() ==> #[trigger] rest@[j] == iv[iv.len() - 1 - j],
                        self.buf@ == b0 + iv.subrange(0, iv.len() - rest@.len()),
                        self.params == old(self).params,
                        self.emitted == old(self).emitted,
                        self.total == pv.total,
                        self.no_more_pages == old(self).no_more_pages,
                    decreases rest@.len(),
                {
                    let ghost rb = rest@;
                    let x = rest.pop_back().unwrap();
                    proof {
                        assert(x == iv[iv.len() - rb.len()]);
                    }
                    self.buf.push_back(x);
                    proof {
                        assert(iv.subrange(0, iv.len() - rest@.len()) =~= iv.subrange(0, iv.len() - rb.len()).push(x));
                        assert forall|j: int| 0 <= j < rest@.len() implies #[trigger] rest@[j] == iv[iv.len() - 1 - j] by {
                            assert(rest@[j] == rb[j]);
                        }
                    }
                }
                proof {
                    assert(iv.subrange(0, iv.len() as int) =~= iv);
                    assert(self.buf@.map_values(|j: Json| j@) =~= b0.map_values(|j: Json| j@) + iv.map_values(|j: Json| j@));
                }
                self.start_at = p.start_at + got;
                let limit: u64 = match self.total {
                    Some(t) => t,
                    None => u64::MAX,
                };
                if got == 0 || self.start_at >= limit {
                    self.no_more_pages = true;
                }
                proof {
                    assert(self@ == search_absorb(s0, pv));
                }
                if self.buf.len() == 0 {
                    return None;
                }
                match self.poll() {
                    SearchPoll::Issue(v) => Some(Ok(v)),
                    _ => None,
                }
            },
        }
    }
}

/// A step keeps the cap and the count bound.
pub proof fn lemma_search_poll_keeps(s: SearchView, p: SearchParams)
    requires
        search_ok(s),
    ensures
        search_ok(search_poll_spec(s, p).0),
        s.max matches Some(m) ==> search_poll_spec(s, p).0.emitted <= m,
{
}

/// After a page with issues comes in, the next step is never another request.
pub proof fn lemma_search_no_request_after_page(s: SearchView, page: SearchPage, p: SearchParams)
    requires
        search_absorb(s, page).buf.len() > 0,
    ensures
        !(search_poll_spec(search_absorb(s, page), p).1 is Request),
{
}

/// Issues are handed out in the order they arrived.
pub proof fn lemma_search_order(s: SearchView, p: SearchParams)
    ensures
        search_poll_spec(s, p).1 matches SearchStep::Issue(j) ==> j == s.buf[0]
            && search_poll_spec(s, p).0.buf == s.buf.drop_first(),
{
}

/// Once no page is left and the buffer is drained, the search stays ended.
pub proof fn lemma_search_end_is_final(s: SearchView, p: SearchParams)
    requires
        s.no_more_pages,
        s.buf.len() == 0,
    ensures
        search_poll_spec(s, p) == (s, SearchStep::Done),
{
}


// ---------------------------------------------------------------------
// Whole runs
// ---------------------------------------------------------------------

pub open spec fn page_issues(page: SearchPage) -> Seq<JsonV> {
    page.issues@.map_values(|j: Json| j@)
}

/// The issues of `pages`, page after page.
pub open spec fn all_issues(pages: Seq<SearchPage>) -> Seq<JsonV>
    decreases pages.len(),
{
    if pages.len() == 0 {
        Seq::empty()
    } else {
        page_issues(pages[0]) + all_issues(pages.drop_first())
    }
}

/// What a search hands out from state `s` when each request it makes is
/// answered by the next of `pages`, for at most `fuel` steps (the run stops
/// when it ends or makes a request that `pages` no longer answers).
pub open spec fn search_run(s: SearchView, p: SearchParams, pages: Seq<SearchPage>, fuel: nat) -> Seq<JsonV>
    decreases fuel,
{
    if fuel == 0 {
        Seq::empty()
    } else {
        let (t, step) = search_poll_spec(s, p);
        match step {
            SearchStep::Issue(j) => seq![j] + search_run(t, p, pages, (fuel - 1) as nat),
            SearchStep::Request(_) => if pages.len() == 0 {
                Seq::empty()
            } else {
                search_run(search_absorb(t, pages[0]), p, pages.drop_first(), (fuel - 1) as nat)
            },
            SearchStep::Done => Seq::empty(),
        }
    }
}

/// A search hands out the buffered issues and then the pages' issues, in
/// order, never skipping one, and never more than the cap allows.
pub proof fn lemma_search_run_in_page_order(s: SearchView, p: SearchParams, pages: Seq<SearchPage>, fuel: nat)
    ensures
        search_run(s, p, pages, fuel).is_prefix_of(s.buf + all_issues(pages)),
        (s.max matches Some(m) && s.emitted <= m) ==> search_run(s, p, pages, fuel).len() <= s.max->0 - s.emitted,
    decreases fuel,
{
    if fuel > 0 {
        let (t, step) = search_poll_spec(s, p);
        let all = s.buf + all_issues(pages);
        match step {
            SearchStep::Issue(j) => {
                lemma_search_run_in_page_order(t, p, pages, (fuel - 1) as nat);
                let rest = search_run(t, p, pages, (fuel - 1) as nat);
                assert(t.buf + all_issues(pages) =~= all.drop_first());
                assert(seq![j] + rest =~= all.subrange(0, rest.len() as int + 1)) by {
                    assert forall|i: int| 0 <= i < rest.len() + 1 implies (seq![j] + rest)[i] == all[i] by {
                        if i > 0 {
                            assert(rest[i - 1] == all.drop_first()[i - 1]);
                        }
                    }
                }
            },
            SearchStep::Request(_) => {
                if pages.len() > 0 {
                    let u = search_absorb(t, pages[0]);
                    lemma_search_run_in_page_order(u, p, pages.drop_first(), (fuel - 1) as nat);
                    assert(s.buf.len() == 0);
                    assert(u.buf =~= page_issues(pages[0]));
                    assert(u.buf + all_issues(pages.drop_first()) =~= all);
                }
            },
            SearchStep::Done => {},
        }
    }
}

/// Once no page is left to ask for (an empty page, the total reached, or a
/// failed request), the search sends no further request: the pages still on
/// offer make no difference to it.
pub proof fn lemma_search_no_request_after_end(s: SearchView, p: SearchParams, pages: Seq<SearchPage>, fuel: nat)
    requires
        s.no_more_pages,
    ensures
        search_run(s, p, pages, fuel) == search_run(s, p, Seq::empty(), fuel),
    decreases fuel,
{
    if fuel > 0 {
        let (t, step) = search_poll_spec(s, p);
        if step is Issue {
            lemma_search_no_request_after_end(t, p, pages, (fuel - 1) as nat);
        }
    }
}


/// The request bodies a search sends, in order, under the same conditions as
/// `search_run`.
pub open spec fn search_run_requests(s: SearchView, p: SearchParams, pages: Seq<SearchPage>, fuel: nat) -> Seq<JsonV>
    decreases fuel,
{
    if fuel == 0 {
        Seq::empty()
    } else {
        let (t, step) = search_poll_spec(s, p);
        match step {
            SearchStep::Issue(_) => search_run_requests(t, p, pages, (fuel - 1) as nat),
            SearchStep::Request(b) => if pages.len() == 0 {
                seq![b]
            } else {
                seq![b] + search_run_requests(search_absorb(t, pages[0]), p, pages.drop_first(), (fuel - 1) as nat)
            },
            SearchStep::Done => Seq::empty(),
        }
    }
}

/// The offset a search asks for after the first `k` pages: its starting
/// offset, then just past the issues of the page before.
pub open spec fn search_offset(start: u64, pages: Seq<SearchPage>, k: int) -> u64 {
    if k == 0 {
        start
    } else {
        (pages[k - 1].start_at + pages[k - 1].issues@.len()) as u64
    }
}

/// Whether a page ends the search: it has no issues, or the offset past
/// them reaches its total.
pub open spec fn page_ends(page: SearchPage) -> bool {
    page.issues@.len() == 0 || ((page.start_at + page.issues@.len()) as u64) >= (match page.total {
        Some(t) => t,
        None => u64::MAX,
    })
}

/// Every request of a search is the body for the same query, page size,
/// fields and expansions at the offset past the page before (the starting
/// offset first).
#[verifier::spinoff_prover]
pub proof fn lemma_search_request_offsets(s: SearchView, p: SearchParams, pages: Seq<SearchPage>, fuel: nat)
    ensures
        forall|k: int| 0 <= k < search_run_requests(s, p, pages, fuel).len()
            ==> #[trigger] search_run_requests(s, p, pages, fuel)[k] == search_request(p, search_offset(s.start_at, pages, k)),
    decreases fuel,
{
    if fuel > 0 {
        let (t, step) = search_poll_spec(s, p);
        let f = search_run_requests(s, p, pages, fuel);
        match step {
            SearchStep::Issue(_) => {
                assert(t.start_at == s.start_at);
                lemma_search_request_offsets(t, p, pages, (fuel - 1) as nat);
                assert(f == search_run_requests(t, p, pages, (fuel - 1) as nat));
            },
            SearchStep::Request(b) => {
                assert(b == search_request(p, s.start_at));
                if pages.len() == 0 {
                    assert(f == seq![b]);
                    assert forall|k: int| 0 <= k < f.len() implies #[trigger] f[k]
                        == search_request(p, search_offset(s.start_at, pages, k)) by {
                        assert(k == 0);
                    }
                } else {
                    let u = search_absorb(t, pages[0]);
                    let rest = pages.drop_first();
                    lemma_search_request_offsets(u, p, rest, (fuel - 1) as nat);
                    lemma_search_request_stops(u, p, rest, (fuel - 1) as nat);
                    let g = search_run_requests(u, p, rest, (fuel - 1) as nat);
                    assert(f == seq![b] + g);
                    assert forall|k: int| 0 <= k < f.len() implies #[trigger] f[k]
                        == search_request(p, search_offset(s.start_at, pages, k)) by {
                        if k > 0 {
                            assert(f[k] == g[k - 1]);
                            if k > 1 {
                                assert(rest[k - 2] == pages[k - 1]);
                            }
                        }
                    }
                }
            },
            SearchStep::Done => {},
        }
    }
}

/// A search sends at most one request beyond the pages on offer, none after
/// a page that ends it, and none once it has ended.
pub proof fn lemma_search_request_stops(s: SearchView, p: SearchParams, pages: Seq<SearchPage>, fuel: nat)
    ensures
        search_run_requests(s, p, pages, fuel).len() <= pages.len() + 1,
        forall|k: int| 0 <= k < pages.len() && page_ends(#[trigger] pages[k])
            ==> search_run_requests(s, p, pages, fuel).len() <= k + 1,
        s.no_more_pages ==> search_run_requests(s, p, pages, fuel).len() == 0,
    decreases fuel,
{
    if fuel > 0 {
        let (t, step) = search_poll_spec(s, p);
        let f = search_run_requests(s, p, pages, fuel);
        match step {
            SearchStep::Issue(_) => {
                lemma_search_request_stops(t, p, pages, (fuel - 1) as nat);
            },
            SearchStep::Request(b) => {
                if pages.len() > 0 {
                    let u = search_absorb(t, pages[0]);
                    let rest = pages.drop_first();
                    lemma_search_request_stops(u, p, rest, (fuel - 1) as nat);
                    let g = search_run_requests(u, p, rest, (fuel - 1) as nat);
                    assert(f == seq![b] + g);
                    assert forall|k: int| 0 <= k < pages.len() && page_ends(#[trigger] pages[k]) implies f.len() <= k + 1 by {
                        if k > 0 {
                            assert(rest[k - 1] == pages[k]);
                        } else {
                            assert(u.no_more_pages);
                        }
                    }
                }
            },
            SearchStep::Done => {},
        }
    }
}

} // verus!
