//! Offset pagination of Jira v2 and agile list endpoints (`startAt`,
//! `maxResults`, `total`, `isLast`), as a state machine: the caller performs
//! each fetch the machine asks for and feeds the page back.

use vstd::prelude::*;
use std::collections::VecDeque;
use crate::error::Error;
use crate::json::{json_u64, member, Json, JsonV};

verus! {

#[derive(Debug, Clone, Copy, PartialEq, Eq)]
pub struct PageParams {
    pub start_at: u64,
    pub page_size: u64,
    pub max: Option<u64>,
}

impl Default for PageParams {
    fn default() -> (p: Self)
        ensures
            p.start_at == 0,
            p.page_size == 50,
            p.max is None,
    {
        PageParams { start_at: 0, page_size: 50, max: None }
    }
}

/// The state of a paged iteration.
pub struct PagedView {
    /// Cap on the items handed out.
    pub max: Option<u64>,
    pub page_size: u64,
    /// Offset of the first page.
    pub first: u64,
    /// Key of the item array in each page.
    pub items_key: Seq<char>,
    /// Offset of the next page.
    pub start_at: u64,
    pub total: Option<u64>,
    /// No further page is to be fetched.
    pub is_last: bool,
    /// Items received and not yet handed out.
    pub buf: Seq<JsonV>,
    pub emitted: u64,
    /// The iteration has ended.
    pub done: bool,
}

/// What a step of the iteration yields.
pub enum PollView {
    Item(JsonV),
    Fetch { start_at: u64, page_size: u64 },
    Done,
}

/// Every item received is handed out or still buffered, and no more items
/// than the cap are handed out.
pub open spec fn paged_ok(s: PagedView) -> bool {
    &&& s.first <= s.start_at
    &&& s.emitted + s.buf.len() == s.start_at - s.first
    &&& (s.max matches Some(m) ==> s.emitted <= m)
}

pub open spec fn with_done(s: PagedView) -> PagedView {
    PagedView { done: true, ..s }
}

/// One step: stop once done or once the cap is reached; else hand out the
/// oldest buffered item; else stop after the last page; else ask for the
/// next page.
pub open spec fn poll_spec(s: PagedView) -> (PagedView, PollView) {
    if s.done {
        (s, PollView::Done)
    } else if s.max matches Some(m) && s.emitted >= m {
        (with_done(s), PollView::Done)
    } else if s.buf.len() > 0 {
        (PagedView { buf: s.buf.drop_first(), emitted: (s.emitted + 1) as u64, ..s }, PollView::Item(s.buf[0]))
    } else if s.is_last {
        (with_done(s), PollView::Done)
    } else {
        (s, PollView::Fetch { start_at: s.start_at, page_size: s.page_size })
    }
}

/// The items of a page: the array under `key`, or none.
pub open spec fn page_items(raw: JsonV, key: Seq<char>) -> Seq<JsonV> {
    match member(raw, key) {
        Some(JsonV::Array(a)) => a,
        _ => Seq::empty(),
    }
}

/// `total` of a page, when it is a `u64`.
pub open spec fn page_total(raw: JsonV) -> Option<u64> {
    match member(raw, "total"@) {
        Some(t) => json_u64(t),
        None => None,
    }
}

/// `isLast` of a page (agile endpoints), when it is a boolean.
pub open spec fn page_is_last(raw: JsonV) -> Option<bool> {
    match member(raw, "isLast"@) {
        Some(JsonV::Bool(b)) => Some(b),
        _ => None,
    }
}

/// Taking in a page: its items join the buffer and advance the offset; a page
/// without items, an offset at or past the total, or (without a total) an
/// `isLast` of true marks the last page.
pub open spec fn absorb(s: PagedView, raw: JsonV) -> PagedView {
    let total = match page_total(raw) {
        Some(t) => Some(t),
        None => s.total,
    };
    let items = page_items(raw, s.items_key);
    let start_at = (s.start_at + items.len()) as u64;
    let is_last = if items.len() == 0 {
        true
    } else if total is Some {
        start_at >= total->0 || s.is_last
    } else {
        page_is_last(raw) == Some(true) || s.is_last
    };
    PagedView { total, start_at, is_last, buf: s.buf + items, ..s }
}

pub enum PagePoll {
    Item(Json),
    Fetch { start_at: u64, page_size: u64 },
    Done,
}

pub open spec fn poll_matches(r: PagePoll, v: PollView) -> bool {
    match v {
        PollView::Item(j) => r matches PagePoll::Item(x) && x@ == j,
        PollView::Fetch { start_at, page_size } => r == (PagePoll::Fetch { start_at, page_size }),
        PollView::Done => r is Done,
    }
}

/// A generic paged iteration over the item array `items_key` of each page
/// (e.g. "comments", "worklogs", "values", "issues").
pub struct PagedIter {
    params: PageParams,
    items_key: String,
    start_at: u64,
    total: Option<u64>,
    is_last: bool,
    buf: VecDeque<Json>,
    emitted: u64,
    done: bool,
}

impl View for PagedIter {
    type V = PagedView;

    closed spec fn view(&self) -> PagedView {
        PagedView {
            max: self.params.max,
            page_size: self.params.page_size,
            first: self.params.start_at,
            items_key: self.items_key@,
            start_at: self.start_at,
            total: self.total,
            is_last: self.is_last,
            buf: self.buf@.map_values(|j: Json| j@),
            emitted: self.emitted,
            done: self.done,
        }
    }
}

impl PagedIter {
    pub fn new(params: PageParams, items_key: &str) -> (r: PagedIter)
        ensures
            r@ == (PagedView {
                max: params.max,
                page_size: params.page_size,
                first: params.start_at,
                items_key: items_key@,
                start_at: params.start_at,
                total: None,
                is_last: false,
                buf: Seq::empty(),
                emitted: 0,
                done: false,
            }),
            paged_ok(r@),
    {
        let r = PagedIter {
            params,
            items_key: items_key.to_owned(),
            start_at: params.start_at,
            total: None,
            is_last: false,
            buf: VecDeque::new(),
            emitted: 0,
            done: false,
        };
        proof {
            assert(r@.buf =~= Seq::<JsonV>::empty());
        }
        r
    }

    /// The `total` of the latest page that had one.
    pub fn total(&self) -> (r: Option<u64>)
        ensures
            r == self@.total,
    {
        self.total
    }

    /// How many items were handed out.
    pub fn emitted(&self) -> (r: u64)
        ensures
            r == self@.emitted,
    {
        self.emitted
    }

    /// The next step: an item, a page to fetch, or the end.
    pub fn poll(&mut self) -> (r: PagePoll)
        requires
            paged_ok(old(self)@),
        ensures
            final(self)@ == poll_spec(old(self)@).0,
            poll_matches(r, poll_spec(old(self)@).1),
            paged_ok(final(self)@),
    {
        if self.done {
            return PagePoll::Done;
        }
        if let Some(max) = self.params.max {
            if self.emitted >= max {
                self.done = true;
                return PagePoll::Done;
            }
        }
        let ghost b = self.buf@;
        match self.buf.pop_front() {
            Some(v) => {
                self.emitted = self.emitted + 1;
                proof {
                    assert(self.buf@.map_values(|j: Json| j@) =~= b.map_values(|j: Json| j@).drop_first());
                }
                PagePoll::Item(v)
            },
            None => {
                if self.is_last {
                    self.done = true;
                    PagePoll::Done
                } else {
                    PagePoll::Fetch { start_at: self.start_at, page_size: self.params.page_size }
                }
            },
        }
    }

    /// Take in the outcome of the fetch that `poll` asked for and take the
    /// next step. A failed fetch ends the iteration with its error; after a
    /// page, no further fetch is needed before the next `poll`.
    pub fn feed(&mut self, page: Result<Json, Error>) -> (r: Option<Result<Json, Error>>)
        requires
            paged_ok(old(self)@),
            page matches Ok(raw) ==> old(self)@.start_at + page_items(raw@, old(self)@.items_key).len() <= u64::MAX,
        ensures
            match page {
                Err(e) => final(self)@ == with_done(old(self)@) && r == Some(Err::<Json, Error>(e)),
                Ok(raw) => {
                    let (s, out) = poll_spec(absorb(old(self)@, raw@));
                    &&& final(self)@ == s
                    &&& match out {
                        PollView::Item(j) => r matches Some(Ok(x)) && x@ == j,
                        _ => r is None,
                    }
                },
            },
            paged_ok(final(self)@),
    {
        match page {
            Err(e) => {
                self.done = true;
                Some(Err(e))
            },
            Ok(raw) => {
                let ghost s0 = self@;
                if let Some(t) = raw.get("total") {
                    if let Some(n) = t.as_u64() {
                        self.total = Some(n);
                    }
                }
                let flag: Option<bool> = match raw.get("isLast") {
                    Some(f) => f.as_bool(),
                    None => None,
                };
                let got: u64 = match raw.get(self.items_key.as_str()) {
                    Some(a) => match a.as_array() {
                        Some(items) => {
                            self.append_items(items);
                            items.len() as u64
                        },
                        None => 0,
                    },
                    None => 0,
                };
                let ghost items = page_items(raw@, s0.items_key);
                proof {
                    assert(got == items.len());
                    if got == 0 {
                        assert(self.buf@.map_values(|j: Json| j@) =~= s0.buf + items);
                    }
                }
                self.start_at = self.start_at + got;
                if got == 0 {
                    self.is_last = true;
                } else if let Some(total) = self.total {
                    if self.start_at >= total {
                        self.is_last = true;
                    }
                } else if flag == Some(true) {
                    self.is_last = true;
                }
                proof {
                    assert(self@ == absorb(s0, raw@));
                    lemma_absorb_keeps(s0, raw@);
                }
                match self.poll() {
                    PagePoll::Item(v) => Some(Ok(v)),
                    PagePoll::Done => None,
                    PagePoll::Fetch { .. } => {
                        proof {
                            lemma_no_fetch_after_page(s0, raw@);
                        }
                        None
                    },
                }
            },
        }
    }

    /// Appends copies of `items` to the buffer.
    fn append_items(&mut self, items: &Vec<Json>)
        requires
            old(self).start_at + items@.len() <= u64::MAX,
        ensures
            final(self).buf@.map_values(|j: Json| j@) == old(self).buf@.map_values(|j: Json| j@) + items@.map_values(|j: Json| j@),
            final(self).params == old(self).params,
            final(self).items_key == old(self).items_key,
            final(self).start_at == old(self).start_at,
            final(self).total == old(self).total,
            final(self).is_last == old(self).is_last,
            final(self).emitted == old(self).emitted,
            final(self).done == old(self).done,
    {
        let ghost b0 = self.buf@.map_values(|j: Json| j@);
        let ghost iv = items@.map_values(|j: Json| j@);
        let mut i: usize = 0;
        while i < items.len()
            invariant
                i <= items@.len(),
                self.buf@.map_values(|j: Json| j@) == b0 + iv.subrange(0, i as int),
                iv == items@.map_values(|j: Json| j@),
                self.params == old(self).params,
                self.items_key == old(self).items_key,
                self.start_at == old(self).start_at,
                self.total == old(self).total,
                self.is_last == old(self).is_last,
                self.emitted == old(self).emitted,
                self.done == old(self).done,
            decreases items@.len() - i,
        {
            let c = items[i].deep_copy();
            let ghost before = self.buf@;
            self.buf.push_back(c);
            proof {
                assert(self.buf@.map_values(|j: Json| j@) =~= before.map_values(|j: Json| j@).push(c@));
                assert(iv.subrange(0, i + 1) =~= iv.subrange(0, i as int).push(iv[i as int]));
            }
            i += 1;
        }
        proof {
            assert(iv.subrange(0, items@.len() as int) =~= iv);
        }
    }
}

/// Taking in a page keeps every item accounted for, and the cap.
pub proof fn lemma_absorb_keeps(s: PagedView, raw: JsonV)
    requires
        paged_ok(s),
        s.start_at + page_items(raw, s.items_key).len() <= u64::MAX,
    ensures
        paged_ok(absorb(s, raw)),
        absorb(s, raw).emitted == s.emitted,
        absorb(s, raw).done == s.done,
{
}

/// A step keeps every item accounted for, and the cap.
pub proof fn lemma_poll_keeps(s: PagedView)
    requires
        paged_ok(s),
    ensures
        paged_ok(poll_spec(s).0),
{
}

/// After a page comes in, the next step is never another fetch: the page
/// either brought items or was the last.
pub proof fn lemma_no_fetch_after_page(s: PagedView, raw: JsonV)
    ensures
        !(poll_spec(absorb(s, raw)).1 is Fetch),
{
}

/// Once the iteration has ended it stays ended and yields nothing more.
pub proof fn lemma_done_is_final(s: PagedView)
    requires
        s.done,
    ensures
        poll_spec(s) == (s, PollView::Done),
{
}

/// Items are handed out in the order they arrived, and each step hands out
/// at most one; the count of items handed out never passes the cap.
pub proof fn lemma_poll_order(s: PagedView)
    requires
        paged_ok(s),
    ensures
        poll_spec(s).1 matches PollView::Item(j) ==> j == s.buf[0] && poll_spec(s).0.buf == s.buf.drop_first()
            && poll_spec(s).0.emitted == s.emitted + 1,
        !(poll_spec(s).1 is Item) ==> poll_spec(s).0.emitted == s.emitted && poll_spec(s).0.buf == s.buf,
        s.max matches Some(m) ==> poll_spec(s).0.emitted <= m,
{
}


// ---------------------------------------------------------------------
// Whole runs
// ---------------------------------------------------------------------

/// The items of `pages`, page after page.
pub open spec fn all_items(pages: Seq<JsonV>, key: Seq<char>) -> Seq<JsonV>
    decreases pages.len(),
{
    if pages.len() == 0 {
        Seq::empty()
    } else {
        page_items(pages[0], key) + all_items(pages.drop_first(), key)
    }
}

/// What a run hands out from state `s` when each page it asks for is
/// answered by the next of `pages`, for at most `fuel` steps (the run stops
/// when it ends or asks for a page that `pages` no longer holds).
pub open spec fn run_items(s: PagedView, pages: Seq<JsonV>, fuel: nat) -> Seq<JsonV>
    decreases fuel,
{
    if fuel == 0 {
        Seq::empty()
    } else {
        let (t, step) = poll_spec(s);
        match step {
            PollView::Item(j) => seq![j] + run_items(t, pages, (fuel - 1) as nat),
            PollView::Fetch { .. } => if pages.len() == 0 {
                Seq::empty()
            } else {
                run_items(absorb(t, pages[0]), pages.drop_first(), (fuel - 1) as nat)
            },
            PollView::Done => Seq::empty(),
        }
    }
}

/// A run hands out the buffered items and then the pages' items, in order,
/// never skipping one, and never more than the cap allows.
pub proof fn lemma_run_in_page_order(s: PagedView, pages: Seq<JsonV>, fuel: nat)
    ensures
        run_items(s, pages, fuel).is_prefix_of(s.buf + all_items(pages, s.items_key)),
        (s.max matches Some(m) && s.emitted <= m) ==> run_items(s, pages, fuel).len() <= s.max->0 - s.emitted,
    decreases fuel,
{
    if fuel > 0 {
        let (t, step) = poll_spec(s);
        let all = s.buf + all_items(pages, s.items_key);
        match step {
            PollView::Item(j) => {
                lemma_run_in_page_order(t, pages, (fuel - 1) as nat);
                let rest = run_items(t, pages, (fuel - 1) as nat);
                assert(t.buf + all_items(pages, s.items_key) =~= all.drop_first());
                assert(seq![j] + rest =~= all.subrange(0, rest.len() as int + 1)) by {
                    assert forall|i: int| 0 <= i < rest.len() + 1 implies (seq![j] + rest)[i] == all[i] by {
                        if i > 0 {
                            assert(rest[i - 1] == all.drop_first()[i - 1]);
                        }
                    }
                }
            },
            PollView::Fetch { .. } => {
                if pages.len() > 0 {
                    let u = absorb(t, pages[0]);
                    lemma_run_in_page_order(u, pages.drop_first(), (fuel - 1) as nat);
                    assert(s.buf.len() == 0);
                    assert(u.buf =~= page_items(pages[0], s.items_key));
                    assert(u.buf + all_items(pages.drop_first(), s.items_key) =~= all);
                }
            },
            PollView::Done => {},
        }
    }
}

/// Once the last page has come in, no further page is asked for: the pages
/// still on offer make no difference to the run.
pub proof fn lemma_no_page_after_last(s: PagedView, pages: Seq<JsonV>, fuel: nat)
    requires
        s.is_last,
    ensures
        run_items(s, pages, fuel) == run_items(s, Seq::empty(), fuel),
    decreases fuel,
{
    if fuel > 0 {
        let (t, step) = poll_spec(s);
        if step is Item {
            lemma_no_page_after_last(t, pages, (fuel - 1) as nat);
        }
    }
}

/// The pages a run asks for, as (offset, page size), in order, under the
/// same conditions as `run_items`.
pub open spec fn run_fetches(s: PagedView, pages: Seq<JsonV>, fuel: nat) -> Seq<(u64, u64)>
    decreases fuel,
{
    if fuel == 0 {
        Seq::empty()
    } else {
        let (t, step) = poll_spec(s);
        match step {
            PollView::Item(_) => run_fetches(t, pages, (fuel - 1) as nat),
            PollView::Fetch { start_at, page_size } => if pages.len() == 0 {
                seq![(start_at, page_size)]
            } else {
                seq![(start_at, page_size)] + run_fetches(absorb(t, pages[0]), pages.drop_first(), (fuel - 1) as nat)
            },
            PollView::Done => Seq::empty(),
        }
    }
}

proof fn lemma_all_items_prefix(pages: Seq<JsonV>, key: Seq<char>, k: int)
    requires
        0 < k <= pages.len(),
    ensures
        all_items(pages.subrange(0, k), key) == page_items(pages[0], key) + all_items(pages.drop_first().subrange(0, k - 1), key),
{
    let q = pages.subrange(0, k);
    assert(q.drop_first() =~= pages.drop_first().subrange(0, k - 1));
    assert(q[0] == pages[0]);
}

/// The `k`-th fetch of a run asks, with the configured page size, for the
/// offset just past the items of the first `k` pages.
#[verifier::spinoff_prover]
#[verifier::rlimit(50)]
pub proof fn lemma_run_fetch_offsets(s: PagedView, pages: Seq<JsonV>, fuel: nat)
    requires
        s.start_at + all_items(pages, s.items_key).len() <= u64::MAX,
    ensures
        forall|k: int| 0 <= k < run_fetches(s, pages, fuel).len() ==> #[trigger] run_fetches(s, pages, fuel)[k]
            == ((s.start_at + all_items(pages.subrange(0, k), s.items_key).len()) as u64, s.page_size),
    decreases fuel,
{
    if fuel > 0 {
        let (t, step) = poll_spec(s);
        let key = s.items_key;
        match step {
            PollView::Item(_) => {
                assert(t.start_at == s.start_at && t.page_size == s.page_size && t.items_key == s.items_key);
                lemma_run_fetch_offsets(t, pages, (fuel - 1) as nat);
                assert(run_fetches(s, pages, fuel) == run_fetches(t, pages, (fuel - 1) as nat));
            },
            PollView::Fetch { start_at, page_size } => {
                assert(start_at == s.start_at && page_size == s.page_size);
                assert(pages.subrange(0, 0) =~= Seq::<JsonV>::empty());
                assert(all_items(pages.subrange(0, 0), key).len() == 0);
                if pages.len() == 0 {
                    let f = run_fetches(s, pages, fuel);
                    assert(f == seq![(start_at, page_size)]);
                    assert forall|k: int| 0 <= k < f.len() implies #[trigger] f[k]
                        == ((s.start_at + all_items(pages.subrange(0, k), key).len()) as u64, s.page_size) by {
                        assert(k == 0);
                    }
                } else {
                    let u = absorb(t, pages[0]);
                    let rest = pages.drop_first();
                    assert(all_items(pages, key) == page_items(pages[0], key) + all_items(rest, key));
                    lemma_run_fetch_offsets(u, rest, (fuel - 1) as nat);
                    lemma_run_fetch_stops(u, rest, (fuel - 1) as nat);
                    let f = run_fetches(s, pages, fuel);
                    let g = run_fetches(u, rest, (fuel - 1) as nat);
                    assert(f == seq![(start_at, page_size)] + g);
                    assert forall|k: int| 0 <= k < f.len() implies #[trigger] f[k]
                        == ((s.start_at + all_items(pages.subrange(0, k), key).len()) as u64, s.page_size) by {
                        if k > 0 {
                            assert(f[k] == g[k - 1]);
                            lemma_all_items_prefix(pages, key, k);
                        }
                    }
                }
            },
            PollView::Done => {},
        }
    }
}

/// A run makes at most one fetch beyond the pages on offer, none after a
/// page without items, and none once the last page is in or the run ended.
pub proof fn lemma_run_fetch_stops(s: PagedView, pages: Seq<JsonV>, fuel: nat)
    ensures
        run_fetches(s, pages, fuel).len() <= pages.len() + 1,
        forall|k: int| 0 <= k < pages.len() && (#[trigger] page_items(pages[k], s.items_key)).len() == 0
            ==> run_fetches(s, pages, fuel).len() <= k + 1,
        s.is_last || s.done ==> run_fetches(s, pages, fuel).len() == 0,
    decreases fuel,
{
    if fuel > 0 {
        let (t, step) = poll_spec(s);
        match step {
            PollView::Item(_) => {
                lemma_run_fetch_stops(t, pages, (fuel - 1) as nat);
            },
            PollView::Fetch { start_at, page_size } => {
                if pages.len() > 0 {
                    let u = absorb(t, pages[0]);
                    let rest = pages.drop_first();
                    lemma_run_fetch_stops(u, rest, (fuel - 1) as nat);
                    let f = run_fetches(s, pages, fuel);
                    let g = run_fetches(u, rest, (fuel - 1) as nat);
                    assert(f == seq![(start_at, page_size)] + g);
                    assert forall|k: int| 0 <= k < pages.len() && (#[trigger] page_items(pages[k], s.items_key)).len() == 0
                        implies f.len() <= k + 1 by {
                        if k > 0 {
                            assert(rest[k - 1] == pages[k]);
                        }
                    }
                }
            },
            PollView::Done => {},
        }
    }
}

// ---------------------------------------------------------------------
// Reading a page's members (missing members take their defaults)
// ---------------------------------------------------------------------

/// The array member `k` of a page: empty when missing, `None` when it is not
/// an array.
pub open spec fn items_field(v: JsonV, k: Seq<char>) -> Option<Seq<JsonV>> {
    match member(v, k) {
        None => Some(Seq::empty()),
        Some(JsonV::Array(a)) => Some(a),
        Some(_) => None,
    }
}

/// The `total` member of a page: unset when missing or null, `None` when it
/// is not an unsigned integer.
pub open spec fn total_field(v: JsonV) -> Option<Option<u64>> {
    match member(v, "total"@) {
        None => Some(None),
        Some(JsonV::Null) => Some(None),
        Some(x) => match json_u64(x) {
            Some(n) => Some(Some(n)),
            None => None,
        },
    }
}

/// The boolean member `k` of a page: unset when missing or null, `None` when
/// it is not a boolean.
pub open spec fn bool_field(v: JsonV, k: Seq<char>) -> Option<Option<bool>> {
    match member(v, k) {
        None => Some(None),
        Some(JsonV::Null) => Some(None),
        Some(JsonV::Bool(b)) => Some(Some(b)),
        Some(_) => None,
    }
}

pub fn read_items(v: &Json, k: &str) -> (r: Option<Vec<Json>>)
    ensures
        match items_field(v@, k@) {
            Some(a) => r matches Some(x) && x@.map_values(|j: Json| j@) == a,
            None => r is None,
        },
{
    match v.get(k) {
        None => {
            let out: Vec<Json> = Vec::new();
            assert(out@.map_values(|j: Json| j@) =~= Seq::<JsonV>::empty());
            Some(out)
        },
        Some(x) => match x.as_array() {
            Some(_) => Some(crate::api::issue::array_items(v, k)),
            None => None,
        },
    }
}

pub fn read_total(v: &Json) -> (r: Option<Option<u64>>)
    ensures
        r == total_field(v@),
{
    match v.get("total") {
        None => Some(None),
        Some(Json::Null) => Some(None),
        Some(x) => match x.as_u64() {
            Some(n) => Some(Some(n)),
            None => None,
        },
    }
}

pub fn read_bool(v: &Json, k: &str) -> (r: Option<Option<bool>>)
    ensures
        r == bool_field(v@, k@),
{
    match v.get(k) {
        None => Some(None),
        Some(Json::Null) => Some(None),
        Some(Json::Bool(b)) => Some(Some(*b)),
        Some(_) => None,
    }
}

} // verus!
