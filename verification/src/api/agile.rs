//! Agile REST API 1.0: boards, sprints, epics, backlog.

use vstd::prelude::*;
use crate::api::{form_encoded, encoded_after, encoded_between, pairs_view, plain, with_body, Method, Request, RequestView};
use crate::api::paging::{bool_field, items_field, paged_ok, read_bool, read_items, read_total, total_field, PageParams, PagedIter, PagedView};
use crate::error::{join, join_strings};
use crate::json::{entries_view, Json, JsonV};
use crate::text::{concat2, concat3, decimal, decimal_string};

verus! {

/// A fresh paged iteration over the item array `key` of each page.
pub open spec fn fresh(params: PageParams, key: Seq<char>) -> PagedView {
    PagedView {
        max: params.max,
        page_size: params.page_size,
        first: params.start_at,
        items_key: key,
        start_at: params.start_at,
        total: None,
        is_last: false,
        buf: Seq::empty(),
        emitted: 0,
        done: false,
    }
}

/// `startAt` and `maxResults` of one page.
pub open spec fn page_query(start: u64, size: u64) -> Seq<(Seq<char>, Seq<char>)> {
    seq![("startAt"@, decimal(start as nat)), ("maxResults"@, decimal(size as nat))]
}

fn push_page_query(q: &mut Vec<(String, String)>, start: u64, size: u64)
    ensures
        pairs_view(final(q)@) == pairs_view(old(q)@) + page_query(start, size),
{
    let ghost q0 = pairs_view(q@);
    q.push(("startAt".to_owned(), decimal_string(start)));
    q.push(("maxResults".to_owned(), decimal_string(size)));
    proof {
        assert(pairs_view(q@) =~= q0 + page_query(start, size));
    }
}

// ---- Boards ----

/// The board filter: `type` and `projectKeyOrId`, each when given.
pub open spec fn board_query(kind: Option<Seq<char>>, project_key: Option<Seq<char>>) -> Seq<(Seq<char>, Seq<char>)> {
    let a = match kind { Some(k) => seq![("type"@, k)], None => Seq::empty() };
    let b = match project_key { Some(p) => seq![("projectKeyOrId"@, p)], None => Seq::empty() };
    a + b
}

pub open spec fn opt(o: Option<&str>) -> Option<Seq<char>> {
    match o { Some(s) => Some(s@), None => None }
}

fn board_filter(kind: Option<&str>, project_key: Option<&str>) -> (q: Vec<(String, String)>)
    ensures
        pairs_view(q@) == board_query(opt(kind), opt(project_key)),
{
    let mut q: Vec<(String, String)> = Vec::new();
    if let Some(k) = kind {
        q.push(("type".to_owned(), k.to_owned()));
    }
    let ghost q1 = pairs_view(q@);
    if let Some(p) = project_key {
        q.push(("projectKeyOrId".to_owned(), p.to_owned()));
    }
    proof {
        assert(pairs_view(q@) =~= board_query(opt(kind), opt(project_key)));
    }
    q
}

/// `GET /rest/agile/1.0/board`, filtered by type and project.
pub fn list_boards(kind: Option<&str>, project_key: Option<&str>) -> (r: Request)
    ensures
        r@ == (RequestView { method: Method::Get, path: "/rest/agile/1.0/board"@, query: board_query(opt(kind), opt(project_key)), body: None }),
{
    Request::with_query(Method::Get, "/rest/agile/1.0/board".to_owned(), board_filter(kind, project_key))
}

/// One page of `list_boards`.
pub fn list_boards_page(kind: Option<&str>, project_key: Option<&str>, start: u64, size: u64) -> (r: Request)
    ensures
        r@ == (RequestView {
            method: Method::Get,
            path: "/rest/agile/1.0/board"@,
            query: board_query(opt(kind), opt(project_key)) + page_query(start, size),
            body: None,
        }),
{
    let mut q = board_filter(kind, project_key);
    push_page_query(&mut q, start, size);
    Request::with_query(Method::Get, "/rest/agile/1.0/board".to_owned(), q)
}

/// Paged boards (`values` of each page).
pub fn list_boards_paged(params: PageParams) -> (r: PagedIter)
    ensures
        r@ == fresh(params, "values"@),
        paged_ok(r@),
{
    PagedIter::new(params, "values")
}

pub fn get_board(id: u64) -> (r: Request)
    ensures
        r@ == plain(Method::Get, "/rest/agile/1.0/board/"@ + decimal(id as nat)),
{
    Request::plain(Method::Get, concat2("/rest/agile/1.0/board/", decimal_string(id).as_str()))
}

pub fn board_backlog(id: u64) -> (r: Request)
    ensures
        r@ == plain(Method::Get, "/rest/agile/1.0/board/"@ + decimal(id as nat) + "/backlog"@),
{
    Request::plain(Method::Get, concat3("/rest/agile/1.0/board/", decimal_string(id).as_str(), "/backlog"))
}

/// One page of a board's backlog.
pub fn board_backlog_page(id: u64, start: u64, size: u64) -> (r: Request)
    ensures
        r@ == (RequestView {
            method: Method::Get,
            path: "/rest/agile/1.0/board/"@ + decimal(id as nat) + "/backlog"@,
            query: page_query(start, size),
            body: None,
        }),
{
    let mut q: Vec<(String, String)> = Vec::new();
    push_page_query(&mut q, start, size);
    proof {
        assert(pairs_view(Seq::<(String, String)>::empty()) =~= Seq::<(Seq<char>, Seq<char>)>::empty());
        assert(Seq::<(Seq<char>, Seq<char>)>::empty() + page_query(start, size) =~= page_query(start, size));
    }
    Request::with_query(Method::Get, concat3("/rest/agile/1.0/board/", decimal_string(id).as_str(), "/backlog"), q)
}

/// Paged backlog issues (`issues` of each page).
pub fn board_backlog_paged(params: PageParams) -> (r: PagedIter)
    ensures
        r@ == fresh(params, "issues"@),
        paged_ok(r@),
{
    PagedIter::new(params, "issues")
}

// ---- Sprints ----

/// One page of a board's sprints, filtered by the comma-joined states.
pub fn list_sprints_page(board: u64, states: &Vec<String>, start: u64, size: u64) -> (r: Request)
    ensures
        r@ == (RequestView {
            method: Method::Get,
            path: "/rest/agile/1.0/board/"@ + decimal(board as nat) + "/sprint"@,
            query: (if states@.len() > 0 { seq![("state"@, join(states@.map_values(|s: String| s@), ","@))] } else { Seq::empty() })
                + page_query(start, size),
            body: None,
        }),
{
    let mut q: Vec<(String, String)> = Vec::new();
    if states.len() > 0 {
        q.push(("state".to_owned(), join_strings(states, ",")));
    }
    let ghost q1 = pairs_view(q@);
    proof {
        assert(q1 =~= (if states@.len() > 0 { seq![("state"@, join(states@.map_values(|s: String| s@), ","@))] } else { Seq::empty() }));
    }
    push_page_query(&mut q, start, size);
    Request::with_query(Method::Get, concat3("/rest/agile/1.0/board/", decimal_string(board).as_str(), "/sprint"), q)
}

/// Paged sprints (`values` of each page).
pub fn list_sprints_paged(params: PageParams) -> (r: PagedIter)
    ensures
        r@ == fresh(params, "values"@),
        paged_ok(r@),
{
    PagedIter::new(params, "values")
}

pub open spec fn sprint_path(id: u64) -> Seq<char> {
    "/rest/agile/1.0/sprint/"@ + decimal(id as nat)
}

fn sprint_path_string(id: u64) -> (r: String)
    ensures
        r@ == sprint_path(id),
{
    concat2("/rest/agile/1.0/sprint/", decimal_string(id).as_str())
}

pub fn get_sprint(id: u64) -> (r: Request)
    ensures
        r@ == plain(Method::Get, sprint_path(id)),
{
    Request::plain(Method::Get, sprint_path_string(id))
}

/// Entries `(k, Str(v))` for the given optional values, in order.
pub open spec fn opt_entries(items: Seq<(Seq<char>, Option<Seq<char>>)>) -> Seq<(Seq<char>, JsonV)>
    decreases items.len(),
{
    if items.len() == 0 {
        Seq::empty()
    } else {
        let r = opt_entries(items.drop_last());
        match items.last().1 {
            Some(v) => r.push((items.last().0, JsonV::Str(v))),
            None => r,
        }
    }
}

fn push_opt(e: &mut Vec<(String, Json)>, k: &str, v: Option<&str>)
    ensures
        entries_view(final(e)@) == match v {
            Some(s) => entries_view(old(e)@).push((k@, JsonV::Str(s@))),
            None => entries_view(old(e)@),
        },
{
    let ghost e0 = entries_view(e@);
    if let Some(s) = v {
        e.push((k.to_owned(), Json::string(s)));
        proof {
            assert(entries_view(e@) =~= e0.push((k@, JsonV::Str(s@))));
        }
    }
}

/// The body of a new sprint: name, origin board, then the dates and goal
/// that are given.
pub open spec fn create_sprint_body(board: u64, name: Seq<char>, start: Option<Seq<char>>, end: Option<Seq<char>>, goal: Option<Seq<char>>) -> JsonV {
    JsonV::Object(seq![("name"@, JsonV::Str(name)), ("originBoardId"@, JsonV::Number(decimal(board as nat)))]
        + opt_entries(seq![("startDate"@, start), ("endDate"@, end), ("goal"@, goal)]))
}

/// `POST /rest/agile/1.0/sprint`.
pub fn create_sprint(board: u64, name: &str, start: Option<&str>, end: Option<&str>, goal: Option<&str>) -> (r: Request)
    ensures
        r@ == with_body(Method::Post, "/rest/agile/1.0/sprint"@, create_sprint_body(board, name@, opt(start), opt(end), opt(goal))),
{
    let mut e: Vec<(String, Json)> = Vec::new();
    e.push(("name".to_owned(), Json::string(name)));
    e.push(("originBoardId".to_owned(), Json::uint(board)));
    let ghost e0 = entries_view(e@);
    push_opt(&mut e, "startDate", start);
    push_opt(&mut e, "endDate", end);
    push_opt(&mut e, "goal", goal);
    proof {
        reveal_with_fuel(opt_entries, 4);
        let items = seq![("startDate"@, opt(start)), ("endDate"@, opt(end)), ("goal"@, opt(goal))];
        assert(items.drop_last().drop_last().drop_last() =~= Seq::<(Seq<char>, Option<Seq<char>>)>::empty());
        assert(items.drop_last().drop_last().last() == ("startDate"@, opt(start)));
        assert(items.drop_last().last() == ("endDate"@, opt(end)));
        assert(entries_view(e@) =~= e0 + opt_entries(items));
        assert(e0 =~= seq![("name"@, JsonV::Str(name@)), ("originBoardId"@, JsonV::Number(decimal(board as nat)))]);
    }
    Request::with_body(Method::Post, "/rest/agile/1.0/sprint".to_owned(), Json::object(e))
}

/// The partial update of a sprint: the given name, state, dates and goal.
pub open spec fn sprint_update_spec(name: Option<Seq<char>>, state: Option<Seq<char>>, start: Option<Seq<char>>, end: Option<Seq<char>>, goal: Option<Seq<char>>) -> JsonV {
    JsonV::Object(opt_entries(seq![("name"@, name), ("state"@, state), ("startDate"@, start), ("endDate"@, end), ("goal"@, goal)]))
}

pub fn sprint_update_body(name: Option<&str>, state: Option<&str>, start: Option<&str>, end: Option<&str>, goal: Option<&str>) -> (r: Json)
    ensures
        r@ == sprint_update_spec(opt(name), opt(state), opt(start), opt(end), opt(goal)),
{
    let mut e: Vec<(String, Json)> = Vec::new();
    push_opt(&mut e, "name", name);
    push_opt(&mut e, "state", state);
    push_opt(&mut e, "startDate", start);
    push_opt(&mut e, "endDate", end);
    push_opt(&mut e, "goal", goal);
    proof {
        reveal_with_fuel(opt_entries, 6);
        let items = seq![("name"@, opt(name)), ("state"@, opt(state)), ("startDate"@, opt(start)), ("endDate"@, opt(end)), ("goal"@, opt(goal))];
        let i4 = items.drop_last();
        let i3 = i4.drop_last();
        let i2 = i3.drop_last();
        let i1 = i2.drop_last();
        assert(i1.drop_last() =~= Seq::<(Seq<char>, Option<Seq<char>>)>::empty());
        assert(i1.last() == ("name"@, opt(name)));
        assert(i2.last() == ("state"@, opt(state)));
        assert(i3.last() == ("startDate"@, opt(start)));
        assert(i4.last() == ("endDate"@, opt(end)));
        assert(entries_view(Seq::<(String, Json)>::empty()) =~= Seq::<(Seq<char>, JsonV)>::empty());
        assert(entries_view(e@) =~= opt_entries(items));
    }
    Json::object(e)
}

/// `POST /rest/agile/1.0/sprint/{id}` (a partial update).
pub fn update_sprint(id: u64, body: Json) -> (r: Request)
    ensures
        r@ == with_body(Method::Post, sprint_path(id), body@),
{
    Request::with_body(Method::Post, sprint_path_string(id), body)
}

pub fn delete_sprint(id: u64) -> (r: Request)
    ensures
        r@ == plain(Method::Delete, sprint_path(id)),
{
    Request::plain(Method::Delete, sprint_path_string(id))
}

/// One page of a sprint's issues.
pub fn sprint_issues_page(id: u64, start: u64, size: u64) -> (r: Request)
    ensures
        r@ == (RequestView { method: Method::Get, path: sprint_path(id) + "/issue"@, query: page_query(start, size), body: None }),
{
    let mut q: Vec<(String, String)> = Vec::new();
    push_page_query(&mut q, start, size);
    proof {
        assert(Seq::<(Seq<char>, Seq<char>)>::empty() + page_query(start, size) =~= page_query(start, size));
        assert(pairs_view(Seq::<(String, String)>::empty()) =~= Seq::<(Seq<char>, Seq<char>)>::empty());
    }
    let mut p = sprint_path_string(id);
    p.append("/issue");
    Request::with_query(Method::Get, p, q)
}

/// Paged sprint issues (`issues` of each page).
pub fn sprint_issues_paged(params: PageParams) -> (r: PagedIter)
    ensures
        r@ == fresh(params, "issues"@),
        paged_ok(r@),
{
    PagedIter::new(params, "issues")
}

/// `{"issues": [keys]}`.
pub open spec fn issues_body(keys: Seq<String>) -> JsonV {
    JsonV::Object(seq![("issues"@, JsonV::Array(keys.map_values(|s: String| JsonV::Str(s@))))])
}

fn issues_json(keys: &Vec<String>) -> (r: Json)
    ensures
        r@ == issues_body(keys@),
{
    Json::object1("issues", Json::string_array(keys))
}

/// `POST /rest/agile/1.0/sprint/{id}/issue`: move issues into the sprint.
pub fn move_issues_to_sprint(id: u64, keys: &Vec<String>) -> (r: Request)
    ensures
        r@ == with_body(Method::Post, sprint_path(id) + "/issue"@, issues_body(keys@)),
{
    let mut p = sprint_path_string(id);
    p.append("/issue");
    Request::with_body(Method::Post, p, issues_json(keys))
}

// ---- Epics and backlog ----

pub fn get_epic(key: &str) -> (r: Request)
    ensures
        r@ == plain(Method::Get, "/rest/agile/1.0/epic/"@ + form_encoded(key@)),
{
    Request::plain(Method::Get, encoded_after("/rest/agile/1.0/epic/", key))
}

pub fn epic_issues(key: &str) -> (r: Request)
    ensures
        r@ == plain(Method::Get, "/rest/agile/1.0/epic/"@ + form_encoded(key@) + "/issue"@),
{
    Request::plain(Method::Get, encoded_between("/rest/agile/1.0/epic/", key, "/issue"))
}

/// `POST /rest/agile/1.0/epic/{key}/issue`: add issues to the epic.
pub fn epic_add_issues(key: &str, issues: &Vec<String>) -> (r: Request)
    ensures
        r@ == with_body(Method::Post, "/rest/agile/1.0/epic/"@ + form_encoded(key@) + "/issue"@, issues_body(issues@)),
{
    Request::with_body(Method::Post, encoded_between("/rest/agile/1.0/epic/", key, "/issue"), issues_json(issues))
}

/// `POST /rest/agile/1.0/epic/none/issue`: take issues out of their epic.
pub fn epic_remove_issues(issues: &Vec<String>) -> (r: Request)
    ensures
        r@ == with_body(Method::Post, "/rest/agile/1.0/epic/none/issue"@, issues_body(issues@)),
{
    Request::with_body(Method::Post, "/rest/agile/1.0/epic/none/issue".to_owned(), issues_json(issues))
}

/// `POST /rest/agile/1.0/backlog/issue`: move issues to the backlog.
pub fn backlog_move(keys: &Vec<String>) -> (r: Request)
    ensures
        r@ == with_body(Method::Post, "/rest/agile/1.0/backlog/issue"@, issues_body(keys@)),
{
    Request::with_body(Method::Post, "/rest/agile/1.0/backlog/issue".to_owned(), issues_json(keys))
}


/// A page of an Agile list: its `values`, and `total` and `isLast` when the
/// server sends them.
pub struct Page {
    pub values: Vec<Json>,
    pub total: Option<u64>,
    pub is_last: Option<bool>,
}

impl Page {
    /// Reads a page from a JSON object; `None` when it is no object or a
    /// member has the wrong type (missing members take their defaults).
    pub fn from_json(v: &Json) -> (r: Option<Page>)
        ensures
            r is Some <==> (v@ is Object && items_field(v@, "values"@) is Some && total_field(v@) is Some
                && bool_field(v@, "isLast"@) is Some),
            r matches Some(p) ==> p.values@.map_values(|j: Json| j@) == items_field(v@, "values"@)->0
                && p.total == total_field(v@)->0 && p.is_last == bool_field(v@, "isLast"@)->0,
    {
        match v {
            Json::Object(_) => {},
            _ => return None,
        }
        let values = match read_items(v, "values") {
            Some(x) => x,
            None => return None,
        };
        let total = match read_total(v) {
            Some(t) => t,
            None => return None,
        };
        let is_last = match read_bool(v, "isLast") {
            Some(b) => b,
            None => return None,
        };
        Some(Page { values, total, is_last })
    }
}

} // verus!
