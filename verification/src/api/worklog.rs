//! Issue worklogs.

use vstd::prelude::*;
use crate::api::{encoded_between, issue_path, plain, with_body, Method, Request};
use crate::api::comment::{page_suffix, page_suffix_string};
use crate::api::paging::{items_field, read_items, read_total, total_field, PageParams, PagedIter, PagedView};
use crate::json::{entries_view, Json, JsonV};

verus! {

/// `GET /rest/api/2/issue/{key}/worklog`.
pub fn list(key: &str) -> (r: Request)
    ensures
        r@ == plain(Method::Get, issue_path(key@) + "/worklog"@),
{
    Request::plain(Method::Get, encoded_between("/rest/api/2/issue/", key, "/worklog"))
}

/// One page of an issue's worklogs.
pub fn list_page(key: &str, start_at: u64, page_size: u64) -> (r: Request)
    ensures
        r@ == plain(Method::Get, issue_path(key@) + "/worklog"@ + page_suffix(start_at, page_size)),
{
    let mut p = encoded_between("/rest/api/2/issue/", key, "/worklog");
    p.append(page_suffix_string(start_at, page_size).as_str());
    Request::plain(Method::Get, p)
}

/// Paged iteration over an issue's worklogs (`worklogs` of each page); each
/// fetch is `list_page`.
pub fn list_paged(params: PageParams) -> (r: PagedIter)
    ensures
        r@ == (PagedView {
            max: params.max,
            page_size: params.page_size,
            first: params.start_at,
            items_key: "worklogs"@,
            start_at: params.start_at,
            total: None,
            is_last: false,
            buf: Seq::empty(),
            emitted: 0,
            done: false,
        }),
        crate::api::paging::paged_ok(r@),
{
    PagedIter::new(params, "worklogs")
}

/// `{"timeSpent": t}`, with `started` and `comment` when given.
pub open spec fn worklog_body(time_spent: Seq<char>, started: Option<Seq<char>>, comment: Option<Seq<char>>) -> JsonV {
    let a = seq![("timeSpent"@, JsonV::Str(time_spent))];
    let b = match started { Some(s) => a.push(("started"@, JsonV::Str(s))), None => a };
    let c = match comment { Some(m) => b.push(("comment"@, JsonV::Str(m))), None => b };
    JsonV::Object(c)
}

/// `POST /rest/api/2/issue/{key}/worklog`.
pub fn add(key: &str, time_spent: &str, started: Option<&str>, comment: Option<&str>) -> (r: Request)
    ensures
        r@ == with_body(Method::Post, issue_path(key@) + "/worklog"@, worklog_body(time_spent@,
            match started { Some(s) => Some(s@), None => None },
            match comment { Some(m) => Some(m@), None => None })),
{
    let mut e: Vec<(String, Json)> = Vec::new();
    e.push(("timeSpent".to_owned(), Json::string(time_spent)));
    let ghost e1 = entries_view(e@);
    if let Some(s) = started {
        e.push(("started".to_owned(), Json::string(s)));
    }
    let ghost e2 = entries_view(e@);
    if let Some(m) = comment {
        e.push(("comment".to_owned(), Json::string(m)));
    }
    proof {
        assert(e1 =~= seq![("timeSpent"@, JsonV::Str(time_spent@))]);
        match started {
            Some(s) => assert(e2 =~= e1.push(("started"@, JsonV::Str(s@)))),
            None => assert(e2 =~= e1),
        }
        match comment {
            Some(m) => assert(entries_view(e@) =~= e2.push(("comment"@, JsonV::Str(m@)))),
            None => assert(entries_view(e@) =~= e2),
        }
    }
    Request::with_body(Method::Post, encoded_between("/rest/api/2/issue/", key, "/worklog"), Json::object(e))
}

/// `/rest/api/2/issue/{key}/worklog/{id}`, both form-encoded.
pub open spec fn worklog_path(key: Seq<char>, id: Seq<char>) -> Seq<char> {
    issue_path(key) + "/worklog/"@ + crate::api::form_encoded(id)
}

/// `DELETE /rest/api/2/issue/{key}/worklog/{id}`.
pub fn delete(key: &str, id: &str) -> (r: Request)
    ensures
        r@ == plain(Method::Delete, worklog_path(key@, id@)),
{
    let mut p = encoded_between("/rest/api/2/issue/", key, "/worklog/");
    p.append(crate::api::urlenc(id).as_str());
    Request::plain(Method::Delete, p)
}


/// A page of an issue's worklogs, and `total` when the server sends it.
pub struct WorklogPage {
    pub worklogs: Vec<Json>,
    pub total: Option<u64>,
}

impl WorklogPage {
    /// Reads the page from a JSON object; `None` when it is no object or a
    /// member has the wrong type (missing members take their defaults).
    pub fn from_json(v: &Json) -> (r: Option<WorklogPage>)
        ensures
            r is Some <==> (v@ is Object && items_field(v@, "worklogs"@) is Some && total_field(v@) is Some),
            r matches Some(p) ==> p.worklogs@.map_values(|j: Json| j@) == items_field(v@, "worklogs"@)->0
                && p.total == total_field(v@)->0,
    {
        match v {
            Json::Object(_) => {},
            _ => return None,
        }
        let worklogs = match read_items(v, "worklogs") {
            Some(x) => x,
            None => return None,
        };
        let total = match read_total(v) {
            Some(t) => t,
            None => return None,
        };
        Some(WorklogPage { worklogs, total })
    }
}

} // verus!
