//! Issue comments.

use vstd::prelude::*;
use crate::api::{encoded_after, encoded_between, issue_path, plain, with_body, Method, Request};
use crate::api::paging::{items_field, read_items, read_total, total_field, PageParams, PagedIter, PagedView};
use crate::json::{Json, JsonV};
use crate::text::{concat3, decimal, decimal_string};

verus! {

/// `GET /rest/api/2/issue/{key}/comment`.
pub fn list(key: &str) -> (r: Request)
    ensures
        r@ == plain(Method::Get, issue_path(key@) + "/comment"@),
{
    Request::plain(Method::Get, encoded_between("/rest/api/2/issue/", key, "/comment"))
}

/// `?startAt={start}&maxResults={size}`.
pub open spec fn page_suffix(start: u64, size: u64) -> Seq<char> {
    "?startAt="@ + decimal(start as nat) + "&maxResults="@ + decimal(size as nat)
}

pub fn page_suffix_string(start: u64, size: u64) -> (r: String)
    ensures
        r@ == page_suffix(start, size),
{
    let s = decimal_string(start);
    let z = decimal_string(size);
    let mut r = concat3("?startAt=", s.as_str(), "&maxResults=");
    r.append(z.as_str());
    r
}

/// One page of an issue's comments.
pub fn list_page(key: &str, start_at: u64, page_size: u64) -> (r: Request)
    ensures
        r@ == plain(Method::Get, issue_path(key@) + "/comment"@ + page_suffix(start_at, page_size)),
{
    let mut p = encoded_between("/rest/api/2/issue/", key, "/comment");
    p.append(page_suffix_string(start_at, page_size).as_str());
    Request::plain(Method::Get, p)
}

/// Paged iteration over an issue's comments (`comments` of each page); each
/// fetch is `list_page`.
pub fn list_paged(params: PageParams) -> (r: PagedIter)
    ensures
        r@ == (PagedView {
            max: params.max,
            page_size: params.page_size,
            first: params.start_at,
            items_key: "comments"@,
            start_at: params.start_at,
            total: None,
            is_last: false,
            buf: Seq::empty(),
            emitted: 0,
            done: false,
        }),
        crate::api::paging::paged_ok(r@),
{
    PagedIter::new(params, "comments")
}

/// `{"body": body}`.
pub open spec fn body_json(body: Seq<char>) -> JsonV {
    JsonV::Object(seq![("body"@, JsonV::Str(body))])
}

/// `POST /rest/api/2/issue/{key}/comment`.
pub fn add(key: &str, body: &str) -> (r: Request)
    ensures
        r@ == with_body(Method::Post, issue_path(key@) + "/comment"@, body_json(body@)),
{
    Request::with_body(Method::Post, encoded_between("/rest/api/2/issue/", key, "/comment"), Json::object1("body", Json::string(body)))
}

/// `/rest/api/2/issue/{key}/comment/{id}`, both form-encoded.
pub open spec fn comment_path(key: Seq<char>, id: Seq<char>) -> Seq<char> {
    issue_path(key) + "/comment/"@ + crate::api::form_encoded(id)
}

fn comment_path_string(key: &str, id: &str) -> (r: String)
    ensures
        r@ == comment_path(key@, id@),
{
    let mut p = encoded_between("/rest/api/2/issue/", key, "/comment/");
    p.append(crate::api::urlenc(id).as_str());
    p
}

/// `PUT /rest/api/2/issue/{key}/comment/{id}`.
pub fn update(key: &str, id: &str, body: &str) -> (r: Request)
    ensures
        r@ == with_body(Method::Put, comment_path(key@, id@), body_json(body@)),
{
    Request::with_body(Method::Put, comment_path_string(key, id), Json::object1("body", Json::string(body)))
}

/// `DELETE /rest/api/2/issue/{key}/comment/{id}`.
pub fn delete(key: &str, id: &str) -> (r: Request)
    ensures
        r@ == plain(Method::Delete, comment_path(key@, id@)),
{
    Request::plain(Method::Delete, comment_path_string(key, id))
}


/// A page of an issue's comments, and `total` when the server sends it.
pub struct CommentPage {
    pub comments: Vec<Json>,
    pub total: Option<u64>,
}

impl CommentPage {
    /// Reads the page from a JSON object; `None` when it is no object or a
    /// member has the wrong type (missing members take their defaults).
    pub fn from_json(v: &Json) -> (r: Option<CommentPage>)
        ensures
            r is Some <==> (v@ is Object && items_field(v@, "comments"@) is Some && total_field(v@) is Some),
            r matches Some(p) ==> p.comments@.map_values(|j: Json| j@) == items_field(v@, "comments"@)->0
                && p.total == total_field(v@)->0,
    {
        match v {
            Json::Object(_) => {},
            _ => return None,
        }
        let comments = match read_items(v, "comments") {
            Some(x) => x,
            None => return None,
        };
        let total = match read_total(v) {
            Some(t) => t,
            None => return None,
        };
        Some(CommentPage { comments, total })
    }
}

} // verus!
