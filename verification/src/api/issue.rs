//! `/rest/api/2/issue/*`: get, create, update, delete, assign, bulk create.

use vstd::prelude::*;
use crate::api::{encoded_after, encoded_between, issue_path, pairs_view, plain, with_body, Method, Request, RequestView};
use crate::error::{join, join_strings, ApiErrorBody, Error};
use crate::json::{entries_view, member, Json, JsonV};

verus! {

pub struct GetOpts {
    pub fields: Vec<String>,
    pub expand: Vec<String>,
}

impl Default for GetOpts {
    fn default() -> (r: GetOpts)
        ensures
            r.fields@.len() == 0,
            r.expand@.len() == 0,
    {
        GetOpts { fields: Vec::new(), expand: Vec::new() }
    }
}

pub open spec fn names(v: Seq<String>) -> Seq<Seq<char>> {
    v.map_values(|s: String| s@)
}

/// The query of an issue fetch: `fields` and `expand`, comma-joined, each
/// only when not empty.
pub open spec fn get_query(opts: GetOpts) -> Seq<(Seq<char>, Seq<char>)> {
    let f = if opts.fields@.len() > 0 { seq![("fields"@, join(names(opts.fields@), ","@))] } else { Seq::empty() };
    let e = if opts.expand@.len() > 0 { seq![("expand"@, join(names(opts.expand@), ","@))] } else { Seq::empty() };
    f + e
}

/// `GET /rest/api/2/issue/{key}` with the options as query.
pub fn get(key: &str, opts: &GetOpts) -> (r: Request)
    ensures
        r@ == (RequestView { method: Method::Get, path: issue_path(key@), query: get_query(*opts), body: None }),
{
    let mut query: Vec<(String, String)> = Vec::new();
    if opts.fields.len() > 0 {
        query.push(("fields".to_owned(), join_strings(&opts.fields, ",")));
    }
    let ghost q1 = pairs_view(query@);
    if opts.expand.len() > 0 {
        query.push(("expand".to_owned(), join_strings(&opts.expand, ",")));
    }
    proof {
        assert(pairs_view(query@) =~= get_query(*opts));
    }
    Request::with_query(Method::Get, encoded_after("/rest/api/2/issue/", key), query)
}

/// Turn a generic 404 into `NotFound { resource: "issue", key }`; anything
/// else passes through.
pub fn map_issue_err<T>(result: Result<T, Error>, key: &str) -> (r: Result<T, Error>)
    ensures
        match result {
            Err(Error::Api(b)) => if b.status == 404 {
                r matches Err(Error::NotFound { resource, key: k }) && resource@ == "issue"@ && k@ == key@
            } else {
                r == result
            },
            _ => r == result,
        },
{
    match result {
        Err(Error::Api(b)) => {
            if b.status == 404 {
                Err(Error::NotFound { resource: "issue".to_owned(), key: key.to_owned() })
            } else {
                Err(Error::Api(b))
            }
        },
        other => other,
    }
}

/// `POST /rest/api/2/issue` with the body `{"fields": ...}`.
pub fn create(body: Json) -> (r: Request)
    ensures
        r@ == with_body(Method::Post, "/rest/api/2/issue"@, body@),
{
    Request::with_body(Method::Post, "/rest/api/2/issue".to_owned(), body)
}

/// `PUT /rest/api/2/issue/{key}`.
pub fn update(key: &str, body: Json) -> (r: Request)
    ensures
        r@ == with_body(Method::Put, issue_path(key@), body@),
{
    Request::with_body(Method::Put, encoded_after("/rest/api/2/issue/", key), body)
}

/// `DELETE /rest/api/2/issue/{key}`.
pub fn delete(key: &str) -> (r: Request)
    ensures
        r@ == plain(Method::Delete, issue_path(key@)),
{
    Request::plain(Method::Delete, encoded_after("/rest/api/2/issue/", key))
}

/// `{"name": user}`, or `{"name": null}` to unassign.
pub open spec fn assignee_body(user: Option<Seq<char>>) -> JsonV {
    JsonV::Object(seq![("name"@, match user { Some(u) => JsonV::Str(u), None => JsonV::Null })])
}

/// `PUT /rest/api/2/issue/{key}/assignee`.
pub fn assign(key: &str, user: Option<&str>) -> (r: Request)
    ensures
        r@ == with_body(Method::Put, issue_path(key@) + "/assignee"@,
            assignee_body(match user { Some(u) => Some(u@), None => None })),
{
    let v = match user {
        Some(u) => Json::string(u),
        None => Json::Null,
    };
    let mut e: Vec<(String, Json)> = Vec::new();
    e.push(("name".to_owned(), v));
    let body = Json::object(e);
    proof {
        assert(entries_view(e@) =~= seq![("name"@, match user { Some(u) => JsonV::Str(u@), None => JsonV::Null })]);
    }
    Request::with_body(Method::Put, encoded_between("/rest/api/2/issue/", key, "/assignee"), body)
}

/// `POST /rest/api/2/issue/bulk` with `{"issueUpdates": [...]}`.
pub fn bulk_create(inputs: Vec<Json>) -> (r: Request)
    ensures
        r@ == with_body(Method::Post, "/rest/api/2/issue/bulk"@,
            JsonV::Object(seq![("issueUpdates"@, JsonV::Array(inputs@.map_values(|j: Json| j@)))])),
{
    let arr = Json::Array(inputs);
    proof {
        crate::json::lemma_array_view(arr);
    }
    let mut e: Vec<(String, Json)> = Vec::new();
    e.push(("issueUpdates".to_owned(), arr));
    let body = Json::object(e);
    proof {
        assert(entries_view(e@) =~= seq![("issueUpdates"@, JsonV::Array(inputs@.map_values(|j: Json| j@)))]);
    }
    Request::with_body(Method::Post, "/rest/api/2/issue/bulk".to_owned(), body)
}

/// The array member `key` of an answer, or no items.
pub open spec fn array_member(v: JsonV, key: Seq<char>) -> Seq<JsonV> {
    match member(v, key) {
        Some(JsonV::Array(a)) => a,
        _ => Seq::empty(),
    }
}

/// Copies of the items of the array member `key` of `v` (none when it is
/// missing or not an array).
pub fn array_items(v: &Json, key: &str) -> (r: Vec<Json>)
    ensures
        r@.map_values(|j: Json| j@) == array_member(v@, key@),
{
    let mut out: Vec<Json> = Vec::new();
    match v.get(key) {
        Some(a) => match a.as_array() {
            Some(items) => {
                let ghost iv = items@.map_values(|j: Json| j@);
                let mut i: usize = 0;
                while i < items.len()
                    invariant
                        i <= items@.len(),
                        iv == items@.map_values(|j: Json| j@),
                        out@.map_values(|j: Json| j@) == iv.subrange(0, i as int),
                    decreases items@.len() - i,
                {
                    let c = items[i].deep_copy();
                    let ghost before = out@;
                    out.push(c);
                    proof {
                        assert(iv[i as int] == items@[i as int]@);
                        assert(out@.map_values(|j: Json| j@) =~= before.map_values(|j: Json| j@).push(c@));
                        assert(iv.subrange(0, i + 1) =~= iv.subrange(0, i as int).push(iv[i as int]));
                    }
                    i += 1;
                }
                proof {
                    assert(iv.subrange(0, items@.len() as int) =~= iv);
                }
            },
            None => {
                assert(out@.map_values(|j: Json| j@) =~= Seq::<JsonV>::empty());
            },
        },
        None => {
            assert(out@.map_values(|j: Json| j@) =~= Seq::<JsonV>::empty());
        },
    }
    out
}

/// The outcome of a bulk create: the issues created and the per-issue errors.
pub struct BulkCreateResult {
    pub created: Vec<Json>,
    pub errors: Vec<Json>,
}

/// Read the answer of a bulk create: `issues` and `errors`.
pub fn bulk_results(v: &Json) -> (r: BulkCreateResult)
    ensures
        r.created@.map_values(|j: Json| j@) == array_member(v@, "issues"@),
        r.errors@.map_values(|j: Json| j@) == array_member(v@, "errors"@),
{
    BulkCreateResult { created: array_items(v, "issues"), errors: array_items(v, "errors") }
}

} // verus!
