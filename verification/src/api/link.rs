//! Issue links.

use vstd::prelude::*;
use crate::api::{plain, with_body, Method, Request, RequestView};
use crate::api::issue::{array_items, get_query, GetOpts};
use crate::json::{entries_view, member, Json, JsonV};
use crate::text::concat2;

verus! {

pub open spec fn key_obj(field: Seq<char>, v: Seq<char>) -> JsonV {
    JsonV::Object(seq![(field, JsonV::Str(v))])
}

/// The body of a link: its type by name, the inward and the outward issue.
pub open spec fn link_body(outward_key: Seq<char>, inward_key: Seq<char>, link_type: Seq<char>) -> JsonV {
    JsonV::Object(seq![
        ("type"@, key_obj("name"@, link_type)),
        ("inwardIssue"@, key_obj("key"@, inward_key)),
        ("outwardIssue"@, key_obj("key"@, outward_key)),
    ])
}

/// `POST /rest/api/2/issueLink`.
pub fn create(outward_key: &str, inward_key: &str, link_type: &str) -> (r: Request)
    ensures
        r@ == with_body(Method::Post, "/rest/api/2/issueLink"@, link_body(outward_key@, inward_key@, link_type@)),
{
    let mut e: Vec<(String, Json)> = Vec::new();
    e.push(("type".to_owned(), Json::object1("name", Json::string(link_type))));
    e.push(("inwardIssue".to_owned(), Json::object1("key", Json::string(inward_key))));
    e.push(("outwardIssue".to_owned(), Json::object1("key", Json::string(outward_key))));
    proof {
        assert(entries_view(e@) =~= seq![
            ("type"@, key_obj("name"@, link_type@)),
            ("inwardIssue"@, key_obj("key"@, inward_key@)),
            ("outwardIssue"@, key_obj("key"@, outward_key@)),
        ]);
    }
    Request::with_body(Method::Post, "/rest/api/2/issueLink".to_owned(), Json::object(e))
}

/// `DELETE /rest/api/2/issueLink/{id}` (the id as given).
pub fn delete(link_id: &str) -> (r: Request)
    ensures
        r@ == plain(Method::Delete, "/rest/api/2/issueLink/"@ + link_id@),
{
    Request::plain(Method::Delete, concat2("/rest/api/2/issueLink/", link_id))
}

/// The fetch behind `list_for_issue`: the issue with only `issuelinks`.
pub fn list_for_issue(key: &str) -> (r: Request)
    ensures
        r@.method == Method::Get,
        r@.path == crate::api::issue_path(key@),
        r@.query == seq![("fields"@, "issuelinks"@)],
        r@.body is None,
{
    let mut fields: Vec<String> = Vec::new();
    fields.push("issuelinks".to_owned());
    let opts = GetOpts { fields, expand: Vec::new() };
    let r = crate::api::issue::get(key, &opts);
    proof {
        assert(opts.fields@.map_values(|s: String| s@) =~= seq!["issuelinks"@]);
        assert(get_query(opts) =~= seq![("fields"@, "issuelinks"@)]);
    }
    r
}

/// `fields.issuelinks` of an issue, or no items.
pub open spec fn nested_array(v: JsonV, outer: Seq<char>, inner: Seq<char>) -> Seq<JsonV> {
    match member(v, outer) {
        Some(f) => crate::api::issue::array_member(f, inner),
        None => Seq::empty(),
    }
}

/// The items of the array `v[outer][inner]`, copied (none when missing).
pub fn nested_items(v: &Json, outer: &str, inner: &str) -> (r: Vec<Json>)
    ensures
        r@.map_values(|j: Json| j@) == nested_array(v@, outer@, inner@),
{
    match v.get(outer) {
        Some(f) => array_items(f, inner),
        None => {
            let r: Vec<Json> = Vec::new();
            assert(r@.map_values(|j: Json| j@) =~= Seq::<JsonV>::empty());
            r
        },
    }
}

/// The links embedded in an issue's `fields.issuelinks`.
pub fn links_of(issue: &Json) -> (r: Vec<Json>)
    ensures
        r@.map_values(|j: Json| j@) == nested_array(issue@, "fields"@, "issuelinks"@),
{
    nested_items(issue, "fields", "issuelinks")
}

} // verus!
