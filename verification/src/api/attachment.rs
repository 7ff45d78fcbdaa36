//! Issue attachments.

use vstd::prelude::*;
use crate::api::{encoded_between, issue_path, plain, Method, Request};
use crate::api::issue::{get_query, GetOpts};
use crate::api::link::{nested_array, nested_items};
use crate::json::{Json, JsonV};
use crate::text::concat2;

verus! {

/// The path a multipart upload of files to an issue goes to.
pub fn upload_path(key: &str) -> (r: String)
    ensures
        r@ == issue_path(key@) + "/attachments"@,
{
    encoded_between("/rest/api/2/issue/", key, "/attachments")
}

/// `DELETE /rest/api/2/attachment/{id}`.
pub fn delete(id: &str) -> (r: Request)
    ensures
        r@ == plain(Method::Delete, "/rest/api/2/attachment/"@ + id@),
{
    Request::plain(Method::Delete, concat2("/rest/api/2/attachment/", id))
}

/// `GET /rest/api/2/attachment/{id}`: the attachment's metadata.
pub fn meta(id: &str) -> (r: Request)
    ensures
        r@ == plain(Method::Get, "/rest/api/2/attachment/"@ + id@),
{
    Request::plain(Method::Get, concat2("/rest/api/2/attachment/", id))
}

/// `GET` of an attachment's `content` URL (absolute URLs replace the base).
pub fn download(content_url: &str) -> (r: Request)
    ensures
        r@ == plain(Method::Get, content_url@),
{
    Request::plain(Method::Get, content_url.to_owned())
}

/// The fetch behind `list_for_issue`: the issue with only `attachment`.
pub fn list_for_issue(key: &str) -> (r: Request)
    ensures
        r@.method == Method::Get,
        r@.path == issue_path(key@),
        r@.query == seq![("fields"@, "attachment"@)],
        r@.body is None,
{
    let mut fields: Vec<String> = Vec::new();
    fields.push("attachment".to_owned());
    let opts = GetOpts { fields, expand: Vec::new() };
    let r = crate::api::issue::get(key, &opts);
    proof {
        assert(opts.fields@.map_values(|s: String| s@) =~= seq!["attachment"@]);
        assert(get_query(opts) =~= seq![("fields"@, "attachment"@)]);
    }
    r
}

/// The attachments of an issue: its `fields.attachment`.
pub fn attachments_of(issue: &Json) -> (r: Vec<Json>)
    ensures
        r@.map_values(|j: Json| j@) == nested_array(issue@, "fields"@, "attachment"@),
{
    nested_items(issue, "fields", "attachment")
}

} // verus!
