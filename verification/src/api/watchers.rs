//! Issue watchers.

use vstd::prelude::*;
use crate::api::{encoded_between, issue_path, pairs_view, plain, with_body, Method, Request, RequestView};
use crate::json::{Json, JsonV};

verus! {

pub fn list(key: &str) -> (r: Request)
    ensures
        r@ == plain(Method::Get, issue_path(key@) + "/watchers"@),
{
    Request::plain(Method::Get, encoded_between("/rest/api/2/issue/", key, "/watchers"))
}

/// `POST /rest/api/2/issue/{key}/watchers` with the user name as a JSON string.
pub fn add(key: &str, user: &str) -> (r: Request)
    ensures
        r@ == with_body(Method::Post, issue_path(key@) + "/watchers"@, JsonV::Str(user@)),
{
    Request::with_body(Method::Post, encoded_between("/rest/api/2/issue/", key, "/watchers"), Json::string(user))
}

/// `DELETE /rest/api/2/issue/{key}/watchers?username={user}`.
pub fn remove(key: &str, user: &str) -> (r: Request)
    ensures
        r@ == (RequestView {
            method: Method::Delete,
            path: issue_path(key@) + "/watchers"@,
            query: seq![("username"@, user@)],
            body: None,
        }),
{
    let mut q: Vec<(String, String)> = Vec::new();
    q.push(("username".to_owned(), user.to_owned()));
    proof {
        assert(pairs_view(q@) =~= seq![("username"@, user@)]);
    }
    Request::with_query(Method::Delete, encoded_between("/rest/api/2/issue/", key, "/watchers"), q)
}

} // verus!
