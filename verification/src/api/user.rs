//! Users.

use vstd::prelude::*;
use crate::api::{pairs_view, Method, Request, RequestView};
use crate::text::{decimal, decimal_string};

verus! {

/// `GET /rest/api/2/user?username={name}`.
pub fn get(name: &str) -> (r: Request)
    ensures
        r@ == (RequestView { method: Method::Get, path: "/rest/api/2/user"@, query: seq![("username"@, name@)], body: None }),
{
    let mut q: Vec<(String, String)> = Vec::new();
    q.push(("username".to_owned(), name.to_owned()));
    proof {
        assert(pairs_view(q@) =~= seq![("username"@, name@)]);
    }
    Request::with_query(Method::Get, "/rest/api/2/user".to_owned(), q)
}

/// `GET /rest/api/2/user/search?username={query}`.
pub fn search(query: &str) -> (r: Request)
    ensures
        r@ == (RequestView { method: Method::Get, path: "/rest/api/2/user/search"@, query: seq![("username"@, query@)], body: None }),
{
    let mut q: Vec<(String, String)> = Vec::new();
    q.push(("username".to_owned(), query.to_owned()));
    proof {
        assert(pairs_view(q@) =~= seq![("username"@, query@)]);
    }
    Request::with_query(Method::Get, "/rest/api/2/user/search".to_owned(), q)
}

/// `search` with Jira's `maxResults` (a server-side cap; this endpoint has no
/// pagination metadata).
pub fn search_with_max(query: &str, max: u64) -> (r: Request)
    ensures
        r@ == (RequestView {
            method: Method::Get,
            path: "/rest/api/2/user/search"@,
            query: seq![("username"@, query@), ("maxResults"@, decimal(max as nat))],
            body: None,
        }),
{
    let mut q: Vec<(String, String)> = Vec::new();
    q.push(("username".to_owned(), query.to_owned()));
    q.push(("maxResults".to_owned(), decimal_string(max)));
    proof {
        assert(pairs_view(q@) =~= seq![("username"@, query@), ("maxResults"@, decimal(max as nat))]);
    }
    Request::with_query(Method::Get, "/rest/api/2/user/search".to_owned(), q)
}

} // verus!
