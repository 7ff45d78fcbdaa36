//! Jira REST endpoints: the requests they take and the logic that reads
//! their answers. Each endpoint function describes its request; the caller
//! sends it.

pub mod agile;
pub mod attachment;
pub mod comment;
pub mod field;
pub mod issue;
pub mod link;
pub mod meta;
pub mod paging;
pub mod project;
pub mod search;
pub mod session;
pub mod transitions;
pub mod user;
pub mod watchers;
pub mod worklog;

use vstd::prelude::*;
use crate::json::{Json, JsonV};
use crate::text::concat2;

verus! {

#[derive(Debug, Clone, Copy, PartialEq, Eq, Structural)]
pub enum Method {
    Get,
    Post,
    Put,
    Delete,
}

/// An HTTP request to the Jira server, relative to its base URL.
pub struct Request {
    pub method: Method,
    pub path: String,
    pub query: Vec<(String, String)>,
    pub body: Option<Json>,
}

pub struct RequestView {
    pub method: Method,
    pub path: Seq<char>,
    pub query: Seq<(Seq<char>, Seq<char>)>,
    pub body: Option<JsonV>,
}

pub open spec fn pairs_view(q: Seq<(String, String)>) -> Seq<(Seq<char>, Seq<char>)> {
    q.map_values(|p: (String, String)| (p.0@, p.1@))
}

impl View for Request {
    type V = RequestView;

    open spec fn view(&self) -> RequestView {
        RequestView {
            method: self.method,
            path: self.path@,
            query: pairs_view(self.query@),
            body: match self.body {
                Some(j) => Some(j@),
                None => None,
            },
        }
    }
}

/// A request without query or body.
pub open spec fn plain(method: Method, path: Seq<char>) -> RequestView {
    RequestView { method, path, query: Seq::empty(), body: None }
}

/// A request with a JSON body and no query.
pub open spec fn with_body(method: Method, path: Seq<char>, body: JsonV) -> RequestView {
    RequestView { method, path, query: Seq::empty(), body: Some(body) }
}

impl Request {
    pub fn plain(method: Method, path: String) -> (r: Request)
        ensures
            r@ == plain(method, path@),
    {
        let r = Request { method, path, query: Vec::new(), body: None };
        assert(r@.query =~= Seq::<(Seq<char>, Seq<char>)>::empty());
        r
    }

    pub fn with_body(method: Method, path: String, body: Json) -> (r: Request)
        ensures
            r@ == with_body(method, path@, body@),
    {
        let r = Request { method, path, query: Vec::new(), body: Some(body) };
        assert(r@.query =~= Seq::<(Seq<char>, Seq<char>)>::empty());
        r
    }

    pub fn with_query(method: Method, path: String, query: Vec<(String, String)>) -> (r: Request)
        ensures
            r@ == (RequestView { method, path: path@, query: pairs_view(query@), body: None }),
    {
        Request { method, path, query, body: None }
    }

    /// Reads are retried; writes are not.
    pub fn is_idempotent(&self) -> (b: bool)
        ensures
            b == (self.method == Method::Get),
    {
        self.method == Method::Get
    }
}

/// The `application/x-www-form-urlencoded` serialization of the UTF-8 bytes
/// of `s`.
pub uninterp spec fn form_encoded(s: Seq<char>) -> Seq<char>;

/// A character that form encoding leaves as it is.
pub open spec fn form_safe(c: char) -> bool {
    ('0' <= c && c <= '9') || ('A' <= c && c <= 'Z') || ('a' <= c && c <= 'z') || c == '*' || c == '-' || c == '.' || c == '_'
}

/// `url::form_urlencoded::byte_serialize` of the bytes of `s`, collected:
/// ASCII letters, digits and `*-._` are kept, a space becomes `+`, every
/// other byte `%XX`.
#[verifier::external_body]
pub(crate) fn urlenc(s: &str) -> (r: String)
    ensures
        r@ == form_encoded(s@),
        (forall|i: int| 0 <= i < s@.len() ==> form_safe(#[trigger] s@[i])) ==> r@ == s@,
{
    url::form_urlencoded::byte_serialize(s.as_bytes()).collect()
}

/// `prefix` followed by the form encoding of `s`.
pub fn encoded_after(prefix: &str, s: &str) -> (r: String)
    ensures
        r@ == prefix@ + form_encoded(s@),
{
    concat2(prefix, urlenc(s).as_str())
}

/// `prefix`, the form encoding of `s`, then `suffix`.
pub fn encoded_between(prefix: &str, s: &str, suffix: &str) -> (r: String)
    ensures
        r@ == prefix@ + form_encoded(s@) + suffix@,
{
    crate::text::concat3(prefix, urlenc(s).as_str(), suffix)
}

/// `/rest/api/2/issue/{key}` with the key form-encoded.
pub open spec fn issue_path(key: Seq<char>) -> Seq<char> {
    "/rest/api/2/issue/"@ + form_encoded(key)
}

} // verus!
