//! Cookie sessions: `POST /rest/auth/1/session`.

use vstd::prelude::*;
use crate::api::{with_body, Method, Request};
use crate::json::{entries_view, Json, JsonV};
use crate::text::concat3;

verus! {

pub struct SessionInfo {
    pub name: String,
    pub value: String,
}

impl SessionInfo {
    /// `name=value`, the value of a `Cookie` header.
    pub fn cookie_header(&self) -> (r: String)
        ensures
            r@ == self.name@ + "="@ + self.value@,
    {
        concat3(self.name.as_str(), "=", self.value.as_str())
    }
}

/// The login body.
pub open spec fn login_body(username: Seq<char>, password: Seq<char>) -> JsonV {
    JsonV::Object(seq![("username"@, JsonV::Str(username)), ("password"@, JsonV::Str(password))])
}

/// The login request; its answer holds `session: {name, value}`.
pub fn new(username: &str, password: &str) -> (r: Request)
    ensures
        r@ == with_body(Method::Post, "/rest/auth/1/session"@, login_body(username@, password@)),
{
    let mut e: Vec<(String, Json)> = Vec::new();
    e.push(("username".to_owned(), Json::string(username)));
    e.push(("password".to_owned(), Json::string(password)));
    proof {
        assert(entries_view(e@) =~= seq![("username"@, JsonV::Str(username@)), ("password"@, JsonV::Str(password@))]);
    }
    Request::with_body(Method::Post, "/rest/auth/1/session".to_owned(), Json::object(e))
}

} // verus!
