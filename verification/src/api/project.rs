//! Projects.

use vstd::prelude::*;
use crate::api::{encoded_after, encoded_between, form_encoded, plain, Method, Request};

verus! {

pub fn list() -> (r: Request)
    ensures
        r@ == plain(Method::Get, "/rest/api/2/project"@),
{
    Request::plain(Method::Get, "/rest/api/2/project".to_owned())
}

pub fn get(key: &str) -> (r: Request)
    ensures
        r@ == plain(Method::Get, "/rest/api/2/project/"@ + form_encoded(key@)),
{
    Request::plain(Method::Get, encoded_after("/rest/api/2/project/", key))
}

pub fn statuses(key: &str) -> (r: Request)
    ensures
        r@ == plain(Method::Get, "/rest/api/2/project/"@ + form_encoded(key@) + "/statuses"@),
{
    Request::plain(Method::Get, encoded_between("/rest/api/2/project/", key, "/statuses"))
}

pub fn components(key: &str) -> (r: Request)
    ensures
        r@ == plain(Method::Get, "/rest/api/2/project/"@ + form_encoded(key@) + "/components"@),
{
    Request::plain(Method::Get, encoded_between("/rest/api/2/project/", key, "/components"))
}

} // verus!
