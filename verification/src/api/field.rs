//! `/rest/api/2/field`: metadata for every field (standard and custom).

use vstd::prelude::*;
use crate::api::{plain, Method, Request};
use crate::json::Json;

verus! {

/// One entry of `GET /rest/api/2/field`.
pub struct FieldMeta {
    pub id: String,
    pub name: String,
    pub custom: bool,
    pub schema: Option<Json>,
    pub clause_names: Vec<String>,
}

/// `GET /rest/api/2/field`: every field, standard and custom.
pub fn list() -> (r: Request)
    ensures
        r@ == plain(Method::Get, "/rest/api/2/field"@),
{
    Request::plain(Method::Get, "/rest/api/2/field".to_owned())
}

} // verus!
