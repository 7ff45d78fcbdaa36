//! `/rest/api/2/serverInfo` and `/rest/api/2/myself`.

use vstd::prelude::*;
use crate::api::{plain, Method, Request};

verus! {

pub fn server_info() -> (r: Request)
    ensures
        r@ == plain(Method::Get, "/rest/api/2/serverInfo"@),
{
    Request::plain(Method::Get, "/rest/api/2/serverInfo".to_owned())
}

pub fn myself() -> (r: Request)
    ensures
        r@ == plain(Method::Get, "/rest/api/2/myself"@),
{
    Request::plain(Method::Get, "/rest/api/2/myself".to_owned())
}

} // verus!
