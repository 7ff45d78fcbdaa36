//! The logic of the commands: what they send, how they read the answers and
//! what they print. Sending and printing are the caller's.

pub mod attachment;
pub mod bulk;
pub mod field;
pub mod issue;
pub mod meta;
pub mod raw;
pub mod schema;
pub mod search;

use vstd::prelude::*;
use crate::json::{entries_view, Json, JsonV};
use crate::error::Error;
use crate::api::{issue_path, plain, Method, Request};
use crate::api::agile::sprint_path;

verus! {

pub open spec fn opt_u64(t: Option<u64>) -> JsonV {
    match t {
        Some(n) => JsonV::Number(crate::text::decimal(n as nat)),
        None => JsonV::Null,
    }
}

fn opt_u64_json(t: Option<u64>) -> (r: Json)
    ensures
        r@ == opt_u64(t),
{
    match t {
        Some(n) => Json::uint(n),
        None => Json::Null,
    }
}

/// `{"summary": {"count": n}}`, the last line of a listing.
pub fn count_summary(count: u64) -> (r: Json)
    ensures
        r@ == JsonV::Object(seq![("summary"@, JsonV::Object(seq![("count"@, JsonV::Number(crate::text::decimal(count as nat)))]))]),
{
    Json::object1("summary", Json::object1("count", Json::uint(count)))
}

/// `{"summary": {"count": n, "total": t}}` (`t` null when unknown).
pub fn count_total_summary(count: u64, total: Option<u64>) -> (r: Json)
    ensures
        r@ == JsonV::Object(seq![("summary"@, JsonV::Object(seq![
            ("count"@, JsonV::Number(crate::text::decimal(count as nat))),
            ("total"@, opt_u64(total)),
        ]))]),
{
    let mut e: Vec<(String, Json)> = Vec::new();
    e.push(("count".to_owned(), Json::uint(count)));
    e.push(("total".to_owned(), opt_u64_json(total)));
    proof {
        assert(entries_view(e@) =~= seq![
            ("count"@, JsonV::Number(crate::text::decimal(count as nat))),
            ("total"@, opt_u64(total)),
        ]);
    }
    Json::object1("summary", Json::object(e))
}

/// `{"ok": true}` followed by the given members.
pub fn ok_json(members: Vec<(String, Json)>) -> (r: Json)
    ensures
        r@ == JsonV::Object(seq![("ok"@, JsonV::Bool(true))] + entries_view(members@)),
{
    let mut e: Vec<(String, Json)> = Vec::new();
    e.push(("ok".to_owned(), Json::Bool(true)));
    let ghost m0 = members@;
    let mut members = members;
    e.append(&mut members);
    proof {
        assert(entries_view(e@) =~= seq![("ok"@, JsonV::Bool(true))] + entries_view(m0));
    }
    Json::object(e)
}

/// A usage error unless the action was confirmed.
pub fn require_yes(yes: bool, what: &str) -> (r: Result<(), Error>)
    ensures
        yes ==> r is Ok,
        !yes ==> (r matches Err(Error::Usage(m)) && m@ == what@ + " requires --yes to confirm"@),
{
    if yes {
        Ok(())
    } else {
        Err(Error::Usage(crate::text::concat2(what, " requires --yes to confirm")))
    }
}


/// `sprint delete`: the delete request, only once `--yes` confirms it.
pub fn sprint_delete_step(id: u64, yes: bool) -> (r: Result<Request, Error>)
    ensures
        !yes ==> (r matches Err(Error::Usage(m)) && m@ == "sprint delete requires --yes to confirm"@),
        yes ==> (r matches Ok(q) && q@ == plain(Method::Delete, sprint_path(id))),
{
    proof {
        reveal_strlit("sprint delete");
        reveal_strlit(" requires --yes to confirm");
        reveal_strlit("sprint delete requires --yes to confirm");
        assert("sprint delete"@ + " requires --yes to confirm"@ =~= "sprint delete requires --yes to confirm"@);
    }
    match require_yes(yes, "sprint delete") {
        Ok(()) => Ok(crate::api::agile::delete_sprint(id)),
        Err(e) => Err(e),
    }
}

/// `issue delete`: the delete request, only once `--yes` confirms it.
pub fn issue_delete_step(key: &str, yes: bool) -> (r: Result<Request, Error>)
    ensures
        !yes ==> (r matches Err(Error::Usage(m)) && m@ == "issue delete requires --yes to confirm"@),
        yes ==> (r matches Ok(q) && q@ == plain(Method::Delete, issue_path(key@))),
{
    proof {
        reveal_strlit("issue delete");
        reveal_strlit(" requires --yes to confirm");
        reveal_strlit("issue delete requires --yes to confirm");
        assert("issue delete"@ + " requires --yes to confirm"@ =~= "issue delete requires --yes to confirm"@);
    }
    match require_yes(yes, "issue delete") {
        Ok(()) => Ok(crate::api::issue::delete(key)),
        Err(e) => Err(e),
    }
}

} // verus!
