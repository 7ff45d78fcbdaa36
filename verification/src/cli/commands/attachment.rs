//! Attachment, backlog and upload argument checks, and where a download goes.

use vstd::prelude::*;
use crate::api::transitions::str_member;
use crate::error::{ApiErrorBody, Error};
use crate::json::{Json, JsonV};
use crate::strmap::StrMap;
use crate::text::str_eq;

verus! {

/// A usage error when a list that must not be empty is.
pub fn require_some(n: usize, message: &str) -> (r: Result<(), Error>)
    ensures
        n > 0 ==> r is Ok,
        n == 0 ==> (r matches Err(Error::Usage(m)) && m@ == message@),
{
    if n > 0 {
        Ok(())
    } else {
        Err(Error::Usage(message.to_owned()))
    }
}

fn str_member_of(v: &Json, k: &str) -> (r: Option<String>)
    ensures
        match str_member(v@, k@) {
            Some(s) => r matches Some(x) && x@ == s,
            None => r is None,
        },
{
    reveal(str_member);
    match v.get(k) {
        Some(x) => match x.as_str() {
            Some(s) => Some(s.clone()),
            None => None,
        },
        None => None,
    }
}

/// The `content` URL of an attachment's metadata; without one, an API error
/// (status 200) saying so.
pub fn content_url(meta: &Json) -> (r: Result<String, Error>)
    ensures
        match str_member(meta@, "content"@) {
            Some(u) => r matches Ok(x) && x@ == u,
            None => r matches Err(Error::Api(b)) && b.status == 200
                && b.error_messages@.map_values(|s: String| s@) == seq!["attachment metadata missing `content` URL"@]
                && b.errors@ == Map::<Seq<char>, Seq<char>>::empty() && b.request_id is None,
        },
{
    match str_member_of(meta, "content") {
        Some(u) => Ok(u),
        None => {
            let mut msgs: Vec<String> = Vec::new();
            msgs.push("attachment metadata missing `content` URL".to_owned());
            assert(msgs@.map_values(|s: String| s@) =~= seq!["attachment metadata missing `content` URL"@]);
            Err(Error::Api(ApiErrorBody { status: 200, error_messages: msgs, errors: StrMap::new(), request_id: None }))
        },
    }
}

/// Where a download is written: `--out -` is stdout (`None`); another
/// `--out` is that path; without `--out`, the attachment's file name (stdout
/// when the metadata has none).
pub fn download_target(out: Option<&str>, meta: &Json) -> (r: Option<String>)
    ensures
        match out {
            Some(o) => if o@ == "-"@ { r is None } else { r matches Some(x) && x@ == o@ },
            None => match str_member(meta@, "filename"@) {
                Some(f) => r matches Some(x) && x@ == f,
                None => r is None,
            },
        },
{
    match out {
        Some(o) => {
            if str_eq(o, "-") {
                None
            } else {
                Some(o.to_owned())
            }
        },
        None => str_member_of(meta, "filename"),
    }
}

} // verus!
