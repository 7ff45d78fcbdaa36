//! Issue workflow transitions.

use vstd::prelude::*;
use crate::api::{encoded_between, issue_path, plain, with_body, Method, Request};
use crate::error::Error;
use crate::json::{entries_view, member, Json, JsonV};
use crate::text::{concat3, str_eq};

verus! {

/// The transitions available for an issue.
pub struct TransitionList {
    pub transitions: Vec<Json>,
}

/// `GET /rest/api/2/issue/{key}/transitions`.
pub fn list(key: &str) -> (r: Request)
    ensures
        r@ == plain(Method::Get, issue_path(key@) + "/transitions"@),
{
    Request::plain(Method::Get, encoded_between("/rest/api/2/issue/", key, "/transitions"))
}

/// The string member `k` of `v`, if it is one.
#[verifier::opaque]
pub open spec fn str_member(v: JsonV, k: Seq<char>) -> Option<Seq<char>> {
    match member(v, k) {
        Some(JsonV::Str(s)) => Some(s),
        _ => None,
    }
}

/// The string ids of the transitions named `name`, in order (a match
/// without a string id is skipped).
pub open spec fn transition_ids(ts: Seq<JsonV>, name: Seq<char>) -> Seq<Seq<char>>
    decreases ts.len(),
{
    if ts.len() == 0 {
        Seq::empty()
    } else {
        let r = transition_ids(ts.drop_last(), name);
        let t = ts.last();
        if str_member(t, "name"@) == Some(name) && str_member(t, "id"@) is Some {
            r.push(str_member(t, "id"@)->0)
        } else {
            r
        }
    }
}

/// `resolve_name`: the one transition of that name; none is a usage error
/// naming the issue, several is a usage error asking for the id.
pub open spec fn resolve_name_spec(ts: Seq<JsonV>, key: Seq<char>, name: Seq<char>) -> Result<Seq<char>, Seq<char>> {
    let ids = transition_ids(ts, name);
    if ids.len() == 0 {
        Err("transition '"@ + name + "' is not available for "@ + key)
    } else if ids.len() == 1 {
        Ok(ids[0])
    } else {
        Err("transition name '"@ + name + "' is ambiguous; use id"@)
    }
}

fn str_member_exec<'a>(v: &'a Json, k: &str) -> (r: Option<&'a String>)
    ensures
        match str_member(v@, k@) {
            Some(s) => r matches Some(x) && x@ == s,
            None => r is None,
        },
{
    reveal(str_member);
    match v.get(k) {
        Some(x) => x.as_str(),
        None => None,
    }
}

proof fn lemma_transition_ids_step(ts: Seq<JsonV>, i: int, name: Seq<char>)
    requires
        0 <= i < ts.len(),
    ensures
        transition_ids(ts.subrange(0, i + 1), name) == if str_member(ts[i], "name"@) == Some(name)
            && str_member(ts[i], "id"@) is Some {
            transition_ids(ts.subrange(0, i), name).push(str_member(ts[i], "id"@)->0)
        } else {
            transition_ids(ts.subrange(0, i), name)
        },
{
    assert(ts.subrange(0, i + 1).drop_last() =~= ts.subrange(0, i));
    assert(ts.subrange(0, i + 1).last() == ts[i]);
}

/// The id of `t` when it is a transition named `name` with a string id.
fn matching_id(t: &Json, name: &str) -> (r: Option<String>)
    ensures
        if str_member(t@, "name"@) == Some(name@) && str_member(t@, "id"@) is Some {
            r matches Some(x) && x@ == str_member(t@, "id"@)->0
        } else {
            r is None
        },
{
    let named = match str_member_exec(t, "name") {
        Some(x) => str_eq(x.as_str(), name),
        None => false,
    };
    if named {
        match str_member_exec(t, "id") {
            Some(id) => Some(id.clone()),
            None => None,
        }
    } else {
        None
    }
}

/// The ids of the transitions named `name`, in order.
fn collect_transition_ids(ts: &Vec<Json>, name: &str) -> (ids: Vec<String>)
    ensures
        ids@.map_values(|s: String| s@) == transition_ids(ts@.map_values(|j: Json| j@), name@),
{
    let ghost tv = ts@.map_values(|j: Json| j@);
    let mut ids: Vec<String> = Vec::new();
    let mut i: usize = 0;
    while i < ts.len()
        invariant
            i <= ts@.len(),
            tv == ts@.map_values(|j: Json| j@),
            ids@.map_values(|s: String| s@) == transition_ids(tv.subrange(0, i as int), name@),
        decreases ts@.len() - i,
    {
        proof {
            lemma_transition_ids_step(tv, i as int, name@);
            assert(tv[i as int] == ts@[i as int]@);
        }
        if let Some(id) = matching_id(&ts[i], name) {
            let ghost before = ids@;
            ids.push(id);
            proof {
                assert(ids@.map_values(|s: String| s@) =~= before.map_values(|s: String| s@).push(id@));
            }
        }
        i += 1;
    }
    proof {
        assert(tv.subrange(0, ts@.len() as int) =~= tv);
    }
    ids
}

/// Resolve a transition name to its id, among the transitions listed for
/// the issue `key`.
pub fn resolve_name(list: &TransitionList, key: &str, name: &str) -> (r: Result<String, Error>)
    ensures
        match resolve_name_spec(list.transitions@.map_values(|j: Json| j@), key@, name@) {
            Ok(id) => r matches Ok(x) && x@ == id,
            Err(m) => r matches Err(Error::Usage(x)) && x@ == m,
        },
{
    let ids = collect_transition_ids(&list.transitions, name);
    if ids.len() == 0 {
        let mut m = concat3("transition '", name, "' is not available for ");
        m.append(key);
        Err(Error::Usage(m))
    } else if ids.len() == 1 {
        proof {
            assert(ids@.map_values(|s: String| s@)[0] == ids@[0]@);
        }
        Ok(ids[0].clone())
    } else {
        Err(Error::Usage(concat3("transition name '", name, "' is ambiguous; use id")))
    }
}

/// Whether `t` is a transition named `name` that has a string id.
pub open spec fn offers(t: JsonV, name: Seq<char>) -> bool {
    str_member(t, "name"@) == Some(name) && str_member(t, "id"@) is Some
}

proof fn lemma_ids_none(ts: Seq<JsonV>, name: Seq<char>)
    requires
        forall|j: int| 0 <= j < ts.len() ==> !offers(#[trigger] ts[j], name),
    ensures
        transition_ids(ts, name).len() == 0,
    decreases ts.len(),
{
    if ts.len() > 0 {
        let t = ts.drop_last();
        assert forall|j: int| 0 <= j < t.len() implies !offers(#[trigger] t[j], name) by {
            assert(t[j] == ts[j]);
        }
        lemma_ids_none(t, name);
        assert(!offers(ts[ts.len() - 1], name));
    }
}

proof fn lemma_ids_unique(ts: Seq<JsonV>, name: Seq<char>, i: int)
    requires
        0 <= i < ts.len(),
        offers(ts[i], name),
        forall|j: int| 0 <= j < ts.len() && j != i ==> !offers(#[trigger] ts[j], name),
    ensures
        transition_ids(ts, name) == seq![str_member(ts[i], "id"@)->0],
    decreases ts.len(),
{
    let t = ts.drop_last();
    if i == ts.len() - 1 {
        assert forall|j: int| 0 <= j < t.len() implies !offers(#[trigger] t[j], name) by {
            assert(t[j] == ts[j]);
        }
        lemma_ids_none(t, name);
        assert(transition_ids(t, name) =~= Seq::<Seq<char>>::empty());
        assert(Seq::<Seq<char>>::empty().push(str_member(ts[i], "id"@)->0) =~= seq![str_member(ts[i], "id"@)->0]);
    } else {
        assert(t[i] == ts[i]);
        assert forall|j: int| 0 <= j < t.len() && j != i implies !offers(#[trigger] t[j], name) by {
            assert(t[j] == ts[j]);
        }
        lemma_ids_unique(t, name, i);
        assert(!offers(ts[ts.len() - 1], name));
    }
}

proof fn lemma_ids_at_least(ts: Seq<JsonV>, name: Seq<char>, i: int)
    requires
        0 <= i < ts.len(),
        offers(ts[i], name),
    ensures
        transition_ids(ts, name).len() >= 1,
    decreases ts.len(),
{
    let t = ts.drop_last();
    if i < ts.len() - 1 {
        assert(t[i] == ts[i]);
        lemma_ids_at_least(t, name, i);
    }
}

proof fn lemma_ids_at_least_two(ts: Seq<JsonV>, name: Seq<char>, i: int, j: int)
    requires
        0 <= i < j < ts.len(),
        offers(ts[i], name),
        offers(ts[j], name),
    ensures
        transition_ids(ts, name).len() >= 2,
    decreases ts.len(),
{
    let t = ts.drop_last();
    assert(t[i] == ts[i]);
    if j == ts.len() - 1 {
        lemma_ids_at_least(t, name, i);
    } else {
        assert(t[j] == ts[j]);
        lemma_ids_at_least_two(t, name, i, j);
    }
}

/// Resolving a transition name: when exactly one listed transition of that
/// name has an id, wherever it stands in the list, the answer is that id;
/// when none does, the name is not available; when two do, it is
/// ambiguous.
pub proof fn lemma_resolve_name_cases(ts: Seq<JsonV>, key: Seq<char>, name: Seq<char>)
    ensures
        forall|i: int| 0 <= i < ts.len() && offers(#[trigger] ts[i], name)
            && (forall|j: int| 0 <= j < ts.len() && j != i ==> !offers(#[trigger] ts[j], name))
            ==> resolve_name_spec(ts, key, name) == Ok::<Seq<char>, Seq<char>>(str_member(ts[i], "id"@)->0),
        (forall|j: int| 0 <= j < ts.len() ==> !offers(#[trigger] ts[j], name))
            ==> resolve_name_spec(ts, key, name) == Err::<Seq<char>, Seq<char>>("transition '"@ + name + "' is not available for "@ + key),
        forall|i: int, j: int| 0 <= i < j < ts.len() && offers(#[trigger] ts[i], name) && offers(#[trigger] ts[j], name)
            ==> resolve_name_spec(ts, key, name) == Err::<Seq<char>, Seq<char>>("transition name '"@ + name + "' is ambiguous; use id"@),
{
    assert forall|i: int| 0 <= i < ts.len() && offers(#[trigger] ts[i], name)
        && (forall|j: int| 0 <= j < ts.len() && j != i ==> !offers(#[trigger] ts[j], name))
        implies resolve_name_spec(ts, key, name) == Ok::<Seq<char>, Seq<char>>(str_member(ts[i], "id"@)->0) by {
        lemma_ids_unique(ts, name, i);
    }
    if forall|j: int| 0 <= j < ts.len() ==> !offers(#[trigger] ts[j], name) {
        lemma_ids_none(ts, name);
    }
    assert forall|i: int, j: int| 0 <= i < j < ts.len() && offers(#[trigger] ts[i], name) && offers(#[trigger] ts[j], name)
        implies resolve_name_spec(ts, key, name) == Err::<Seq<char>, Seq<char>>("transition name '"@ + name + "' is ambiguous; use id"@) by {
        lemma_ids_at_least_two(ts, name, i, j);
    }
}

/// `{"transition": {"id": id}}`, with `fields` when given.
pub open spec fn execute_body(id: Seq<char>, fields: Option<JsonV>) -> JsonV {
    let t = seq![("transition"@, JsonV::Object(seq![("id"@, JsonV::Str(id))]))];
    JsonV::Object(match fields { Some(f) => t.push(("fields"@, f)), None => t })
}

/// `POST /rest/api/2/issue/{key}/transitions`.
pub fn execute(key: &str, id: &str, fields: Option<Json>) -> (r: Request)
    ensures
        r@ == with_body(Method::Post, issue_path(key@) + "/transitions"@,
            execute_body(id@, match fields { Some(f) => Some(f@), None => None })),
{
    let ghost fv = match &fields { Some(f) => Some(f@), None => None::<JsonV> };
    let mut e: Vec<(String, Json)> = Vec::new();
    e.push(("transition".to_owned(), Json::object1("id", Json::string(id))));
    let ghost e1 = entries_view(e@);
    if let Some(f) = fields {
        e.push(("fields".to_owned(), f));
    }
    proof {
        assert(e1 =~= seq![("transition"@, JsonV::Object(seq![("id"@, JsonV::Str(id@))]))]);
        match fv {
            Some(f) => assert(entries_view(e@) =~= e1.push(("fields"@, f))),
            None => assert(entries_view(e@) =~= e1),
        }
    }
    Request::with_body(Method::Post, encoded_between("/rest/api/2/issue/", key, "/transitions"), Json::object(e))
}

} // verus!
