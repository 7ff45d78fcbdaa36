//! Issue commands: what they send and what they print.

use vstd::prelude::*;
use crate::api::issue::{array_member, array_items, GetOpts};
use crate::cli::{IssueAssign, IssueCreate, IssueGet};
use crate::cli::args::{aliases_spec, GlobalArgs, RawValue, RawView, SetArg};
use crate::cli::commands::search::{jira_fields_spec, resolve_default_jira_fields, split_csv, split_csv_spec, strs};
use crate::error::Error;
use crate::field_resolver::{resolution, resolved_as, FieldResolver, Resolution};
use crate::json::{entries_view, lookup, member, object_of, put_all, Entries, Json, JsonV};
use crate::output::{last_value, lemma_last_value_concat, lemma_last_value_unset, lemma_put_all_lookup};
use crate::strmap::{entries_map, keys_unique, lemma_entries_map, StrMap};
use crate::text::{chars_of, is_ascii_digit, is_digit};

verus! {

// ---------------------------------------------------------------------
// Field aliases
// ---------------------------------------------------------------------

/// Config-file aliases with the `--field-alias` ones over them (the command
/// line wins per name).
pub fn merged_field_aliases(file_aliases: &StrMap, g: &GlobalArgs) -> (r: Result<StrMap, Error>)
    ensures
        match aliases_spec(g.field_alias@.map_values(|s: String| s@)) {
            Ok(cli) => r matches Ok(m) && m@ == file_aliases@.union_prefer_right(cli),
            Err(msg) => r matches Err(Error::Usage(x)) && x@ == msg,
        },
{
    let cli = g.parse_field_aliases()?;
    let pairs = cli.to_pairs();
    let mut map = file_aliases.copy();
    let mut i: usize = 0;
    proof {
        assert(file_aliases@.union_prefer_right(entries_map(pairs@.subrange(0, 0))) =~= file_aliases@);
    }
    while i < pairs.len()
        invariant
            i <= pairs@.len(),
            map@ == file_aliases@.union_prefer_right(entries_map(pairs@.subrange(0, i as int))),
        decreases pairs@.len() - i,
    {
        let ghost before = map@;
        map.insert(pairs[i].0.clone(), pairs[i].1.clone());
        proof {
            assert(pairs@.subrange(0, i + 1).drop_last() =~= pairs@.subrange(0, i as int));
            assert(pairs@.subrange(0, i + 1).last() == pairs@[i as int]);
            assert(map@ =~= file_aliases@.union_prefer_right(entries_map(pairs@.subrange(0, i + 1))));
        }
        i += 1;
    }
    proof {
        assert(pairs@.subrange(0, pairs@.len() as int) =~= pairs@);
    }
    Ok(map)
}

/// Merged aliases: a name given on the command line maps to the command
/// line's id; any other name keeps the config file's id.
pub proof fn lemma_cli_aliases_win(file: Map<Seq<char>, Seq<char>>, cli: Map<Seq<char>, Seq<char>>, name: Seq<char>)
    ensures
        cli.contains_key(name) ==> file.union_prefer_right(cli)[name] == cli[name],
        !cli.contains_key(name) && file.contains_key(name) ==> file.union_prefer_right(cli)[name] == file[name],
        file.union_prefer_right(cli).contains_key(name) <==> (file.contains_key(name) || cli.contains_key(name)),
{
}

// ---------------------------------------------------------------------
// `--set` values against the field resolver
// ---------------------------------------------------------------------

/// One `--set` against the resolver: `None` when the field list is needed
/// first; the resolver's error; or the field id with the value (`None` when
/// the value is a file or stdin to be read).
pub fn resolve_set(resolver: &FieldResolver, set: &SetArg) -> (r: Option<Result<(String, Option<Json>), Error>>)
    ensures
        match resolution(resolver.aliases_view(), resolver.index_view(), set.key@) {
            Resolution::NeedsFieldList => r is None,
            Resolution::Id(id) => r matches Some(Ok((x, v))) && x@ == id && match set.raw@ {
                RawView::Scalar(s) => v matches Some(j) && j@ == JsonV::Str(s),
                RawView::Json(jv) => v matches Some(j) && j@ == jv,
                _ => v is None,
            },
            res => r matches Some(Err(e)) && resolved_as(Some(Err(e)), res, set.key@),
        },
{
    match resolver.resolve(set.key.as_str()) {
        None => None,
        Some(Err(e)) => Some(Err(e)),
        Some(Ok(id)) => Some(Ok((id, set.raw.to_json()))),
    }
}

// ---------------------------------------------------------------------
// Bodies
// ---------------------------------------------------------------------

pub open spec fn named(n: Seq<char>) -> JsonV {
    JsonV::Object(seq![("name"@, JsonV::Str(n))])
}

/// The fields that `issue create` sets before the `--set` ones: project,
/// issue type, summary, and the components when there are any.
pub open spec fn create_base(args: IssueCreate) -> Entries {
    seq![
        ("project"@, JsonV::Object(seq![("key"@, JsonV::Str(args.project@))])),
        ("issuetype"@, named(args.issue_type@)),
        ("summary"@, JsonV::Str(args.summary@)),
    ] + if args.components@.len() > 0 {
        seq![("components"@, JsonV::Array(args.components@.map_values(|c: String| named(c@))))]
    } else {
        Seq::empty()
    }
}

/// `{"fields": {...}}` of `issue create`: the base fields, then each `--set`
/// (a later one replaces an earlier one of the same id, components included).
pub fn create_body(args: &IssueCreate, sets: Vec<(String, Json)>) -> (r: Json)
    ensures
        r@ == JsonV::Object(seq![("fields"@, JsonV::Object(put_all(Seq::empty(), create_base(*args) + entries_view(sets@))))]),
{
    let mut pairs: Vec<(String, Json)> = Vec::new();
    pairs.push(("project".to_owned(), Json::object1("key", Json::string(args.project.as_str()))));
    pairs.push(("issuetype".to_owned(), Json::object1("name", Json::string(args.issue_type.as_str()))));
    pairs.push(("summary".to_owned(), Json::string(args.summary.as_str())));
    let ghost p3 = entries_view(pairs@);
    if args.components.len() > 0 {
        let mut arr: Vec<Json> = Vec::new();
        let mut i: usize = 0;
        while i < args.components.len()
            invariant
                i <= args.components@.len(),
                arr@.len() == i,
                forall|j: int| 0 <= j < i ==> (#[trigger] arr@[j])@ == named(args.components@[j]@),
            decreases args.components@.len() - i,
        {
            arr.push(Json::object1("name", Json::string(args.components[i].as_str())));
            i += 1;
        }
        let a = Json::Array(arr);
        proof {
            crate::json::lemma_array_view(a);
            assert(arr@.map_values(|x: Json| x@) =~= args.components@.map_values(|c: String| named(c@)));
        }
        let ghost before = pairs@;
        pairs.push(("components".to_owned(), a));
        proof {
            assert(entries_view(pairs@) =~= entries_view(before).push(("components"@, a@)));
        }
    }
    proof {
        assert(entries_view(pairs@) =~= create_base(*args));
    }
    let ghost base = pairs@;
    let mut sets = sets;
    let ghost s0 = sets@;
    pairs.append(&mut sets);
    proof {
        assert(entries_view(pairs@) =~= entries_view(base) + entries_view(s0));
    }
    Json::object1("fields", object_of(pairs))
}

/// `issue create` fields: every `--component` given lands, in order, as
/// `components: [{"name": c}, ...]`; with none given there is no
/// `components`; project, issue type and summary are the given ones; a
/// `--set` field keeps the value of its last `--set` (each unless a `--set`
/// names that field).
pub proof fn lemma_create_fields(args: IssueCreate, sets: Entries)
    ensures
        ({
            let fields = put_all(Seq::empty(), create_base(args) + sets);
            let no_set = |k: Seq<char>| forall|i: int| 0 <= i < sets.len() ==> (#[trigger] sets[i]).0 != k;
            &&& (no_set("components"@) && args.components@.len() > 0 ==> lookup(fields, "components"@)
                == Some(JsonV::Array(args.components@.map_values(|c: String| named(c@)))))
            &&& (no_set("components"@) && args.components@.len() == 0 ==> lookup(fields, "components"@) is None)
            &&& (no_set("project"@) ==> lookup(fields, "project"@)
                == Some(JsonV::Object(seq![("key"@, JsonV::Str(args.project@))])))
            &&& (no_set("issuetype"@) ==> lookup(fields, "issuetype"@) == Some(named(args.issue_type@)))
            &&& (no_set("summary"@) ==> lookup(fields, "summary"@) == Some(JsonV::Str(args.summary@)))
            &&& forall|k: Seq<char>| #[trigger] last_value(sets, k) is Some ==> lookup(fields, k) == last_value(sets, k)
        }),
{
    reveal_strlit("project");
    reveal_strlit("issuetype");
    reveal_strlit("summary");
    reveal_strlit("components");
    reveal_strlit("key");
    reveal_strlit("name");
    assert("project"@[0] != "components"@[0] && "issuetype"@[0] != "components"@[0]);
    assert("summary"@[0] != "components"@[0] && "project"@[0] != "issuetype"@[0]);
    assert("project"@[0] != "summary"@[0] && "issuetype"@[0] != "summary"@[0]);
    let base = create_base(args);
    let es = base + sets;
    assert forall|k: Seq<char>| #[trigger] last_value(sets, k) is Some implies
        lookup(put_all(Seq::empty(), es), k) == last_value(sets, k) by {
        lemma_put_all_lookup(Seq::empty(), es, k);
        lemma_last_value_concat(base, sets, k);
    }
    reveal_with_fuel(last_value, 5);
    lemma_create_key(args, sets, "components"@);
    lemma_create_key(args, sets, "project"@);
    lemma_create_key(args, sets, "issuetype"@);
    lemma_create_key(args, sets, "summary"@);
}

proof fn lemma_create_key(args: IssueCreate, sets: Entries, k: Seq<char>)
    ensures
        (forall|i: int| 0 <= i < sets.len() ==> (#[trigger] sets[i]).0 != k) ==> lookup(
            put_all(Seq::empty(), create_base(args) + sets),
            k,
        ) == last_value(create_base(args), k),
{
    let es = create_base(args) + sets;
    lemma_put_all_lookup(Seq::empty(), es, k);
    assert(lookup(Seq::<(Seq<char>, JsonV)>::empty(), k) is None);
    if forall|i: int| 0 <= i < sets.len() ==> (#[trigger] sets[i]).0 != k {
        lemma_last_value_unset(create_base(args), sets, k);
    }
}

/// `{"fields": {...}}` of `issue update`: the `--set` fields in order.
pub fn fields_body(sets: Vec<(String, Json)>) -> (r: Json)
    ensures
        r@ == JsonV::Object(seq![("fields"@, JsonV::Object(put_all(Seq::empty(), entries_view(sets@))))]),
{
    Json::object1("fields", object_of(sets))
}

/// The `fields` of a transition: none without `--set`, else the fields.
pub fn transition_fields(sets: Vec<(String, Json)>) -> (r: Option<Json>)
    ensures
        sets@.len() == 0 ==> r is None,
        sets@.len() > 0 ==> (r matches Some(j) && j@ == JsonV::Object(put_all(Seq::empty(), entries_view(sets@)))),
{
    if sets.len() == 0 {
        None
    } else {
        Some(object_of(sets))
    }
}

/// `--to` names a transition id when it is all ASCII digits (the empty
/// string included); otherwise it is a name to resolve.
pub fn is_transition_id(to: &str) -> (b: bool)
    ensures
        b == (forall|i: int| 0 <= i < to@.len() ==> is_ascii_digit(#[trigger] to@[i])),
{
    let v = chars_of(to);
    let mut i: usize = 0;
    while i < v.len()
        invariant
            i <= v@.len(),
            v@ == to@,
            forall|j: int| 0 <= j < i ==> is_ascii_digit(#[trigger] v@[j]),
        decreases v@.len() - i,
    {
        if !is_digit(v[i]) {
            assert(!is_ascii_digit(to@[i as int]));
            return false;
        }
        i += 1;
    }
    true
}

/// Whom `issue assign` assigns: nobody with `--unassign`, else `--user`.
pub fn assign_target(args: &IssueAssign) -> (r: Option<String>)
    ensures
        args.unassign ==> r is None,
        !args.unassign ==> r == args.user,
{
    if args.unassign {
        None
    } else {
        args.user.clone()
    }
}

/// The options of `issue get`: the effective Jira fields and the expands.
pub fn get_opts(args: &IssueGet, default_fields: &Vec<String>) -> (r: GetOpts)
    ensures
        strs(r.fields@) == jira_fields_spec(match args.jira_fields { Some(s) => Some(s@), None => None }, strs(default_fields@)),
        strs(r.expand@) == split_csv_spec(match args.expand { Some(s) => Some(s@), None => None }),
{
    let flag: Option<&str> = match &args.jira_fields {
        Some(s) => Some(s.as_str()),
        None => None,
    };
    let ex: Option<&str> = match &args.expand {
        Some(s) => Some(s.as_str()),
        None => None,
    };
    GetOpts { fields: resolve_default_jira_fields(flag, default_fields), expand: split_csv(ex) }
}

// ---------------------------------------------------------------------
// Changelog
// ---------------------------------------------------------------------

/// The options of `issue changelog`: no fields, the changelog expanded.
pub fn changelog_opts() -> (r: GetOpts)
    ensures
        r.fields@.len() == 0,
        strs(r.expand@) == seq!["changelog"@],
{
    let mut expand: Vec<String> = Vec::new();
    expand.push("changelog".to_owned());
    assert(strs(expand@) =~= seq!["changelog"@]);
    GetOpts { fields: Vec::new(), expand }
}

/// `v[a][b]` as `serde_json` indexes: null when missing.
pub open spec fn index2(v: JsonV, a: Seq<char>, b: Seq<char>) -> JsonV {
    match member(v, a) {
        Some(x) => match member(x, b) {
            Some(y) => y,
            None => JsonV::Null,
        },
        None => JsonV::Null,
    }
}

/// The history entries that `issue changelog` emits: those of
/// `changelog.histories`, at most `max` of them.
pub open spec fn changelog_entries_spec(v: JsonV, max: Option<u64>) -> Seq<JsonV> {
    let h = match member(v, "changelog"@) {
        Some(c) => array_member(c, "histories"@),
        None => Seq::empty(),
    };
    match max {
        Some(m) => if h.len() > m { h.subrange(0, m as int) } else { h },
        None => h,
    }
}

pub fn changelog_entries(v: &Json, max: Option<u64>) -> (r: Vec<Json>)
    ensures
        r@.map_values(|j: Json| j@) == changelog_entries_spec(v@, max),
{
    let mut h = match v.get("changelog") {
        Some(c) => array_items(c, "histories"),
        None => {
            let e: Vec<Json> = Vec::new();
            assert(e@.map_values(|j: Json| j@) =~= Seq::<JsonV>::empty());
            e
        },
    };
    let ghost hv = h@.map_values(|j: Json| j@);
    match max {
        Some(m) => {
            if (h.len() as u64) > m {
                h.truncate(m as usize);
                proof {
                    assert(h@.map_values(|j: Json| j@) =~= hv.subrange(0, m as int));
                }
            }
        },
        None => {},
    }
    h
}

/// The last line of `issue changelog`: the count emitted and
/// `changelog.total` as given (null when missing).
pub fn changelog_summary(count: u64, v: &Json) -> (r: Json)
    ensures
        r@ == JsonV::Object(seq![("summary"@, JsonV::Object(seq![
            ("count"@, JsonV::Number(crate::text::decimal(count as nat))),
            ("total"@, index2(v@, "changelog"@, "total"@)),
        ]))]),
{
    let total = match v.get("changelog") {
        Some(c) => match c.get("total") {
            Some(t) => t.deep_copy(),
            None => Json::Null,
        },
        None => Json::Null,
    };
    let mut e: Vec<(String, Json)> = Vec::new();
    e.push(("count".to_owned(), Json::uint(count)));
    e.push(("total".to_owned(), total));
    proof {
        assert(entries_view(e@) =~= seq![
            ("count"@, JsonV::Number(crate::text::decimal(count as nat))),
            ("total"@, index2(v@, "changelog"@, "total"@)),
        ]);
    }
    Json::object1("summary", Json::object(e))
}

} // verus!
