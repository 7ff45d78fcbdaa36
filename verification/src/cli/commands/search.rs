//! `search`: a JQL query streamed as JSONL.

use vstd::prelude::*;
use crate::api::search::SearchParams;
use crate::cli::SearchArgs;
use crate::cli::args::GlobalArgs;
use crate::output::{csv_spec, split_trim_nonempty};
use crate::text::str_eq;

verus! {

pub open spec fn strs(v: Seq<String>) -> Seq<Seq<char>> {
    v.map_values(|s: String| s@)
}

/// A comma-separated list: trimmed, empty pieces dropped; nothing when absent.
pub open spec fn split_csv_spec(raw: Option<Seq<char>>) -> Seq<Seq<char>> {
    match raw {
        Some(s) => csv_spec(s, ','),
        None => Seq::empty(),
    }
}

pub fn split_csv(raw: Option<&str>) -> (r: Vec<String>)
    ensures
        strs(r@) == split_csv_spec(match raw { Some(s) => Some(s@), None => None }),
{
    match raw {
        Some(s) => split_trim_nonempty(s, ','),
        None => {
            let r: Vec<String> = Vec::new();
            assert(strs(r@) =~= Seq::<Seq<char>>::empty());
            r
        },
    }
}

/// The effective `--jira-fields` list: an empty flag means no list (Jira's
/// default fields); a non-empty flag is parsed as CSV; no flag means the
/// configured defaults.
pub open spec fn jira_fields_spec(flag: Option<Seq<char>>, default: Seq<Seq<char>>) -> Seq<Seq<char>> {
    match flag {
        Some(s) => if s.len() == 0 { Seq::empty() } else { csv_spec(s, ',') },
        None => default,
    }
}

pub fn resolve_default_jira_fields(flag: Option<&str>, default: &Vec<String>) -> (r: Vec<String>)
    ensures
        strs(r@) == jira_fields_spec(match flag { Some(s) => Some(s@), None => None }, strs(default@)),
{
    match flag {
        Some(s) => {
            if s.is_empty() {
                let r: Vec<String> = Vec::new();
                assert(strs(r@) =~= Seq::<Seq<char>>::empty());
                r
            } else {
                split_csv(Some(s))
            }
        },
        None => {
            let mut r: Vec<String> = Vec::new();
            let mut i: usize = 0;
            while i < default.len()
                invariant
                    i <= default@.len(),
                    strs(r@) == strs(default@).subrange(0, i as int),
                decreases default@.len() - i,
            {
                let ghost before = r@;
                let c = default[i].clone();
                r.push(c);
                proof {
                    assert(r@ == before.push(c));
                    assert(strs(r@) =~= strs(before).push(c@));
                    assert(strs(default@).subrange(0, i + 1) =~= strs(default@).subrange(0, i as int).push(default@[i as int]@));
                }
                i += 1;
            }
            proof {
                assert(strs(default@).subrange(0, default@.len() as int) =~= strs(default@));
            }
            r
        },
    }
}

/// The search to run: `--keys-only` asks Jira for no fields; otherwise the
/// effective `--jira-fields`.
pub fn search_params(args: &SearchArgs, default_fields: &Vec<String>) -> (p: SearchParams)
    ensures
        p.jql@ == args.jql@,
        strs(p.fields@) == (if args.keys_only { Seq::empty() } else {
            jira_fields_spec(match args.jira_fields { Some(s) => Some(s@), None => None }, strs(default_fields@))
        }),
        strs(p.expand@) == split_csv_spec(match args.expand { Some(s) => Some(s@), None => None }),
        p.max == args.max,
        p.page_size == args.page_size,
{
    let fields = if args.keys_only {
        let r: Vec<String> = Vec::new();
        assert(strs(r@) =~= Seq::<Seq<char>>::empty());
        r
    } else {
        let flag: Option<&str> = match &args.jira_fields {
            Some(s) => Some(s.as_str()),
            None => None,
        };
        resolve_default_jira_fields(flag, default_fields)
    };
    let ex: Option<&str> = match &args.expand {
        Some(s) => Some(s.as_str()),
        None => None,
    };
    SearchParams { jql: args.jql.clone(), fields, expand: split_csv(ex), max: args.max, page_size: args.page_size }
}

/// The output projection: `--keys-only` projects to `key`; otherwise `--fields`.
pub fn output_fields(args: &SearchArgs, g: &GlobalArgs) -> (r: Option<Vec<String>>)
    ensures
        args.keys_only ==> (r matches Some(v) && strs(v@) == seq!["key"@]),
        !args.keys_only ==> match g.fields {
            Some(f) => r matches Some(v) && strs(v@) == csv_spec(f@, ','),
            None => r is None,
        },
{
    if args.keys_only {
        let mut v: Vec<String> = Vec::new();
        v.push("key".to_owned());
        assert(strs(v@) =~= seq!["key"@]);
        Some(v)
    } else {
        g.field_list()
    }
}

} // verus!
