use jira_cli::api::field::FieldMeta;
use jira_cli::error::{Error, FieldError};
use jira_cli::field_resolver::{auto_rename_map, effective_renames, FieldResolver};
use jira_cli::strmap::StrMap;

fn meta(id: &str, name: &str, custom: bool) -> FieldMeta {
    FieldMeta { id: id.into(), name: name.into(), custom, schema: None, clause_names: vec![] }
}

fn aliases(pairs: &[(&str, &str)]) -> StrMap {
    let mut m = StrMap::new();
    for (k, v) in pairs {
        m.insert(k.to_string(), v.to_string());
    }
    m
}

#[test]
fn raw_ids_and_aliases_need_no_field_list() {
    let r = FieldResolver::new().with_aliases(aliases(&[("Story Points", "customfield_10006")]));
    assert!(!r.needs_index("customfield_1"));
    assert_eq!(r.resolve("customfield_1").unwrap().unwrap(), "customfield_1");
    assert_eq!(r.resolve("Story Points").unwrap().unwrap(), "customfield_10006");
    assert!(r.needs_index("Summary"));
    assert!(r.resolve("Summary").is_none());
}

#[test]
fn resolves_against_the_field_list() {
    let mut r = FieldResolver::new();
    r.load_index(vec![
        meta("summary", "Summary", false),
        meta("customfield_1", "Points", true),
        meta("customfield_2", "Team", true),
        meta("customfield_3", "Team", true),
    ]);
    assert!(r.has_index());
    assert_eq!(r.resolve("summary").unwrap().unwrap(), "summary");
    assert_eq!(r.resolve("Points").unwrap().unwrap(), "customfield_1");
    match r.resolve("Team").unwrap() {
        Err(Error::FieldResolve(FieldError::Ambiguous { name, candidates })) => {
            assert_eq!(name, "Team");
            assert_eq!(candidates, vec!["customfield_2", "customfield_3"]);
        }
        _ => panic!("expected ambiguity"),
    }
    match r.resolve("Nope").unwrap() {
        Err(Error::FieldResolve(FieldError::Unknown(n))) => assert_eq!(n, "Nope"),
        _ => panic!("expected unknown"),
    }
    assert_eq!(r.metadata("customfield_1").unwrap().unwrap().name, "Points");
    assert!(r.metadata("zzz").unwrap().is_none());
    r.load_index(vec![]);
    assert_eq!(r.resolve("Points").unwrap().unwrap(), "customfield_1");
}

#[test]
fn auto_renames_skip_collisions_and_empty_slugs() {
    let list = vec![
        meta("customfield_1", "Story Points", true),
        meta("customfield_2", "Team", true),
        meta("customfield_3", "team", true),
        meta("customfield_4", "严重", true),
        meta("summary", "Summary", false),
    ];
    let m = auto_rename_map(&list);
    assert_eq!(m.len(), 1);
    assert_eq!(m.get("customfield_1").unwrap(), "story_points");
    let merged = effective_renames(&m, &aliases(&[("customfield_1", "points"), ("customfield_9", "x")]));
    assert_eq!(merged.get("customfield_1").unwrap(), "points");
    assert_eq!(merged.get("customfield_9").unwrap(), "x");
}
