use jira_cli::cli::args::{GlobalArgs, RawValue, SetArg};
use jira_cli::error::Error;

fn make_args(aliases: Vec<String>) -> GlobalArgs {
    GlobalArgs {
        verbose: 0,
        output: None,
        pretty: false,
        fields: None,
        timeout: None,
        insecure: false,
        field_alias: aliases,
    }
}

#[test]
fn parse_scalar() {
    let s = SetArg::parse("Summary=hello world").unwrap();
    assert_eq!(s.key, "Summary");
    assert_eq!(s.raw, RawValue::Scalar("hello world".into()));
}

#[test]
fn parse_json_literal() {
    let s = SetArg::parse(r#"Labels=["a","b"]"#).unwrap();
    assert!(matches!(s.raw, RawValue::Json(_)));
}

#[test]
fn parse_file_ref() {
    let s = SetArg::parse("Description=@./desc.md").unwrap();
    assert_eq!(s.raw, RawValue::File("./desc.md".into()));
}

#[test]
fn parse_stdin_ref() {
    let s = SetArg::parse("customfield_10020=@-").unwrap();
    assert_eq!(s.raw, RawValue::Stdin);
}

#[test]
fn missing_equals_errors() {
    assert!(SetArg::parse("no-equals-sign").is_err());
}

#[test]
fn allows_equals_in_value() {
    let s = SetArg::parse("URL=https://foo.example?a=b").unwrap();
    assert_eq!(s.key, "URL");
    assert_eq!(s.raw, RawValue::Scalar("https://foo.example?a=b".into()));
}

#[test]
fn parses_valid_pairs() {
    let args = make_args(vec![
        "Story Points=customfield_10006".into(),
        " Epic Link = customfield_10000 ".into(),
    ]);
    let map = args.parse_field_aliases().unwrap();
    assert_eq!(map.get("Story Points").unwrap(), "customfield_10006");
    assert_eq!(map.get("Epic Link").unwrap(), "customfield_10000");
}

#[test]
fn args_missing_equals_errors() {
    let args = make_args(vec!["bad".into()]);
    assert!(args.parse_field_aliases().is_err());
}

#[test]
fn empty_name_errors() {
    let args = make_args(vec!["=x".into()]);
    assert!(args.parse_field_aliases().is_err());
}

#[test]
fn empty_id_errors() {
    let args = make_args(vec!["Name=".into()]);
    assert!(args.parse_field_aliases().is_err());
}

#[test]
fn alias_error_messages() {
    let e = make_args(vec!["bad".into()]).parse_field_aliases().unwrap_err();
    assert_eq!(e.message(), "usage: --field-alias expects NAME=ID, got: bad");
    let e = make_args(vec!["a=b".into(), " = x".into()]).parse_field_aliases().unwrap_err();
    assert_eq!(e.message(), "usage: --field-alias NAME and ID must both be non-empty");
}

#[test]
fn later_alias_wins() {
    let map = make_args(vec!["A=1".into(), "A=2".into()]).parse_field_aliases().unwrap();
    assert_eq!(map.get("A").unwrap(), "2");
    assert_eq!(map.len(), 1);
}

#[test]
fn set_key_must_not_be_empty() {
    match SetArg::parse(" =v") {
        Err(Error::Usage(m)) => assert_eq!(m, "--set KEY must not be empty"),
        _ => panic!("expected a usage error"),
    }
    match SetArg::parse("novalue") {
        Err(Error::Usage(m)) => assert_eq!(m, "--set expects KEY=VALUE, got: novalue"),
        _ => panic!("expected a usage error"),
    }
}

#[test]
fn set_value_classification() {
    assert!(matches!(SetArg::parse("N= 42 ").unwrap().raw, RawValue::Json(_)));
    assert!(matches!(SetArg::parse("B=true").unwrap().raw, RawValue::Json(_)));
    assert_eq!(SetArg::parse("X=[broken").unwrap().raw, RawValue::Scalar("[broken".into()));
    assert_eq!(SetArg::parse("X=@").unwrap().raw, RawValue::File("".into()));
    let all = SetArg::parse_many(&vec!["a=1".to_string(), "b".to_string(), "=c".to_string()]);
    match all {
        Err(Error::Usage(m)) => assert_eq!(m, "--set expects KEY=VALUE, got: b"),
        _ => panic!("expected the first bad argument's error"),
    }
}

#[test]
fn field_list_and_output_options() {
    let mut g = make_args(vec![]);
    assert!(g.field_list().is_none());
    g.fields = Some(" key ,, fields.summary".into());
    assert_eq!(g.field_list().unwrap(), vec!["key", "fields.summary"]);
    let o = g.output_options(jira_cli::output::Format::Jsonl, None);
    assert_eq!(o.format, jira_cli::output::Format::Jsonl);
    g.output = Some(jira_cli::cli::args::FormatArg::Json);
    g.pretty = true;
    let o = g.output_options(jira_cli::output::Format::Jsonl, None);
    assert_eq!(o.format, jira_cli::output::Format::Json);
    assert!(o.pretty);
}

#[test]
fn later_alias_for_same_name_wins() {
    let args = make_args(vec!["Story Points = customfield_1".into(), "Story Points=customfield_2".into()]);
    let map = args.parse_field_aliases().unwrap();
    assert_eq!(map.len(), 1);
    assert_eq!(map.get("Story Points").unwrap(), "customfield_2");
}
