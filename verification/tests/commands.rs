use jira_cli::cli::args::{GlobalArgs, SetArg};
use jira_cli::cli::commands::bulk::{chunkify, extract_key, keep_line, worker_count};
use jira_cli::cli::commands::issue::{changelog_entries, create_body, is_transition_id, merged_field_aliases};
use jira_cli::cli::commands::meta::{escape_toml, init_allowed, init_content, nonempty_input, pick_credential, InitAuth};
use jira_cli::cli::commands::raw::{body_source, parse_pairs, raw_method, BodySource};
use jira_cli::cli::commands::search::{resolve_default_jira_fields, search_params, split_csv};
use jira_cli::cli::commands::{issue_delete_step, sprint_delete_step};
use jira_cli::api::Method;
use jira_cli::cli::{IssueCreate, SchemaArgs, SearchArgs};
use jira_cli::error::Error;
use jira_cli::json::Json;
use jira_cli::schema::{ArgAction, ArgSpec, CommandSpec};
use jira_cli::strmap::StrMap;
use serde_json::Value;

fn to_json(v: &Value) -> Json {
    match v {
        Value::Null => Json::Null,
        Value::Bool(b) => Json::Bool(*b),
        Value::Number(n) => Json::Number(n.to_string()),
        Value::String(s) => Json::Str(s.clone()),
        Value::Array(a) => Json::Array(a.iter().map(to_json).collect()),
        Value::Object(o) => Json::Object(o.iter().map(|(k, x)| (k.clone(), to_json(x))).collect()),
    }
}

fn to_value(j: &Json) -> Value {
    match j {
        Json::Null => Value::Null,
        Json::Bool(b) => Value::Bool(*b),
        Json::Number(n) => serde_json::from_str(n).unwrap(),
        Json::Str(s) => Value::String(s.clone()),
        Json::Array(a) => Value::Array(a.iter().map(to_value).collect()),
        Json::Object(o) => Value::Object(o.iter().map(|(k, x)| (k.clone(), to_value(x))).collect()),
    }
}

fn doc(text: &str) -> Json {
    to_json(&serde_json::from_str::<Value>(text).unwrap())
}

fn global(aliases: Vec<String>) -> GlobalArgs {
    GlobalArgs { verbose: 0, output: None, pretty: false, fields: None, timeout: None, insecure: false, field_alias: aliases }
}

#[test]
fn split_csv_and_default_fields() {
    assert_eq!(split_csv(Some(" a, ,b ,")), vec!["a", "b"]);
    assert!(split_csv(None).is_empty());
    let d = vec!["summary".to_string()];
    assert!(resolve_default_jira_fields(Some(""), &d).is_empty());
    assert_eq!(resolve_default_jira_fields(Some("x,y"), &d), vec!["x", "y"]);
    assert_eq!(resolve_default_jira_fields(None, &d), vec!["summary"]);
}

#[test]
fn keys_only_search() {
    let args = SearchArgs {
        jql: "project = X".into(),
        jira_fields: Some("a,b".into()),
        expand: Some("names".into()),
        max: Some(5),
        page_size: 100,
        keys_only: true,
    };
    let p = search_params(&args, &vec![]);
    assert!(p.fields.is_empty());
    assert_eq!(p.expand, vec!["names"]);
    assert_eq!(p.max, Some(5));
    let g = global(vec![]);
    assert_eq!(jira_cli::cli::commands::search::output_fields(&args, &g).unwrap(), vec!["key"]);
}

#[test]
fn cli_aliases_override_file_aliases() {
    let mut file = StrMap::new();
    file.insert("Story Points".into(), "customfield_1".into());
    file.insert("Team".into(), "customfield_2".into());
    let merged = merged_field_aliases(&file, &global(vec!["Story Points=customfield_9".into()])).unwrap();
    assert_eq!(merged.get("Story Points").unwrap(), "customfield_9");
    assert_eq!(merged.get("Team").unwrap(), "customfield_2");
    assert!(merged_field_aliases(&file, &global(vec!["bad".into()])).is_err());
}

#[test]
fn create_body_set_overrides_components() {
    let args = IssueCreate {
        project: "MGX".into(),
        issue_type: "Bug".into(),
        summary: "s".into(),
        components: vec!["UI".into()],
        set: vec![],
    };
    let b = create_body(&args, vec![("components".into(), doc(r#"[{"name":"API"}]"#)), ("customfield_1".into(), Json::Number("5".into()))]);
    let v = to_value(&b);
    assert_eq!(v["fields"]["project"]["key"], "MGX");
    assert_eq!(v["fields"]["issuetype"]["name"], "Bug");
    assert_eq!(v["fields"]["components"][0]["name"], "API");
    assert_eq!(v["fields"]["customfield_1"], 5);
}

#[test]
fn transition_ids_are_digits() {
    assert!(is_transition_id("31"));
    assert!(is_transition_id(""));
    assert!(!is_transition_id("Done"));
    assert!(!is_transition_id("3a"));
}

#[test]
fn changelog_is_capped() {
    let v = doc(r#"{"changelog":{"total":3,"histories":[{"id":"1"},{"id":"2"},{"id":"3"}]}}"#);
    assert_eq!(changelog_entries(&v, Some(2)).len(), 2);
    assert_eq!(changelog_entries(&v, None).len(), 3);
    let s = jira_cli::cli::commands::issue::changelog_summary(2, &v);
    assert_eq!(to_value(&s), serde_json::from_str::<Value>(r#"{"summary":{"count":2,"total":3}}"#).unwrap());
}

#[test]
fn chunkify_round_robin() {
    let chunks = chunkify(vec![1, 2, 3, 4, 5], 2);
    assert_eq!(chunks, vec![vec![1, 3, 5], vec![2, 4]]);
    let chunks = chunkify(vec![1, 2], 4);
    assert_eq!(chunks, vec![vec![1], vec![2]]);
    assert!(chunkify(Vec::<u8>::new(), 3).is_empty());
    assert_eq!(worker_count(Some(0), 4), 1);
    assert_eq!(worker_count(None, 40), 16);
    assert!(keep_line(" x "));
    assert!(!keep_line(" \t "));
    assert_eq!(extract_key(br#"{"key":"A-1","to":"Done"}"#).as_deref(), Some("A-1"));
    assert_eq!(extract_key(b"nope"), None);
}

#[test]
fn config_init_text() {
    assert_eq!(escape_toml(r#"a"b\c"#), r#"a\"b\\c"#);
    let c = init_content("https://j", &InitAuth::Basic { user: "u".into(), password: "p\"w".into() }, true);
    assert_eq!(c, "url = \"https://j\"\nuser = \"u\"\npassword = \"p\\\"w\"\ninsecure = true\n");
    let c = init_content("https://j", &InitAuth::Cookie { cookie: "JSESSIONID=1".into() }, false);
    assert_eq!(c, "url = \"https://j\"\nauth_method = \"cookie\"\nsession_cookie = \"JSESSIONID=1\"\n");
    assert_eq!(pick_credential(Some(""), Some("cfg")), None);
    assert_eq!(pick_credential(None, Some("cfg")).as_deref(), Some("cfg"));
    assert_eq!(nonempty_input("bob\r\n", "JIRA_USER").unwrap(), "bob");
    match nonempty_input("\n", "JIRA_USER") {
        Err(Error::Usage(m)) => assert_eq!(m, "JIRA_USER not set in env or config, and no input on stdin"),
        _ => panic!("expected a usage error"),
    }
}

#[test]
fn raw_arguments() {
    assert_eq!(raw_method("get").unwrap(), "GET");
    match raw_method("bad method") {
        Err(Error::Usage(m)) => assert_eq!(m, "invalid HTTP method 'bad method': invalid HTTP method"),
        _ => panic!("expected a usage error"),
    }
    let q = parse_pairs(&vec![" a =1=2".to_string()], '=').unwrap();
    assert_eq!(q, vec![("a".to_string(), "1=2".to_string())]);
    let h = parse_pairs(&vec!["X-A:  v ".to_string()], ':').unwrap();
    assert_eq!(h, vec![("X-A".to_string(), "v ".to_string())]);
    assert!(parse_pairs(&vec!["nokv".to_string()], '=').is_err());
    assert!(matches!(body_source("-"), BodySource::Stdin));
    assert!(matches!(body_source("@f.json"), BodySource::File(p) if p == "f.json"));
    assert!(matches!(body_source("{}"), BodySource::Literal(b) if b == "{}"));
}

#[test]
fn schema_tree() {
    let flag = ArgSpec {
        id: "verbose".into(),
        positional: false,
        required: false,
        help: Some("more".into()),
        long: Some("verbose".into()),
        short: Some('v'),
        action: ArgAction::Count,
        value_names: vec![],
    };
    let key = ArgSpec {
        id: "key".into(),
        positional: true,
        required: true,
        help: None,
        long: None,
        short: None,
        action: ArgAction::TakesValue,
        value_names: vec![],
    };
    let get = CommandSpec { name: "get".into(), about: Some("Get".into()), args: vec![key], subcommands: vec![] };
    let cli = CommandSpec { name: "jira-cli".into(), about: None, args: vec![flag], subcommands: vec![get] };
    let all = to_value(&jira_cli::cli::commands::schema::run(&SchemaArgs { subcommand: None }, &cli).unwrap());
    assert_eq!(all["version"], "0.1.0");
    assert_eq!(all["commands"]["get"]["args"][0]["name"], "key");
    assert_eq!(all["commands"]["get"]["args"][0]["value_type"], "string");
    let one = to_value(&jira_cli::cli::commands::schema::run(&SchemaArgs { subcommand: Some("get".into()) }, &cli).unwrap());
    assert_eq!(one["about"], "Get");
    let whole = to_value(&jira_cli::schema::render_one(&cli));
    assert_eq!(whole["flags"][0]["name"], "--verbose");
    assert_eq!(whole["flags"][0]["short"], "v");
    assert_eq!(whole["flags"][0]["takes_value"], false);
    assert_eq!(whole["flags"][0]["value_type"], "count");
    match jira_cli::cli::commands::schema::run(&SchemaArgs { subcommand: Some("nope".into()) }, &cli) {
        Err(Error::Usage(m)) => assert_eq!(m, "unknown subcommand: nope"),
        _ => panic!("expected a usage error"),
    }
    let _ = SetArg::parse("a=b").unwrap();
}

#[test]
fn deletes_need_yes() {
    match sprint_delete_step(7, false) {
        Err(Error::Usage(m)) => assert_eq!(m, "sprint delete requires --yes to confirm"),
        _ => panic!("expected a usage error"),
    }
    let r = sprint_delete_step(7, true).unwrap();
    assert!(r.method == Method::Delete);
    assert_eq!(r.path, "/rest/agile/1.0/sprint/7");
    match issue_delete_step("MGX-1", false) {
        Err(Error::Usage(m)) => assert_eq!(m, "issue delete requires --yes to confirm"),
        _ => panic!("expected a usage error"),
    }
    let r = issue_delete_step("MGX-1", true).unwrap();
    assert!(r.method == Method::Delete);
    assert_eq!(r.path, "/rest/api/2/issue/MGX-1");
}

#[test]
fn config_init_overwrite_check() {
    assert!(init_allowed(false, false, "/x/config.toml").is_ok());
    assert!(init_allowed(true, true, "/x/config.toml").is_ok());
    match init_allowed(true, false, "/x/config.toml") {
        Err(Error::Usage(m)) => assert_eq!(m, "config file already exists at /x/config.toml; pass --force to overwrite"),
        _ => panic!("expected a usage error"),
    }
}

#[test]
fn chunks_are_strided_and_capped() {
    let chunks = chunkify(vec![0, 1, 2, 3, 4, 5, 6], 3);
    assert_eq!(chunks, vec![vec![0, 3, 6], vec![1, 4], vec![2, 5]]);
    let few = chunkify(vec![10, 11], 5);
    assert_eq!(few, vec![vec![10], vec![11]]);
}
