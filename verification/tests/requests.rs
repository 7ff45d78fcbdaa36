use jira_cli::api::issue::{map_issue_err, GetOpts};
use jira_cli::api::session::SessionInfo;
use jira_cli::api::transitions::{resolve_name, TransitionList};
use jira_cli::api::{agile, comment, issue, link, transitions, user, watchers, worklog, Method};
use jira_cli::error::{ApiErrorBody, Error};
use jira_cli::json::Json;
use jira_cli::strmap::StrMap;
use serde_json::Value;

fn to_json(v: &Value) -> Json {
    match v {
        Value::Null => Json::Null,
        Value::Bool(b) => Json::Bool(*b),
        Value::Number(n) => Json::Number(n.to_string()),
        Value::String(s) => Json::Str(s.clone()),
        Value::Array(a) => Json::Array(a.iter().map(to_json).collect()),
        Value::Object(o) => Json::Object(o.iter().map(|(k, x)| (k.clone(), to_json(x))).collect()),
    }
}

fn to_value(j: &Json) -> Value {
    match j {
        Json::Null => Value::Null,
        Json::Bool(b) => Value::Bool(*b),
        Json::Number(n) => serde_json::from_str(n).unwrap(),
        Json::Str(s) => Value::String(s.clone()),
        Json::Array(a) => Value::Array(a.iter().map(to_value).collect()),
        Json::Object(o) => Value::Object(o.iter().map(|(k, x)| (k.clone(), to_value(x))).collect()),
    }
}

fn doc(text: &str) -> Json {
    to_json(&serde_json::from_str::<Value>(text).unwrap())
}

fn value(text: &str) -> Value {
    serde_json::from_str(text).unwrap()
}

#[test]
fn issue_get_request() {
    let r = issue::get("MGX-42", &GetOpts { fields: vec!["summary".into(), "status".into()], expand: vec![] });
    assert_eq!(r.method, Method::Get);
    assert_eq!(r.path, "/rest/api/2/issue/MGX-42");
    assert_eq!(r.query, vec![("fields".to_string(), "summary,status".to_string())]);
    let r = issue::get("a b/c", &GetOpts::default());
    assert_eq!(r.path, "/rest/api/2/issue/a+b%2Fc");
    assert!(r.query.is_empty());
}

#[test]
fn map_issue_err_only_touches_404() {
    let body = |s: u16| ApiErrorBody { status: s, error_messages: vec![], errors: StrMap::new(), request_id: None };
    match map_issue_err::<()>(Err(Error::Api(body(404))), "MGX-1") {
        Err(Error::NotFound { resource, key }) => {
            assert_eq!(resource, "issue");
            assert_eq!(key, "MGX-1");
        }
        _ => panic!("expected not found"),
    }
    assert!(matches!(map_issue_err::<()>(Err(Error::Api(body(500))), "MGX-1"), Err(Error::Api(_))));
    assert!(matches!(map_issue_err(Ok(5), "MGX-1"), Ok(5)));
}

#[test]
fn write_requests() {
    let r = comment::add("MGX-1", "hi");
    assert_eq!(r.method, Method::Post);
    assert_eq!(r.path, "/rest/api/2/issue/MGX-1/comment");
    assert_eq!(to_value(r.body.as_ref().unwrap()), value(r#"{"body":"hi"}"#));
    let r = comment::list_page("MGX-1", 50, 25);
    assert_eq!(r.path, "/rest/api/2/issue/MGX-1/comment?startAt=50&maxResults=25");
    let r = worklog::add("MGX-1", "1h", None, Some("c"));
    assert_eq!(to_value(r.body.as_ref().unwrap()), value(r#"{"timeSpent":"1h","comment":"c"}"#));
    let r = link::create("A-1", "B-2", "Blocks");
    assert_eq!(
        to_value(r.body.as_ref().unwrap()),
        value(r#"{"type":{"name":"Blocks"},"inwardIssue":{"key":"B-2"},"outwardIssue":{"key":"A-1"}}"#)
    );
    let r = issue::assign("MGX-1", None);
    assert_eq!(r.path, "/rest/api/2/issue/MGX-1/assignee");
    assert_eq!(to_value(r.body.as_ref().unwrap()), value(r#"{"name":null}"#));
    let r = watchers::remove("MGX-1", "bob");
    assert_eq!(r.method, Method::Delete);
    assert_eq!(r.query, vec![("username".to_string(), "bob".to_string())]);
    let r = user::search_with_max("al", 7);
    assert_eq!(r.query[1], ("maxResults".to_string(), "7".to_string()));
    let r = transitions::execute("MGX-1", "31", None);
    assert_eq!(to_value(r.body.as_ref().unwrap()), value(r#"{"transition":{"id":"31"}}"#));
    let r = agile::create_sprint(3, "S1", Some("2024-01-01"), None, Some("g"));
    assert_eq!(
        to_value(r.body.as_ref().unwrap()),
        value(r#"{"name":"S1","originBoardId":3,"startDate":"2024-01-01","goal":"g"}"#)
    );
    let r = agile::list_boards_page(Some("scrum"), None, 0, 50);
    assert_eq!(
        r.query,
        vec![
            ("type".to_string(), "scrum".to_string()),
            ("startAt".to_string(), "0".to_string()),
            ("maxResults".to_string(), "50".to_string())
        ]
    );
    let keys = vec!["A-1".to_string(), "A-2".to_string()];
    let r = agile::backlog_move(&keys);
    assert_eq!(to_value(r.body.as_ref().unwrap()), value(r#"{"issues":["A-1","A-2"]}"#));
    assert!(!r.is_idempotent());
}

#[test]
fn transition_names_resolve() {
    let list = TransitionList {
        transitions: vec![
            doc(r#"{"id":"11","name":"Start"}"#),
            doc(r#"{"id":"21","name":"Done"}"#),
            doc(r#"{"id":"22","name":"Done"}"#),
            doc(r#"{"name":"Start"}"#),
        ],
    };
    assert_eq!(resolve_name(&list, "X-1", "Start").unwrap(), "11");
    match resolve_name(&list, "X-1", "Done") {
        Err(Error::Usage(m)) => assert_eq!(m, "transition name 'Done' is ambiguous; use id"),
        _ => panic!("expected ambiguity"),
    }
    match resolve_name(&list, "X-1", "Gone") {
        Err(Error::Usage(m)) => assert_eq!(m, "transition 'Gone' is not available for X-1"),
        _ => panic!("expected not available"),
    }
}

#[test]
fn session_cookie_header() {
    let s = SessionInfo { name: "JSESSIONID".into(), value: "abc".into() };
    assert_eq!(s.cookie_header(), "JSESSIONID=abc");
}

#[test]
fn links_and_bulk_results() {
    let issue = doc(r#"{"fields":{"issuelinks":[{"id":"1"}],"attachment":[]}}"#);
    assert_eq!(link::links_of(&issue).len(), 1);
    assert_eq!(jira_cli::api::attachment::attachments_of(&issue).len(), 0);
    assert_eq!(link::links_of(&doc(r#"{"fields":{}}"#)).len(), 0);
    let res = issue::bulk_results(&doc(r#"{"issues":[{"key":"A-1"}],"errors":[{"x":1},{"y":2}]}"#));
    assert_eq!(res.created.len(), 1);
    assert_eq!(res.errors.len(), 2);
}

#[test]
fn search_page_posts_the_body() {
    let body = jira_cli::api::search::search_request_body(&jira_cli::api::search::SearchParams::default(), 100);
    let r = jira_cli::api::search::search_page(body);
    assert!(r.method == jira_cli::api::Method::Post);
    assert_eq!(r.path, "/rest/api/2/search");
    assert!(r.query.is_empty());
    match r.body {
        Some(jira_cli::json::Json::Object(o)) => {
            assert_eq!(o[1].0, "startAt");
            assert!(o[1].1 == jira_cli::json::Json::Number("100".into()));
        }
        _ => panic!("expected an object body"),
    }
}
