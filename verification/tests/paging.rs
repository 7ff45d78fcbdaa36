use jira_cli::api::paging::{PageParams, PagePoll, PagedIter};
use jira_cli::api::search::{iter, search_request_body, SearchPage, SearchParams, SearchPoll};
use jira_cli::error::Error;
use jira_cli::json::Json;
use serde_json::Value;

fn to_json(v: &Value) -> Json {
    match v {
        Value::Null => Json::Null,
        Value::Bool(b) => Json::Bool(*b),
        Value::Number(n) => Json::Number(n.to_string()),
        Value::String(s) => Json::Str(s.clone()),
        Value::Array(a) => Json::Array(a.iter().map(to_json).collect()),
        Value::Object(o) => Json::Object(o.iter().map(|(k, x)| (k.clone(), to_json(x))).collect()),
    }
}

fn to_value(j: &Json) -> Value {
    match j {
        Json::Null => Value::Null,
        Json::Bool(b) => Value::Bool(*b),
        Json::Number(n) => serde_json::from_str(n).unwrap(),
        Json::Str(s) => Value::String(s.clone()),
        Json::Array(a) => Value::Array(a.iter().map(to_value).collect()),
        Json::Object(o) => Value::Object(o.iter().map(|(k, x)| (k.clone(), to_value(x))).collect()),
    }
}

fn doc(text: &str) -> Json {
    to_json(&serde_json::from_str::<Value>(text).unwrap())
}

#[test]
fn page_params_default() {
    let p = PageParams::default();
    assert_eq!((p.start_at, p.page_size, p.max), (0, 50, None));
    assert_eq!(SearchParams::default().page_size, 100);
}

#[test]
fn pages_until_total() {
    let mut it = PagedIter::new(PageParams { start_at: 0, page_size: 2, max: None }, "comments");
    assert!(matches!(it.poll(), PagePoll::Fetch { start_at: 0, page_size: 2 }));
    let first = it.feed(Ok(doc(r#"{"total": 3, "comments": [{"id": "1"}, {"id": "2"}]}"#))).unwrap().unwrap();
    assert_eq!(to_value(&first)["id"], "1");
    assert!(matches!(it.poll(), PagePoll::Item(_)));
    assert!(matches!(it.poll(), PagePoll::Fetch { start_at: 2, page_size: 2 }));
    let third = it.feed(Ok(doc(r#"{"total": 3, "comments": [{"id": "3"}]}"#))).unwrap().unwrap();
    assert_eq!(to_value(&third)["id"], "3");
    assert!(matches!(it.poll(), PagePoll::Done));
    assert!(matches!(it.poll(), PagePoll::Done));
    assert_eq!(it.emitted(), 3);
    assert_eq!(it.total(), Some(3));
}

#[test]
fn cap_and_errors_end_iteration() {
    let mut it = PagedIter::new(PageParams { start_at: 5, page_size: 10, max: Some(1) }, "values");
    assert!(matches!(it.poll(), PagePoll::Fetch { start_at: 5, page_size: 10 }));
    assert!(it.feed(Ok(doc(r#"{"isLast": false, "values": [1, 2, 3]}"#))).unwrap().is_ok());
    assert!(matches!(it.poll(), PagePoll::Done));
    assert_eq!(it.emitted(), 1);

    let mut it = PagedIter::new(PageParams::default(), "values");
    let _ = it.poll();
    assert!(matches!(it.feed(Err(Error::Network("down".into()))), Some(Err(Error::Network(_)))));
    assert!(matches!(it.poll(), PagePoll::Done));

    let mut it = PagedIter::new(PageParams::default(), "values");
    let _ = it.poll();
    assert!(it.feed(Ok(doc(r#"{"values": []}"#))).is_none());
    assert!(matches!(it.poll(), PagePoll::Done));

    let mut it = PagedIter::new(PageParams::default(), "values");
    let _ = it.poll();
    assert!(it.feed(Ok(doc(r#"{"isLast": true, "values": [7]}"#))).is_some());
    assert!(matches!(it.poll(), PagePoll::Done));
}

#[test]
fn search_streams_pages() {
    let params = SearchParams { jql: "project = X".into(), fields: vec!["key".into()], expand: vec![], max: None, page_size: 2 };
    let body = search_request_body(&params, 4);
    assert_eq!(
        to_value(&body),
        serde_json::from_str::<Value>(r#"{"jql": "project = X", "startAt": 4, "maxResults": 2, "fields": ["key"]}"#).unwrap()
    );
    let mut it = iter(params);
    match it.poll() {
        SearchPoll::Request(b) => assert_eq!(to_value(&b)["startAt"], 0),
        _ => panic!("expected a request"),
    }
    let page = SearchPage { start_at: 0, total: Some(3), issues: vec![doc(r#"{"key":"X-1"}"#), doc(r#"{"key":"X-2"}"#)] };
    assert_eq!(to_value(&it.feed(Ok(page)).unwrap().unwrap())["key"], "X-1");
    assert!(matches!(it.poll(), SearchPoll::Issue(_)));
    match it.poll() {
        SearchPoll::Request(b) => assert_eq!(to_value(&b)["startAt"], 2),
        _ => panic!("expected a request"),
    }
    let page = SearchPage { start_at: 2, total: Some(3), issues: vec![doc(r#"{"key":"X-3"}"#)] };
    assert!(it.feed(Ok(page)).is_some());
    assert!(matches!(it.poll(), SearchPoll::Done));
    assert_eq!(it.emitted(), 3);
    assert_eq!(it.total(), Some(3));
}

#[test]
fn search_cap_and_empty_page() {
    let params = SearchParams { jql: "x".into(), fields: vec![], expand: vec![], max: Some(0), page_size: 100 };
    let mut it = iter(params);
    assert!(matches!(it.poll(), SearchPoll::Done));
    let mut it = iter(SearchParams::default());
    let _ = it.poll();
    assert!(it.feed(Ok(SearchPage { start_at: 0, total: None, issues: vec![] })).is_none());
    assert!(matches!(it.poll(), SearchPoll::Done));
    assert!(jira_cli::api::search::slice_is_empty(&[]));
    assert!(!jira_cli::api::search::slice_is_empty(&["a".to_string()]));
}
