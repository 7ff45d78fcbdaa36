use jira_cli::api::agile::Page;
use jira_cli::api::comment::CommentPage;
use jira_cli::api::worklog::WorklogPage;
use jira_cli::json::Json;

fn num(n: u64) -> Json {
    Json::Number(n.to_string())
}

fn obj(pairs: Vec<(&str, Json)>) -> Json {
    Json::Object(pairs.into_iter().map(|(k, v)| (k.to_string(), v)).collect())
}

#[test]
fn agile_page_reads_members_and_defaults() {
    let p = Page::from_json(&obj(vec![
        ("values", Json::Array(vec![num(1), num(2)])),
        ("total", num(9)),
        ("isLast", Json::Bool(false)),
    ]))
    .unwrap();
    assert_eq!(p.values, vec![num(1), num(2)]);
    assert_eq!(p.total, Some(9));
    assert_eq!(p.is_last, Some(false));

    let d = Page::from_json(&obj(vec![])).unwrap();
    assert!(d.values.is_empty());
    assert_eq!(d.total, None);
    assert_eq!(d.is_last, None);

    assert!(Page::from_json(&obj(vec![("values", num(1))])).is_none());
    assert!(Page::from_json(&obj(vec![("isLast", Json::Str("yes".into()))])).is_none());
    assert!(Page::from_json(&Json::Array(vec![])).is_none());
}

#[test]
fn comment_and_worklog_pages() {
    let c = CommentPage::from_json(&obj(vec![("comments", Json::Array(vec![num(3)])), ("total", Json::Null)])).unwrap();
    assert_eq!(c.comments, vec![num(3)]);
    assert_eq!(c.total, None);
    let w = WorklogPage::from_json(&obj(vec![("worklogs", Json::Array(vec![])), ("total", num(0))])).unwrap();
    assert!(w.worklogs.is_empty());
    assert_eq!(w.total, Some(0));
    assert!(CommentPage::from_json(&obj(vec![("total", Json::Str("x".into()))])).is_none());
}
