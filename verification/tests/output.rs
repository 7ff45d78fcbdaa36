use jira_cli::json::Json;
use jira_cli::output::{parse_field_list, project_fields, rename_keys, render_value, Format, OutputOptions};
use jira_cli::strmap::StrMap;
use serde_json::Value;

fn to_json(v: &Value) -> Json {
    match v {
        Value::Null => Json::Null,
        Value::Bool(b) => Json::Bool(*b),
        Value::Number(n) => Json::Number(n.to_string()),
        Value::String(s) => Json::Str(s.clone()),
        Value::Array(a) => Json::Array(a.iter().map(to_json).collect()),
        Value::Object(o) => Json::Object(o.iter().map(|(k, x)| (k.clone(), to_json(x))).collect()),
    }
}

fn to_value(j: &Json) -> Value {
    match j {
        Json::Null => Value::Null,
        Json::Bool(b) => Value::Bool(*b),
        Json::Number(n) => serde_json::from_str(n).unwrap(),
        Json::Str(s) => Value::String(s.clone()),
        Json::Array(a) => Value::Array(a.iter().map(to_value).collect()),
        Json::Object(o) => Value::Object(o.iter().map(|(k, x)| (k.clone(), to_value(x))).collect()),
    }
}

fn doc(text: &str) -> Json {
    to_json(&serde_json::from_str::<Value>(text).unwrap())
}

fn renames(pairs: &[(&str, &str)]) -> StrMap {
    let mut m = StrMap::new();
    for (k, v) in pairs {
        m.insert(k.to_string(), v.to_string());
    }
    m
}

#[test]
fn rename_keys_simple() {
    let mut v = doc(r#"{"customfield_10006": 5, "summary": "x"}"#);
    rename_keys(&mut v, &renames(&[("customfield_10006", "story_points")]));
    let v = to_value(&v);
    assert_eq!(v["story_points"], 5);
    assert!(v.get("customfield_10006").is_none());
    assert_eq!(v["summary"], "x");
}

#[test]
fn rename_keys_nested() {
    let mut v = doc(r#"{"key": "MGX-1", "fields": {"customfield_10006": 5, "customfield_11407": {"value": "一般"}}}"#);
    rename_keys(
        &mut v,
        &renames(&[("customfield_10006", "story_points"), ("customfield_11407", "bug_severity")]),
    );
    let v = to_value(&v);
    assert_eq!(v["fields"]["story_points"], 5);
    assert_eq!(v["fields"]["bug_severity"]["value"], "一般");
}

#[test]
fn rename_keys_empty_map_noop() {
    let mut v = doc(r#"{"customfield_10006": 5}"#);
    rename_keys(&mut v, &StrMap::new());
    assert_eq!(to_value(&v)["customfield_10006"], 5);
}

#[test]
fn rename_keys_array_walk() {
    let mut v = doc(r#"[{"customfield_10006": 1}, {"customfield_10006": 2}]"#);
    rename_keys(&mut v, &renames(&[("customfield_10006", "story_points")]));
    let v = to_value(&v);
    assert_eq!(v[0]["story_points"], 1);
    assert_eq!(v[1]["story_points"], 2);
}

#[test]
fn emit_value_applies_renames_before_projection() {
    let v = doc(r#"{"customfield_10006": 5, "summary": "hello"}"#);
    let opts = OutputOptions {
        format: Format::Json,
        pretty: false,
        fields: Some(vec!["story_points".to_string()]),
        renames: Some(renames(&[("customfield_10006", "story_points")])),
    };
    let out = to_value(&render_value(v, &opts));
    assert_eq!(out["story_points"], 5);
    assert!(out.get("customfield_10006").is_none());
    assert!(out.get("summary").is_none());
}

#[test]
fn project_flat_field() {
    let v = doc(r#"{"key": "MGX-1", "id": "100", "fields": {"summary": "a"}}"#);
    let out = project_fields(&v, &vec!["key".to_string()]);
    assert_eq!(to_value(&out), serde_json::from_str::<Value>(r#"{"key": "MGX-1"}"#).unwrap());
}

#[test]
fn project_dot_path() {
    let v = doc(r#"{"key": "MGX-1", "fields": {"summary": "hello", "status": {"name": "Open"}}}"#);
    let out = project_fields(&v, &vec!["key".to_string(), "fields.status.name".to_string()]);
    assert_eq!(
        to_value(&out),
        serde_json::from_str::<Value>(r#"{"key":"MGX-1","fields":{"status":{"name":"Open"}}}"#).unwrap()
    );
}

#[test]
fn project_missing_key_is_absent() {
    let v = doc(r#"{"key": "MGX-1"}"#);
    let out = project_fields(&v, &vec!["fields.summary".to_string()]);
    assert_eq!(to_value(&out), serde_json::from_str::<Value>("{}").unwrap());
}

#[test]
fn parse_fields_csv() {
    let got = parse_field_list("key, fields.summary,fields.status.name ,");
    assert_eq!(got, vec!["key", "fields.summary", "fields.status.name"]);
}

#[test]
fn renames_apply_key_by_key_in_order() {
    // Keys are visited in the object's order: `a` becomes `b` (replacing the
    // old `b`), then that `b` becomes `c`.
    let mut v = doc(r#"{"a": 1, "b": 2}"#);
    rename_keys(&mut v, &renames(&[("a", "b"), ("b", "c")]));
    let v = to_value(&v);
    assert_eq!(v, serde_json::from_str::<Value>(r#"{"c": 1}"#).unwrap());
}

#[test]
fn render_without_options_is_identity() {
    let v = doc(r#"{"x": [1, {"y": null}]}"#);
    let opts = OutputOptions { format: Format::Jsonl, pretty: false, fields: Some(vec![]), renames: None };
    let out = render_value(v, &opts);
    assert_eq!(to_value(&out), serde_json::from_str::<Value>(r#"{"x": [1, {"y": null}]}"#).unwrap());
}

#[test]
fn rename_leaves_unmapped_keys_alone() {
    let mut v = doc(r#"{"a": 1, "c": {"a": 2, "x": true}, "d": [{"a": 3}]}"#);
    rename_keys(&mut v, &renames(&[("a", "b")]));
    let out = to_value(&v);
    assert_eq!(out["b"], 1);
    assert!(out.get("a").is_none());
    assert_eq!(out["c"]["b"], 2);
    assert_eq!(out["c"]["x"], true);
    assert_eq!(out["d"][0]["b"], 3);
    assert_eq!(out.as_object().unwrap().len(), 3);
}

#[test]
fn field_list_items_are_trimmed_and_nonempty() {
    let got = parse_field_list(" a ,, \tb.c\n, ,d");
    assert_eq!(got, vec!["a", "b.c", "d"]);
    for item in &got {
        assert!(!item.is_empty() && !item.contains(',') && item.trim() == item);
    }
    assert_eq!(parse_field_list(&got.join(",")), got);
}
