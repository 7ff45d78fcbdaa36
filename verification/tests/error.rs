use jira_cli::error::{ApiErrorBody, AuthError, Error, FieldError};
use jira_cli::json::Json;
use jira_cli::strmap::StrMap;
use serde_json::Value;

fn to_value(j: &Json) -> Value {
    match j {
        Json::Null => Value::Null,
        Json::Bool(b) => Value::Bool(*b),
        Json::Number(n) => serde_json::from_str(n).unwrap(),
        Json::Str(s) => Value::String(s.clone()),
        Json::Array(a) => Value::Array(a.iter().map(to_value).collect()),
        Json::Object(o) => Value::Object(o.iter().map(|(k, x)| (k.clone(), to_value(x))).collect()),
    }
}

#[test]
fn exit_code_table() {
    assert_eq!(Error::Config("x".into()).exit_code(), 2);
    assert_eq!(Error::Usage("bad --set".into()).exit_code(), 2);
    assert_eq!(Error::Auth(AuthError::Unauthorized).exit_code(), 5);
    assert_eq!(Error::Auth(AuthError::CaptchaRequired).exit_code(), 5);
    assert_eq!(Error::NotFound { resource: "issue".into(), key: "MGX-1".into() }.exit_code(), 6);
    assert_eq!(
        Error::Api(ApiErrorBody {
            status: 400,
            error_messages: vec!["bad".into()],
            errors: StrMap::new(),
            request_id: None
        })
        .exit_code(),
        3
    );
}

#[test]
fn error_body_from_json_standard() {
    let raw = r#"{"errorMessages":["Issue Does Not Exist"],"errors":{},"status":404}"#;
    let body = ApiErrorBody::from_bytes(404, None, raw.as_bytes());
    assert_eq!(body.error_messages, vec!["Issue Does Not Exist"]);
    assert_eq!(body.status, 404);
}

#[test]
fn error_body_from_html_fallback() {
    let raw = b"<html><body>502 Bad Gateway</body></html>";
    let body = ApiErrorBody::from_bytes(502, Some("req-9".into()), raw);
    assert_eq!(body.status, 502);
    assert_eq!(body.request_id.as_deref(), Some("req-9"));
    assert!(body.error_messages[0].contains("502 Bad Gateway"));
}

#[test]
fn stderr_json_shape_includes_kind_and_hint() {
    let err = Error::NotFound { resource: "issue".into(), key: "MGX-42".into() };
    let v = to_value(&err.to_stderr_json());
    assert_eq!(v["error"]["kind"], "not_found");
    assert!(v["error"]["hint"].as_str().is_some());
    assert_eq!(v["error"]["message"], "issue not found: MGX-42");
}

#[test]
fn from_bytes_preserves_empty_fields() {
    let raw = br#"{"errorMessages":[],"errors":{},"status":400}"#;
    let body = ApiErrorBody::from_bytes(400, None, raw);
    assert!(body.error_messages.is_empty());
    assert!(body.errors.is_empty());
    assert_eq!(body.status, 400);
}

#[test]
fn stderr_json_for_api_error() {
    let mut errors = StrMap::new();
    errors.insert("field".into(), "bad".into());
    let err = Error::Api(ApiErrorBody {
        status: 409,
        error_messages: vec!["conflict".into()],
        errors,
        request_id: Some("rid-1".into()),
    });
    let v = to_value(&err.to_stderr_json());
    assert_eq!(v["error"]["kind"], "api_error");
    assert_eq!(v["error"]["status"], 409);
    assert_eq!(v["error"]["errorMessages"][0], "conflict");
    assert_eq!(v["error"]["errors"]["field"], "bad");
    assert_eq!(v["error"]["request_id"], "rid-1");
}

#[test]
fn display_for_auth_and_field_errors() {
    let e = Error::Auth(AuthError::CaptchaRequired);
    assert_eq!(e.message(), "auth: CAPTCHA required");
    let e = Error::FieldResolve(FieldError::Ambiguous {
        name: "Story Points".into(),
        candidates: vec!["customfield_10020".into(), "customfield_10021".into()],
    });
    assert_eq!(
        e.message(),
        "field: field 'Story Points' is ambiguous (candidates: customfield_10020, customfield_10021)"
    );
}

#[test]
fn html_body_gets_a_hint() {
    let body = ApiErrorBody::from_bytes(502, None, b"<html>x</html>");
    assert!(jira_cli::error::looks_like_non_json_fallback(&body));
    let e = Error::Api(body);
    assert!(e.hint().unwrap().starts_with("non-JSON response from Jira"));
    let clean = ApiErrorBody::from_bytes(400, None, br#"{"errorMessages":["<x"]}"#);
    assert_eq!(clean.error_messages, vec!["<x"]);
}

#[test]
fn excerpt_is_two_hundred_chars() {
    let long = "é".repeat(300);
    let body = ApiErrorBody::from_bytes(500, None, long.as_bytes());
    assert_eq!(body.error_messages[0].chars().count(), 200);
    let wrong_shape = ApiErrorBody::from_bytes(500, None, br#"{"errorMessages":"nope"}"#);
    assert_eq!(wrong_shape.error_messages, vec![r#"{"errorMessages":"nope"}"#]);
}

#[test]
fn kinds_and_exit_codes() {
    assert_eq!(Error::Network("x".into()).kind(), "network");
    assert_eq!(Error::Serialization("x".into()).message(), "serialization: x");
    assert_eq!(Error::Io("disk".into()).message(), "io: disk");
    assert_eq!(
        Error::FieldResolve(FieldError::Unknown("Foo".into())).message(),
        "field: unknown field 'Foo'"
    );
}

#[test]
fn not_found_hint_matches_readme() {
    let e = Error::NotFound { resource: "issue".into(), key: "MGX-42".into() };
    assert_eq!(e.hint().unwrap(), "Verify the issue exists or check permissions with `jira-cli whoami`");
    let v = to_value(&e.to_stderr_json());
    assert_eq!(v["error"]["kind"], "not_found");
    assert_eq!(v["error"]["message"], "issue not found: MGX-42");
}
