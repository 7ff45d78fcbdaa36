use jira_cli::config::JiraConfig;
use jira_cli::error::{AuthError, Error};
use jira_cli::http::auth::{detect_seraph, AuthMode, Authenticator};
use jira_cli::http::{check_status, header_str, HttpClient};
use jira_cli::strmap::StrMap;

fn client_with_base(base: &str) -> HttpClient {
    let mut env = StrMap::new();
    env.insert("JIRA_URL".into(), base.into());
    env.insert("JIRA_USER".into(), "u".into());
    env.insert("JIRA_PASSWORD".into(), "p".into());
    let cfg = JiraConfig::from_map(&env).unwrap();
    HttpClient::new(&cfg).unwrap()
}

#[test]
fn url_preserves_subpath_without_trailing_slash() {
    let c = client_with_base("https://host.example/jira");
    let u = c.url("/rest/api/2/serverInfo").unwrap();
    assert_eq!(u, "https://host.example/jira/rest/api/2/serverInfo");
}

#[test]
fn url_with_trailing_slash_is_idempotent() {
    let c = client_with_base("https://host.example/jira/");
    let u = c.url("/rest/api/2/serverInfo").unwrap();
    assert_eq!(u, "https://host.example/jira/rest/api/2/serverInfo");
}

#[test]
fn url_root_base() {
    let c = client_with_base("https://host.example");
    let u = c.url("/rest/api/2/serverInfo").unwrap();
    assert_eq!(u, "https://host.example/rest/api/2/serverInfo");
}

#[test]
fn url_handles_path_without_leading_slash() {
    let c = client_with_base("https://host.example/");
    let u = c.url("rest/api/2/serverInfo").unwrap();
    assert_eq!(u, "https://host.example/rest/api/2/serverInfo");
}

#[test]
fn url_keeps_query_and_absolute_urls() {
    let c = client_with_base("https://host.example/jira");
    assert_eq!(
        c.url("//rest/api/2/issue/A-1/comment?startAt=0&maxResults=50").unwrap(),
        "https://host.example/jira/rest/api/2/issue/A-1/comment?startAt=0&maxResults=50"
    );
    assert_eq!(c.url("https://files.example/x").unwrap(), "https://files.example/x");
}

#[test]
fn basic_auth_header() {
    let a = Authenticator::new(&jira_cli::config::AuthConfig::Basic { user: "alice".into(), password: "secret".into() }).unwrap();
    let (name, value) = a.header();
    assert_eq!(name, "Authorization");
    assert_eq!(value, "Basic YWxpY2U6c2VjcmV0");
    assert!(!a.is_cookie());
}

#[test]
fn cookie_auth_header() {
    let a = Authenticator::new(&jira_cli::config::AuthConfig::Cookie { cookie: "JSESSIONID=abc".into() }).unwrap();
    assert!(matches!(&a.mode, AuthMode::Cookie(c) if c == "JSESSIONID=abc"));
    assert!(a.is_cookie());
    match Authenticator::new(&jira_cli::config::AuthConfig::Cookie { cookie: "a\nb".into() }) {
        Err(Error::Config(m)) => assert_eq!(m, "cookie header: failed to parse header value"),
        _ => panic!("expected a config error"),
    }
}

#[test]
fn seraph_detection() {
    assert_eq!(detect_seraph(None), None);
    assert_eq!(detect_seraph(Some("AUTHENTICATED_FAILED")), Some(AuthError::Unauthorized));
    assert_eq!(detect_seraph(Some("authentication_denied")), Some(AuthError::Unauthorized));
    assert_eq!(detect_seraph(Some("AUTHENTICATION_DENIED; CAPTCHA_CHALLENGE")), Some(AuthError::CaptchaRequired));
    assert_eq!(detect_seraph(Some("OUT")), None);
}

#[test]
fn status_mapping() {
    assert!(check_status(200, None, None, b"").is_ok());
    assert!(check_status(204, Some(b"OUT"), None, b"").is_ok());
    assert!(matches!(check_status(200, Some(b"AUTHENTICATED_FAILED"), None, b""), Err(Error::Auth(AuthError::Unauthorized))));
    assert!(matches!(check_status(401, None, None, b""), Err(Error::Auth(AuthError::Unauthorized))));
    assert!(matches!(check_status(403, None, None, b""), Err(Error::Auth(AuthError::Forbidden))));
    match check_status(404, None, Some(b"req-1"), br#"{"errorMessages":["gone"]}"#) {
        Err(Error::Api(b)) => {
            assert_eq!(b.status, 404);
            assert_eq!(b.request_id.as_deref(), Some("req-1"));
            assert_eq!(b.error_messages, vec!["gone"]);
        }
        _ => panic!("expected an API error"),
    }
    match check_status(500, None, Some(&[0xff]), b"oops") {
        Err(Error::Api(b)) => assert!(b.request_id.is_none()),
        _ => panic!("expected an API error"),
    }
}

#[test]
fn header_text_is_visible_ascii() {
    assert_eq!(header_str(b"abc\tdef").as_deref(), Some("abc\tdef"));
    assert_eq!(header_str(&[0x61, 0x80]), None);
    assert_eq!(header_str(b"a\x7f"), None);
}

#[test]
fn request_headers_in_order() {
    let c = client_with_base("https://host.example");
    let h = c.request_headers();
    assert_eq!(h[0].0, "Authorization");
    assert_eq!(h[1], ("Accept".to_string(), "application/json".to_string()));
    assert_eq!(h[2], ("X-Atlassian-Token".to_string(), "no-check".to_string()));
    assert_eq!(h[3].0, "User-Agent");
    assert!(!c.retry_writes_enabled());
    assert!(c.with_retry_writes(true).retry_writes_enabled());
}
