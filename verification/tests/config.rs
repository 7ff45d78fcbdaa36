use jira_cli::config::{parse_bool_str, AuthConfig, ConfigFile, ConfigLoad, JiraConfig};
use jira_cli::error::Error;
use jira_cli::strmap::StrMap;

fn env(pairs: &[(&str, &str)]) -> StrMap {
    let mut m = StrMap::new();
    for (k, v) in pairs {
        m.insert(k.to_string(), v.to_string());
    }
    m
}

#[test]
fn basic_auth_minimum() {
    let cfg = JiraConfig::from_map(&env(&[
        ("JIRA_URL", "https://jira.example.com"),
        ("JIRA_USER", "alice"),
        ("JIRA_PASSWORD", "secret"),
    ]))
    .unwrap();
    assert_eq!(cfg.base_url.href, "https://jira.example.com/");
    assert!(matches!(cfg.auth, AuthConfig::Basic { .. }));
    assert_eq!(cfg.timeout_secs, 30);
    assert!(!cfg.insecure);
}

#[test]
fn cookie_auth() {
    let cfg = JiraConfig::from_map(&env(&[
        ("JIRA_URL", "https://jira.example.com"),
        ("JIRA_AUTH_METHOD", "cookie"),
        ("JIRA_SESSION_COOKIE", "JSESSIONID=abc123"),
    ]))
    .unwrap();
    match cfg.auth {
        AuthConfig::Cookie { cookie } => assert_eq!(cookie, "JSESSIONID=abc123"),
        _ => panic!("expected cookie auth"),
    }
}

#[test]
fn missing_url_errors() {
    let e = JiraConfig::from_map(&env(&[("JIRA_USER", "a"), ("JIRA_PASSWORD", "b")])).err().unwrap();
    assert!(matches!(e, Error::Config(_)));
}

#[test]
fn invalid_url_errors() {
    let e = JiraConfig::from_map(&env(&[("JIRA_URL", "not a url")])).err().unwrap();
    assert!(matches!(e, Error::Config(_)));
}

#[test]
fn basic_missing_password_errors() {
    let e = JiraConfig::from_map(&env(&[("JIRA_URL", "https://j.example"), ("JIRA_USER", "alice")])).err().unwrap();
    assert!(matches!(e, Error::Config(_)));
}

#[test]
fn cookie_missing_cookie_errors() {
    let e = JiraConfig::from_map(&env(&[("JIRA_URL", "https://j.example"), ("JIRA_AUTH_METHOD", "cookie")]))
        .err()
        .unwrap();
    assert!(matches!(e, Error::Config(_)));
}

#[test]
fn redacted_debug() {
    let cfg = JiraConfig::from_map(&env(&[
        ("JIRA_URL", "https://j.example"),
        ("JIRA_USER", "alice"),
        ("JIRA_PASSWORD", "supersecret"),
    ]))
    .unwrap();
    let dbg = cfg.redacted_debug();
    assert!(!dbg.contains("supersecret"));
    assert!(dbg.contains("alice"));
}

#[test]
fn timeout_and_insecure_parsed() {
    let cfg = JiraConfig::from_map(&env(&[
        ("JIRA_URL", "https://j.example"),
        ("JIRA_USER", "alice"),
        ("JIRA_PASSWORD", "p"),
        ("JIRA_TIMEOUT", "60"),
        ("JIRA_INSECURE", "1"),
    ]))
    .unwrap();
    assert_eq!(cfg.timeout_secs, 60);
    assert!(cfg.insecure);
}

#[test]
fn file_plus_env_precedence() {
    let file = ConfigFile {
        url: Some("https://from-file.example".into()),
        user: Some("file-user".into()),
        password: Some("file-pass".into()),
        ..Default::default()
    };
    let env = env(&[("JIRA_URL", "https://from-env.example")]);
    let cfg = JiraConfig::merge(&env, &file).unwrap();
    assert_eq!(cfg.base_url.href, "https://from-env.example/");
    match cfg.auth {
        AuthConfig::Basic { user, password } => {
            assert_eq!(user, "file-user");
            assert_eq!(password, "file-pass");
        }
        _ => panic!("expected basic"),
    }
}

#[test]
fn file_only_still_loads() {
    let file = ConfigFile {
        url: Some("https://j.example".into()),
        user: Some("alice".into()),
        password: Some("secret".into()),
        ..Default::default()
    };
    let cfg = JiraConfig::merge(&StrMap::new(), &file).unwrap();
    assert_eq!(cfg.base_url.href, "https://j.example/");
}

#[test]
fn jira_config_merges_aliases_from_file() {
    let file = ConfigFile {
        url: Some("https://j.example".into()),
        user: Some("alice".into()),
        password: Some("p".into()),
        field_aliases: env(&[("Story Points", "customfield_10006")]),
        ..Default::default()
    };
    let cfg = JiraConfig::merge(&StrMap::new(), &file).unwrap();
    assert_eq!(cfg.field_aliases.get("Story Points").unwrap(), "customfield_10006");
}

#[test]
fn bad_values_are_config_errors() {
    let base = [("JIRA_URL", "https://j.example"), ("JIRA_USER", "a"), ("JIRA_PASSWORD", "p")];
    let mut t = base.to_vec();
    t.push(("JIRA_TIMEOUT", "soon"));
    assert!(matches!(JiraConfig::from_map(&env(&t)), Err(Error::Config(m)) if m.starts_with("JIRA_TIMEOUT: ")));
    let mut t = base.to_vec();
    t.push(("JIRA_INSECURE", "maybe"));
    match JiraConfig::from_map(&env(&t)) {
        Err(Error::Config(m)) => assert_eq!(m, "expected boolean value, got 'maybe'"),
        _ => panic!("expected a config error"),
    }
    let mut t = base.to_vec();
    t.push(("JIRA_AUTH_METHOD", "Token"));
    match JiraConfig::from_map(&env(&t)) {
        Err(Error::Config(m)) => assert_eq!(m, "JIRA_AUTH_METHOD must be 'basic' or 'cookie', got 'token'"),
        _ => panic!("expected a config error"),
    }
    match JiraConfig::from_map(&env(&[("JIRA_URL", "ftp://j.example")])) {
        Err(Error::Config(m)) => assert_eq!(m, "JIRA_URL must use http or https scheme"),
        _ => panic!("expected a config error"),
    }
}

#[test]
fn concurrency_is_clamped() {
    let base = [("JIRA_URL", "https://j.example"), ("JIRA_USER", "a"), ("JIRA_PASSWORD", "p")];
    let mut t = base.to_vec();
    t.push(("JIRA_CONCURRENCY", "0"));
    assert_eq!(JiraConfig::from_map(&env(&t)).unwrap().concurrency, 1);
    let mut t = base.to_vec();
    t.push(("JIRA_CONCURRENCY", "99"));
    assert_eq!(JiraConfig::from_map(&env(&t)).unwrap().concurrency, 16);
    assert_eq!(JiraConfig::from_map(&env(&base)).unwrap().concurrency, 4);
    let mut t = base.to_vec();
    t.push(("JIRA_INSECURE", ""));
    assert!(!JiraConfig::from_map(&env(&t)).unwrap().insecure);
}

#[test]
fn default_path_and_load_default() {
    assert_eq!(
        ConfigFile::default_path(Some("/x"), Some("/home/u")).unwrap(),
        "/x/jira-cli/config.toml"
    );
    assert_eq!(
        ConfigFile::default_path(None, Some("/home/u")).unwrap(),
        "/home/u/.config/jira-cli/config.toml"
    );
    assert!(matches!(ConfigFile::default_path(None, None), Err(Error::Config(_))));
    assert!(matches!(ConfigFile::load_default(None, None), ConfigLoad::Defaults));
    match ConfigFile::load_default(None, Some("/h/")) {
        ConfigLoad::Read(p) => assert_eq!(p, "/h/.config/jira-cli/config.toml"),
        _ => panic!("expected a path"),
    }
}

#[test]
fn permission_warning_text() {
    assert!(jira_cli::config::permission_warning("/c.toml", 0o100600).is_none());
    let w = jira_cli::config::permission_warning("/c.toml", 0o100644).unwrap();
    match w {
        jira_cli::json::Json::Object(o) => {
            assert_eq!(o[0].0, "warning");
            assert_eq!(
                o[0].1,
                jira_cli::json::Json::Str("config file /c.toml has mode 644; recommend chmod 600 (contains secrets)".into())
            );
        }
        _ => panic!("expected an object"),
    }
}

#[test]
fn parse_bool_words() {
    assert!(parse_bool_str("YES").unwrap());
    assert!(!parse_bool_str("Off").unwrap());
    assert!(!parse_bool_str("").unwrap());
    assert!(parse_bool_str("2").is_err());
}

#[test]
fn auth_method_is_case_insensitive() {
    let cfg = JiraConfig::from_map(&env(&[
        ("JIRA_URL", "https://jira.example.com"),
        ("JIRA_AUTH_METHOD", "COOKIE"),
        ("JIRA_SESSION_COOKIE", "JSESSIONID=abc123"),
    ]))
    .unwrap();
    assert!(matches!(cfg.auth, AuthConfig::Cookie { .. }));
    match JiraConfig::from_map(&env(&[("JIRA_URL", "https://j"), ("JIRA_AUTH_METHOD", "Token")])) {
        Err(Error::Config(m)) => assert_eq!(m, "JIRA_AUTH_METHOD must be 'basic' or 'cookie', got 'token'"),
        Err(e) => panic!("unexpected error {e:?}"),
        Ok(_) => panic!("expected an error"),
    }
}

#[test]
fn environment_wins_over_file_defaults_fill_gaps() {
    let mut file = ConfigFile::empty();
    file.url = Some("https://file.example.com".into());
    file.user = Some("file-user".into());
    file.password = Some("file-pass".into());
    file.timeout_secs = Some(5);
    let cfg = JiraConfig::merge(&env(&[("JIRA_URL", "https://env.example.com"), ("JIRA_TIMEOUT", "9")]), &file).unwrap();
    assert_eq!(cfg.base_url.href, "https://env.example.com/");
    assert_eq!(cfg.timeout_secs, 9);
    match cfg.auth {
        AuthConfig::Basic { user, password } => {
            assert_eq!(user, "file-user");
            assert_eq!(password, "file-pass");
        }
        _ => panic!("expected basic auth"),
    }
    assert_eq!(cfg.concurrency, 4);
    assert!(!cfg.insecure);
}
