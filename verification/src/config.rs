//! Configuration resolved from environment variables and the optional TOML
//! config file. Precedence: CLI flags (applied by the caller) > env vars >
//! config file > defaults.

use vstd::prelude::*;
use crate::error::{map_to_json, string_map_json, Error};
use crate::json::{object_of, put_all, Entries, Json, JsonV};
use crate::strmap::StrMap;
use crate::text::{all_ascii, concat2, concat3, ends_with_char, str_eq, to_ascii_lower};

verus! {

pub enum AuthConfig {
    Basic { user: String, password: String },
    Cookie { cookie: String },
}

/// The config file's schema. Every field is optional; a missing file is no error.
pub struct ConfigFile {
    pub url: Option<String>,
    pub user: Option<String>,
    pub password: Option<String>,
    pub auth_method: Option<String>,
    pub session_cookie: Option<String>,
    pub timeout_secs: Option<u64>,
    pub insecure: Option<bool>,
    pub concurrency: Option<usize>,
    /// Display-name → field-id aliases (e.g. "Story Points" = "customfield_10006").
    pub field_aliases: StrMap,
}

/// Fully validated configuration for one invocation.
pub struct JiraConfig {
    /// The base URL, parsed.
    pub base_url: ParsedUrl,
    pub auth: AuthConfig,
    pub timeout_secs: u64,
    pub insecure: bool,
    pub concurrency: usize,
    /// Display-name → field-id aliases from the config file.
    pub field_aliases: StrMap,
}

// ---------------------------------------------------------------------
// Outside parsers
// ---------------------------------------------------------------------

/// What `url::Url::parse` yields for `s`: the serialization, the scheme and
/// the path of the URL, or the text of the parse error.
pub uninterp spec fn url_parse(s: Seq<char>) -> Result<(Seq<char>, Seq<char>, Seq<char>), Seq<char>>;

/// A parsed URL, held as the strings the logic reads.
pub struct ParsedUrl {
    pub href: String,
    pub scheme: String,
    pub path: String,
}

/// `url::Url::parse`, with `as_str`, `scheme` and `path` read off the result
/// and the error rendered with `to_string`.
#[verifier::external_body]
pub(crate) fn parse_url(s: &str) -> (r: Result<ParsedUrl, String>)
    ensures
        match url_parse(s@) {
            Ok((h, sc, p)) => r matches Ok(u) && u.href@ == h && u.scheme@ == sc && u.path@ == p,
            Err(e) => r matches Err(m) && m@ == e,
        },
{
    match url::Url::parse(s) {
        Ok(u) => Ok(ParsedUrl { href: u.as_str().to_string(), scheme: u.scheme().to_string(), path: u.path().to_string() }),
        Err(e) => Err(e.to_string()),
    }
}

/// What `str::to_lowercase` yields (full Unicode lowercase mapping).
pub uninterp spec fn unicode_lowercase(s: Seq<char>) -> Seq<char>;

/// `str::to_lowercase`. On ASCII text the Unicode lowercase mapping lowers
/// `A`-`Z` and leaves every other character as it is.
#[verifier::external_body]
pub(crate) fn to_lowercase(s: &str) -> (r: String)
    ensures
        r@ == unicode_lowercase(s@),
        all_ascii(s@) ==> r@ == s@.map_values(|c: char| to_ascii_lower(c)),
{
    s.to_lowercase()
}

/// Decimal value of a string of ASCII digits.
pub open spec fn digits_value(s: Seq<char>) -> nat
    decreases s.len(),
{
    if s.len() == 0 {
        0
    } else {
        digits_value(s.drop_last()) * 10 + ((s.last() as u32) - ('0' as u32)) as nat
    }
}

/// The value of an unsigned integer literal as `FromStr` for unsigned
/// integers reads it: an optional `+`, then one or more ASCII digits.
pub open spec fn unsigned_literal(s: Seq<char>) -> Option<nat> {
    let d = if s.len() > 0 && s[0] == '+' { s.drop_first() } else { s };
    if d.len() > 0 && forall|i: int| 0 <= i < d.len() ==> '0' <= #[trigger] d[i] && d[i] <= '9' {
        Some(digits_value(d))
    } else {
        None
    }
}

/// The text of the error `str::parse::<u64>` gives for `s`.
pub uninterp spec fn u64_parse_error(s: Seq<char>) -> Seq<char>;

/// The text of the error `str::parse::<usize>` gives for `s`.
pub uninterp spec fn usize_parse_error(s: Seq<char>) -> Seq<char>;

/// What `str::parse::<u64>` returns: the literal's value when it is in range.
pub open spec fn u64_result(s: Seq<char>) -> Result<u64, Seq<char>> {
    match unsigned_literal(s) {
        Some(n) => if n <= u64::MAX { Ok(n as u64) } else { Err(u64_parse_error(s)) },
        None => Err(u64_parse_error(s)),
    }
}

/// What `str::parse::<usize>` returns: the literal's value when it is in range.
pub open spec fn usize_result(s: Seq<char>) -> Result<usize, Seq<char>> {
    match unsigned_literal(s) {
        Some(n) => if n <= usize::MAX { Ok(n as usize) } else { Err(usize_parse_error(s)) },
        None => Err(usize_parse_error(s)),
    }
}

/// `str::parse::<u64>`: an optional `+` and decimal digits, within range.
#[verifier::external_body]
pub(crate) fn parse_u64(s: &str) -> (r: Result<u64, String>)
    ensures
        match u64_result(s@) {
            Ok(v) => r == Ok::<u64, String>(v),
            Err(_) => r matches Err(m) && m@ == u64_parse_error(s@),
        },
{
    s.parse::<u64>().map_err(|e| e.to_string())
}

/// `str::parse::<usize>`: an optional `+` and decimal digits, within range.
#[verifier::external_body]
pub(crate) fn parse_usize(s: &str) -> (r: Result<usize, String>)
    ensures
        match usize_result(s@) {
            Ok(v) => r == Ok::<usize, String>(v),
            Err(_) => r matches Err(m) && m@ == usize_parse_error(s@),
        },
{
    s.parse::<usize>().map_err(|e| e.to_string())
}

// ---------------------------------------------------------------------
// Booleans
// ---------------------------------------------------------------------

pub open spec fn bool_word(v: Seq<char>) -> Option<bool> {
    if v == ""@ || v == "0"@ || v == "false"@ || v == "no"@ || v == "off"@ {
        Some(false)
    } else if v == "1"@ || v == "true"@ || v == "yes"@ || v == "on"@ {
        Some(true)
    } else {
        None
    }
}

/// `parse_bool_str`: the lowercase word decides; anything else is an error
/// naming the lowercased text.
pub open spec fn parse_bool_spec(v: Seq<char>) -> Result<bool, Seq<char>> {
    match bool_word(unicode_lowercase(v)) {
        Some(b) => Ok(b),
        None => Err("expected boolean value, got '"@ + unicode_lowercase(v) + "'"@),
    }
}

pub fn parse_bool_str(v: &str) -> (r: Result<bool, Error>)
    ensures
        match parse_bool_spec(v@) {
            Ok(b) => r == Ok::<bool, Error>(b),
            Err(m) => r matches Err(Error::Config(x)) && x@ == m,
        },
{
    let l = to_lowercase(v);
    let s = l.as_str();
    proof {
        reveal_strlit("");
        reveal_strlit("0");
        reveal_strlit("1");
        reveal_strlit("true");
        reveal_strlit("false");
        reveal_strlit("yes");
        reveal_strlit("no");
        reveal_strlit("on");
        reveal_strlit("off");
    }
    if str_eq(s, "") || str_eq(s, "0") || str_eq(s, "false") || str_eq(s, "no") || str_eq(s, "off") {
        Ok(false)
    } else if str_eq(s, "1") || str_eq(s, "true") || str_eq(s, "yes") || str_eq(s, "on") {
        Ok(true)
    } else {
        Err(Error::Config(concat3("expected boolean value, got '", s, "'")))
    }
}


// ---------------------------------------------------------------------
// Views
// ---------------------------------------------------------------------

pub enum AuthView {
    Basic { user: Seq<char>, password: Seq<char> },
    Cookie { cookie: Seq<char> },
}

pub struct FileView {
    pub url: Option<Seq<char>>,
    pub user: Option<Seq<char>>,
    pub password: Option<Seq<char>>,
    pub auth_method: Option<Seq<char>>,
    pub session_cookie: Option<Seq<char>>,
    pub timeout_secs: Option<u64>,
    pub insecure: Option<bool>,
    pub concurrency: Option<usize>,
    pub field_aliases: Map<Seq<char>, Seq<char>>,
}

pub struct ConfigView {
    /// Serialization, scheme and path of the base URL.
    pub base_url: (Seq<char>, Seq<char>, Seq<char>),
    pub auth: AuthView,
    pub timeout_secs: u64,
    pub insecure: bool,
    pub concurrency: usize,
    pub field_aliases: Map<Seq<char>, Seq<char>>,
}

pub open spec fn opt_view(o: Option<String>) -> Option<Seq<char>> {
    match o {
        Some(s) => Some(s@),
        None => None,
    }
}

impl View for AuthConfig {
    type V = AuthView;

    open spec fn view(&self) -> AuthView {
        match self {
            AuthConfig::Basic { user, password } => AuthView::Basic { user: user@, password: password@ },
            AuthConfig::Cookie { cookie } => AuthView::Cookie { cookie: cookie@ },
        }
    }
}

impl View for ConfigFile {
    type V = FileView;

    open spec fn view(&self) -> FileView {
        FileView {
            url: opt_view(self.url),
            user: opt_view(self.user),
            password: opt_view(self.password),
            auth_method: opt_view(self.auth_method),
            session_cookie: opt_view(self.session_cookie),
            timeout_secs: self.timeout_secs,
            insecure: self.insecure,
            concurrency: self.concurrency,
            field_aliases: self.field_aliases@,
        }
    }
}

impl View for JiraConfig {
    type V = ConfigView;

    open spec fn view(&self) -> ConfigView {
        ConfigView {
            base_url: (self.base_url.href@, self.base_url.scheme@, self.base_url.path@),
            auth: self.auth@,
            timeout_secs: self.timeout_secs,
            insecure: self.insecure,
            concurrency: self.concurrency,
            field_aliases: self.field_aliases@,
        }
    }
}

impl ConfigFile {
    /// The empty file: every field unset, no aliases.
    pub fn empty() -> (f: ConfigFile)
        ensures
            f@ == (FileView {
                url: None,
                user: None,
                password: None,
                auth_method: None,
                session_cookie: None,
                timeout_secs: None,
                insecure: None,
                concurrency: None,
                field_aliases: Map::empty(),
            }),
    {
        ConfigFile {
            url: None,
            user: None,
            password: None,
            auth_method: None,
            session_cookie: None,
            timeout_secs: None,
            insecure: None,
            concurrency: None,
            field_aliases: StrMap::new(),
        }
    }
}

impl Default for ConfigFile {
    fn default() -> (f: ConfigFile)
        ensures
            f@ == ConfigFile::empty_view(),
    {
        ConfigFile::empty()
    }
}

impl ConfigFile {
    pub open spec fn empty_view() -> FileView {
        FileView {
            url: None,
            user: None,
            password: None,
            auth_method: None,
            session_cookie: None,
            timeout_secs: None,
            insecure: None,
            concurrency: None,
            field_aliases: Map::empty(),
        }
    }
}

// ---------------------------------------------------------------------
// Merging environment and file
// ---------------------------------------------------------------------

/// The environment's value for `var`, else the file's.
pub open spec fn pick(env: Map<Seq<char>, Seq<char>>, var: Seq<char>, file: Option<Seq<char>>) -> Option<Seq<char>> {
    if env.contains_key(var) {
        Some(env[var])
    } else {
        file
    }
}

pub open spec fn auth_spec(env: Map<Seq<char>, Seq<char>>, f: FileView) -> Result<AuthView, Seq<char>> {
    let method = match pick(env, "JIRA_AUTH_METHOD"@, f.auth_method) {
        Some(m) => unicode_lowercase(m),
        None => "basic"@,
    };
    if method == "basic"@ {
        match pick(env, "JIRA_USER"@, f.user) {
            None => Err("JIRA_USER is required for basic auth"@),
            Some(user) => match pick(env, "JIRA_PASSWORD"@, f.password) {
                None => Err("JIRA_PASSWORD is required for basic auth"@),
                Some(password) => Ok(AuthView::Basic { user, password }),
            },
        }
    } else if method == "cookie"@ {
        match pick(env, "JIRA_SESSION_COOKIE"@, f.session_cookie) {
            None => Err("JIRA_SESSION_COOKIE is required for cookie auth (e.g. 'JSESSIONID=abc')"@),
            Some(cookie) => Ok(AuthView::Cookie { cookie }),
        }
    } else {
        Err("JIRA_AUTH_METHOD must be 'basic' or 'cookie', got '"@ + method + "'"@)
    }
}

pub open spec fn timeout_spec(env: Map<Seq<char>, Seq<char>>, f: FileView) -> Result<u64, Seq<char>> {
    if env.contains_key("JIRA_TIMEOUT"@) {
        match u64_result(env["JIRA_TIMEOUT"@]) {
            Ok(t) => Ok(t),
            Err(e) => Err("JIRA_TIMEOUT: "@ + e),
        }
    } else {
        match f.timeout_secs {
            Some(t) => Ok(t),
            None => Ok(30),
        }
    }
}

pub open spec fn insecure_spec(env: Map<Seq<char>, Seq<char>>, f: FileView) -> Result<bool, Seq<char>> {
    if env.contains_key("JIRA_INSECURE"@) && env["JIRA_INSECURE"@] != ""@ {
        parse_bool_spec(env["JIRA_INSECURE"@])
    } else {
        match f.insecure {
            Some(b) => Ok(b),
            None => Ok(false),
        }
    }
}

pub open spec fn clamp(n: usize, lo: usize, hi: usize) -> usize {
    if n < lo { lo } else if n > hi { hi } else { n }
}

pub open spec fn concurrency_spec(env: Map<Seq<char>, Seq<char>>, f: FileView) -> Result<usize, Seq<char>> {
    let raw = if env.contains_key("JIRA_CONCURRENCY"@) {
        match usize_result(env["JIRA_CONCURRENCY"@]) {
            Ok(c) => Ok(c),
            Err(e) => Err("JIRA_CONCURRENCY: "@ + e),
        }
    } else {
        match f.concurrency {
            Some(c) => Ok(c),
            None => Ok(4usize),
        }
    };
    match raw {
        Ok(c) => Ok(clamp(c, 1, 16)),
        Err(e) => Err(e),
    }
}

/// `JiraConfig::merge`: the URL is required, must parse and be http(s); the
/// auth method (default basic) decides which credentials are required;
/// timeout (default 30), insecure (default false) and concurrency (default 4,
/// clamped to 1..=16) come from env, then file. The first failure is the
/// error, in that order.
pub open spec fn merge_spec(env: Map<Seq<char>, Seq<char>>, f: FileView) -> Result<ConfigView, Seq<char>> {
    match pick(env, "JIRA_URL"@, f.url) {
        None => Err("JIRA_URL is required (set env var or add to ~/.config/jira-cli/config.toml)"@),
        Some(u) => match url_parse(u) {
            Err(e) => Err("JIRA_URL is not a valid URL: "@ + e),
            Ok((href, scheme, path)) => if !(scheme == "http"@ || scheme == "https"@) {
                Err("JIRA_URL must use http or https scheme"@)
            } else {
                match auth_spec(env, f) {
                    Err(m) => Err(m),
                    Ok(auth) => match timeout_spec(env, f) {
                        Err(m) => Err(m),
                        Ok(timeout_secs) => match insecure_spec(env, f) {
                            Err(m) => Err(m),
                            Ok(insecure) => match concurrency_spec(env, f) {
                                Err(m) => Err(m),
                                Ok(concurrency) => Ok(
                                    ConfigView {
                                        base_url: (href, scheme, path),
                                        auth,
                                        timeout_secs,
                                        insecure,
                                        concurrency,
                                        field_aliases: f.field_aliases,
                                    },
                                ),
                            },
                        },
                    },
                }
            },
        },
    }
}

/// Two config files that differ only in settings the environment provides.
pub open spec fn differ_only_where_env_set(env: Map<Seq<char>, Seq<char>>, f: FileView, g: FileView) -> bool {
    &&& (env.contains_key("JIRA_URL"@) || f.url == g.url)
    &&& (env.contains_key("JIRA_USER"@) || f.user == g.user)
    &&& (env.contains_key("JIRA_PASSWORD"@) || f.password == g.password)
    &&& (env.contains_key("JIRA_AUTH_METHOD"@) || f.auth_method == g.auth_method)
    &&& (env.contains_key("JIRA_SESSION_COOKIE"@) || f.session_cookie == g.session_cookie)
    &&& (env.contains_key("JIRA_TIMEOUT"@) || f.timeout_secs == g.timeout_secs)
    &&& ((env.contains_key("JIRA_INSECURE"@) && env["JIRA_INSECURE"@] != ""@) || f.insecure == g.insecure)
    &&& (env.contains_key("JIRA_CONCURRENCY"@) || f.concurrency == g.concurrency)
    &&& f.field_aliases == g.field_aliases
}

/// Environment variables take precedence over the config file: a setting
/// the environment provides makes the file's value for it irrelevant, for
/// the result and for the error alike.
pub proof fn lemma_env_over_file(env: Map<Seq<char>, Seq<char>>, f: FileView, g: FileView)
    requires
        differ_only_where_env_set(env, f, g),
    ensures
        merge_spec(env, f) == merge_spec(env, g),
{
    assert(pick(env, "JIRA_URL"@, f.url) == pick(env, "JIRA_URL"@, g.url));
    assert(auth_spec(env, f) == auth_spec(env, g));
    assert(timeout_spec(env, f) == timeout_spec(env, g));
    assert(insecure_spec(env, f) == insecure_spec(env, g));
    assert(concurrency_spec(env, f) == concurrency_spec(env, g));
}

/// The bulk worker count of a valid configuration lies in 1..=16.
pub proof fn lemma_concurrency_bounded(env: Map<Seq<char>, Seq<char>>, f: FileView)
    ensures
        merge_spec(env, f) matches Ok(c) ==> 1 <= c.concurrency <= 16,
{
}

/// Without environment or file values, the timeout is 30 seconds, TLS is
/// verified and four bulk workers run.
pub proof fn lemma_defaults(env: Map<Seq<char>, Seq<char>>)
    requires
        !env.contains_key("JIRA_TIMEOUT"@),
        !env.contains_key("JIRA_INSECURE"@),
        !env.contains_key("JIRA_CONCURRENCY"@),
    ensures
        merge_spec(env, ConfigFile::empty_view()) matches Ok(c) ==> c.timeout_secs == 30 && !c.insecure
            && c.concurrency == 4 && c.field_aliases == Map::<Seq<char>, Seq<char>>::empty(),
{
}

/// The ways a configuration can be refused.
pub open spec fn merge_refused(env: Map<Seq<char>, Seq<char>>, f: FileView) -> bool {
    let method = match pick(env, "JIRA_AUTH_METHOD"@, f.auth_method) {
        Some(m) => unicode_lowercase(m),
        None => "basic"@,
    };
    ||| pick(env, "JIRA_URL"@, f.url) is None
    ||| (pick(env, "JIRA_URL"@, f.url) matches Some(u) && url_parse(u) is Err)
    ||| (pick(env, "JIRA_URL"@, f.url) matches Some(u) && url_parse(u) matches Ok((_, scheme, _))
        && scheme != "http"@ && scheme != "https"@)
    ||| (method != "basic"@ && method != "cookie"@)
    ||| (method == "basic"@ && (pick(env, "JIRA_USER"@, f.user) is None || pick(env, "JIRA_PASSWORD"@, f.password) is None))
    ||| (method == "cookie"@ && pick(env, "JIRA_SESSION_COOKIE"@, f.session_cookie) is None)
    ||| (env.contains_key("JIRA_TIMEOUT"@) && u64_result(env["JIRA_TIMEOUT"@]) is Err)
    ||| (env.contains_key("JIRA_INSECURE"@) && env["JIRA_INSECURE"@] != ""@ && parse_bool_spec(env["JIRA_INSECURE"@]) is Err)
    ||| (env.contains_key("JIRA_CONCURRENCY"@) && usize_result(env["JIRA_CONCURRENCY"@]) is Err)
}

/// Merging fails exactly when the URL is missing, unparsable or not
/// http(s), the auth method is unknown, its credentials are missing, or an
/// environment value for the timeout, TLS or concurrency cannot be read.
pub proof fn lemma_merge_refused_iff(env: Map<Seq<char>, Seq<char>>, f: FileView)
    ensures
        merge_spec(env, f) is Err <==> merge_refused(env, f),
{
    reveal_strlit("basic");
    reveal_strlit("cookie");
    assert("basic"@ != "cookie"@) by {
        assert("basic"@[0] != "cookie"@[0]);
    }
    let method = match pick(env, "JIRA_AUTH_METHOD"@, f.auth_method) {
        Some(m) => unicode_lowercase(m),
        None => "basic"@,
    };
    assert(auth_spec(env, f) is Err <==> ((method != "basic"@ && method != "cookie"@)
        || (method == "basic"@ && (pick(env, "JIRA_USER"@, f.user) is None || pick(env, "JIRA_PASSWORD"@, f.password) is None))
        || (method == "cookie"@ && pick(env, "JIRA_SESSION_COOKIE"@, f.session_cookie) is None)));
    assert(timeout_spec(env, f) is Err <==> (env.contains_key("JIRA_TIMEOUT"@) && u64_result(env["JIRA_TIMEOUT"@]) is Err));
    assert(insecure_spec(env, f) is Err <==> (env.contains_key("JIRA_INSECURE"@) && env["JIRA_INSECURE"@] != ""@
        && parse_bool_spec(env["JIRA_INSECURE"@]) is Err));
    assert(concurrency_spec(env, f) is Err <==> (env.contains_key("JIRA_CONCURRENCY"@)
        && usize_result(env["JIRA_CONCURRENCY"@]) is Err));
}

/// The config file fills what the environment leaves unset: with no
/// environment value for a setting (or an empty `JIRA_INSECURE`), a merged
/// configuration takes the file's value for it (the worker count clamped to
/// 1..=16), and the file's user and password when the environment names no
/// auth method and no credentials.
pub proof fn lemma_file_fills_gaps(env: Map<Seq<char>, Seq<char>>, f: FileView)
    ensures
        merge_spec(env, f) is Ok ==> {
            let c = merge_spec(env, f)->Ok_0;
            &&& (!(env.contains_key("JIRA_INSECURE"@) && env["JIRA_INSECURE"@] != ""@) && f.insecure is Some
                ==> c.insecure == f.insecure->0)
            &&& (!(env.contains_key("JIRA_INSECURE"@) && env["JIRA_INSECURE"@] != ""@) && f.insecure is None
                ==> !c.insecure)
            &&& (!env.contains_key("JIRA_TIMEOUT"@) && f.timeout_secs is Some ==> c.timeout_secs == f.timeout_secs->0)
            &&& (!env.contains_key("JIRA_CONCURRENCY"@) && f.concurrency is Some ==> c.concurrency == (if f.concurrency->0 < 1 {
                1
            } else if f.concurrency->0 > 16 {
                16
            } else {
                f.concurrency->0
            }))
            &&& (!env.contains_key("JIRA_AUTH_METHOD"@) && f.auth_method is None && !env.contains_key("JIRA_USER"@)
                && !env.contains_key("JIRA_PASSWORD"@) && f.user is Some && f.password is Some
                ==> c.auth == AuthView::Basic { user: f.user->0, password: f.password->0 })
            &&& (!env.contains_key("JIRA_URL"@) && f.url is Some ==> url_parse(f.url->0) is Ok
                && c.base_url == url_parse(f.url->0)->Ok_0)
            &&& c.field_aliases == f.field_aliases
        },
{
    reveal_strlit("basic");
}

fn pick_exec(env: &StrMap, var: &str, file: &Option<String>) -> (r: Option<String>)
    ensures
        opt_view(r) == pick(env@, var@, opt_view(*file)),
{
    match env.get(var) {
        Some(v) => Some(v.clone()),
        None => file.clone(),
    }
}

fn auth_exec(env: &StrMap, file: &ConfigFile) -> (r: Result<AuthConfig, Error>)
    ensures
        match auth_spec(env@, file@) {
            Ok(a) => r matches Ok(x) && x@ == a,
            Err(m) => r matches Err(Error::Config(x)) && x@ == m,
        },
{
    let method = match pick_exec(env, "JIRA_AUTH_METHOD", &file.auth_method) {
        Some(m) => to_lowercase(m.as_str()),
        None => "basic".to_owned(),
    };
    if str_eq(method.as_str(), "basic") {
        let user = match pick_exec(env, "JIRA_USER", &file.user) {
            Some(u) => u,
            None => return Err(Error::Config("JIRA_USER is required for basic auth".to_owned())),
        };
        let password = match pick_exec(env, "JIRA_PASSWORD", &file.password) {
            Some(p) => p,
            None => return Err(Error::Config("JIRA_PASSWORD is required for basic auth".to_owned())),
        };
        Ok(AuthConfig::Basic { user, password })
    } else if str_eq(method.as_str(), "cookie") {
        match pick_exec(env, "JIRA_SESSION_COOKIE", &file.session_cookie) {
            Some(cookie) => Ok(AuthConfig::Cookie { cookie }),
            None => Err(
                Error::Config("JIRA_SESSION_COOKIE is required for cookie auth (e.g. 'JSESSIONID=abc')".to_owned()),
            ),
        }
    } else {
        Err(Error::Config(concat3("JIRA_AUTH_METHOD must be 'basic' or 'cookie', got '", method.as_str(), "'")))
    }
}

fn timeout_exec(env: &StrMap, file: &ConfigFile) -> (r: Result<u64, Error>)
    ensures
        match timeout_spec(env@, file@) {
            Ok(t) => r == Ok::<u64, Error>(t),
            Err(m) => r matches Err(Error::Config(x)) && x@ == m,
        },
{
    match env.get("JIRA_TIMEOUT") {
        Some(v) => match parse_u64(v.as_str()) {
            Ok(t) => Ok(t),
            Err(e) => Err(Error::Config(concat2("JIRA_TIMEOUT: ", e.as_str()))),
        },
        None => match file.timeout_secs {
            Some(t) => Ok(t),
            None => Ok(30),
        },
    }
}

fn insecure_exec(env: &StrMap, file: &ConfigFile) -> (r: Result<bool, Error>)
    ensures
        match insecure_spec(env@, file@) {
            Ok(b) => r == Ok::<bool, Error>(b),
            Err(m) => r matches Err(Error::Config(x)) && x@ == m,
        },
{
    proof {
        reveal_strlit("");
    }
    match env.get("JIRA_INSECURE") {
        Some(v) => {
            if str_eq(v.as_str(), "") {
                match file.insecure {
                    Some(b) => Ok(b),
                    None => Ok(false),
                }
            } else {
                parse_bool_str(v.as_str())
            }
        },
        None => match file.insecure {
            Some(b) => Ok(b),
            None => Ok(false),
        },
    }
}

fn concurrency_exec(env: &StrMap, file: &ConfigFile) -> (r: Result<usize, Error>)
    ensures
        match concurrency_spec(env@, file@) {
            Ok(c) => r == Ok::<usize, Error>(c),
            Err(m) => r matches Err(Error::Config(x)) && x@ == m,
        },
{
    let raw: usize = match env.get("JIRA_CONCURRENCY") {
        Some(v) => match parse_usize(v.as_str()) {
            Ok(c) => c,
            Err(e) => return Err(Error::Config(concat2("JIRA_CONCURRENCY: ", e.as_str()))),
        },
        None => match file.concurrency {
            Some(c) => c,
            None => 4,
        },
    };
    Ok(if raw < 1 { 1 } else if raw > 16 { 16 } else { raw })
}

impl JiraConfig {
    /// Merges env vars (first) and the config file (second) into a validated
    /// configuration.
    pub fn merge(env: &StrMap, file: &ConfigFile) -> (r: Result<JiraConfig, Error>)
        ensures
            match merge_spec(env@, file@) {
                Ok(c) => r matches Ok(x) && x@ == c,
                Err(m) => r matches Err(Error::Config(x)) && x@ == m,
            },
    {
        let url = match pick_exec(env, "JIRA_URL", &file.url) {
            Some(u) => u,
            None => return Err(
                Error::Config(
                    "JIRA_URL is required (set env var or add to ~/.config/jira-cli/config.toml)".to_owned(),
                ),
            ),
        };
        let parsed = match parse_url(url.as_str()) {
            Ok(p) => p,
            Err(e) => return Err(Error::Config(concat2("JIRA_URL is not a valid URL: ", e.as_str()))),
        };
        if !(str_eq(parsed.scheme.as_str(), "http") || str_eq(parsed.scheme.as_str(), "https")) {
            return Err(Error::Config("JIRA_URL must use http or https scheme".to_owned()));
        }
        let auth = auth_exec(env, file)?;
        let timeout_secs = timeout_exec(env, file)?;
        let insecure = insecure_exec(env, file)?;
        let concurrency = concurrency_exec(env, file)?;
        let field_aliases = file.field_aliases.copy();
        Ok(JiraConfig { base_url: parsed, auth, timeout_secs, insecure, concurrency, field_aliases })
    }

    /// `merge` with an empty config file.
    pub fn from_map(env: &StrMap) -> (r: Result<JiraConfig, Error>)
        ensures
            match merge_spec(env@, ConfigFile::empty_view()) {
                Ok(c) => r matches Ok(x) && x@ == c,
                Err(m) => r matches Err(Error::Config(x)) && x@ == m,
            },
    {
        let f = ConfigFile::empty();
        Self::merge(env, &f)
    }
}


// ---------------------------------------------------------------------
// Redacted view, config file location
// ---------------------------------------------------------------------

/// `config show`: the configuration without secrets (only whether a password
/// or cookie is set).
pub open spec fn redacted_members(c: ConfigView, alias_pairs: Seq<(Seq<char>, Seq<char>)>) -> Entries {
    seq![
        ("base_url"@, JsonV::Str(c.base_url.0)),
        ("auth_method"@, JsonV::Str(if c.auth is Basic { "basic"@ } else { "cookie"@ })),
        ("user"@, match c.auth {
            AuthView::Basic { user, .. } => JsonV::Str(user),
            AuthView::Cookie { .. } => JsonV::Null,
        }),
        ("password_set"@, JsonV::Bool(c.auth is Basic)),
        ("cookie_set"@, JsonV::Bool(c.auth is Cookie)),
        ("timeout_secs"@, JsonV::Number(crate::text::decimal(c.timeout_secs as nat))),
        ("insecure"@, JsonV::Bool(c.insecure)),
        ("concurrency"@, JsonV::Number(crate::text::decimal(c.concurrency as nat))),
        ("field_aliases"@, string_map_json(alias_pairs)),
    ]
}

impl JiraConfig {
    pub fn redacted_json(&self) -> (r: Json)
        ensures
            r@ == JsonV::Object(put_all(Seq::empty(), redacted_members(self@, self.field_aliases.pairs_view()))),
    {
        let mut m: Vec<(String, Json)> = Vec::new();
        m.push(("base_url".to_owned(), Json::Str(self.base_url.href.clone())));
        let (method, user, pw, ck) = match &self.auth {
            AuthConfig::Basic { user, .. } => ("basic", Json::Str(user.clone()), true, false),
            AuthConfig::Cookie { .. } => ("cookie", Json::Null, false, true),
        };
        m.push(("auth_method".to_owned(), Json::string(method)));
        m.push(("user".to_owned(), user));
        m.push(("password_set".to_owned(), Json::Bool(pw)));
        m.push(("cookie_set".to_owned(), Json::Bool(ck)));
        m.push(("timeout_secs".to_owned(), Json::uint(self.timeout_secs)));
        m.push(("insecure".to_owned(), Json::Bool(self.insecure)));
        m.push(("concurrency".to_owned(), Json::uint(self.concurrency as u64)));
        m.push(("field_aliases".to_owned(), map_to_json(&self.field_aliases)));
        proof {
            assert(crate::json::entries_view(m@) =~= redacted_members(self@, self.field_aliases.pairs_view()));
        }
        object_of(m)
    }
}

/// `Path::join` of a relative component: `base` and `c` with one `/` between
/// them (none when `base` is empty or already ends with `/`).
pub open spec fn path_join(base: Seq<char>, c: Seq<char>) -> Seq<char> {
    if base.len() == 0 {
        c
    } else if base.last() == '/' {
        base + c
    } else {
        base + "/"@ + c
    }
}

pub fn join_path(base: &str, c: &str) -> (r: String)
    ensures
        r@ == path_join(base@, c@),
{
    proof {
        reveal_strlit("/");
    }
    if base.is_empty() {
        c.to_owned()
    } else if ends_with_char(base, '/') {
        concat2(base, c)
    } else {
        concat3(base, "/", c)
    }
}

/// Where the config file lives: `$XDG_CONFIG_HOME/jira-cli/config.toml`, else
/// `$HOME/.config/jira-cli/config.toml`; an error when neither is set.
pub open spec fn config_path_spec(xdg: Option<Seq<char>>, home: Option<Seq<char>>) -> Option<Seq<char>> {
    let base = match xdg {
        Some(x) => Some(x),
        None => match home {
            Some(h) => Some(path_join(h, ".config"@)),
            None => None,
        },
    };
    match base {
        Some(b) => Some(path_join(path_join(b, "jira-cli"@), "config.toml"@)),
        None => None,
    }
}

impl ConfigFile {
    /// The config file's path, from the values of `XDG_CONFIG_HOME` and `HOME`.
    pub fn default_path(xdg: Option<&str>, home: Option<&str>) -> (r: Result<String, Error>)
        ensures
            match config_path_spec(
                match xdg { Some(x) => Some(x@), None => None },
                match home { Some(h) => Some(h@), None => None },
            ) {
                Some(p) => r matches Ok(x) && x@ == p,
                None => r matches Err(Error::Config(m)) && m@ == "$HOME is not set; cannot locate config file"@,
            },
    {
        let base = match xdg {
            Some(x) => x.to_owned(),
            None => match home {
                Some(h) => join_path(h, ".config"),
                None => return Err(Error::Config("$HOME is not set; cannot locate config file".to_owned())),
            },
        };
        let dir = join_path(base.as_str(), "jira-cli");
        Ok(join_path(dir.as_str(), "config.toml"))
    }
}

/// Where `load_default` reads the config file from.
pub enum ConfigLoad {
    /// No file location (neither `XDG_CONFIG_HOME` nor `HOME` is set): the
    /// defaults.
    Defaults,
    /// Read the file at this path if it exists; the defaults if it does not.
    Read(String),
}

impl ConfigFile {
    /// The first step of loading the default config file: its location, from
    /// the values of `XDG_CONFIG_HOME` and `HOME`; without one, the defaults.
    pub fn load_default(xdg: Option<&str>, home: Option<&str>) -> (r: ConfigLoad)
        ensures
            match config_path_spec(
                match xdg { Some(x) => Some(x@), None => None },
                match home { Some(h) => Some(h@), None => None },
            ) {
                Some(p) => r matches ConfigLoad::Read(x) && x@ == p,
                None => r is Defaults,
            },
    {
        match Self::default_path(xdg, home) {
            Ok(p) => ConfigLoad::Read(p),
            Err(_) => ConfigLoad::Defaults,
        }
    }

    /// Whether the file holds a secret (a password or a session cookie).
    pub fn has_secret(&self) -> (b: bool)
        ensures
            b == (self.password is Some || self.session_cookie is Some),
    {
        self.password.is_some() || self.session_cookie.is_some()
    }
}

/// The warning for a config file holding secrets that group or others may
/// access: `mode` is the file's permission bits.
pub open spec fn mode_warning_spec(path: Seq<char>, mode: u32) -> Option<JsonV> {
    let m = mode & 0o777u32;
    if m & 0o077u32 != 0 {
        Some(JsonV::Object(seq![("warning"@, JsonV::Str("config file "@ + path + " has mode "@ + crate::text::octal(m as nat)
            + "; recommend chmod 600 (contains secrets)"@))]))
    } else {
        None
    }
}

pub fn permission_warning(path: &str, mode: u32) -> (r: Option<Json>)
    ensures
        match mode_warning_spec(path@, mode) {
            Some(w) => r matches Some(j) && j@ == w,
            None => r is None,
        },
{
    let m = mode & 0o777u32;
    if m & 0o077u32 != 0 {
        let mut t = concat3("config file ", path, " has mode ");
        t.append(crate::text::octal_string(m).as_str());
        t.append("; recommend chmod 600 (contains secrets)");
        Some(Json::object1("warning", Json::Str(t)))
    } else {
        None
    }
}

/// `Debug` of the auth settings, secrets masked.
pub open spec fn auth_debug(a: AuthView) -> Seq<char> {
    match a {
        AuthView::Basic { user, .. } => "Basic { user: "@ + crate::text::debug_text(user) + ", password: \"***\" }"@,
        AuthView::Cookie { .. } => "Cookie { cookie: \"***\" }"@,
    }
}

/// `Debug` of a string map: `{"k": "v", ...}` in the map's order.
pub open spec fn map_debug(pairs: Seq<(Seq<char>, Seq<char>)>) -> Seq<char> {
    "{"@ + crate::error::join(debug_entries(pairs), ", "@) + "}"@
}

/// `"k": "v"` for each entry.
pub open spec fn debug_entries(pairs: Seq<(Seq<char>, Seq<char>)>) -> Seq<Seq<char>> {
    pairs.map_values(|p: (Seq<char>, Seq<char>)| crate::text::debug_text(p.0) + ": "@ + crate::text::debug_text(p.1))
}

impl JiraConfig {
    /// The configuration as `Debug` shows it, with the password and cookie
    /// masked.
    pub fn redacted_debug(&self) -> (r: String)
        ensures
            r@ == "JiraConfig { base_url: "@ + crate::text::debug_text(self.base_url.href@)
                + ", auth: "@ + auth_debug(self.auth@)
                + ", timeout_secs: "@ + crate::text::decimal(self.timeout_secs as nat)
                + ", insecure: "@ + (if self.insecure { "true"@ } else { "false"@ })
                + ", concurrency: "@ + crate::text::decimal(self.concurrency as nat)
                + ", field_aliases: "@ + map_debug(self.field_aliases.pairs_view()) + " }"@,
    {
        let mut r = String::new();
        r.append("JiraConfig { base_url: ");
        r.append(crate::text::debug_str(self.base_url.href.as_str()).as_str());
        r.append(", auth: ");
        match &self.auth {
            AuthConfig::Basic { user, .. } => {
                r.append("Basic { user: ");
                r.append(crate::text::debug_str(user.as_str()).as_str());
                r.append(", password: \"***\" }");
            },
            AuthConfig::Cookie { .. } => {
                r.append("Cookie { cookie: \"***\" }");
            },
        }
        r.append(", timeout_secs: ");
        r.append(crate::text::decimal_string(self.timeout_secs).as_str());
        r.append(", insecure: ");
        r.append(if self.insecure { "true" } else { "false" });
        r.append(", concurrency: ");
        r.append(crate::text::decimal_string(self.concurrency as u64).as_str());
        r.append(", field_aliases: ");
        let pairs = self.field_aliases.to_pairs();
        let mut items: Vec<String> = Vec::new();
        let mut i: usize = 0;
        while i < pairs.len()
            invariant
                i <= pairs@.len(),
                items@.len() == i,
                forall|j: int| 0 <= j < i ==> (#[trigger] items@[j])@ == crate::text::debug_text(pairs@[j].0@) + ": "@
                    + crate::text::debug_text(pairs@[j].1@),
            decreases pairs@.len() - i,
        {
            let mut t = crate::text::debug_str(pairs[i].0.as_str());
            t.append(": ");
            t.append(crate::text::debug_str(pairs[i].1.as_str()).as_str());
            items.push(t);
            i += 1;
        }
        proof {
            assert(items@.map_values(|s: String| s@) =~= debug_entries(self.field_aliases.pairs_view()));
        }
        r.append("{");
        r.append(crate::error::join_strings(&items, ", ").as_str());
        r.append("}");
        r.append(" }");
        proof {
            assert(r@ =~= "JiraConfig { base_url: "@ + crate::text::debug_text(self.base_url.href@)
                + ", auth: "@ + auth_debug(self.auth@)
                + ", timeout_secs: "@ + crate::text::decimal(self.timeout_secs as nat)
                + ", insecure: "@ + (if self.insecure { "true"@ } else { "false"@ })
                + ", concurrency: "@ + crate::text::decimal(self.concurrency as nat)
                + ", field_aliases: "@ + map_debug(self.field_aliases.pairs_view()) + " }"@);
        }
        r
    }
}

} // verus!
