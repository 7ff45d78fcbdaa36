//! The HTTP side of the client: absolute URLs from API paths, the standard
//! and auth headers, and the reading of response statuses into typed errors.

pub mod auth;

use vstd::prelude::*;
use crate::config::{JiraConfig, ParsedUrl};
use crate::error::{ApiErrorBody, AuthError, Error};
use crate::text::{chars_of, concat2, debug_str, debug_text, ends_with_char, string_of_range, push_char};
use auth::Authenticator;

verus! {

/// A byte that `HeaderValue::to_str` accepts: visible ASCII or a tab.
pub open spec fn visible_ascii(b: u8) -> bool {
    (32 <= b && b < 127) || b == 9
}

/// `HeaderValue::to_str`: the text of a header value made only of visible
/// ASCII (and tabs); `None` otherwise.
pub open spec fn header_text(b: Seq<u8>) -> Option<Seq<char>> {
    if forall|i: int| 0 <= i < b.len() ==> visible_ascii(#[trigger] b[i]) {
        Some(b.map_values(|x: u8| x as char))
    } else {
        None
    }
}

pub fn header_str(b: &[u8]) -> (r: Option<String>)
    ensures
        match header_text(b@) {
            Some(t) => r matches Some(s) && s@ == t,
            None => r is None,
        },
{
    let mut s = String::new();
    let mut i: usize = 0;
    while i < b.len()
        invariant
            i <= b@.len(),
            forall|j: int| 0 <= j < i ==> visible_ascii(#[trigger] b@[j]),
            s@ == b@.subrange(0, i as int).map_values(|x: u8| x as char),
        decreases b@.len() - i,
    {
        let c = b[i];
        if !((32 <= c && c < 127) || c == 9) {
            return None;
        }
        push_char(&mut s, c as char);
        proof {
            assert(b@.subrange(0, i + 1).map_values(|x: u8| x as char) =~= b@.subrange(0, i as int).map_values(|x: u8| x as char).push(c as char));
        }
        i += 1;
    }
    proof {
        assert(b@.subrange(0, b@.len() as int) =~= b@);
    }
    Some(s)
}

// ---------------------------------------------------------------------
// URLs
// ---------------------------------------------------------------------

/// What `Url::parse(base)` then `join(input)` gives: the joined URL's
/// serialization, or the parse error's text.
pub uninterp spec fn url_joined(base: Seq<char>, input: Seq<char>) -> Result<Seq<char>, Seq<char>>;

/// What `Url::parse(href)` then `set_path(path)` gives: the URL's new
/// serialization, or the parse error's text.
pub uninterp spec fn url_path_set(href: Seq<char>, path: Seq<char>) -> Result<Seq<char>, Seq<char>>;


/// `url::Url::join` of `input` onto the URL `base` (given by its text).
#[verifier::external_body]
fn url_join(base: &str, input: &str) -> (r: Result<String, String>)
    ensures
        match url_joined(base@, input@) {
            Ok(u) => r matches Ok(x) && x@ == u,
            Err(e) => r matches Err(x) && x@ == e,
        },
{
    let b = match url::Url::parse(base) {
        Ok(b) => b,
        Err(e) => return Err(e.to_string()),
    };
    match b.join(input) {
        Ok(u) => Ok(u.as_str().to_owned()),
        Err(e) => Err(e.to_string()),
    }
}

/// `url::Url::set_path` on the URL `href` (given by its text).
#[verifier::external_body]
fn url_set_path(href: &str, path: &str) -> (r: Result<String, String>)
    ensures
        match url_path_set(href@, path@) {
            Ok(u) => r matches Ok(x) && x@ == u,
            Err(e) => r matches Err(x) && x@ == e,
        },
{
    let mut u = match url::Url::parse(href) {
        Ok(u) => u,
        Err(e) => return Err(e.to_string()),
    };
    u.set_path(path);
    Ok(u.as_str().to_owned())
}


/// Number of leading `/` of `s`.
pub open spec fn lead_slashes(s: Seq<char>) -> nat
    decreases s.len(),
{
    if s.len() > 0 && s[0] == '/' {
        1 + lead_slashes(s.drop_first())
    } else {
        0
    }
}

/// `trim_start_matches('/')`.
pub open spec fn without_lead_slashes(s: Seq<char>) -> Seq<char> {
    s.subrange(lead_slashes(s) as int, s.len() as int)
}

proof fn lemma_lead_slashes(s: Seq<char>, k: int)
    requires
        0 <= k <= s.len(),
        forall|j: int| 0 <= j < k ==> s[j] == '/',
    ensures
        lead_slashes(s) >= k,
        lead_slashes(s) <= s.len(),
        k < s.len() && s[k] != '/' ==> lead_slashes(s) == k,
    decreases k,
{
    lemma_lead_slashes_bound(s);
    if k > 0 {
        let t = s.drop_first();
        assert forall|j: int| 0 <= j < k - 1 implies t[j] == '/' by {
            assert(t[j] == s[j + 1]);
        }
        lemma_lead_slashes(t, k - 1);
    } else if s.len() > 0 && s[0] == '/' && k < s.len() && s[k] != '/' {
        assert(false);
    }
}

proof fn lemma_lead_slashes_bound(s: Seq<char>)
    ensures
        lead_slashes(s) <= s.len(),
    decreases s.len(),
{
    if s.len() > 0 && s[0] == '/' {
        lemma_lead_slashes_bound(s.drop_first());
    }
}

fn trim_lead_slashes(s: &str) -> (r: String)
    ensures
        r@ == without_lead_slashes(s@),
{
    let v = chars_of(s);
    let mut i: usize = 0;
    while i < v.len() && v[i] == '/'
        invariant
            i <= v@.len(),
            v@ == s@,
            forall|j: int| 0 <= j < i ==> v@[j] == '/',
        decreases v@.len() - i,
    {
        i += 1;
    }
    proof {
        lemma_lead_slashes(v@, i as int);
        if i == v@.len() {
            lemma_lead_slashes_bound(v@);
        }
    }
    string_of_range(&v, i, v.len())
}

/// `HttpClient::url`: the base URL, made to end in `/` so that joining keeps
/// any sub-path (e.g. `https://host/jira`), joined with the API path minus its
/// leading slashes.
pub open spec fn url_spec(base: (Seq<char>, Seq<char>, Seq<char>), path: Seq<char>) -> Result<Seq<char>, Seq<char>> {
    let b = if base.2.len() > 0 && base.2.last() == '/' {
        Ok(base.0)
    } else {
        url_path_set(base.0, base.2 + "/"@)
    };
    let joined = match b {
        Ok(h) => url_joined(h, without_lead_slashes(path)),
        Err(e) => Err(e),
    };
    match joined {
        Ok(u) => Ok(u),
        Err(e) => Err("invalid URL path "@ + debug_text(path) + ": "@ + e),
    }
}

/// Leading slashes of the API path do not matter: two paths that agree once
/// they are dropped give the same URL, or both fail.
pub proof fn lemma_leading_slashes_ignored(base: (Seq<char>, Seq<char>, Seq<char>), p: Seq<char>, q: Seq<char>)
    requires
        without_lead_slashes(p) == without_lead_slashes(q),
    ensures
        (url_spec(base, p) is Ok) == (url_spec(base, q) is Ok),
        url_spec(base, p) is Ok ==> url_spec(base, p) == url_spec(base, q),
{
}

/// The User-Agent header value.
pub fn user_agent() -> (r: &'static str)
    ensures
        r@ == "jira-cli/0.1.0"@,
{
    "jira-cli/0.1.0"
}

/// The request side of the client: base URL, authentication and whether
/// writes are retried. The transport itself is the caller's.
pub struct HttpClient {
    base_url: ParsedUrl,
    auth: Authenticator,
    retry_writes: bool,
}

pub struct HttpView {
    pub base_url: (Seq<char>, Seq<char>, Seq<char>),
    pub auth: auth::ModeView,
    pub retry_writes: bool,
}

impl View for HttpClient {
    type V = HttpView;

    closed spec fn view(&self) -> HttpView {
        HttpView {
            base_url: (self.base_url.href@, self.base_url.scheme@, self.base_url.path@),
            auth: self.auth.mode@,
            retry_writes: self.retry_writes,
        }
    }
}

impl HttpClient {
    /// A client for the configuration: its base URL and its authenticator;
    /// writes are not retried.
    pub fn new(cfg: &JiraConfig) -> (r: Result<HttpClient, Error>)
        ensures
            match auth::auth_mode_for(cfg.auth) {
                Ok(m) => r matches Ok(c) && c@ == (HttpView {
                    base_url: (cfg.base_url.href@, cfg.base_url.scheme@, cfg.base_url.path@),
                    auth: m,
                    retry_writes: false,
                }),
                Err(msg) => r matches Err(Error::Config(x)) && x@ == msg,
            },
    {
        let auth = Authenticator::new(&cfg.auth)?;
        let base_url = ParsedUrl {
            href: cfg.base_url.href.clone(),
            scheme: cfg.base_url.scheme.clone(),
            path: cfg.base_url.path.clone(),
        };
        Ok(HttpClient { base_url, auth, retry_writes: false })
    }

    pub fn with_retry_writes(self, yes: bool) -> (r: HttpClient)
        ensures
            r@ == (HttpView { retry_writes: yes, ..self@ }),
    {
        HttpClient { retry_writes: yes, ..self }
    }

    pub fn retry_writes_enabled(&self) -> (b: bool)
        ensures
            b == self@.retry_writes,
    {
        self.retry_writes
    }

    pub fn base_url(&self) -> (r: &ParsedUrl)
        ensures
            (r.href@, r.scheme@, r.path@) == self@.base_url,
    {
        &self.base_url
    }

    pub fn is_cookie_auth(&self) -> (b: bool)
        ensures
            b == self@.auth is Cookie,
    {
        self.auth.is_cookie()
    }

    /// Build an absolute URL from a path like `/rest/api/2/issue/MGX-1`.
    pub fn url(&self, path: &str) -> (r: Result<String, Error>)
        ensures
            match url_spec(self@.base_url, path@) {
                Ok(u) => r matches Ok(x) && x@ == u,
                Err(m) => r matches Err(Error::Config(x)) && x@ == m,
            },
    {
        let base: Result<String, String> = if ends_with_char(self.base_url.path.as_str(), '/') {
            Ok(self.base_url.href.clone())
        } else {
            let p = concat2(self.base_url.path.as_str(), "/");
            url_set_path(self.base_url.href.as_str(), p.as_str())
        };
        let rel = trim_lead_slashes(path);
        let joined = match base {
            Ok(h) => url_join(h.as_str(), rel.as_str()),
            Err(e) => Err(e),
        };
        match joined {
            Ok(u) => Ok(u),
            Err(e) => {
                let mut m = String::new();
                m.append("invalid URL path ");
                m.append(debug_str(path).as_str());
                m.append(": ");
                m.append(e.as_str());
                Err(Error::Config(m))
            },
        }
    }

    /// The headers of every request: the auth header, then `Accept`,
    /// `X-Atlassian-Token` and `User-Agent`.
    pub fn request_headers(&self) -> (r: Vec<(String, String)>)
        ensures
            r@.map_values(|h: (String, String)| (h.0@, h.1@)) == seq![
                match self@.auth {
                    auth::ModeView::Basic(v) => ("Authorization"@, v),
                    auth::ModeView::Cookie(v) => ("Cookie"@, v),
                },
                ("Accept"@, "application/json"@),
                ("X-Atlassian-Token"@, "no-check"@),
                ("User-Agent"@, "jira-cli/0.1.0"@),
            ],
    {
        let (name, value) = self.auth.header();
        let mut r: Vec<(String, String)> = Vec::new();
        r.push((name.to_owned(), value.clone()));
        r.push(("Accept".to_owned(), "application/json".to_owned()));
        r.push(("X-Atlassian-Token".to_owned(), "no-check".to_owned()));
        r.push(("User-Agent".to_owned(), user_agent().to_owned()));
        proof {
            assert(r@.map_values(|h: (String, String)| (h.0@, h.1@)) =~= seq![
                match self@.auth {
                    auth::ModeView::Basic(v) => ("Authorization"@, v),
                    auth::ModeView::Cookie(v) => ("Cookie"@, v),
                },
                ("Accept"@, "application/json"@),
                ("X-Atlassian-Token"@, "no-check"@),
                ("User-Agent"@, "jira-cli/0.1.0"@),
            ]);
        }
        r
    }
}

// ---------------------------------------------------------------------
// Response statuses
// ---------------------------------------------------------------------

/// The reading of an optional header as `to_str` gives it (`""` when it is
/// not visible ASCII).
pub open spec fn header_reading(h: Option<Seq<u8>>) -> Option<Seq<char>> {
    match h {
        None => None,
        Some(b) => match header_text(b) {
            Some(t) => Some(t),
            None => Some(Seq::empty()),
        },
    }
}

/// The text of an optional header, when it is visible ASCII.
pub open spec fn header_value_text(h: Option<Seq<u8>>) -> Option<Seq<char>> {
    match h {
        None => None,
        Some(b) => header_text(b),
    }
}

/// `check_status`: a Seraph login failure wins; then 2xx is success; 401 and
/// 403 are auth errors; any other status is an API error carrying the parsed
/// body and the request id.
pub open spec fn status_spec(status: u16, seraph: Option<Seq<u8>>) -> Option<Option<AuthError>> {
    match auth::seraph_spec(header_reading(seraph)) {
        Some(a) => Some(Some(a)),
        None => if 200 <= status && status <= 299 {
            None
        } else if status == 401 {
            Some(Some(AuthError::Unauthorized))
        } else if status == 403 {
            Some(Some(AuthError::Forbidden))
        } else {
            Some(None)
        },
    }
}

/// How `check_status` decides: a Seraph login failure wins even on a 2xx;
/// otherwise every 2xx succeeds, 401 is unauthorized, 403 forbidden, and
/// every other status (404 included) is an API error with the parsed body.
pub proof fn lemma_status_cases(status: u16, seraph: Option<Seq<u8>>)
    ensures
        auth::seraph_spec(header_reading(seraph)) matches Some(a) ==> status_spec(status, seraph) == Some(Some(a)),
        auth::seraph_spec(header_reading(seraph)) is None ==> {
            &&& (200 <= status <= 299 <==> status_spec(status, seraph) is None)
            &&& (status == 401 ==> status_spec(status, seraph) == Some(Some(AuthError::Unauthorized)))
            &&& (status == 403 ==> status_spec(status, seraph) == Some(Some(AuthError::Forbidden)))
            &&& (!(200 <= status <= 299) && status != 401 && status != 403 ==> status_spec(status, seraph) == Some(None::<AuthError>))
        },
{
}

/// Turn a response into success or a typed error, from its status, its
/// `X-Seraph-LoginReason` and `X-AREQUESTID` headers (raw bytes, `None` when
/// absent) and its body.
pub fn check_status(status: u16, seraph: Option<&[u8]>, request_id: Option<&[u8]>, body: &[u8]) -> (r: Result<(), Error>)
    ensures
        match status_spec(status, match seraph { Some(b) => Some(b@), None => None }) {
            None => r is Ok,
            Some(Some(a)) => r == Err::<(), Error>(Error::Auth(a)),
            Some(None) => r matches Err(Error::Api(b)) && ApiErrorBody::read_from(b, status,
                header_value_text(match request_id { Some(x) => Some(x@), None => None }), body@),
        },
{
    let reason: Option<String> = match seraph {
        None => None,
        Some(b) => match header_str(b) {
            Some(t) => Some(t),
            None => Some(String::new()),
        },
    };
    let reason_ref: Option<&str> = match &reason {
        Some(t) => Some(t.as_str()),
        None => None,
    };
    proof {
        if seraph is Some && header_text(seraph->0@) is None {
            assert(reason->0@ =~= Seq::<char>::empty());
        }
    }
    if let Some(a) = auth::detect_seraph(reason_ref) {
        return Err(Error::Auth(a));
    }
    if 200 <= status && status <= 299 {
        return Ok(());
    }
    let rid: Option<String> = match request_id {
        Some(b) => header_str(b),
        None => None,
    };
    if status == 401 {
        Err(Error::Auth(AuthError::Unauthorized))
    } else if status == 403 {
        Err(Error::Auth(AuthError::Forbidden))
    } else {
        Err(Error::Api(ApiErrorBody::from_bytes(status, rid, body)))
    }
}

} // verus!
