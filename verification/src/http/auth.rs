//! Authentication headers and the `X-Seraph-LoginReason` response header.

use vstd::prelude::*;
use base64::Engine;
use crate::config::AuthConfig;
use crate::error::{AuthError, Error};
use crate::text::{concat2, concat3, contains, contains_spec, to_uppercase_ascii, upper_spec};

verus! {

/// What the base64 `STANDARD` engine encodes the UTF-8 bytes of `s` to.
pub uninterp spec fn base64_standard(s: Seq<char>) -> Seq<char>;

/// A character of the standard base64 alphabet, or the padding `=`.
pub open spec fn base64_char(c: char) -> bool {
    ('A' <= c && c <= 'Z') || ('a' <= c && c <= 'z') || ('0' <= c && c <= '9') || c == '+' || c == '/' || c == '='
}

/// `base64::engine::general_purpose::STANDARD.encode` of the bytes of `s`:
/// the output uses only the standard alphabet and `=` padding.
#[verifier::external_body]
fn base64_encode(s: &str) -> (r: String)
    ensures
        r@ == base64_standard(s@),
        forall|i: int| 0 <= i < r@.len() ==> base64_char(#[trigger] r@[i]),
{
    base64::engine::general_purpose::STANDARD.encode(s)
}

/// A string that `HeaderValue::from_str` accepts: every byte is at least 32
/// and not 127, or a tab (bytes of non-ASCII characters are all accepted).
pub open spec fn header_value_ok(s: Seq<char>) -> bool {
    forall|i: int| 0 <= i < s.len() ==> (#[trigger] s[i] == '\t' || (' ' <= s[i] && s[i] != '\u{7f}'))
}

/// `reqwest::header::HeaderValue::from_str`: accepts exactly the strings of
/// `header_value_ok`; its error reads "failed to parse header value".
#[verifier::external_body]
fn header_value_check(s: &str) -> (r: Result<(), String>)
    ensures
        r is Ok <==> header_value_ok(s@),
        r matches Err(m) ==> m@ == "failed to parse header value"@,
{
    match reqwest::header::HeaderValue::from_str(s) {
        Ok(_) => Ok(()),
        Err(e) => Err(e.to_string()),
    }
}

/// The header an authenticator adds to each request.
pub enum AuthMode {
    /// `Authorization: Basic <base64(user:password)>`.
    Basic(String),
    /// `Cookie: <cookie>`.
    Cookie(String),
}

pub struct Authenticator {
    pub mode: AuthMode,
}

/// The `Authorization` value for basic auth.
pub open spec fn basic_value(user: Seq<char>, password: Seq<char>) -> Seq<char> {
    "Basic "@ + base64_standard(user + ":"@ + password)
}

/// An authenticator's header value, by kind.
pub enum ModeView {
    Basic(Seq<char>),
    Cookie(Seq<char>),
}

impl View for AuthMode {
    type V = ModeView;

    open spec fn view(&self) -> ModeView {
        match self {
            AuthMode::Basic(v) => ModeView::Basic(v@),
            AuthMode::Cookie(v) => ModeView::Cookie(v@),
        }
    }
}

/// `Authenticator::new`: the `Authorization` value for basic auth, the cookie
/// itself for cookie auth; a cookie that is no valid header value is a config
/// error.
pub open spec fn auth_mode_for(auth: AuthConfig) -> Result<ModeView, Seq<char>> {
    match auth {
        AuthConfig::Basic { user, password } => Ok(ModeView::Basic(basic_value(user@, password@))),
        AuthConfig::Cookie { cookie } => if header_value_ok(cookie@) {
            Ok(ModeView::Cookie(cookie@))
        } else {
            Err("cookie header: failed to parse header value"@)
        },
    }
}

impl Authenticator {
    /// The authenticator for a configuration.
    pub fn new(auth: &AuthConfig) -> (r: Result<Authenticator, Error>)
        ensures
            match auth_mode_for(*auth) {
                Ok(m) => r matches Ok(a) && a.mode@ == m,
                Err(msg) => r matches Err(Error::Config(x)) && x@ == msg,
            },
    {
        match auth {
            AuthConfig::Basic { user, password } => {
                let creds = concat3(user.as_str(), ":", password.as_str());
                let token = base64_encode(creds.as_str());
                let value = concat2("Basic ", token.as_str());
                proof {
                    reveal_strlit("Basic ");
                    assert forall|i: int| 0 <= i < value@.len() implies (#[trigger] value@[i] == '\t'
                        || (' ' <= value@[i] && value@[i] != '\u{7f}')) by {
                        if i >= 6 {
                            assert(value@[i] == token@[i - 6]);
                            assert(base64_char(token@[i - 6]));
                        }
                    }
                }
                match header_value_check(value.as_str()) {
                    Ok(()) => Ok(Authenticator { mode: AuthMode::Basic(value) }),
                    Err(e) => Err(Error::Config(concat2("basic auth header: ", e.as_str()))),
                }
            },
            AuthConfig::Cookie { cookie } => {
                match header_value_check(cookie.as_str()) {
                    Ok(()) => Ok(Authenticator { mode: AuthMode::Cookie(cookie.clone()) }),
                    Err(e) => {
                        proof {
                            reveal_strlit("cookie header: ");
                            reveal_strlit("failed to parse header value");
                            reveal_strlit("cookie header: failed to parse header value");
                            assert("cookie header: "@ + e@ =~= "cookie header: failed to parse header value"@);
                        }
                        Err(Error::Config(concat2("cookie header: ", e.as_str())))
                    },
                }
            },
        }
    }

    /// The header to add to each request: its name and value.
    pub fn header(&self) -> (r: (&'static str, &String))
        ensures
            match self.mode {
                AuthMode::Basic(v) => r.0@ == "Authorization"@ && *r.1 == v,
                AuthMode::Cookie(v) => r.0@ == "Cookie"@ && *r.1 == v,
            },
    {
        match &self.mode {
            AuthMode::Basic(v) => ("Authorization", v),
            AuthMode::Cookie(v) => ("Cookie", v),
        }
    }

    pub fn is_cookie(&self) -> (b: bool)
        ensures
            b == self.mode is Cookie,
    {
        match &self.mode {
            AuthMode::Cookie(_) => true,
            AuthMode::Basic(_) => false,
        }
    }
}

/// The reading of `X-Seraph-LoginReason`, uppercased: `CAPTCHA` means a
/// CAPTCHA is required; `AUTHENTICATION_DENIED` or `AUTHENTICATED_FAILED`
/// means the login was refused; anything else, or no header, is no error.
pub open spec fn seraph_spec(value: Option<Seq<char>>) -> Option<AuthError> {
    match value {
        None => None,
        Some(v) => {
            let u = upper_spec(v);
            if contains_spec(u, "CAPTCHA"@) {
                Some(AuthError::CaptchaRequired)
            } else if contains_spec(u, "AUTHENTICATION_DENIED"@) || contains_spec(u, "AUTHENTICATED_FAILED"@) {
                Some(AuthError::Unauthorized)
            } else {
                None
            }
        },
    }
}

/// Inspect the `X-Seraph-LoginReason` header (its text as `to_str` reads
/// it, `""` when it is not visible ASCII; `None` when absent). `Some` iff it
/// signals an auth or CAPTCHA failure.
pub fn detect_seraph(value: Option<&str>) -> (r: Option<AuthError>)
    ensures
        r == seraph_spec(match value { Some(v) => Some(v@), None => None }),
{
    match value {
        None => None,
        Some(v) => {
            let u = to_uppercase_ascii(v);
            if contains(u.as_str(), "CAPTCHA") {
                Some(AuthError::CaptchaRequired)
            } else if contains(u.as_str(), "AUTHENTICATION_DENIED") || contains(u.as_str(), "AUTHENTICATED_FAILED") {
                Some(AuthError::Unauthorized)
            } else {
                None
            }
        },
    }
}

} // verus!
