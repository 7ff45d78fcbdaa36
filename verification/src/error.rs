//! Typed error hierarchy, its messages, exit codes, hints and the JSON shape
//! written to stderr.

use vstd::prelude::*;
use vstd::utf8::{decode_utf8, valid_utf8};
use crate::json::{json_document, parse_json_slice, entries_view, lookup, find_key, keys_distinct, lemma_find_key_first, lemma_lookup_distinct, lemma_put_all_distinct, lemma_object_view, lemma_array_view, object_of, put_all, Entries, Json, JsonV};
use crate::strmap::{pair_views, StrMap};
use crate::text::{chars_of, concat2, concat3, decimal, decimal_string, string_of_range};

verus! {

#[derive(Debug, Clone, Copy, PartialEq, Eq)]
pub enum AuthError {
    Unauthorized,
    Forbidden,
    CaptchaRequired,
    CookieExpired,
}

#[derive(Debug)]
pub enum FieldError {
    Unknown(String),
    Ambiguous { name: String, candidates: Vec<String> },
}

/// A Jira error body (`errorMessages`, `errors`) with the HTTP status and the
/// request id header.
#[derive(Debug)]
pub struct ApiErrorBody {
    pub status: u16,
    pub error_messages: Vec<String>,
    pub errors: StrMap,
    pub request_id: Option<String>,
}

#[derive(Debug)]
pub enum Error {
    Config(String),
    Usage(String),
    Auth(AuthError),
    NotFound { resource: String, key: String },
    Api(ApiErrorBody),
    /// Transport failure, with the underlying error's text.
    Network(String),
    /// JSON encoding/decoding failure, with the underlying error's text.
    Serialization(String),
    FieldResolve(FieldError),
    /// I/O failure, with the underlying error's text.
    Io(String),
}

// ---------------------------------------------------------------------
// Messages (what `Display` prints)
// ---------------------------------------------------------------------

pub open spec fn auth_text(a: AuthError) -> Seq<char> {
    match a {
        AuthError::Unauthorized => "unauthorized"@,
        AuthError::Forbidden => "forbidden"@,
        AuthError::CaptchaRequired => "CAPTCHA required"@,
        AuthError::CookieExpired => "cookie expired"@,
    }
}

/// `items` joined by `sep`.
pub open spec fn join(items: Seq<Seq<char>>, sep: Seq<char>) -> Seq<char>
    decreases items.len(),
{
    if items.len() == 0 {
        Seq::empty()
    } else if items.len() == 1 {
        items[0]
    } else {
        join(items.drop_last(), sep) + sep + items.last()
    }
}

pub open spec fn field_error_text(f: FieldError) -> Seq<char> {
    match f {
        FieldError::Unknown(name) => "unknown field '"@ + name@ + "'"@,
        FieldError::Ambiguous { name, candidates } => "field '"@ + name@ + "' is ambiguous (candidates: "@
            + join(candidates@.map_values(|c: String| c@), ", "@) + ")"@,
    }
}

pub open spec fn message_spec(e: Error) -> Seq<char> {
    match e {
        Error::Config(m) => "config: "@ + m@,
        Error::Usage(m) => "usage: "@ + m@,
        Error::Auth(a) => "auth: "@ + auth_text(a),
        Error::NotFound { resource, key } => resource@ + " not found: "@ + key@,
        Error::Api(b) => "api error (status "@ + decimal(b.status as nat) + ")"@,
        Error::Network(m) => "network: "@ + m@,
        Error::Serialization(m) => "serialization: "@ + m@,
        Error::FieldResolve(f) => "field: "@ + field_error_text(f),
        Error::Io(m) => "io: "@ + m@,
    }
}

impl AuthError {
    pub fn text(&self) -> (r: &'static str)
        ensures
            r@ == auth_text(*self),
    {
        match self {
            AuthError::Unauthorized => "unauthorized",
            AuthError::Forbidden => "forbidden",
            AuthError::CaptchaRequired => "CAPTCHA required",
            AuthError::CookieExpired => "cookie expired",
        }
    }
}

/// `items.join(sep)`.
pub fn join_strings(items: &Vec<String>, sep: &str) -> (r: String)
    ensures
        r@ == join(items@.map_values(|c: String| c@), sep@),
{
    let ghost all = items@.map_values(|c: String| c@);
    let mut r = String::new();
    let mut i: usize = 0;
    while i < items.len()
        invariant
            i <= items@.len(),
            all == items@.map_values(|c: String| c@),
            r@ == join(all.subrange(0, i as int), sep@),
        decreases items@.len() - i,
    {
        proof {
            assert(all.subrange(0, i + 1).drop_last() =~= all.subrange(0, i as int));
        }
        if i > 0 {
            r.append(sep);
        }
        r.append(items[i].as_str());
        proof {
            if i == 0 {
                assert(r@ =~= all.subrange(0, 1)[0]);
            }
        }
        i += 1;
    }
    proof {
        assert(all.subrange(0, items@.len() as int) =~= all);
    }
    r
}

impl FieldError {
    pub fn message(&self) -> (r: String)
        ensures
            r@ == field_error_text(*self),
    {
        match self {
            FieldError::Unknown(name) => concat3("unknown field '", name.as_str(), "'"),
            FieldError::Ambiguous { name, candidates } => {
                let mut r = concat3("field '", name.as_str(), "' is ambiguous (candidates: ");
                let j = join_strings(candidates, ", ");
                r.append(j.as_str());
                r.append(")");
                r
            },
        }
    }
}

// ---------------------------------------------------------------------
// Exit codes, kinds, hints
// ---------------------------------------------------------------------

pub open spec fn exit_code_spec(e: Error) -> i32 {
    match e {
        Error::Config(_) | Error::Usage(_) | Error::FieldResolve(_) => 2,
        Error::Api(_) => 3,
        Error::Network(_) => 4,
        Error::Auth(_) => 5,
        Error::NotFound { .. } => 6,
        Error::Serialization(_) | Error::Io(_) => 7,
    }
}

pub open spec fn kind_spec(e: Error) -> Seq<char> {
    match e {
        Error::Config(_) => "config"@,
        Error::Usage(_) => "usage"@,
        Error::Auth(_) => "auth"@,
        Error::NotFound { .. } => "not_found"@,
        Error::Api(_) => "api_error"@,
        Error::Network(_) => "network"@,
        Error::Serialization(_) => "serialization"@,
        Error::FieldResolve(_) => "field_resolve"@,
        Error::Io(_) => "io"@,
    }
}

/// A body synthesized from a non-JSON response: no `errors`, and a single
/// message that starts with `<` or ASCII whitespace.
pub open spec fn non_json_fallback_spec(b: ApiErrorBody) -> bool {
    &&& b.errors@.len() == 0
    &&& b.error_messages@.len() == 1
    &&& b.error_messages@[0]@.len() > 0
    &&& ({
        let c = b.error_messages@[0]@[0];
        c == '<' || c == ' ' || c == '\t' || c == '\n' || c == '\u{c}' || c == '\r'
    })
}

pub open spec fn hint_spec(e: Error) -> Option<Seq<char>> {
    match e {
        Error::Auth(AuthError::Unauthorized) => Some(
            "Verify JIRA_USER / JIRA_PASSWORD, or regenerate cookie via `jira-cli session new`"@,
        ),
        Error::Auth(AuthError::Forbidden) => Some(
            "The account authenticated successfully but lacks permission for this resource"@,
        ),
        Error::Auth(AuthError::CaptchaRequired) => Some(
            "Log into Jira once via browser to clear CAPTCHA, then retry. Alternatively switch to cookie auth with JIRA_AUTH_METHOD=cookie."@,
        ),
        Error::Auth(AuthError::CookieExpired) => Some(
            "Re-run `jira-cli session new` to obtain a fresh JSESSIONID"@,
        ),
        Error::NotFound { resource, .. } => Some(
            "Verify the "@ + resource@ + " exists or check permissions with `jira-cli whoami`"@,
        ),
        Error::Config(_) => Some("Ensure JIRA_URL is set and valid"@),
        Error::Api(b) => if non_json_fallback_spec(b) {
            Some(
                "non-JSON response from Jira; verify JIRA_URL points at the API root and auth is valid"@,
            )
        } else {
            None
        },
        _ => None,
    }
}

/// Heuristic: the non-JSON fallback shape produced by `from_document`.
pub fn looks_like_non_json_fallback(body: &ApiErrorBody) -> (r: bool)
    ensures
        r == non_json_fallback_spec(*body),
{
    if !body.errors.is_empty() || body.error_messages.len() != 1 {
        return false;
    }
    let v = chars_of(body.error_messages[0].as_str());
    if v.len() == 0 {
        return false;
    }
    let c = v[0];
    c == '<' || c == ' ' || c == '\t' || c == '\n' || c == '\u{c}' || c == '\r'
}

impl Error {
    pub fn exit_code(&self) -> (r: i32)
        ensures
            r == exit_code_spec(*self),
            2 <= r <= 7,
    {
        match self {
            Error::Config(_) | Error::Usage(_) | Error::FieldResolve(_) => 2,
            Error::Api(_) => 3,
            Error::Network(_) => 4,
            Error::Auth(_) => 5,
            Error::NotFound { .. } => 6,
            Error::Serialization(_) | Error::Io(_) => 7,
        }
    }

    pub fn kind(&self) -> (r: &'static str)
        ensures
            r@ == kind_spec(*self),
    {
        match self {
            Error::Config(_) => "config",
            Error::Usage(_) => "usage",
            Error::Auth(_) => "auth",
            Error::NotFound { .. } => "not_found",
            Error::Api(_) => "api_error",
            Error::Network(_) => "network",
            Error::Serialization(_) => "serialization",
            Error::FieldResolve(_) => "field_resolve",
            Error::Io(_) => "io",
        }
    }

    /// The text `Display` prints for this error.
    pub fn message(&self) -> (r: String)
        ensures
            r@ == message_spec(*self),
    {
        match self {
            Error::Config(m) => concat2("config: ", m.as_str()),
            Error::Usage(m) => concat2("usage: ", m.as_str()),
            Error::Auth(a) => concat2("auth: ", a.text()),
            Error::NotFound { resource, key } => concat3(resource.as_str(), " not found: ", key.as_str()),
            Error::Api(b) => {
                let d = decimal_string(b.status as u64);
                concat3("api error (status ", d.as_str(), ")")
            },
            Error::Network(m) => concat2("network: ", m.as_str()),
            Error::Serialization(m) => concat2("serialization: ", m.as_str()),
            Error::FieldResolve(f) => {
                let t = f.message();
                concat2("field: ", t.as_str())
            },
            Error::Io(m) => concat2("io: ", m.as_str()),
        }
    }

    /// Actionable hint for common cases; `None` when no hint beats a generic one.
    pub fn hint(&self) -> (r: Option<String>)
        ensures
            match hint_spec(*self) {
                Some(h) => r matches Some(s) && s@ == h,
                None => r is None,
            },
    {
        match self {
            Error::Auth(AuthError::Unauthorized) => Some(
                "Verify JIRA_USER / JIRA_PASSWORD, or regenerate cookie via `jira-cli session new`".to_owned(),
            ),
            Error::Auth(AuthError::Forbidden) => Some(
                "The account authenticated successfully but lacks permission for this resource".to_owned(),
            ),
            Error::Auth(AuthError::CaptchaRequired) => Some(
                "Log into Jira once via browser to clear CAPTCHA, then retry. Alternatively switch to cookie auth with JIRA_AUTH_METHOD=cookie.".to_owned(),
            ),
            Error::Auth(AuthError::CookieExpired) => Some(
                "Re-run `jira-cli session new` to obtain a fresh JSESSIONID".to_owned(),
            ),
            Error::NotFound { resource, .. } => Some(
                concat3("Verify the ", resource.as_str(), " exists or check permissions with `jira-cli whoami`"),
            ),
            Error::Config(_) => Some("Ensure JIRA_URL is set and valid".to_owned()),
            Error::Api(body) => {
                if looks_like_non_json_fallback(body) {
                    Some(
                        "non-JSON response from Jira; verify JIRA_URL points at the API root and auth is valid".to_owned(),
                    )
                } else {
                    None
                }
            },
            _ => None,
        }
    }
}


// ---------------------------------------------------------------------
// Building a body from a response
// ---------------------------------------------------------------------

/// What `String::from_utf8_lossy` decodes `bytes` to.
pub uninterp spec fn lossy_utf8(bytes: Seq<u8>) -> Seq<char>;

/// `String::from_utf8_lossy`: decodes UTF-8, putting U+FFFD in place of
/// invalid sequences; valid UTF-8 decodes exactly.
#[verifier::external_body]
fn utf8_lossy(bytes: &[u8]) -> (s: String)
    ensures
        s@ == lossy_utf8(bytes@),
        valid_utf8(bytes@) ==> s@ == decode_utf8(bytes@),
{
    String::from_utf8_lossy(bytes).into_owned()
}

/// The strings of an array whose items are all strings.
pub open spec fn string_items(v: JsonV) -> Option<Seq<Seq<char>>> {
    match v {
        JsonV::Array(a) => if forall|i: int| 0 <= i < a.len() ==> #[trigger] a[i] is Str {
            Some(a.map_values(|x: JsonV| x->Str_0))
        } else {
            None
        },
        _ => None,
    }
}

/// The (key, string) members of an object whose values are all strings.
pub open spec fn string_members(v: JsonV) -> Option<Seq<(Seq<char>, Seq<char>)>> {
    match v {
        JsonV::Object(o) => if forall|i: int| 0 <= i < o.len() ==> #[trigger] o[i].1 is Str {
            Some(o.map_values(|e: (Seq<char>, JsonV)| (e.0, e.1->Str_0)))
        } else {
            None
        },
        _ => None,
    }
}

/// An absent member reads as `d`; a present one must be of the right shape.
pub open spec fn member_or<T>(m: Option<JsonV>, read: spec_fn(JsonV) -> Option<T>, d: T) -> Option<T> {
    match m {
        None => Some(d),
        Some(x) => read(x),
    }
}

/// Reading a Jira error document as `{errorMessages: [string], errors: {string: string}}`
/// with both members optional (an array of at most two items in that order is
/// accepted too, as serde does for structs).
pub open spec fn error_fields(doc: JsonV) -> Option<(Seq<Seq<char>>, Seq<(Seq<char>, Seq<char>)>)> {
    let (m, e) = match doc {
        JsonV::Object(o) => (
            member_or(lookup(o, "errorMessages"@), |x: JsonV| string_items(x), Seq::empty()),
            member_or(lookup(o, "errors"@), |x: JsonV| string_members(x), Seq::empty()),
        ),
        JsonV::Array(a) => if a.len() <= 2 {
            (
                if a.len() >= 1 { string_items(a[0]) } else { Some(Seq::empty()) },
                if a.len() >= 2 { string_members(a[1]) } else { Some(Seq::empty()) },
            )
        } else {
            (None, None)
        },
        _ => (None, None),
    };
    match (m, e) {
        (Some(m), Some(e)) => Some((m, e)),
        _ => None,
    }
}

/// The map that inserting `pairs` in order yields.
pub open spec fn pairs_map(pairs: Seq<(Seq<char>, Seq<char>)>) -> Map<Seq<char>, Seq<char>>
    decreases pairs.len(),
{
    if pairs.len() == 0 {
        Map::empty()
    } else {
        pairs_map(pairs.drop_last()).insert(pairs.last().0, pairs.last().1)
    }
}

/// At most the first 200 characters.
pub open spec fn excerpt(s: Seq<char>) -> Seq<char> {
    if s.len() <= 200 { s } else { s.subrange(0, 200) }
}

fn string_items_exec(v: &Json) -> (r: Option<Vec<String>>)
    ensures
        match string_items(v@) {
            Some(items) => r matches Some(x) && x@.map_values(|s: String| s@) == items,
            None => r is None,
        },
{
    match v {
        Json::Array(a) => {
            proof {
                lemma_array_view(*v);
            }
            let ghost av = a@.map_values(|x: Json| x@);
            let mut out: Vec<String> = Vec::new();
            let mut i: usize = 0;
            while i < a.len()
                invariant
                    i <= a@.len(),
                    av == a@.map_values(|x: Json| x@),
                    v@ == JsonV::Array(av),
                    forall|j: int| 0 <= j < i ==> (#[trigger] av[j]) is Str,
                    out@.map_values(|s: String| s@) == av.subrange(0, i as int).map_values(|x: JsonV| x->Str_0),
                decreases a@.len() - i,
            {
                let item = &a[i];
                assert(av[i as int] == item@);
                match item {
                    Json::Str(s) => {
                        let ghost before = out@;
                        let sc = s.clone();
                        out.push(sc);
                        assert(out@.map_values(|s: String| s@) =~= av.subrange(0, i + 1).map_values(|x: JsonV| x->Str_0)) by {
                            assert(item@ == JsonV::Str(s@));
                            assert(sc@ == s@);
                            assert(out@ == before.push(sc));
                            assert(av.subrange(0, i + 1) =~= av.subrange(0, i as int).push(av[i as int]));
                            assert(out@.map_values(|s: String| s@) =~= before.map_values(|s: String| s@).push(sc@));
                        }
                    },
                    _ => {
                        assert(!(av[i as int] is Str));
                        return None;
                    },
                }
                i += 1;
            }
            assert(av.subrange(0, a@.len() as int) =~= av);
            Some(out)
        },
        _ => None,
    }
}

fn string_members_exec(v: &Json) -> (r: Option<StrMap>)
    ensures
        match string_members(v@) {
            Some(ms) => r matches Some(x) && x@ == pairs_map(ms),
            None => r is None,
        },
{
    match v {
        Json::Object(o) => {
            proof {
                lemma_object_view(*v);
            }
            let ghost ov = entries_view(o@);
            let ghost ms = ov.map_values(|e: (Seq<char>, JsonV)| (e.0, e.1->Str_0));
            let mut out = StrMap::new();
            let mut i: usize = 0;
            while i < o.len()
                invariant
                    i <= o@.len(),
                    ov == entries_view(o@),
                    v@ == JsonV::Object(ov),
                    ms == ov.map_values(|e: (Seq<char>, JsonV)| (e.0, e.1->Str_0)),
                    forall|j: int| 0 <= j < i ==> (#[trigger] ov[j]).1 is Str,
                    out@ == pairs_map(ms.subrange(0, i as int)),
                decreases o@.len() - i,
            {
                let item = &o[i].1;
                assert(ov[i as int].1 == item@);
                match item {
                    Json::Str(s) => {
                        proof {
                            assert(item@ == JsonV::Str(s@));
                            assert(ms.subrange(0, i + 1).drop_last() =~= ms.subrange(0, i as int));
                        }
                        out.insert(o[i].0.clone(), s.clone());
                    },
                    _ => {
                        assert(!(item@ is Str));
                        return None;
                    },
                }
                i += 1;
            }
            assert(ms.subrange(0, o@.len() as int) =~= ms);
            Some(out)
        },
        _ => None,
    }
}

impl ApiErrorBody {
    /// `b` is what `from_bytes` makes of a response with this status, request
    /// id and body.
    pub open spec fn read_from(b: ApiErrorBody, status: u16, request_id: Option<Seq<char>>, bytes: Seq<u8>) -> bool {
        &&& b.status == status
        &&& (match b.request_id { Some(x) => Some(x@), None => None }) == request_id
        &&& match (match json_document(bytes) { Some(d) => error_fields(d), None => None }) {
            Some((m, e)) => b.error_messages@.map_values(|s: String| s@) == m && b.errors@ == pairs_map(e),
            None => b.error_messages@.len() == 1 && b.error_messages@[0]@ == excerpt(lossy_utf8(bytes))
                && b.errors@ == Map::<Seq<char>, Seq<char>>::empty(),
        }
    }

    /// The body for a response: the fields of the JSON document `doc` (what
    /// the response body parsed to, if it parsed) when it has the shape of a
    /// Jira error; otherwise a single message holding the first 200 characters
    /// of the raw text. A clean parse is kept as is, empty lists included.
    pub fn from_document(status: u16, request_id: Option<String>, doc: Option<&Json>, bytes: &[u8]) -> (b: ApiErrorBody)
        ensures
            b.status == status,
            b.request_id == request_id,
            match (match doc { Some(d) => error_fields(d@), None => None }) {
                Some((m, e)) => b.error_messages@.map_values(|s: String| s@) == m && b.errors@ == pairs_map(e),
                None => b.error_messages@.len() == 1 && b.error_messages@[0]@ == excerpt(lossy_utf8(bytes@))
                    && b.errors@ == Map::<Seq<char>, Seq<char>>::empty(),
            },
    {
        let parsed: Option<(Vec<String>, StrMap)> = match doc {
            Some(d) => Self::fields_of(d),
            None => None,
        };
        match parsed {
            Some((m, e)) => ApiErrorBody { status, error_messages: m, errors: e, request_id },
            None => {
                let txt = utf8_lossy(bytes);
                let v = chars_of(txt.as_str());
                let n = if v.len() <= 200 { v.len() } else { 200 };
                let ex = string_of_range(&v, 0, n);
                proof {
                    if v@.len() <= 200 {
                        assert(v@.subrange(0, n as int) =~= v@);
                    }
                }
                let mut msgs: Vec<String> = Vec::new();
                msgs.push(ex);
                ApiErrorBody { status, error_messages: msgs, errors: StrMap::new(), request_id }
            },
        }
    }

    /// Parse a Jira error body: the fields of the JSON document the bytes
    /// hold when it has the shape of a Jira error (`{"errorMessages":[],
    /// "errors":{}}` included); otherwise a single message with the first 200
    /// characters of the text (Jira can answer with HTML from a proxy or a
    /// login page). The document is read through `serde_json::Value`, whose
    /// objects keep the last of repeated members: a body that repeats
    /// `errorMessages` or `errors` is read with that last member rather than
    /// refused.
    pub fn from_bytes(status: u16, request_id: Option<String>, bytes: &[u8]) -> (b: ApiErrorBody)
        ensures
            b.request_id == request_id,
            ApiErrorBody::read_from(b, status, match request_id { Some(x) => Some(x@), None => None }, bytes@),
    {
        let doc = parse_json_slice(bytes);
        let d: Option<&Json> = match &doc {
            Some(j) => Some(j),
            None => None,
        };
        Self::from_document(status, request_id, d, bytes)
    }

    fn fields_of(d: &Json) -> (r: Option<(Vec<String>, StrMap)>)
        ensures
            match error_fields(d@) {
                Some((m, e)) => r matches Some((x, y)) && x@.map_values(|s: String| s@) == m && y@ == pairs_map(e),
                None => r is None,
            },
    {
        match d {
            Json::Object(o) => {
                proof {
                    lemma_object_view(*d);
                }
                let m = match d.get("errorMessages") {
                    Some(x) => string_items_exec(x),
                    None => Some(Vec::new()),
                };
                let e = match d.get("errors") {
                    Some(x) => string_members_exec(x),
                    None => Some(StrMap::new()),
                };
                proof {
                    reveal_strlit("errorMessages");
                    reveal_strlit("errors");
                }
                match (m, e) {
                    (Some(m), Some(e)) => {
                        proof {
                            if lookup(entries_view(o@), "errorMessages"@) is None {
                                assert(m@.map_values(|s: String| s@) =~= Seq::<Seq<char>>::empty());
                            }
                        }
                        Some((m, e))
                    },
                    _ => None,
                }
            },
            Json::Array(a) => {
                proof {
                    lemma_array_view(*d);
                }
                if a.len() > 2 {
                    return None;
                }
                let m = if a.len() >= 1 { string_items_exec(&a[0]) } else { Some(Vec::new()) };
                let e = if a.len() >= 2 { string_members_exec(&a[1]) } else { Some(StrMap::new()) };
                match (m, e) {
                    (Some(m), Some(e)) => {
                        proof {
                            if a@.len() == 0 {
                                assert(m@.map_values(|s: String| s@) =~= Seq::<Seq<char>>::empty());
                            }
                        }
                        Some((m, e))
                    },
                    _ => None,
                }
            },
            _ => None,
        }
    }
}


// ---------------------------------------------------------------------
// The JSON written to stderr
// ---------------------------------------------------------------------

/// An object of string members, one per entry of `m`, in the map's order.
pub open spec fn string_map_json(pairs: Seq<(Seq<char>, Seq<char>)>) -> JsonV {
    JsonV::Object(pairs.map_values(|p: (Seq<char>, Seq<char>)| (p.0, JsonV::Str(p.1))))
}

pub fn map_to_json(m: &StrMap) -> (r: Json)
    ensures
        r@ == string_map_json(m.pairs_view()),
{
    let pairs = m.to_pairs();
    let mut out: Vec<(String, Json)> = Vec::new();
    let mut i: usize = 0;
    while i < pairs.len()
        invariant
            i <= pairs@.len(),
            out@.len() == i,
            forall|j: int| 0 <= j < i ==> (#[trigger] out@[j]).0@ == pairs@[j].0@ && out@[j].1@ == JsonV::Str(pairs@[j].1@),
        decreases pairs@.len() - i,
    {
        out.push((pairs[i].0.clone(), Json::Str(pairs[i].1.clone())));
        i += 1;
    }
    let r = Json::Object(out);
    proof {
        lemma_object_view(r);
        assert(entries_view(out@) =~= pair_views(pairs@).map_values(|p: (Seq<char>, Seq<char>)| (p.0, JsonV::Str(p.1))));
    }
    r
}

/// The members of the `error` object, in the order they are added.
pub open spec fn stderr_members(e: Error) -> Entries {
    let base = seq![("kind"@, JsonV::Str(kind_spec(e))), ("message"@, JsonV::Str(message_spec(e)))];
    let with_api = match e {
        Error::Api(b) => {
            let s = base + seq![
                ("status"@, JsonV::Number(decimal(b.status as nat))),
                ("errorMessages"@, JsonV::Array(b.error_messages@.map_values(|m: String| JsonV::Str(m@)))),
                ("errors"@, string_map_json(b.errors.pairs_view())),
            ];
            match b.request_id {
                Some(rid) => s.push(("request_id"@, JsonV::Str(rid@))),
                None => s,
            }
        },
        _ => base,
    };
    match hint_spec(e) {
        Some(h) => with_api.push(("hint"@, JsonV::Str(h))),
        None => with_api,
    }
}

/// The `error` object: kind and message, the body's fields for an API
/// error, and the hint when there is one.
pub open spec fn stderr_error_spec(e: Error) -> JsonV {
    JsonV::Object(put_all(Seq::empty(), stderr_members(e)))
}

/// `{"error": {...}}`.
pub open spec fn stderr_json_spec(e: Error) -> JsonV {
    JsonV::Object(seq![("error"@, stderr_error_spec(e))])
}

impl Error {
    /// The single-line JSON object written to stderr.
    pub fn to_stderr_json(&self) -> (r: Json)
        ensures
            r@ == stderr_json_spec(*self),
    {
        Json::object1("error", self.error_json())
    }

    /// The `error` member of `to_stderr_json`.
    pub fn error_json(&self) -> (r: Json)
        ensures
            r@ == stderr_error_spec(*self),
    {
        let mut members: Vec<(String, Json)> = Vec::new();
        let k = self.kind();
        members.push(("kind".to_owned(), Json::string(k)));
        let m = self.message();
        members.push(("message".to_owned(), Json::Str(m)));
        let ghost base = entries_view(members@);
        proof {
            assert(base =~= seq![("kind"@, JsonV::Str(kind_spec(*self))), ("message"@, JsonV::Str(message_spec(*self)))]);
        }
        match self {
            Error::Api(b) => {
                members.push(("status".to_owned(), Json::uint(b.status as u64)));
                members.push(("errorMessages".to_owned(), Json::string_array(&b.error_messages)));
                members.push(("errors".to_owned(), map_to_json(&b.errors)));
                match &b.request_id {
                    Some(rid) => members.push(("request_id".to_owned(), Json::Str(rid.clone()))),
                    None => {},
                }
            },
            _ => {},
        }
        match self.hint() {
            Some(h) => members.push(("hint".to_owned(), Json::Str(h))),
            None => {},
        }
        proof {
            assert(entries_view(members@) =~= stderr_members(*self));
        }
        object_of(members)
    }
}


/// The keys of the `error` object's members, in order.
spec fn stderr_keys(e: Error) -> Seq<Seq<char>> {
    let base = seq!["kind"@, "message"@];
    let with_api = match e {
        Error::Api(b) => {
            let s = base + seq!["status"@, "errorMessages"@, "errors"@];
            match b.request_id {
                Some(_) => s.push("request_id"@),
                None => s,
            }
        },
        _ => base,
    };
    match hint_spec(e) {
        Some(_) => with_api.push("hint"@),
        None => with_api,
    }
}

proof fn lemma_stderr_keys(e: Error)
    ensures
        stderr_members(e).len() == stderr_keys(e).len(),
        forall|i: int| 0 <= i < stderr_keys(e).len() ==> (#[trigger] stderr_members(e)[i]).0 == stderr_keys(e)[i],
{
    let keys = stderr_members(e).map_values(|p: (Seq<char>, JsonV)| p.0);
    assert(keys =~= stderr_keys(e));
    assert forall|i: int| 0 <= i < stderr_keys(e).len() implies (#[trigger] stderr_members(e)[i]).0 == stderr_keys(e)[i] by {
        assert(keys[i] == stderr_members(e)[i].0);
    }
}

/// No two members of the `error` object share a key, and only the hint is
/// stored under `hint`.
#[verifier::spinoff_prover]
proof fn lemma_stderr_keys_distinct(e: Error)
    ensures
        keys_distinct(stderr_members(e)),
        forall|i: int| 0 <= i < stderr_members(e).len() - 1 ==> (#[trigger] stderr_members(e)[i]).0 != "hint"@,
        hint_spec(e) is None ==> forall|i: int| 0 <= i < stderr_members(e).len() ==> (#[trigger] stderr_members(e)[i]).0 != "hint"@,
{
    reveal_strlit("kind");
    reveal_strlit("message");
    reveal_strlit("status");
    reveal_strlit("errorMessages");
    reveal_strlit("errors");
    reveal_strlit("request_id");
    reveal_strlit("hint");
    assert("kind"@[0] != "hint"@[0]);
    assert("status"@[0] != "errors"@[0]);
    lemma_stderr_keys(e);
    let m = stderr_members(e);
    let k = stderr_keys(e);
    assert forall|i: int, j: int| 0 <= i < j < m.len() implies (#[trigger] m[i]).0 != (#[trigger] m[j]).0 by {
        assert(m[i].0 == k[i] && m[j].0 == k[j]);
    }
    assert forall|i: int| 0 <= i < m.len() - 1 implies (#[trigger] m[i]).0 != "hint"@ by {
        assert(m[i].0 == k[i]);
    }
    if hint_spec(e) is None {
        assert forall|i: int| 0 <= i < m.len() implies (#[trigger] m[i]).0 != "hint"@ by {
            assert(m[i].0 == k[i]);
        }
    }
}

/// An error is written to stderr as `{"error": {...}}`: the inner object
/// starts with the error's `kind` and `message`, and its `hint` member is the
/// error's hint when it has one and absent when it has none.
pub proof fn lemma_stderr_shape(e: Error)
    ensures
        stderr_json_spec(e) == JsonV::Object(seq![("error"@, JsonV::Object(stderr_members(e)))]),
        stderr_members(e).len() >= 2,
        stderr_members(e)[0] == ("kind"@, JsonV::Str(kind_spec(e))),
        stderr_members(e)[1] == ("message"@, JsonV::Str(message_spec(e))),
        lookup(stderr_members(e), "hint"@) == match hint_spec(e) {
            Some(h) => Some(JsonV::Str(h)),
            None => None::<JsonV>,
        },
{
    let m = stderr_members(e);
    lemma_stderr_keys_distinct(e);
    lemma_put_all_distinct(m);
    match hint_spec(e) {
        Some(h) => {
            let last = m.len() - 1;
            assert(m[last] == ("hint"@, JsonV::Str(h)));
            lemma_find_key_first(m, "hint"@, last);
        },
        None => {},
    }
}


/// The `error` object of an API error carries the body: `status`,
/// `errorMessages` and `errors` always, `request_id` exactly when the body
/// has one.
pub proof fn lemma_stderr_api_members(b: ApiErrorBody)
    ensures
        ({
            let m = stderr_members(Error::Api(b));
            &&& lookup(m, "status"@) == Some(JsonV::Number(decimal(b.status as nat)))
            &&& lookup(m, "errorMessages"@) == Some(JsonV::Array(b.error_messages@.map_values(|x: String| JsonV::Str(x@))))
            &&& lookup(m, "errors"@) == Some(string_map_json(b.errors.pairs_view()))
            &&& lookup(m, "request_id"@) == match b.request_id {
                Some(rid) => Some(JsonV::Str(rid@)),
                None => None::<JsonV>,
            }
        }),
{
    let e = Error::Api(b);
    let m = stderr_members(e);
    lemma_stderr_keys_distinct(e);
    lemma_stderr_keys(e);
    assert(m[2] == ("status"@, JsonV::Number(decimal(b.status as nat))));
    assert(m[3] == ("errorMessages"@, JsonV::Array(b.error_messages@.map_values(|x: String| JsonV::Str(x@)))));
    assert(m[4] == ("errors"@, string_map_json(b.errors.pairs_view())));
    lemma_lookup_distinct(m, 2);
    lemma_lookup_distinct(m, 3);
    lemma_lookup_distinct(m, 4);
    match b.request_id {
        Some(rid) => {
            assert(m[5] == ("request_id"@, JsonV::Str(rid@)));
            lemma_lookup_distinct(m, 5);
        },
        None => {
            reveal_strlit("kind");
            reveal_strlit("message");
            reveal_strlit("status");
            reveal_strlit("errorMessages");
            reveal_strlit("errors");
            reveal_strlit("request_id");
            reveal_strlit("hint");
            assert forall|i: int| 0 <= i < m.len() implies (#[trigger] m[i]).0 != "request_id"@ by {
                assert(m[i].0 == stderr_keys(e)[i]);
            }
        },
    }
}


/// The stderr line of an error, member by member: `error` holds `kind` and
/// `message`, `hint` exactly when the error has one, and for an API error
/// the body's `status`, `errorMessages`, `errors` and, when present,
/// `request_id`.
pub proof fn lemma_stderr_json_members(e: Error)
    ensures
        ({
            let inner = JsonV::Object(stderr_members(e));
            &&& crate::json::member(stderr_json_spec(e), "error"@) == Some(inner)
            &&& crate::json::member(inner, "kind"@) == Some(JsonV::Str(kind_spec(e)))
            &&& crate::json::member(inner, "message"@) == Some(JsonV::Str(message_spec(e)))
            &&& crate::json::member(inner, "hint"@) == match hint_spec(e) {
                Some(h) => Some(JsonV::Str(h)),
                None => None::<JsonV>,
            }
            &&& (e matches Error::Api(b) ==> {
                &&& crate::json::member(inner, "status"@) == Some(JsonV::Number(decimal(b.status as nat)))
                &&& crate::json::member(inner, "errorMessages"@)
                    == Some(JsonV::Array(b.error_messages@.map_values(|x: String| JsonV::Str(x@))))
                &&& crate::json::member(inner, "errors"@) == Some(string_map_json(b.errors.pairs_view()))
                &&& crate::json::member(inner, "request_id"@) == match b.request_id {
                    Some(rid) => Some(JsonV::Str(rid@)),
                    None => None::<JsonV>,
                }
            })
        }),
{
    let m = stderr_members(e);
    lemma_stderr_shape(e);
    lemma_stderr_keys_distinct(e);
    lemma_lookup_distinct(m, 0);
    lemma_lookup_distinct(m, 1);
    let top: Entries = seq![("error"@, JsonV::Object(m))];
    assert(keys_distinct(top));
    lemma_lookup_distinct(top, 0);
    match e {
        Error::Api(b) => lemma_stderr_api_members(b),
        _ => {},
    }
}


/// The exit code table: 2 for configuration, usage and field errors, 3 for
/// Jira business (API) errors, 4 for network failures, 5 for authentication,
/// 6 for not found, 7 for serialization and I/O; each code means exactly its
/// kind of failure.
pub proof fn lemma_exit_code_table(e: Error)
    ensures
        exit_code_spec(e) == 2 <==> (e is Config || e is Usage || e is FieldResolve),
        exit_code_spec(e) == 3 <==> e is Api,
        exit_code_spec(e) == 4 <==> e is Network,
        exit_code_spec(e) == 5 <==> e is Auth,
        exit_code_spec(e) == 6 <==> e is NotFound,
        exit_code_spec(e) == 7 <==> (e is Serialization || e is Io),
{
}

} // verus!
