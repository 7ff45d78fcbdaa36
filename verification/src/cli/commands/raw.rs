//! `raw <METHOD> <PATH>`: arbitrary Jira endpoints with the client's auth
//! and error handling.

use vstd::prelude::*;
use crate::error::Error;
use crate::json::{json_document, parse_json_slice, Json, JsonV};
use crate::text::{all_ascii, to_ascii_upper, concat2, concat3, split_once, split_once_spec, strip_prefix, str_eq, trim, trim_spec, trim_start, trim_start_spec};

verus! {

/// What `str::to_uppercase` yields (full Unicode uppercase mapping).
pub uninterp spec fn unicode_uppercase(s: Seq<char>) -> Seq<char>;

/// `str::to_uppercase`. On ASCII text the Unicode uppercase mapping raises
/// `a`-`z` and leaves every other character as it is.
#[verifier::external_body]
fn to_uppercase(s: &str) -> (r: String)
    ensures
        r@ == unicode_uppercase(s@),
        all_ascii(s@) ==> r@ == s@.map_values(|c: char| to_ascii_upper(c)),
{
    s.to_uppercase()
}

/// A character of an HTTP token (RFC 7230 `tchar`).
pub open spec fn token_char(c: char) -> bool {
    ('0' <= c && c <= '9') || ('A' <= c && c <= 'Z') || ('a' <= c && c <= 'z') || c == '!' || c == '#' || c == '$'
        || c == '%' || c == '&' || c == '\'' || c == '*' || c == '+' || c == '-' || c == '.' || c == '^' || c == '_'
        || c == '`' || c == '|' || c == '~'
}

/// A method name `http::Method::from_bytes` accepts: non-empty, all token
/// characters.
pub open spec fn method_ok(s: Seq<char>) -> bool {
    s.len() > 0 && forall|i: int| 0 <= i < s.len() ==> token_char(#[trigger] s[i])
}

/// `reqwest::Method::from_bytes` of the bytes of `s`: accepts exactly the
/// non-empty strings of token characters; its error reads "invalid HTTP
/// method".
#[verifier::external_body]
fn method_check(s: &str) -> (r: Result<(), String>)
    ensures
        r is Ok <==> method_ok(s@),
        r matches Err(m) ==> m@ == "invalid HTTP method"@,
{
    match reqwest::Method::from_bytes(s.as_bytes()) {
        Ok(_) => Ok(()),
        Err(e) => Err(e.to_string()),
    }
}

/// The method to send: `method` uppercased, when it is a valid method name.
pub fn raw_method(method: &str) -> (r: Result<String, Error>)
    ensures
        method_ok(unicode_uppercase(method@)) ==> (r matches Ok(m) && m@ == unicode_uppercase(method@)),
        !method_ok(unicode_uppercase(method@)) ==> (r matches Err(Error::Usage(m))
            && m@ == "invalid HTTP method '"@ + method@ + "': "@ + "invalid HTTP method"@),
        all_ascii(method@) ==> (r matches Ok(m) ==> m@ == method@.map_values(|c: char| to_ascii_upper(c))),
{
    let up = to_uppercase(method);
    match method_check(up.as_str()) {
        Ok(()) => Ok(up),
        Err(e) => {
            let mut m = concat3("invalid HTTP method '", method, "': ");
            m.append(e.as_str());
            Err(Error::Usage(m))
        },
    }
}

/// Reads are retried: GET, HEAD and OPTIONS.
pub fn is_idempotent(method: &str) -> (b: bool)
    ensures
        b == (method@ == "GET"@ || method@ == "HEAD"@ || method@ == "OPTIONS"@),
{
    str_eq(method, "GET") || str_eq(method, "HEAD") || str_eq(method, "OPTIONS")
}

/// `--query KEY=VALUE` pairs: split at the first `=`, the key trimmed, the
/// value as given; the first malformed one is the error.
pub open spec fn query_spec(raw: Seq<Seq<char>>) -> Result<Seq<(Seq<char>, Seq<char>)>, Seq<char>>
    decreases raw.len(),
{
    if raw.len() == 0 {
        Ok(Seq::empty())
    } else {
        match query_spec(raw.drop_last()) {
            Err(m) => Err(m),
            Ok(q) => match split_once_spec(raw.last(), '=') {
                None => Err("--query expects KEY=VALUE, got: "@ + raw.last()),
                Some((k, v)) => Ok(q.push((trim_spec(k), v))),
            },
        }
    }
}

/// `--header KEY:VALUE` pairs: split at the first `:`, the key trimmed, the
/// value without leading whitespace; the first malformed one is the error.
pub open spec fn header_spec(raw: Seq<Seq<char>>) -> Result<Seq<(Seq<char>, Seq<char>)>, Seq<char>>
    decreases raw.len(),
{
    if raw.len() == 0 {
        Ok(Seq::empty())
    } else {
        match header_spec(raw.drop_last()) {
            Err(m) => Err(m),
            Ok(q) => match split_once_spec(raw.last(), ':') {
                None => Err("--header expects KEY:VALUE, got: "@ + raw.last()),
                Some((k, v)) => Ok(q.push((trim_spec(k), trim_start_spec(v)))),
            },
        }
    }
}

proof fn lemma_pairs_err_sticks(raw: Seq<Seq<char>>, n: int, sep: char)
    requires
        0 < n <= raw.len(),
        sep == '=' ==> query_spec(raw.subrange(0, n)) is Err,
        sep != '=' ==> header_spec(raw.subrange(0, n)) is Err,
    ensures
        sep == '=' ==> query_spec(raw) == query_spec(raw.subrange(0, n)),
        sep != '=' ==> header_spec(raw) == header_spec(raw.subrange(0, n)),
    decreases raw.len() - n,
{
    if n < raw.len() {
        assert(raw.subrange(0, n + 1).drop_last() =~= raw.subrange(0, n));
        lemma_pairs_err_sticks(raw, n + 1, sep);
    } else {
        assert(raw.subrange(0, n) =~= raw);
    }
}

pub open spec fn pair_views(v: Seq<(String, String)>) -> Seq<(Seq<char>, Seq<char>)> {
    v.map_values(|p: (String, String)| (p.0@, p.1@))
}

/// Parse `--query` (with `sep` `=`) or `--header` (with `sep` `:`) arguments.
pub fn parse_pairs(raw: &Vec<String>, sep: char) -> (r: Result<Vec<(String, String)>, Error>)
    requires
        sep == '=' || sep == ':',
    ensures
        match (if sep == '=' { query_spec(raw@.map_values(|s: String| s@)) } else { header_spec(raw@.map_values(|s: String| s@)) }) {
            Ok(q) => r matches Ok(x) && pair_views(x@) == q,
            Err(m) => r matches Err(Error::Usage(x)) && x@ == m,
        },
{
    let ghost all = raw@.map_values(|s: String| s@);
    let mut out: Vec<(String, String)> = Vec::new();
    let mut i: usize = 0;
    proof {
        assert(all.subrange(0, 0) =~= Seq::<Seq<char>>::empty());
        assert(pair_views(out@) =~= Seq::<(Seq<char>, Seq<char>)>::empty());
    }
    while i < raw.len()
        invariant
            i <= raw@.len(),
            sep == '=' || sep == ':',
            all == raw@.map_values(|s: String| s@),
            (if sep == '=' { query_spec(all.subrange(0, i as int)) } else { header_spec(all.subrange(0, i as int)) })
                == Ok::<Seq<(Seq<char>, Seq<char>)>, Seq<char>>(pair_views(out@)),
        decreases raw@.len() - i,
    {
        proof {
            assert(all.subrange(0, i + 1).drop_last() =~= all.subrange(0, i as int));
            assert(all.subrange(0, i + 1).last() == raw@[i as int]@);
        }
        let kv = raw[i].as_str();
        match split_once(kv, sep) {
            None => {
                proof {
                    lemma_pairs_err_sticks(all, i + 1, sep);
                }
                let m = if sep == '=' {
                    concat2("--query expects KEY=VALUE, got: ", kv)
                } else {
                    concat2("--header expects KEY:VALUE, got: ", kv)
                };
                return Err(Error::Usage(m));
            },
            Some((k, v)) => {
                let key = trim(k.as_str());
                let value = if sep == '=' { v } else { trim_start(v.as_str()) };
                let ghost before = out@;
                out.push((key, value));
                proof {
                    assert(pair_views(out@) =~= pair_views(before).push((out@.last().0@, out@.last().1@)));
                }
            },
        }
        i += 1;
    }
    proof {
        assert(all.subrange(0, all.len() as int) =~= all);
    }
    Ok(out)
}

/// Where a request body comes from.
pub enum BodySource {
    Stdin,
    File(String),
    Literal(String),
}

/// `-` is stdin, `@path` a file, anything else the body itself.
pub fn body_source(data: &str) -> (r: BodySource)
    ensures
        data@ == "-"@ ==> r is Stdin,
        data@ != "-"@ && data@.len() > 0 && data@[0] == '@' ==> (r matches BodySource::File(p) && p@ == data@.drop_first()),
        data@ != "-"@ && !(data@.len() > 0 && data@[0] == '@') ==> (r matches BodySource::Literal(b) && b@ == data@),
{
    proof {
        reveal_strlit("@");
    }
    if str_eq(data, "-") {
        return BodySource::Stdin;
    }
    match strip_prefix(data, "@") {
        Some(p) => {
            proof {
                assert(data@.subrange(1, data@.len() as int) =~= data@.drop_first());
                assert(data@.subrange(0, 1)[0] == data@[0]);
                assert("@"@[0] == '@');
            }
            BodySource::File(p)
        },
        None => {
            proof {
                if data@.len() > 0 && data@[0] == '@' {
                    assert(data@.subrange(0, 1) =~= "@"@);
                }
            }
            BodySource::Literal(data.to_owned())
        },
    }
}

/// A request body or a response is sent and shown as JSON when its bytes
/// parse as one JSON document; otherwise it is passed on as raw bytes.
pub fn as_document(bytes: &[u8]) -> (r: Option<Json>)
    ensures
        match json_document(bytes@) {
            Some(d) => r matches Some(j) && j@ == d,
            None => r is None,
        },
{
    parse_json_slice(bytes)
}

} // verus!
