//! `config init`, `config show` and `session new`: the decisions and texts
//! around the prompts and files.

use vstd::prelude::*;
use crate::config::{to_lowercase, unicode_lowercase};
use crate::error::{join, Error};
use crate::json::{entries_view, Json, JsonV};
use crate::text::{chars_of, concat2, concat3, push_char, str_eq, string_of_range};

verus! {

/// TOML basic-string escaping: every `\` doubled, every `"` preceded by `\`.
pub open spec fn escape_toml_spec(s: Seq<char>) -> Seq<char>
    decreases s.len(),
{
    if s.len() == 0 {
        Seq::empty()
    } else {
        let c = s.last();
        escape_toml_spec(s.drop_last()) + if c == '\\' { seq!['\\', '\\'] } else if c == '"' { seq!['\\', '"'] } else { seq![c] }
    }
}

pub fn escape_toml(s: &str) -> (r: String)
    ensures
        r@ == escape_toml_spec(s@),
{
    let v = chars_of(s);
    let mut r = String::new();
    let mut i: usize = 0;
    while i < v.len()
        invariant
            i <= v@.len(),
            v@ == s@,
            r@ == escape_toml_spec(v@.subrange(0, i as int)),
        decreases v@.len() - i,
    {
        proof {
            assert(v@.subrange(0, i + 1).drop_last() =~= v@.subrange(0, i as int));
            assert(v@.subrange(0, i + 1).last() == v@[i as int]);
        }
        let c = v[i];
        let ghost before = r@;
        if c == '\\' {
            push_char(&mut r, '\\');
            push_char(&mut r, '\\');
            assert(r@ =~= before + seq!['\\', '\\']);
        } else if c == '"' {
            push_char(&mut r, '\\');
            push_char(&mut r, '"');
            assert(r@ =~= before + seq!['\\', '"']);
        } else {
            push_char(&mut r, c);
            assert(r@ =~= before + seq![c]);
        }
        i += 1;
    }
    proof {
        assert(v@.subrange(0, v@.len() as int) =~= v@);
    }
    r
}

/// The credentials `config init` writes.
pub enum InitAuth {
    Basic { user: String, password: String },
    Cookie { cookie: String },
}

/// The auth method `config init` uses: `--auth-method` lowercased, `basic`
/// by default.
pub fn init_method(auth_method: Option<&str>) -> (r: String)
    ensures
        r@ == (match auth_method { Some(m) => unicode_lowercase(m@), None => unicode_lowercase("basic"@) }),
{
    match auth_method {
        Some(m) => to_lowercase(m),
        None => to_lowercase("basic"),
    }
}

/// Whether the method asks for a user and password (`Ok(true)`), for a
/// cookie (`Ok(false)`), or is no method at all.
pub fn init_is_basic(method: &str) -> (r: Result<bool, Error>)
    ensures
        method@ == "basic"@ ==> r == Ok::<bool, Error>(true),
        method@ == "cookie"@ ==> r == Ok::<bool, Error>(false),
        method@ != "basic"@ && method@ != "cookie"@ ==> (r matches Err(Error::Usage(m))
            && m@ == "auth-method must be 'basic' or 'cookie', got '"@ + method@ + "'"@),
{
    proof {
        reveal_strlit("basic");
        reveal_strlit("cookie");
        assert("basic"@.len() != "cookie"@.len());
    }
    if str_eq(method, "basic") {
        Ok(true)
    } else if str_eq(method, "cookie") {
        Ok(false)
    } else {
        Err(Error::Usage(concat3("auth-method must be 'basic' or 'cookie', got '", method, "'")))
    }
}

/// `key = "escaped value"`.
pub open spec fn toml_line(key: Seq<char>, value: Seq<char>) -> Seq<char> {
    key + " = \""@ + escape_toml_spec(value) + "\""@
}

fn toml_line_string(key: &str, value: &str) -> (r: String)
    ensures
        r@ == toml_line(key@, value@),
{
    let mut r = concat2(key, " = \"");
    r.append(escape_toml(value).as_str());
    r.append("\"");
    r
}

/// The lines of the config file `config init` writes.
pub open spec fn init_lines(url: Seq<char>, auth: InitAuth, insecure: bool) -> Seq<Seq<char>> {
    let first = seq![toml_line("url"@, url)];
    let with_auth = match auth {
        InitAuth::Basic { user, password } => first + seq![toml_line("user"@, user@), toml_line("password"@, password@)],
        InitAuth::Cookie { cookie } => first + seq!["auth_method = \"cookie\""@, toml_line("session_cookie"@, cookie@)],
    };
    if insecure { with_auth.push("insecure = true"@) } else { with_auth }
}

/// The config file's text: the lines joined by newlines, with a final newline.
pub fn init_content(url: &str, auth: &InitAuth, insecure: bool) -> (r: String)
    ensures
        r@ == join(init_lines(url@, *auth, insecure), "\n"@) + "\n"@,
{
    let mut lines: Vec<String> = Vec::new();
    lines.push(toml_line_string("url", url));
    match auth {
        InitAuth::Basic { user, password } => {
            lines.push(toml_line_string("user", user.as_str()));
            lines.push(toml_line_string("password", password.as_str()));
        },
        InitAuth::Cookie { cookie } => {
            lines.push("auth_method = \"cookie\"".to_owned());
            lines.push(toml_line_string("session_cookie", cookie.as_str()));
        },
    }
    if insecure {
        lines.push("insecure = true".to_owned());
    }
    proof {
        assert(lines@.map_values(|s: String| s@) =~= init_lines(url@, *auth, insecure));
    }
    let mut r = crate::error::join_strings(&lines, "\n");
    r.append("\n");
    r
}

/// The refusal to overwrite an existing config file without `--force`.
pub fn existing_config_error(path: &str) -> (e: Error)
    ensures
        e matches Error::Usage(m) && m@ == "config file already exists at "@ + path@ + "; pass --force to overwrite"@,
{
    Error::Usage(concat3("config file already exists at ", path, "; pass --force to overwrite"))
}

/// Whether `config init` may write the file at `path`: not when a file is
/// already there, unless `--force` is given.
pub fn init_allowed(exists: bool, force: bool, path: &str) -> (r: Result<(), Error>)
    ensures
        (exists && !force) ==> (r matches Err(Error::Usage(m))
            && m@ == "config file already exists at "@ + path@ + "; pass --force to overwrite"@),
        !(exists && !force) ==> r is Ok,
{
    if exists && !force {
        Err(existing_config_error(path))
    } else {
        Ok(())
    }
}

/// `{"ok": true, "path": path, "mode": "0600"}`.
pub fn init_done_json(path: &str) -> (r: Json)
    ensures
        r@ == JsonV::Object(seq![("ok"@, JsonV::Bool(true)), ("path"@, JsonV::Str(path@)), ("mode"@, JsonV::Str("0600"@))]),
{
    let mut e: Vec<(String, Json)> = Vec::new();
    e.push(("ok".to_owned(), Json::Bool(true)));
    e.push(("path".to_owned(), Json::string(path)));
    e.push(("mode".to_owned(), Json::string("0600")));
    proof {
        assert(entries_view(e@) =~= seq![("ok"@, JsonV::Bool(true)), ("path"@, JsonV::Str(path@)), ("mode"@, JsonV::Str("0600"@))]);
    }
    Json::object(e)
}

/// A credential for `session new`: the environment's value, else the
/// configuration's; `None` (prompt for it) when that is missing or empty.
pub fn pick_credential(env: Option<&str>, configured: Option<&str>) -> (r: Option<String>)
    ensures
        match (match env { Some(e) => Some(e@), None => match configured { Some(c) => Some(c@), None => None } }) {
            Some(v) => if v.len() > 0 { r matches Some(x) && x@ == v } else { r is None },
            None => r is None,
        },
{
    let v = match env {
        Some(e) => Some(e),
        None => configured,
    };
    match v {
        Some(s) => {
            if s.is_empty() {
                None
            } else {
                Some(s.to_owned())
            }
        },
        None => None,
    }
}

/// Number of trailing `\r` and `\n` characters.
pub open spec fn trailing_newlines(s: Seq<char>) -> nat
    decreases s.len(),
{
    if s.len() > 0 && (s.last() == '\r' || s.last() == '\n') {
        1 + trailing_newlines(s.drop_last())
    } else {
        0
    }
}

proof fn lemma_trailing_newlines_bound(s: Seq<char>)
    ensures
        trailing_newlines(s) <= s.len(),
    decreases s.len(),
{
    if s.len() > 0 && (s.last() == '\r' || s.last() == '\n') {
        lemma_trailing_newlines_bound(s.drop_last());
    }
}

/// A line read from stdin without its line end; an empty one is a usage
/// error naming the variable that was missing.
pub fn nonempty_input(line: &str, var_name: &str) -> (r: Result<String, Error>)
    ensures
        ({
            let t = line@.subrange(0, line@.len() - trailing_newlines(line@));
            if t.len() > 0 {
                r matches Ok(x) && x@ == t
            } else {
                r matches Err(Error::Usage(m)) && m@ == var_name@ + " not set in env or config, and no input on stdin"@
            }
        }),
{
    let v = chars_of(line);
    let mut n: usize = v.len();
    proof {
        lemma_trailing_newlines_bound(v@);
        assert(v@.subrange(0, v@.len() as int) =~= v@);
    }
    while n > 0 && (v[n - 1] == '\r' || v[n - 1] == '\n')
        invariant
            n <= v@.len(),
            v@ == line@,
            trailing_newlines(v@) == (v@.len() - n) + trailing_newlines(v@.subrange(0, n as int)),
        decreases n,
    {
        proof {
            assert(v@.subrange(0, n as int).drop_last() =~= v@.subrange(0, n - 1));
        }
        n -= 1;
    }
    proof {
        if n > 0 {
            assert(v@.subrange(0, n as int).last() == v@[n - 1]);
        }
    }
    if n == 0 {
        Err(Error::Usage(concat2(var_name, " not set in env or config, and no input on stdin")))
    } else {
        Ok(string_of_range(&v, 0, n))
    }
}

/// `{"ok": true, "cookie": "name=value", "name": name, "value": value}`.
pub fn session_json(info: &crate::api::session::SessionInfo) -> (r: Json)
    ensures
        r@ == JsonV::Object(seq![
            ("ok"@, JsonV::Bool(true)),
            ("cookie"@, JsonV::Str(info.name@ + "="@ + info.value@)),
            ("name"@, JsonV::Str(info.name@)),
            ("value"@, JsonV::Str(info.value@)),
        ]),
{
    let mut e: Vec<(String, Json)> = Vec::new();
    e.push(("ok".to_owned(), Json::Bool(true)));
    e.push(("cookie".to_owned(), Json::Str(info.cookie_header())));
    e.push(("name".to_owned(), Json::Str(info.name.clone())));
    e.push(("value".to_owned(), Json::Str(info.value.clone())));
    proof {
        assert(entries_view(e@) =~= seq![
            ("ok"@, JsonV::Bool(true)),
            ("cookie"@, JsonV::Str(info.name@ + "="@ + info.value@)),
            ("name"@, JsonV::Str(info.name@)),
            ("value"@, JsonV::Str(info.value@)),
        ]);
    }
    Json::object(e)
}

} // verus!
