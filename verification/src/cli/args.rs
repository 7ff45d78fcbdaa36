//! Shared command-line arguments: global flags, `--field-alias` and `--set`.

use vstd::prelude::*;
use crate::error::Error;
use crate::json::{json_text, parse_json_str, Json, JsonV};
use crate::output::{csv_spec, parse_field_list, Format, OutputOptions};
use crate::strmap::StrMap;
use crate::text::{concat2, split_once, split_once_spec, strip_prefix, str_eq, trim, trim_spec};

verus! {

pub struct GlobalArgs {
    /// Logging verbosity (-v info, -vv debug, -vvv trace).
    pub verbose: u8,
    /// Output format (default: json; list/search/bulk use jsonl).
    pub output: Option<FormatArg>,
    /// Pretty-print JSON output (ignored for JSONL).
    pub pretty: bool,
    /// Comma-separated dot-path keys to project.
    pub fields: Option<String>,
    /// Override of JIRA_TIMEOUT in seconds.
    pub timeout: Option<u64>,
    /// Skip TLS verification.
    pub insecure: bool,
    /// Field aliases `NAME=ID`; they override the config file's.
    pub field_alias: Vec<String>,
}

#[derive(Debug, Clone, Copy, PartialEq, Eq, Structural)]
pub enum FormatArg {
    Json,
    Jsonl,
}

pub open spec fn format_of(f: FormatArg) -> Format {
    match f {
        FormatArg::Json => Format::Json,
        FormatArg::Jsonl => Format::Jsonl,
    }
}

impl From<FormatArg> for Format {
    fn from(f: FormatArg) -> (r: Format) {
        match f {
            FormatArg::Json => Format::Json,
            FormatArg::Jsonl => Format::Jsonl,
        }
    }
}

impl vstd::std_specs::convert::FromSpecImpl<FormatArg> for Format {
    open spec fn obeys_from_spec() -> bool {
        true
    }

    open spec fn from_spec(f: FormatArg) -> Format {
        format_of(f)
    }
}

/// `--field-alias` entries, read: each must be `NAME=ID` (split at the first
/// `=`) with both sides non-empty after trimming; a later entry for the same
/// name wins. `Err` carries the message of the first bad entry.
pub open spec fn aliases_spec(raw: Seq<Seq<char>>) -> Result<Map<Seq<char>, Seq<char>>, Seq<char>>
    decreases raw.len(),
{
    if raw.len() == 0 {
        Ok(Map::empty())
    } else {
        match aliases_spec(raw.drop_last()) {
            Err(m) => Err(m),
            Ok(m) => match split_once_spec(raw.last(), '=') {
                None => Err("--field-alias expects NAME=ID, got: "@ + raw.last()),
                Some((k, v)) => {
                    let k = trim_spec(k);
                    let v = trim_spec(v);
                    if k.len() == 0 || v.len() == 0 {
                        Err("--field-alias NAME and ID must both be non-empty"@)
                    } else {
                        Ok(m.insert(k, v))
                    }
                },
            },
        }
    }
}

impl GlobalArgs {
    /// The `--fields` list, parsed.
    pub fn field_list(&self) -> (r: Option<Vec<String>>)
        ensures
            match self.fields {
                Some(f) => r matches Some(v) && v@.map_values(|s: String| s@) == csv_spec(f@, ','),
                None => r is None,
            },
    {
        match &self.fields {
            Some(f) => Some(parse_field_list(f.as_str())),
            None => None,
        }
    }

    /// Parse `--field-alias NAME=ID` arguments into a map. Errors on malformed
    /// entries.
    pub fn parse_field_aliases(&self) -> (r: Result<StrMap, Error>)
        ensures
            match aliases_spec(self.field_alias@.map_values(|s: String| s@)) {
                Ok(m) => r matches Ok(x) && x@ == m,
                Err(msg) => r matches Err(Error::Usage(x)) && x@ == msg,
            },
    {
        let ghost all = self.field_alias@.map_values(|s: String| s@);
        let mut out = StrMap::new();
        let mut i: usize = 0;
        while i < self.field_alias.len()
            invariant
                i <= self.field_alias@.len(),
                all == self.field_alias@.map_values(|s: String| s@),
                aliases_spec(all.subrange(0, i as int)) == Ok::<Map<Seq<char>, Seq<char>>, Seq<char>>(out@),
            decreases self.field_alias@.len() - i,
        {
            proof {
                assert(all.subrange(0, i + 1).drop_last() =~= all.subrange(0, i as int));
                assert(all.subrange(0, i + 1).last() == self.field_alias@[i as int]@);
            }
            let raw = self.field_alias[i].as_str();
            match split_once(raw, '=') {
                None => {
                    proof {
                        lemma_aliases_err_sticks(all, i + 1);
                    }
                    return Err(Error::Usage(concat2("--field-alias expects NAME=ID, got: ", raw)));
                },
                Some((k, v)) => {
                    let k = trim(k.as_str());
                    let v = trim(v.as_str());
                    if k.as_str().is_empty() || v.as_str().is_empty() {
                        proof {
                            lemma_aliases_err_sticks(all, i + 1);
                        }
                        return Err(Error::Usage("--field-alias NAME and ID must both be non-empty".to_owned()));
                    }
                    out.insert(k, v);
                },
            }
            i += 1;
        }
        proof {
            assert(all.subrange(0, all.len() as int) =~= all);
        }
        Ok(out)
    }

    /// The output options for a command whose default format is
    /// `default_format`: `--output` wins, `--pretty` as given, no renames.
    pub fn output_options(&self, default_format: Format, fields: Option<Vec<String>>) -> (r: OutputOptions)
        ensures
            r.format == (match self.output { Some(f) => format_of(f), None => default_format }),
            r.pretty == self.pretty,
            r.fields == fields,
            r.renames is None,
    {
        let format = match self.output {
            Some(f) => Format::from(f),
            None => default_format,
        };
        OutputOptions { format, pretty: self.pretty, fields, renames: None }
    }

    /// `output_options` with key renames applied before projection.
    pub fn output_options_with_renames(&self, default_format: Format, fields: Option<Vec<String>>, renames: Option<StrMap>) -> (r: OutputOptions)
        ensures
            r.format == (match self.output { Some(f) => format_of(f), None => default_format }),
            r.pretty == self.pretty,
            r.fields == fields,
            r.renames == renames,
    {
        let mut o = self.output_options(default_format, fields);
        o.renames = renames;
        o
    }
}

/// A well-formed `--field-alias` entry: `NAME=ID` with both sides nonempty
/// after trimming.
pub open spec fn alias_entry_ok(r: Seq<char>) -> bool {
    split_once_spec(r, '=') matches Some((k, v)) && trim_spec(k).len() > 0 && trim_spec(v).len() > 0
}

/// The trimmed name of a well-formed entry.
pub open spec fn alias_name(r: Seq<char>) -> Seq<char> {
    match split_once_spec(r, '=') {
        Some((k, _)) => trim_spec(k),
        None => Seq::empty(),
    }
}

/// The alias list parses exactly when every entry is well-formed; then its
/// names are exactly the entries' trimmed names, and the last entry's name
/// maps to the last entry's trimmed id.
pub proof fn lemma_aliases_ok_iff(raw: Seq<Seq<char>>)
    ensures
        aliases_spec(raw) is Ok <==> forall|i: int| 0 <= i < raw.len() ==> alias_entry_ok(#[trigger] raw[i]),
        aliases_spec(raw) matches Ok(m) ==> forall|k: Seq<char>| m.contains_key(k) <==> exists|i: int|
            0 <= i < raw.len() && alias_name(#[trigger] raw[i]) == k,
        (aliases_spec(raw) is Ok && raw.len() > 0) ==> (split_once_spec(raw.last(), '=') matches Some((k, v))
            && aliases_spec(raw)->Ok_0[trim_spec(k)] == trim_spec(v)),
    decreases raw.len(),
{
    if raw.len() > 0 {
        let t = raw.drop_last();
        lemma_aliases_ok_iff(t);
        assert forall|i: int| 0 <= i < t.len() implies #[trigger] t[i] == raw[i] by {}
        if aliases_spec(raw) is Ok {
            let m = aliases_spec(raw)->Ok_0;
            let mt = aliases_spec(t)->Ok_0;
            assert forall|k: Seq<char>| m.contains_key(k) <==> exists|i: int|
                0 <= i < raw.len() && alias_name(#[trigger] raw[i]) == k by {
                if m.contains_key(k) && k != alias_name(raw.last()) {
                    assert(mt.contains_key(k));
                    let i = choose|i: int| 0 <= i < t.len() && alias_name(#[trigger] t[i]) == k;
                    assert(raw[i] == t[i]);
                }
                if k == alias_name(raw.last()) {
                    assert(alias_name(raw[raw.len() - 1]) == k);
                }
                if exists|i: int| 0 <= i < raw.len() && alias_name(#[trigger] raw[i]) == k {
                    let i = choose|i: int| 0 <= i < raw.len() && alias_name(#[trigger] raw[i]) == k;
                    if i < raw.len() - 1 {
                        assert(alias_name(t[i]) == k);
                    }
                }
            }
        }
        if forall|i: int| 0 <= i < raw.len() ==> alias_entry_ok(#[trigger] raw[i]) {
            assert(alias_entry_ok(raw[raw.len() - 1]));
        } else {
            let i = choose|i: int| 0 <= i < raw.len() && !alias_entry_ok(#[trigger] raw[i]);
            if i < raw.len() - 1 {
                assert(!alias_entry_ok(t[i]));
            }
        }
    }
}

/// Once an entry is bad, the whole list is.
proof fn lemma_aliases_err_sticks(all: Seq<Seq<char>>, n: int)
    requires
        0 < n <= all.len(),
        aliases_spec(all.subrange(0, n)) is Err,
    ensures
        aliases_spec(all) is Err,
        aliases_spec(all) == aliases_spec(all.subrange(0, n)),
    decreases all.len() - n,
{
    if n < all.len() {
        assert(all.subrange(0, n + 1).drop_last() =~= all.subrange(0, n));
        lemma_aliases_err_sticks(all, n + 1);
    } else {
        assert(all.subrange(0, n) =~= all);
    }
}

// ---------------------------------------------------------------------
// `--set KEY=VALUE`
// ---------------------------------------------------------------------

/// The value side of a `--set`.
#[derive(Debug, PartialEq)]
pub enum RawValue {
    Scalar(String),
    Json(Json),
    File(String),
    Stdin,
}

/// A single `--set Key=Value` argument. Value resolution (file load, name to
/// id mapping) happens later against the field schema.
#[derive(Debug, PartialEq)]
pub struct SetArg {
    pub key: String,
    pub raw: RawValue,
}

/// What a `--set` value holds: `@-` is stdin, `@path` a file; a value that
/// looks like JSON (starts with `[`, `{` or `"`, or is `true`, `false`,
/// `null` or a number) and parses as JSON is that JSON; else the text itself.
pub open spec fn classify_spec(val: Seq<char>) -> RawView {
    if val == "@-"@ {
        RawView::Stdin
    } else if val.len() > 0 && val[0] == '@' {
        RawView::File(val.drop_first())
    } else {
        match json_text(trim_spec(val)) {
            Some(j) => RawView::Json(j),
            None => RawView::Scalar(val),
        }
    }
}

pub enum RawView {
    Scalar(Seq<char>),
    Json(JsonV),
    File(Seq<char>),
    Stdin,
}

impl View for RawValue {
    type V = RawView;

    open spec fn view(&self) -> RawView {
        match self {
            RawValue::Scalar(s) => RawView::Scalar(s@),
            RawValue::Json(j) => RawView::Json(j@),
            RawValue::File(p) => RawView::File(p@),
            RawValue::Stdin => RawView::Stdin,
        }
    }
}

/// Classify a `--set` value. The JSON test keeps what `serde_json` accepts:
/// every JSON text starts with `[`, `{` or `"`, is a literal or a number, so
/// the shape test before parsing decides nothing that parsing does not.
pub fn classify(val: &str) -> (r: RawValue)
    ensures
        r@ == classify_spec(val@),
{
    proof {
        reveal_strlit("@-");
    }
    if str_eq(val, "@-") {
        return RawValue::Stdin;
    }
    proof {
        reveal_strlit("@");
    }
    if let Some(path) = strip_prefix(val, "@") {
        proof {
            assert(val@.subrange(1, val@.len() as int) =~= val@.drop_first());
            assert(val@.subrange(0, 1)[0] == val@[0]);
            assert("@"@[0] == '@');
        }
        return RawValue::File(path);
    }
    proof {
        if val@.len() > 0 && val@[0] == '@' {
            assert(val@.subrange(0, 1) =~= "@"@);
            assert(crate::text::starts_with_spec(val@, "@"@));
        }
    }
    let trimmed = trim(val);
    match parse_json_str(trimmed.as_str()) {
        Some(j) => RawValue::Json(j),
        None => RawValue::Scalar(val.to_owned()),
    }
}

/// `--set` read: `KEY=VALUE` split at the first `=`, the key trimmed and
/// non-empty, the value classified.
pub open spec fn set_arg_spec(raw: Seq<char>) -> Result<(Seq<char>, RawView), Seq<char>> {
    match split_once_spec(raw, '=') {
        None => Err("--set expects KEY=VALUE, got: "@ + raw),
        Some((k, v)) => if trim_spec(k).len() == 0 {
            Err("--set KEY must not be empty"@)
        } else {
            Ok((trim_spec(k), classify_spec(v)))
        },
    }
}

/// `s` is what `SetArg::parse` makes of `raw`.
pub open spec fn parsed_as(s: SetArg, raw: Seq<char>) -> bool {
    match set_arg_spec(raw) {
        Ok((k, x)) => s.key@ == k && s.raw@ == x,
        Err(_) => false,
    }
}

/// `e` is the error `SetArg::parse` gives for `raw`.
pub open spec fn refused_as(e: Error, raw: Seq<char>) -> bool {
    match set_arg_spec(raw) {
        Ok(_) => false,
        Err(m) => e matches Error::Usage(x) && x@ == m,
    }
}

impl SetArg {
    pub fn parse(raw: &str) -> (r: Result<SetArg, Error>)
        ensures
            match set_arg_spec(raw@) {
                Ok((k, v)) => r matches Ok(s) && s.key@ == k && s.raw@ == v,
                Err(m) => r matches Err(Error::Usage(x)) && x@ == m,
            },
    {
        match split_once(raw, '=') {
            None => Err(Error::Usage(concat2("--set expects KEY=VALUE, got: ", raw))),
            Some((k, v)) => {
                let key = trim(k.as_str());
                if key.as_str().is_empty() {
                    return Err(Error::Usage("--set KEY must not be empty".to_owned()));
                }
                Ok(SetArg { key, raw: classify(v.as_str()) })
            },
        }
    }

    /// Parse every argument; the first error wins.
    pub fn parse_many(args: &Vec<String>) -> (r: Result<Vec<SetArg>, Error>)
        ensures
            match r {
                Ok(v) => v@.len() == args@.len() && forall|i: int| 0 <= i < args@.len() ==> parsed_as(#[trigger] v@[i], args@[i]@),
                Err(e) => exists|i: int| 0 <= i < args@.len() && (forall|j: int| 0 <= j < i ==> #[trigger] set_arg_spec(args@[j]@) is Ok)
                    && refused_as(e, #[trigger] args@[i]@),
            },
    {
        let mut out: Vec<SetArg> = Vec::new();
        let mut i: usize = 0;
        while i < args.len()
            invariant
                i <= args@.len(),
                out@.len() == i,
                forall|j: int| 0 <= j < i ==> parsed_as(#[trigger] out@[j], args@[j]@),
            decreases args@.len() - i,
        {
            match SetArg::parse(args[i].as_str()) {
                Ok(s) => out.push(s),
                Err(e) => {
                    proof {
                        assert forall|j: int| 0 <= j < i implies #[trigger] set_arg_spec(args@[j]@) is Ok by {
                            assert(parsed_as(out@[j], args@[j]@));
                        }
                        assert(refused_as(e, args@[i as int]@));
                    }
                    return Err(e);
                },
            }
            i += 1;
        }
        Ok(out)
    }
}

impl RawValue {
    /// The JSON value of a `--set` that needs no reading: a scalar is a
    /// string, JSON is itself; a file or stdin must be read first (`None`).
    pub fn to_json(&self) -> (r: Option<Json>)
        ensures
            match self@ {
                RawView::Scalar(s) => r matches Some(j) && j@ == JsonV::Str(s),
                RawView::Json(v) => r matches Some(j) && j@ == v,
                _ => r is None,
            },
    {
        match self {
            RawValue::Scalar(s) => Some(Json::Str(s.clone())),
            RawValue::Json(j) => Some(j.deep_copy()),
            _ => None,
        }
    }
}

} // verus!
