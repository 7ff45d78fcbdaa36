//! The self-describing CLI schema: every command with its about text,
//! positional arguments, flags and subcommands.
//!
//! Shape: `{"version": "x.y.z", "commands": {"<name>": {"about": ..., "args":
//! [...], "flags": [...], "subcommands": {...}}}}`.

use vstd::prelude::*;
use crate::json::{entries_view, object_of, put_all, Entries, Json, JsonV};
use crate::text::{concat2, push_char, str_eq};

verus! {

/// What an argument does when given.
#[derive(Debug, Clone, Copy, PartialEq, Eq, Structural)]
pub enum ArgAction {
    SetTrue,
    SetFalse,
    Count,
    Help,
    Version,
    /// Takes a value.
    TakesValue,
}

/// One argument of a command, as the parser describes it.
pub struct ArgSpec {
    pub id: String,
    pub positional: bool,
    pub required: bool,
    pub help: Option<String>,
    pub long: Option<String>,
    pub short: Option<char>,
    pub action: ArgAction,
    pub value_names: Vec<String>,
}

/// A command and its subcommands, as the parser describes them.
pub struct CommandSpec {
    pub name: String,
    pub about: Option<String>,
    pub args: Vec<ArgSpec>,
    pub subcommands: Vec<CommandSpec>,
}

pub open spec fn text_or_empty(o: Option<String>) -> Seq<char> {
    match o {
        Some(s) => s@,
        None => Seq::empty(),
    }
}

pub open spec fn value_type_spec(a: ArgAction) -> Seq<char> {
    match a {
        ArgAction::SetTrue | ArgAction::SetFalse => "bool"@,
        ArgAction::Count => "count"@,
        _ => "string"@,
    }
}

pub open spec fn takes_value(a: ArgAction) -> bool {
    a is TakesValue
}

/// A positional argument.
pub open spec fn arg_json(a: ArgSpec) -> JsonV {
    JsonV::Object(seq![
        ("name"@, JsonV::Str(a.id@)),
        ("required"@, JsonV::Bool(a.required)),
        ("help"@, JsonV::Str(text_or_empty(a.help))),
        ("value_type"@, JsonV::Str(value_type_spec(a.action))),
    ])
}

/// A flag.
pub open spec fn flag_json(a: ArgSpec) -> JsonV {
    JsonV::Object(seq![
        ("name"@, JsonV::Str(match a.long { Some(l) => "--"@ + l@, None => Seq::empty() })),
        ("short"@, match a.short { Some(c) => JsonV::Str(seq![c]), None => JsonV::Null }),
        ("required"@, JsonV::Bool(a.required)),
        ("takes_value"@, JsonV::Bool(takes_value(a.action))),
        ("value_name"@, if a.value_names@.len() > 0 { JsonV::Str(a.value_names@[0]@) } else { JsonV::Null }),
        ("help"@, JsonV::Str(text_or_empty(a.help))),
        ("value_type"@, JsonV::Str(value_type_spec(a.action))),
    ])
}

pub open spec fn positional_args(args: Seq<ArgSpec>) -> Seq<ArgSpec> {
    args.filter(|a: ArgSpec| a.positional)
}

pub open spec fn flag_args(args: Seq<ArgSpec>) -> Seq<ArgSpec> {
    args.filter(|a: ArgSpec| !a.positional)
}

pub open spec fn args_json(args: Seq<ArgSpec>) -> Seq<JsonV> {
    positional_args(args).map_values(|a: ArgSpec| arg_json(a))
}

pub open spec fn flags_json(args: Seq<ArgSpec>) -> Seq<JsonV> {
    flag_args(args).map_values(|a: ArgSpec| flag_json(a))
}

/// One command: about, positional arguments, flags and subcommands.
pub open spec fn command_json(c: CommandSpec) -> JsonV
    decreases c, 1nat,
{
    JsonV::Object(seq![
        ("about"@, JsonV::Str(text_or_empty(c.about))),
        ("args"@, JsonV::Array(args_json(c.args@))),
        ("flags"@, JsonV::Array(flags_json(c.args@))),
        ("subcommands"@, JsonV::Object(put_all(Seq::empty(), sub_entries(c, c.subcommands@.len() as int)))),
    ])
}

/// The first `n` subcommands of `c`, each by name with its rendering.
pub open spec fn sub_entries(c: CommandSpec, n: int) -> Entries
    decreases c, 0nat, n,
{
    if n <= 0 || n > c.subcommands@.len() {
        Seq::empty()
    } else {
        sub_entries(c, n - 1).push((c.subcommands@[n - 1].name@, command_json(c.subcommands@[n - 1])))
    }
}

/// The subcommands of `c`, each by name (a later name wins).
pub open spec fn subcommands_json(c: CommandSpec) -> JsonV {
    JsonV::Object(put_all(Seq::empty(), sub_entries(c, c.subcommands@.len() as int)))
}

fn text_or_empty_json(o: &Option<String>) -> (r: Json)
    ensures
        r@ == JsonV::Str(text_or_empty(*o)),
{
    match o {
        Some(s) => Json::Str(s.clone()),
        None => Json::Str(String::new()),
    }
}

fn value_type(a: ArgAction) -> (r: &'static str)
    ensures
        r@ == value_type_spec(a),
{
    match a {
        ArgAction::SetTrue | ArgAction::SetFalse => "bool",
        ArgAction::Count => "count",
        _ => "string",
    }
}

fn render_arg(a: &ArgSpec) -> (r: Json)
    ensures
        r@ == arg_json(*a),
{
    let mut e: Vec<(String, Json)> = Vec::new();
    e.push(("name".to_owned(), Json::Str(a.id.clone())));
    e.push(("required".to_owned(), Json::Bool(a.required)));
    e.push(("help".to_owned(), text_or_empty_json(&a.help)));
    e.push(("value_type".to_owned(), Json::string(value_type(a.action))));
    proof {
        assert(entries_view(e@) =~= arg_json(*a)->Object_0);
    }
    Json::object(e)
}

fn render_flag(a: &ArgSpec) -> (r: Json)
    ensures
        r@ == flag_json(*a),
{
    let name = match &a.long {
        Some(l) => concat2("--", l.as_str()),
        None => String::new(),
    };
    let short = match a.short {
        Some(c) => {
            let mut s = String::new();
            push_char(&mut s, c);
            Json::Str(s)
        },
        None => Json::Null,
    };
    let takes = match a.action {
        ArgAction::TakesValue => true,
        _ => false,
    };
    let value_name = if a.value_names.len() > 0 { Json::Str(a.value_names[0].clone()) } else { Json::Null };
    let mut e: Vec<(String, Json)> = Vec::new();
    e.push(("name".to_owned(), Json::Str(name)));
    e.push(("short".to_owned(), short));
    e.push(("required".to_owned(), Json::Bool(a.required)));
    e.push(("takes_value".to_owned(), Json::Bool(takes)));
    e.push(("value_name".to_owned(), value_name));
    e.push(("help".to_owned(), text_or_empty_json(&a.help)));
    e.push(("value_type".to_owned(), Json::string(value_type(a.action))));
    proof {
        assert(entries_view(e@) =~= flag_json(*a)->Object_0);
    }
    Json::object(e)
}

/// The positional arguments (`want` true) or the flags (`want` false), rendered.
fn render_args(args: &Vec<ArgSpec>, want: bool) -> (r: Vec<Json>)
    ensures
        want ==> r@.map_values(|j: Json| j@) == args_json(args@),
        !want ==> r@.map_values(|j: Json| j@) == flags_json(args@),
{
    let mut out: Vec<Json> = Vec::new();
    let mut i: usize = 0;
    proof {
        assert(args@.subrange(0, 0).filter(|a: ArgSpec| a.positional) =~= Seq::<ArgSpec>::empty());
        assert(args@.subrange(0, 0).filter(|a: ArgSpec| !a.positional) =~= Seq::<ArgSpec>::empty());
    }
    while i < args.len()
        invariant
            i <= args@.len(),
            want ==> out@.map_values(|j: Json| j@) == args@.subrange(0, i as int).filter(|a: ArgSpec| a.positional).map_values(|a: ArgSpec| arg_json(a)),
            !want ==> out@.map_values(|j: Json| j@) == args@.subrange(0, i as int).filter(|a: ArgSpec| !a.positional).map_values(|a: ArgSpec| flag_json(a)),
        decreases args@.len() - i,
    {
        let ghost pre = args@.subrange(0, i as int);
        proof {
            assert(args@.subrange(0, i + 1).drop_last() =~= pre);
            assert(args@.subrange(0, i + 1).last() == args@[i as int]);
            reveal_with_fuel(Seq::filter, 1);
        }
        let a = &args[i];
        let ghost before = out@;
        if a.positional == want {
            if want {
                out.push(render_arg(a));
            } else {
                out.push(render_flag(a));
            }
            proof {
                if want {
                    assert(out@.map_values(|j: Json| j@) =~= before.map_values(|j: Json| j@).push(arg_json(*a)));
                } else {
                    assert(out@.map_values(|j: Json| j@) =~= before.map_values(|j: Json| j@).push(flag_json(*a)));
                }
            }
        }
        i += 1;
    }
    proof {
        assert(args@.subrange(0, args@.len() as int) =~= args@);
    }
    out
}

/// One command, rendered.
pub fn render_one(c: &CommandSpec) -> (r: Json)
    ensures
        r@ == command_json(*c),
    decreases c, 1nat,
{
    let args = render_args(&c.args, true);
    let flags = render_args(&c.args, false);
    let a = Json::Array(args);
    let f = Json::Array(flags);
    proof {
        crate::json::lemma_array_view(a);
        crate::json::lemma_array_view(f);
    }
    let sub_obj = render_subs(c);
    let mut e: Vec<(String, Json)> = Vec::new();
    e.push(("about".to_owned(), text_or_empty_json(&c.about)));
    e.push(("args".to_owned(), a));
    e.push(("flags".to_owned(), f));
    e.push(("subcommands".to_owned(), sub_obj));
    proof {
        assert(entries_view(e@) =~= command_json(*c)->Object_0);
    }
    Json::object(e)
}

/// The subcommands of `c`, rendered, by name.
fn render_subs(c: &CommandSpec) -> (r: Json)
    ensures
        r@ == subcommands_json(*c),
    decreases c, 0nat,
{
    let mut subs: Vec<(String, Json)> = Vec::new();
    let mut i: usize = 0;
    while i < c.subcommands.len()
        invariant
            i <= c.subcommands@.len(),
            entries_view(subs@) == sub_entries(*c, i as int),
        decreases c.subcommands@.len() - i,
    {
        proof {
            let ghost cv = *c;
            assert(decreases_to!(cv => cv.subcommands));
            assert(decreases_to!(cv.subcommands => cv.subcommands@));
            assert(decreases_to!(cv.subcommands@ => cv.subcommands@[i as int]));
        }
        let s = render_one(&c.subcommands[i]);
        let ghost before = subs@;
        subs.push((c.subcommands[i].name.clone(), s));
        proof {
            assert(entries_view(subs@) =~= entries_view(before).push((c.subcommands@[i as int].name@, command_json(c.subcommands@[i as int]))));
        }
        i += 1;
    }
    object_of(subs)
}

/// The version the schema reports.
pub open spec fn schema_version() -> Seq<char> {
    "0.1.0"@
}

/// The whole tree: the version and the top-level commands by name.
pub fn emit(cli: &CommandSpec) -> (r: Json)
    ensures
        r@ == JsonV::Object(seq![("version"@, JsonV::Str(schema_version())), ("commands"@, subcommands_json(*cli))]),
{
    let commands = render_subs(cli);
    let mut e: Vec<(String, Json)> = Vec::new();
    e.push(("version".to_owned(), Json::string("0.1.0")));
    e.push(("commands".to_owned(), commands));
    proof {
        assert(entries_view(e@) =~= seq![("version"@, JsonV::Str(schema_version())), ("commands"@, subcommands_json(*cli))]);
    }
    Json::object(e)
}

/// Index of the first subcommand named `name`.
pub open spec fn first_named(subs: Seq<CommandSpec>, name: Seq<char>) -> Option<int> {
    if exists|i: int| 0 <= i < subs.len() && subs[i].name@ == name {
        Some(choose|i: int| 0 <= i < subs.len() && subs[i].name@ == name && forall|j: int| 0 <= j < i ==> subs[j].name@ != name)
    } else {
        None
    }
}

/// The first top-level command named `name`, rendered; `None` when there is
/// no such command.
pub fn emit_sub(cli: &CommandSpec, name: &str) -> (r: Option<Json>)
    ensures
        match first_named(cli.subcommands@, name@) {
            Some(i) => r matches Some(j) && j@ == command_json(cli.subcommands@[i]),
            None => r is None,
        },
{
    let mut i: usize = 0;
    while i < cli.subcommands.len()
        invariant
            i <= cli.subcommands@.len(),
            forall|j: int| 0 <= j < i ==> cli.subcommands@[j].name@ != name@,
        decreases cli.subcommands@.len() - i,
    {
        if str_eq(cli.subcommands[i].name.as_str(), name) {
            proof {
                let w = first_named(cli.subcommands@, name@)->0;
                assert(cli.subcommands@[i as int].name@ == name@);
                assert(0 <= w < cli.subcommands@.len() && cli.subcommands@[w].name@ == name@
                    && forall|j: int| 0 <= j < w ==> cli.subcommands@[j].name@ != name@);
                if w < i {
                    assert(false);
                }
                if w > i {
                    assert(false);
                }
            }
            return Some(render_one(&cli.subcommands[i]));
        }
        i += 1;
    }
    None
}

} // verus!
