//! `schema [SUBCOMMAND]`: the CLI's self-description.

use vstd::prelude::*;
use crate::cli::SchemaArgs;
use crate::error::Error;
use crate::json::{Json, JsonV};
use crate::schema::{command_json, emit, emit_sub, first_named, schema_version, subcommands_json, CommandSpec};
use crate::text::concat2;

verus! {

/// The schema of the whole tree, or of the named top-level command; an
/// unknown name is a usage error.
pub fn run(args: &SchemaArgs, cli: &CommandSpec) -> (r: Result<Json, Error>)
    ensures
        match args.subcommand {
            None => r matches Ok(j) && j@ == JsonV::Object(seq![("version"@, JsonV::Str(schema_version())), ("commands"@, subcommands_json(*cli))]),
            Some(name) => match first_named(cli.subcommands@, name@) {
                Some(i) => r matches Ok(j) && j@ == command_json(cli.subcommands@[i]),
                None => r matches Err(Error::Usage(m)) && m@ == "unknown subcommand: "@ + name@,
            },
        },
{
    match &args.subcommand {
        Some(name) => match emit_sub(cli, name.as_str()) {
            Some(v) => Ok(v),
            None => Err(Error::Usage(concat2("unknown subcommand: ", name.as_str()))),
        },
        None => Ok(emit(cli)),
    }
}

} // verus!
