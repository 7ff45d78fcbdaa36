# jira-cli

An agent-first command line client for Jira Server 8.13.5: JSON on stdout,
typed errors as one JSON line on stderr with stable exit codes, and a
self-describing schema of its commands.

The logic is a library verified with Verus (`src/`); the program around it
(`app/`) parses the command line with clap, reads the config file with toml,
talks to Jira with reqwest and prints with serde_json.

## Layout

- `src/json.rs`, `src/text.rs`, `src/strmap.rs`: the JSON model, string
  helpers and an ordered string map, each with a mathematical view.
- `src/config.rs`: merging environment and config file into a configuration
  (environment first, then file, then defaults), the config file location and
  its permission warning.
- `src/error.rs`: the error type, its messages, kinds, hints, exit codes and
  the stderr JSON; parsing Jira error bodies.
- `src/http/`: URLs against the base URL, request headers, authentication
  headers and the mapping of HTTP statuses to errors.
- `src/api/`: every REST request the client sends, as a value, and the paged
  and search iterations as state machines that ask for the next page and
  hand out items.
- `src/field_resolver.rs`: field name to id resolution, slugs and automatic
  key renames.
- `src/output.rs`: key renaming and `--fields` projection.
- `src/cli/`: the command types and the decisions of each command (request
  bodies, summaries, bulk work split, `config init` content, `raw` parsing).
- `src/schema.rs`: the schema of the command tree as JSON.
- `app/`: `main`, the clap and serde copies of the library's types, the HTTP
  transport, and the loop that runs each command.

Laws proved in `src/` are public proof functions whose names start with
`lemma_`; each states in its doc comment what it promises.

## String maps

Field aliases, renames and error `errors` members are held in `StrMap`
(`src/strmap.rs`), a vector of (key, value) pairs in insertion order with the
invariant that no key occurs twice. A `std::collections::HashMap` keyed by
`String` was not used: its Verus specification proves nothing useful for
`String` keys, and its iteration order is not fixed, while the map's view
(`Map` plus the ordered `pairs_view`) lets every contract here be exact.
