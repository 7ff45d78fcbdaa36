//! The command line: its arguments and the logic of its commands.

pub mod args;
pub mod commands;

use vstd::prelude::*;

verus! {

/// A parsed command line: the global flags and the command.
pub struct Cli {
    pub global: args::GlobalArgs,
    pub cmd: Command,
}

pub enum Command {
    /// Parallel bulk operations.
    Bulk(BulkCmd),
    /// Connectivity probe: GET /rest/api/2/serverInfo.
    Ping,
    /// Current authenticated user: GET /rest/api/2/myself.
    Whoami,
    /// Effective configuration view.
    Config(ConfigCmd),
    /// Issue-level operations.
    Issue(IssueCmd),
    /// Field metadata operations.
    Field(FieldCmd),
    /// Run a JQL query; streams JSONL.
    Search(SearchArgs),
    Project(ProjectCmd),
    User(UserCmd),
    Board(BoardCmd),
    Sprint(SprintCmd),
    Epic(EpicCmd),
    Backlog(BacklogCmd),
    /// Bootstrap a cookie session.
    Session(SessionCmd),
    /// Emit the CLI's self-describing schema.
    Schema(SchemaArgs),
    /// Raw REST passthrough.
    Raw(RawArgs),
}

pub enum SessionCmd {
    New,
}

pub struct RawArgs {
    /// HTTP method: GET, POST, PUT, DELETE, PATCH.
    pub method: String,
    /// API path (e.g. /rest/api/2/issue/MGX-1).
    pub path: String,
    /// Request body: JSON literal, @file, or `-` for stdin.
    pub data: Option<String>,
    /// Query parameters KEY=VALUE.
    pub query: Vec<String>,
    /// Additional headers KEY:VALUE.
    pub header: Vec<String>,
    /// Emit the response body as is.
    pub raw_body: bool,
}

pub struct SchemaArgs {
    /// Subcommand name; none for the full tree.
    pub subcommand: Option<String>,
}

pub enum ConfigCmd {
    Show,
    Init(ConfigInitArgs),
}

pub struct ConfigInitArgs {
    pub url: Option<String>,
    pub user: Option<String>,
    pub password: Option<String>,
    /// "basic" (default) or "cookie".
    pub auth_method: Option<String>,
    pub session_cookie: Option<String>,
    pub insecure: bool,
    /// Overwrite an existing config file.
    pub force: bool,
    /// Write to this path instead of the default.
    pub path: Option<String>,
}

pub enum IssueCmd {
    Get(IssueGet),
    Create(IssueCreate),
    Update(IssueUpdate),
    Delete(IssueDelete),
    Assign(IssueAssign),
    BulkCreate(IssueBulkCreate),
    Comment(CommentCmd),
    Transitions(TransitionsCmd),
    Transition(TransitionArgs),
    Link(LinkCmd),
    Attachment(AttachmentCmd),
    Worklog(WorklogCmd),
    Watchers(WatchersCmd),
    Changelog(IssueChangelog),
}

pub struct IssueChangelog {
    pub key: String,
    /// Max history entries to emit (default: all).
    pub max: Option<u64>,
}

pub enum CommentCmd {
    List { key: String, max: Option<u64>, start_at: u64, page_size: u64 },
    Add { key: String, body: String },
    Update { key: String, id: String, body: String },
    Delete { key: String, id: String },
}

pub struct IssueGet {
    pub key: String,
    /// Comma-separated fields to include (Jira's `fields` query parameter).
    pub jira_fields: Option<String>,
    /// Comma-separated `expand` values.
    pub expand: Option<String>,
}

pub struct IssueCreate {
    pub project: String,
    pub issue_type: String,
    pub summary: String,
    /// Component names; a `--set components=...` overrides them.
    pub components: Vec<String>,
    /// KEY=VALUE settings.
    pub set: Vec<String>,
}

pub struct IssueUpdate {
    pub key: String,
    pub set: Vec<String>,
}

pub struct IssueDelete {
    pub key: String,
    /// Required confirmation.
    pub yes: bool,
}

pub struct IssueAssign {
    pub key: String,
    /// Assignee user name; none or `--unassign` clears.
    pub user: Option<String>,
    pub unassign: bool,
}

pub struct IssueBulkCreate {
    /// Path to a JSON array file, or `-` for stdin.
    pub from_file: String,
}

pub enum FieldCmd {
    List,
    Resolve(FieldResolveArgs),
}

pub struct FieldResolveArgs {
    pub name: String,
}

pub struct SearchArgs {
    pub jql: String,
    /// Comma-separated Jira-side field selector.
    pub jira_fields: Option<String>,
    /// Comma-separated `expand` values.
    pub expand: Option<String>,
    /// Cap on the results emitted.
    pub max: Option<u64>,
    /// Page size sent to the server (default 100).
    pub page_size: u64,
    /// Only issue keys: no Jira-side fields and the output projected to `key`.
    pub keys_only: bool,
}

pub enum TransitionsCmd {
    List { key: String },
}

pub struct TransitionArgs {
    pub key: String,
    /// Transition name or id.
    pub to: String,
    /// Field updates sent with the transition.
    pub set: Vec<String>,
}

pub enum LinkCmd {
    List { key: String },
    /// `from` is the outward side (e.g. "blocks").
    Add { from: String, to: String, link_type: String },
    Delete { link_id: String },
}

pub enum WorklogCmd {
    List { key: String, max: Option<u64>, start_at: u64, page_size: u64 },
    Add { key: String, time: String, started: Option<String>, comment: Option<String> },
    Delete { key: String, id: String },
}

pub enum AttachmentCmd {
    List { key: String },
    Upload { key: String, paths: Vec<String> },
    /// `out`: output path (default: original file name; `-` for stdout).
    Download { attachment_id: String, out: Option<String> },
    Delete { attachment_id: String },
}

pub enum WatchersCmd {
    List { key: String },
    Add { key: String, user: String },
    Remove { key: String, user: String },
}

pub enum ProjectCmd {
    List,
    Get { key: String },
    Statuses { key: String },
    Components { key: String },
}

pub enum UserCmd {
    Get { username: String },
    Search { query: String, max: Option<u64> },
}

pub enum BoardCmd {
    List { board_type: Option<String>, project: Option<String>, max: Option<u64>, start_at: u64, page_size: u64 },
    Get { id: u64 },
    Backlog { id: u64, max: Option<u64>, start_at: u64, page_size: u64 },
}

pub enum EpicCmd {
    Get { key: String },
    Issues { key: String },
    AddIssues { key: String, issues: Vec<String> },
    RemoveIssues { issues: Vec<String> },
}

pub enum BacklogCmd {
    Move { keys: Vec<String> },
}

pub enum BulkCmd {
    Transition { file: String, concurrency: Option<usize> },
    Comment { file: String, concurrency: Option<usize> },
}

#[allow(inconsistent_fields)]
pub enum SprintCmd {
    List { board: u64, state: Option<String>, max: Option<u64>, start_at: u64, page_size: u64 },
    Get { id: u64 },
    Create { board: u64, name: String, start: Option<String>, end: Option<String>, goal: Option<String> },
    Update { id: u64, name: Option<String>, state: Option<String>, start: Option<String>, end: Option<String>, goal: Option<String> },
    Delete { id: u64, yes: bool },
    Issues { id: u64, max: Option<u64>, start_at: u64, page_size: u64 },
    Move { id: u64, keys: Vec<String> },
}

} // verus!
