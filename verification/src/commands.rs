//! The `/plugin` command: argument parsing, bundle listing, review,
//! validation and lifecycle changes, and the legacy executable plugin-tool
//! inventory.
//!
//! `/plugin` owns declarative bundles. Script tools under the legacy plugin
//! directory remain supported, but are labeled as legacy executable tools and
//! never share bundle trust state. Texts are rendered from the localized
//! templates in `PluginMessages`.

use vstd::prelude::*;

use crate::credentials::{join_name, path_view, ComponentView, PathComponent};
use crate::registry::{PluginRegistry, RegistryView};
use crate::state::PluginStateFile;
use crate::text::{
    bool_str, bool_text, decimal, ends_with_newline, join_strings, push_char, replace_all,
    seq_join, seq_lt, spec_decimal, spec_replace, str_eq, str_lt,
};
use crate::types::{
    has_error, opt_string_view, strings_view, LoadedPlugin, McpServerEntry, PluginDiagnostic,
    PluginDiagnosticLevel,
};
use crate::words::{spec_words, split_whitespace};

verus! {

broadcast use vstd::string::group_string_axioms;

/// The outcome of a command: a message, marked as an error or not.
#[derive(Debug, Clone)]
pub struct CommandResult {
    pub message: Option<String>,
    pub is_error: bool,
}

pub struct ResultView {
    pub message: Option<Seq<char>>,
    pub is_error: bool,
}

impl View for CommandResult {
    type V = ResultView;

    open spec fn view(&self) -> ResultView {
        ResultView { message: opt_string_view(self.message), is_error: self.is_error }
    }
}

pub open spec fn message_result(text: Seq<char>) -> ResultView {
    ResultView { message: Some(text), is_error: false }
}

pub open spec fn error_result(text: Seq<char>) -> ResultView {
    ResultView { message: Some(text), is_error: true }
}

impl CommandResult {
    pub fn message(text: String) -> (r: CommandResult)
        ensures
            r@ == message_result(text@),
    {
        CommandResult { message: Some(text), is_error: false }
    }

    pub fn error(text: String) -> (r: CommandResult)
        ensures
            r@ == error_result(text@),
    {
        CommandResult { message: Some(text), is_error: true }
    }
}

/// The localized templates the command renders. Placeholders in braces
/// (`{count}`, `{name}`, ...) are replaced by values.
#[derive(Debug, Clone)]
pub struct PluginMessages {
    pub bundle_usage: String,
    pub bundle_none_found: String,
    /// `{count}`
    pub bundle_list_header: String,
    /// `{count}`, `{dir}`
    pub legacy_list_header: String,
    /// `{name}`
    pub bundle_not_found: String,
    /// `{name}`, `{id}`, `{version}`, `{origin}`, `{scope}`, `{state}`,
    /// `{trust}`, `{inventory}`, `{permissions}`, `{mcp}`, `{unsupported}`,
    /// `{content_hash}`, `{capability_hash}`, `{path}`
    pub bundle_detail: String,
    /// `{name}`, `{action}`
    pub bundle_mutation_success: String,
    /// `{count}`
    pub bundle_diagnostics_header: String,
    /// `{error}`
    pub action_failed: String,
    /// `{count}`, `{workspace}`
    pub bundle_reloaded: String,
    /// `{dir}`
    pub legacy_none_found: String,
    /// `{name}`
    pub legacy_not_found: String,
    /// `{description}`
    pub detail_description: String,
    /// `{schema}`
    pub detail_schema: String,
    /// `{approval}`
    pub detail_approval: String,
    /// `{path}`
    pub detail_path: String,
}

/// Describes the `/plugin` command to the command table.
pub struct PluginsCommands;

/// Name, aliases and usage of a command.
#[derive(Debug, Clone)]
pub struct CommandInfo {
    pub name: &'static str,
    pub aliases: Vec<&'static str>,
    pub usage: &'static str,
}

impl PluginsCommands {
    pub fn info() -> (r: CommandInfo)
        ensures
            r.name@ == "plugin"@,
            r.aliases@.len() == 1,
            r.aliases@[0]@ == "plugins"@,
            r.usage@ == "/plugin [list|show|validate|trust|enable|disable|revoke|reload|tools]"@,
    {
        let mut aliases: Vec<&'static str> = Vec::new();
        aliases.push("plugins");
        CommandInfo {
            name: "plugin",
            aliases,
            usage: "/plugin [list|show|validate|trust|enable|disable|revoke|reload|tools]",
        }
    }
}

/// A lifecycle change of a bundle.
#[derive(Debug, Clone)]
pub enum Mutation {
    /// Trust, confirmed by the review token the review printed.
    Trust(String),
    Enable,
    Disable,
    Revoke,
}

pub enum MutationView {
    Trust(Seq<char>),
    Enable,
    Disable,
    Revoke,
}

impl View for Mutation {
    type V = MutationView;

    open spec fn view(&self) -> MutationView {
        match self {
            Mutation::Trust(t) => MutationView::Trust(t@),
            Mutation::Enable => MutationView::Enable,
            Mutation::Disable => MutationView::Disable,
            Mutation::Revoke => MutationView::Revoke,
        }
    }
}

/// What a `/plugin` argument asks for.
#[derive(Debug, Clone)]
pub enum PluginCommand {
    List,
    Help,
    Show(String),
    Validate(Option<String>),
    /// Print the capability review and its confirmation token.
    Review(String),
    Mutate(String, Mutation),
    Reload,
    Tools(Option<String>),
    /// A single word that is not a subcommand: a bundle if one is selected
    /// by it, else a legacy tool.
    Bare(String),
    Usage,
}

pub enum CommandView {
    List,
    Help,
    Show(Seq<char>),
    Validate(Option<Seq<char>>),
    Review(Seq<char>),
    Mutate(Seq<char>, MutationView),
    Reload,
    Tools(Option<Seq<char>>),
    Bare(Seq<char>),
    Usage,
}

impl View for PluginCommand {
    type V = CommandView;

    open spec fn view(&self) -> CommandView {
        match self {
            PluginCommand::List => CommandView::List,
            PluginCommand::Help => CommandView::Help,
            PluginCommand::Show(s) => CommandView::Show(s@),
            PluginCommand::Validate(s) => CommandView::Validate(opt_string_view(*s)),
            PluginCommand::Review(s) => CommandView::Review(s@),
            PluginCommand::Mutate(s, m) => CommandView::Mutate(s@, m@),
            PluginCommand::Reload => CommandView::Reload,
            PluginCommand::Tools(s) => CommandView::Tools(opt_string_view(*s)),
            PluginCommand::Bare(s) => CommandView::Bare(s@),
            PluginCommand::Usage => CommandView::Usage,
        }
    }
}

/// The command that the words of an argument ask for.
pub open spec fn spec_command(w: Seq<Seq<char>>) -> CommandView {
    if w.len() == 0 {
        CommandView::List
    } else if w.len() == 1 {
        if w[0] == "list"@ {
            CommandView::List
        } else if w[0] == "help"@ {
            CommandView::Help
        } else if w[0] == "validate"@ {
            CommandView::Validate(None)
        } else if w[0] == "reload"@ {
            CommandView::Reload
        } else if w[0] == "tools"@ {
            CommandView::Tools(None)
        } else {
            CommandView::Bare(w[0])
        }
    } else if w.len() == 2 {
        if w[0] == "show"@ {
            CommandView::Show(w[1])
        } else if w[0] == "validate"@ {
            CommandView::Validate(Some(w[1]))
        } else if w[0] == "trust"@ {
            CommandView::Review(w[1])
        } else if w[0] == "enable"@ {
            CommandView::Mutate(w[1], MutationView::Enable)
        } else if w[0] == "disable"@ {
            CommandView::Mutate(w[1], MutationView::Disable)
        } else if w[0] == "revoke"@ {
            CommandView::Mutate(w[1], MutationView::Revoke)
        } else if w[0] == "tools"@ {
            CommandView::Tools(Some(w[1]))
        } else {
            CommandView::Usage
        }
    } else if w.len() == 3 && w[0] == "trust"@ {
        CommandView::Mutate(w[1], MutationView::Trust(w[2]))
    } else {
        CommandView::Usage
    }
}

pub open spec fn arg_text(arg: Option<&str>) -> Seq<char> {
    match arg {
        Some(a) => a@,
        None => Seq::empty(),
    }
}

/// Parses a `/plugin` argument (no argument lists the bundles).
pub fn parse_plugin_command(arg: Option<&str>) -> (r: PluginCommand)
    ensures
        r@ == spec_command(spec_words(arg_text(arg))),
{
    let text: &str = match arg {
        Some(a) => a,
        None => "",
    };
    proof {
        reveal_strlit("");
        assert(text@ == arg_text(arg));
    }
    let w = split_whitespace(text);
    let ghost ws = strings_view(w@);
    assert(ws.len() == w@.len());
    if w.len() == 0 {
        return PluginCommand::List;
    }
    assert(ws[0] == w@[0]@);
    if w.len() == 1 {
        let a = w[0].as_str();
        if str_eq(a, "list") {
            PluginCommand::List
        } else if str_eq(a, "help") {
            PluginCommand::Help
        } else if str_eq(a, "validate") {
            PluginCommand::Validate(None)
        } else if str_eq(a, "reload") {
            PluginCommand::Reload
        } else if str_eq(a, "tools") {
            PluginCommand::Tools(None)
        } else {
            PluginCommand::Bare(w[0].clone())
        }
    } else if w.len() == 2 {
        assert(ws[1] == w@[1]@);
        let a = w[0].as_str();
        let b = w[1].clone();
        if str_eq(a, "show") {
            PluginCommand::Show(b)
        } else if str_eq(a, "validate") {
            PluginCommand::Validate(Some(b))
        } else if str_eq(a, "trust") {
            PluginCommand::Review(b)
        } else if str_eq(a, "enable") {
            PluginCommand::Mutate(b, Mutation::Enable)
        } else if str_eq(a, "disable") {
            PluginCommand::Mutate(b, Mutation::Disable)
        } else if str_eq(a, "revoke") {
            PluginCommand::Mutate(b, Mutation::Revoke)
        } else if str_eq(a, "tools") {
            PluginCommand::Tools(Some(b))
        } else {
            PluginCommand::Usage
        }
    } else if w.len() == 3 && str_eq(w[0].as_str(), "trust") {
        assert(ws[1] == w@[1]@);
        assert(ws[2] == w@[2]@);
        PluginCommand::Mutate(w[1].clone(), Mutation::Trust(w[2].clone()))
    } else {
        PluginCommand::Usage
    }
}

/// How much confirmation a legacy tool asks for before it runs.
#[derive(Debug, Clone, Copy, PartialEq, Eq, Structural)]
pub enum ApprovalRequirement {
    Auto,
    Suggest,
    Required,
}

pub open spec fn approval_text(a: ApprovalRequirement) -> Seq<char> {
    match a {
        ApprovalRequirement::Auto => "auto"@,
        ApprovalRequirement::Suggest => "suggest"@,
        ApprovalRequirement::Required => "required"@,
    }
}

pub fn approval_label(approval: ApprovalRequirement) -> (r: &'static str)
    ensures
        r@ == approval_text(approval),
{
    match approval {
        ApprovalRequirement::Auto => "auto",
        ApprovalRequirement::Suggest => "suggest",
        ApprovalRequirement::Required => "required",
    }
}

/// A legacy executable plugin tool found in the legacy plugin directory.
#[derive(Debug, Clone)]
pub struct LegacyTool {
    pub path: String,
    pub name: String,
    pub description: String,
    /// The tool's input schema, as pretty-printed JSON.
    pub input_schema: String,
    pub approval: ApprovalRequirement,
}

/// The legacy plugin directory and the tools found in it.
#[derive(Debug, Clone)]
pub struct LegacyListing {
    pub dir: String,
    pub tools: Vec<LegacyTool>,
}

/// A failed action, rendered with the `action_failed` template.
pub open spec fn action_error_result(msgs: PluginMessages, error: Seq<char>) -> ResultView {
    error_result(spec_replace(msgs.action_failed@, "{error}"@, error))
}

pub fn action_error(msgs: &PluginMessages, error: &str) -> (r: CommandResult)
    ensures
        r@ == action_error_result(*msgs, error@),
{
    proof {
        reveal_strlit("{error}");
    }
    CommandResult::error(replace_all(msgs.action_failed.as_str(), "{error}", error))
}

pub open spec fn level_text(l: PluginDiagnosticLevel) -> Seq<char> {
    match l {
        PluginDiagnosticLevel::Warning => "warning"@,
        PluginDiagnosticLevel::Error => "error"@,
    }
}

pub open spec fn diagnostic_line(d: PluginDiagnostic) -> Seq<char> {
    "• "@ + level_text(d.level) + " ["@ + d.code@ + "]: "@ + d.message@ + match d.path {
        Some(p) => " ("@ + p@ + ")"@,
        None => Seq::empty(),
    } + "\n"@
}

pub open spec fn diagnostic_lines(ds: Seq<PluginDiagnostic>) -> Seq<char>
    decreases ds.len(),
{
    if ds.len() == 0 {
        Seq::empty()
    } else {
        diagnostic_lines(ds.drop_last()) + diagnostic_line(ds.last())
    }
}

/// `out` ending with a line break.
pub open spec fn with_line_break(out: Seq<char>) -> Seq<char> {
    if out.len() > 0 && out.last() == '\n' {
        out
    } else {
        out.push('\n')
    }
}

/// `out` followed by a diagnostics section, when there are diagnostics.
pub open spec fn spec_append_diagnostics(
    msgs: PluginMessages,
    out: Seq<char>,
    ds: Seq<PluginDiagnostic>,
) -> Seq<char> {
    if ds.len() == 0 {
        out
    } else {
        with_line_break(out) + spec_replace(
            msgs.bundle_diagnostics_header@,
            "{count}"@,
            spec_decimal(ds.len()),
        ) + "\n"@ + diagnostic_lines(ds)
    }
}

pub fn append_diagnostics(msgs: &PluginMessages, output: &mut String, diagnostics: &[PluginDiagnostic])
    ensures
        final(output)@ == spec_append_diagnostics(*msgs, old(output)@, diagnostics@),
{
    if diagnostics.len() == 0 {
        return;
    }
    if !ends_with_newline(output.as_str()) {
        push_char(output, '\n');
    }
    proof {
        reveal_strlit("{count}");
    }
    let count = decimal(diagnostics.len());
    let header = replace_all(msgs.bundle_diagnostics_header.as_str(), "{count}", count.as_str());
    output.append(header.as_str());
    output.append("\n");
    let ghost base = output@;
    let mut i: usize = 0;
    while i < diagnostics.len()
        invariant
            i <= diagnostics@.len(),
            output@ == base + diagnostic_lines(diagnostics@.take(i as int)),
        decreases diagnostics@.len() - i,
    {
        let d = &diagnostics[i];
        assert(diagnostics@.take(i + 1).drop_last() =~= diagnostics@.take(i as int));
        assert(diagnostics@.take(i + 1).last() == *d);
        output.append("• ");
        let level = match d.level {
            PluginDiagnosticLevel::Warning => "warning",
            PluginDiagnosticLevel::Error => "error",
        };
        output.append(level);
        output.append(" [");
        output.append(d.code);
        output.append("]: ");
        output.append(d.message.as_str());
        match &d.path {
            Some(p) => {
                output.append(" (");
                output.append(p.as_str());
                output.append(")");
            },
            None => {},
        }
        output.append("\n");
        assert(output@ =~= base + diagnostic_lines(diagnostics@.take(i + 1)));
        i = i + 1;
    }
    assert(diagnostics@.take(diagnostics@.len() as int) =~= diagnostics@);
}

/// The text of the first `n` bytes of the UTF-8 encoding of `s`.
pub open spec fn byte_prefix(s: Seq<char>, n: int) -> Seq<char> {
    vstd::utf8::decode_utf8(vstd::utf8::encode_utf8(s).subrange(0, n))
}

/// The review token is made from the first 12 bytes of each hash; a hash
/// shorter than that, or one whose 12th byte ends inside a character, has
/// no token.
pub open spec fn token_ready(p: LoadedPlugin) -> bool {
    &&& vstd::utf8::is_char_boundary(vstd::utf8::encode_utf8(p.content_hash@), 12)
    &&& vstd::utf8::is_char_boundary(vstd::utf8::encode_utf8(p.capability_hash@), 12)
}

/// The token that confirms a review: it binds the bundle's content and
/// capability hashes.
pub open spec fn spec_review_token(p: LoadedPlugin) -> Seq<char> {
    byte_prefix(p.content_hash@, 12) + "."@ + byte_prefix(p.capability_hash@, 12)
}

/// Whether a bundle's hashes are long enough for a review token.
pub fn review_token_available(plugin: &LoadedPlugin) -> (r: bool)
    ensures
        r == token_ready(*plugin),
{
    plugin.content_hash.as_str().is_char_boundary(12) && plugin.capability_hash.as_str().is_char_boundary(
        12,
    )
}

fn hash_head(h: &String) -> (r: &str)
    requires
        vstd::utf8::is_char_boundary(vstd::utf8::encode_utf8(h@), 12),
    ensures
        r@ == byte_prefix(h@, 12),
{
    let (head, _) = h.as_str().split_at(12);
    proof {
        vstd::utf8::encode_utf8_decode_utf8(head@);
    }
    head
}

pub fn review_token(plugin: &LoadedPlugin) -> (r: String)
    requires
        token_ready(*plugin),
    ensures
        r@ == spec_review_token(*plugin),
{
    let mut token = String::from_str(hash_head(&plugin.content_hash));
    token.append(".");
    token.append(hash_head(&plugin.capability_hash));
    token
}

/// A list joined with `, `, or `none` when it is empty.
pub open spec fn list_or_none(v: Seq<Seq<char>>) -> Seq<char> {
    if v.len() == 0 {
        "none"@
    } else {
        seq_join(v, ", "@)
    }
}

fn join_or_none(v: &Vec<String>) -> (r: String)
    ensures
        r@ == list_or_none(strings_view(v@)),
{
    if v.len() == 0 {
        String::from_str("none")
    } else {
        join_strings(v, ", ")
    }
}

pub open spec fn spec_permissions(p: LoadedPlugin) -> Seq<char> {
    "filesystem_roots=["@ + list_or_none(p.inventory@.filesystem_roots) + "] network_hosts=["@
        + list_or_none(p.inventory@.network_hosts) + "] lifecycle_mutation="@ + bool_text(
        p.inventory.lifecycle_mutation,
    )
}

pub fn render_permissions(plugin: &LoadedPlugin) -> (r: String)
    ensures
        r@ == spec_permissions(*plugin),
{
    let filesystem = join_or_none(&plugin.inventory.filesystem_roots);
    let network = join_or_none(&plugin.inventory.network_hosts);
    let mut r = String::from_str("filesystem_roots=[");
    r.append(filesystem.as_str());
    r.append("] network_hosts=[");
    r.append(network.as_str());
    r.append("] lifecycle_mutation=");
    r.append(bool_str(plugin.inventory.lifecycle_mutation));
    r
}

/// The ASCII serialization of the origin of `url` when `url` parses as a
/// URL (`reqwest::Url::parse`, then `Url::origin` and
/// `Origin::ascii_serialization`); `None` when it does not parse.
pub uninterp spec fn url_origin_text(url: Seq<char>) -> Option<Seq<char>>;

/// Calls `reqwest::Url::parse` (the `url` crate's parser) on `url` and
/// serializes the parsed URL's origin with `ascii_serialization`. The
/// contract claims only that the outcome is a function of the text: the
/// parser and the serialization are `url`'s.
#[verifier::external_body]
fn url_origin(url: &str) -> (r: Option<String>)
    ensures
        opt_string_view(r) == url_origin_text(url@),
{
    reqwest::Url::parse(url).ok().map(|parsed| parsed.origin().ascii_serialization())
}

/// The endpoint shown for a remote server: the origin of its URL, or
/// `invalid-url` when the URL did not parse.
pub open spec fn endpoint_text(origin: Option<Seq<char>>) -> Seq<char> {
    match origin {
        Some(o) => o,
        None => "invalid-url"@,
    }
}

pub open spec fn enabled_text(enabled: bool) -> Seq<char> {
    if enabled {
        "configured-on"@
    } else {
        "configured-off"@
    }
}

/// The inventory line of a remote server whose URL has origin `origin`
/// (`None` when the URL did not parse).
pub open spec fn remote_line(name: Seq<char>, origin: Option<Seq<char>>, enabled: bool) -> Seq<char> {
    name + ": remote endpoint="@ + endpoint_text(origin) + " "@ + enabled_text(enabled)
}

/// Renders the inventory line of a remote server from the origin of its URL.
pub fn remote_server_line(name: &str, origin: Option<String>, enabled: bool) -> (r: String)
    ensures
        r@ == remote_line(name@, opt_string_view(origin), enabled),
{
    let mut r = String::from_str(name);
    r.append(": remote endpoint=");
    match origin {
        Some(o) => r.append(o.as_str()),
        None => r.append("invalid-url"),
    }
    r.append(" ");
    if enabled {
        r.append("configured-on");
    } else {
        r.append("configured-off");
    }
    r
}

pub open spec fn server_line(s: McpServerEntry) -> Seq<char> {
    match s.command {
        Some(c) => s.name@ + ": stdio command="@ + c@ + " args="@ + spec_decimal(s.args@.len())
            + " "@ + enabled_text(s.enabled),
        None => match s.url {
            Some(u) => remote_line(s.name@, url_origin_text(u@), s.enabled),
            None => s.name@ + ": invalid"@,
        },
    }
}

/// An MCP server's inventory line ends with `configured-on` when the server
/// is enabled and with `configured-off` when it is not, for stdio and for
/// remote servers.
pub proof fn law_server_line_shows_enablement(s: McpServerEntry)
    requires
        s.command is Some || s.url is Some,
    ensures
        s.enabled ==> exists|head: Seq<char>| server_line(s) == head + "configured-on"@,
        !s.enabled ==> exists|head: Seq<char>| server_line(s) == head + "configured-off"@,
{
    let head = match s.command {
        Some(c) => s.name@ + ": stdio command="@ + c@ + " args="@ + spec_decimal(s.args@.len()) + " "@,
        None => s.name@ + ": remote endpoint="@ + endpoint_text(url_origin_text(s.url->0@)) + " "@,
    };
    if s.enabled {
        assert(server_line(s) =~= head + "configured-on"@);
    } else {
        assert(server_line(s) =~= head + "configured-off"@);
    }
}

/// `x` placed into a name-ordered list after every entry whose name does not
/// sort after it.
pub open spec fn insert_by_name(sorted: Seq<McpServerEntry>, x: McpServerEntry) -> Seq<McpServerEntry>
    decreases sorted.len(),
{
    if sorted.len() == 0 {
        seq![x]
    } else if seq_lt(x.name@, sorted[0].name@) {
        seq![x] + sorted
    } else {
        seq![sorted[0]] + insert_by_name(sorted.drop_first(), x)
    }
}

/// The entries stably sorted by name: ordered by name, entries with equal
/// names in their original order.
pub open spec fn sort_by_name(s: Seq<McpServerEntry>) -> Seq<McpServerEntry>
    decreases s.len(),
{
    if s.len() == 0 {
        Seq::empty()
    } else {
        insert_by_name(sort_by_name(s.drop_last()), s.last())
    }
}

pub open spec fn server_lines(s: Seq<McpServerEntry>) -> Seq<Seq<char>> {
    s.map_values(|e: McpServerEntry| server_line(e))
}

pub open spec fn spec_mcp_inventory(p: LoadedPlugin) -> Seq<char> {
    match p.manifest.mcp_servers {
        None => "none"@,
        Some(servers) => seq_join(server_lines(sort_by_name(servers@)), "; "@),
    }
}

proof fn lemma_insert_by_name_at(s: Seq<McpServerEntry>, x: McpServerEntry, k: int)
    requires
        0 <= k <= s.len(),
        forall|j: int| 0 <= j < k ==> !seq_lt(x.name@, #[trigger] s[j].name@),
        k < s.len() ==> seq_lt(x.name@, s[k].name@),
    ensures
        insert_by_name(s, x) == s.insert(k, x),
    decreases s.len(),
{
    if s.len() == 0 {
        assert(seq![x] =~= s.insert(k, x));
    } else if k == 0 {
        assert(seq![x] + s =~= s.insert(k, x));
    } else {
        assert forall|j: int| 0 <= j < k - 1 implies !seq_lt(x.name@, #[trigger] s.drop_first()[j].name@) by {
            assert(s.drop_first()[j] == s[j + 1]);
        }
        lemma_insert_by_name_at(s.drop_first(), x, k - 1);
        assert(seq![s[0]] + s.drop_first().insert(k - 1, x) =~= s.insert(k, x));
    }
}

pub open spec fn deref_servers(v: Seq<&McpServerEntry>) -> Seq<McpServerEntry> {
    v.map_values(|e: &McpServerEntry| *e)
}

fn sorted_servers(servers: &Vec<McpServerEntry>) -> (r: Vec<&McpServerEntry>)
    ensures
        deref_servers(r@) == sort_by_name(servers@),
{
    let mut r: Vec<&McpServerEntry> = Vec::new();
    let mut i: usize = 0;
    assert(deref_servers(r@) =~= sort_by_name(servers@.take(0)));
    while i < servers.len()
        invariant
            i <= servers@.len(),
            deref_servers(r@) == sort_by_name(servers@.take(i as int)),
        decreases servers@.len() - i,
    {
        let x = &servers[i];
        assert(servers@.take(i + 1).drop_last() =~= servers@.take(i as int));
        assert(servers@.take(i + 1).last() == *x);
        let ghost before = deref_servers(r@);
        let mut k: usize = 0;
        while k < r.len() && !str_lt(x.name.as_str(), r[k].name.as_str())
            invariant
                deref_servers(r@) == before,
                k <= r@.len(),
                forall|j: int| 0 <= j < k ==> !seq_lt(x.name@, #[trigger] before[j].name@),
            decreases r@.len() - k,
        {
            k = k + 1;
        }
        proof {
            lemma_insert_by_name_at(before, *x, k as int);
        }
        r.insert(k, x);
        assert(deref_servers(r@) =~= before.insert(k as int, *x));
        i = i + 1;
    }
    assert(servers@.take(servers@.len() as int) =~= servers@);
    r
}

fn server_text(s: &McpServerEntry) -> (r: String)
    ensures
        r@ == server_line(*s),
{
    let enabled = if s.enabled {
        "configured-on"
    } else {
        "configured-off"
    };
    let mut r = String::from_str(s.name.as_str());
    match &s.command {
        Some(c) => {
            r.append(": stdio command=");
            r.append(c.as_str());
            r.append(" args=");
            let n = decimal(s.args.len());
            r.append(n.as_str());
            r.append(" ");
            r.append(enabled);
        },
        None => match &s.url {
            Some(u) => {
                r = remote_server_line(s.name.as_str(), url_origin(u.as_str()), s.enabled);
            },
            None => {
                r.append(": invalid");
            },
        },
    }
    r
}

pub fn render_mcp_inventory(plugin: &LoadedPlugin) -> (r: String)
    ensures
        r@ == spec_mcp_inventory(*plugin),
{
    match &plugin.manifest.mcp_servers {
        None => String::from_str("none"),
        Some(servers) => {
            let sorted = sorted_servers(servers);
            let mut lines: Vec<String> = Vec::new();
            let mut i: usize = 0;
            while i < sorted.len()
                invariant
                    i <= sorted@.len(),
                    lines@.len() == i,
                    forall|j: int| 0 <= j < i ==> lines@[j]@ == server_line(*sorted@[j]),
                decreases sorted@.len() - i,
            {
                lines.push(server_text(sorted[i]));
                i = i + 1;
            }
            assert(strings_view(lines@) =~= server_lines(deref_servers(sorted@)));
            join_strings(&lines, "; ")
        },
    }
}

pub open spec fn unsupported_text(p: LoadedPlugin) -> Seq<char> {
    list_or_none(p.inventory@.unsupported)
}

/// The detail of a bundle: the detail template filled in, followed by the
/// bundle's diagnostics. Hashes are shown only when `include_hashes`.
pub open spec fn spec_bundle_detail(msgs: PluginMessages, p: LoadedPlugin, include_hashes: bool) -> Seq<
    char,
> {
    let content_hash = if include_hashes {
        p.content_hash@
    } else {
        "hidden"@
    };
    let capability_hash = if include_hashes {
        p.capability_hash@
    } else {
        "hidden"@
    };
    let t0 = msgs.bundle_detail@;
    let t1 = spec_replace(t0, "{name}"@, p.spec_name());
    let t2 = spec_replace(t1, "{id}"@, p.id@);
    let t3 = spec_replace(t2, "{version}"@, p.manifest.plugin.version@);
    let t4 = spec_replace(t3, "{origin}"@, p.origin.label());
    let t5 = spec_replace(t4, "{scope}"@, p.scope.label());
    let t6 = spec_replace(t5, "{state}"@, p.spec_state_label());
    let t7 = spec_replace(t6, "{trust}"@, p.trust_status.label());
    let t8 = spec_replace(t7, "{inventory}"@, p.inventory@.summary);
    let t9 = spec_replace(t8, "{permissions}"@, spec_permissions(p));
    let t10 = spec_replace(t9, "{mcp}"@, spec_mcp_inventory(p));
    let t11 = spec_replace(t10, "{unsupported}"@, unsupported_text(p));
    let t12 = spec_replace(t11, "{content_hash}"@, content_hash);
    let t13 = spec_replace(t12, "{capability_hash}"@, capability_hash);
    let t14 = spec_replace(t13, "{path}"@, p.canonical_root@);
    spec_append_diagnostics(msgs, t14, p.diagnostics@)
}

pub fn render_bundle_detail(msgs: &PluginMessages, plugin: &LoadedPlugin, include_hashes: bool) -> (r:
    String)
    ensures
        r@ == spec_bundle_detail(*msgs, *plugin, include_hashes),
{
    proof {
        reveal_strlit("{name}");
        reveal_strlit("{id}");
        reveal_strlit("{version}");
        reveal_strlit("{origin}");
        reveal_strlit("{scope}");
        reveal_strlit("{state}");
        reveal_strlit("{trust}");
        reveal_strlit("{inventory}");
        reveal_strlit("{permissions}");
        reveal_strlit("{mcp}");
        reveal_strlit("{unsupported}");
        reveal_strlit("{content_hash}");
        reveal_strlit("{capability_hash}");
        reveal_strlit("{path}");
    }
    let unsupported = join_or_none(&plugin.inventory.unsupported);
    let (content_hash, capability_hash): (&str, &str) = if include_hashes {
        (plugin.content_hash.as_str(), plugin.capability_hash.as_str())
    } else {
        ("hidden", "hidden")
    };
    let permissions = render_permissions(plugin);
    let mcp = render_mcp_inventory(plugin);
    let t = replace_all(msgs.bundle_detail.as_str(), "{name}", plugin.name());
    let t = replace_all(t.as_str(), "{id}", plugin.id.as_str());
    let t = replace_all(t.as_str(), "{version}", plugin.manifest.plugin.version.as_str());
    let t = replace_all(t.as_str(), "{origin}", plugin.origin.as_str());
    let t = replace_all(t.as_str(), "{scope}", plugin.scope.as_str());
    let t = replace_all(t.as_str(), "{state}", plugin.state_label());
    let t = replace_all(t.as_str(), "{trust}", plugin.trust_status.as_str());
    let t = replace_all(t.as_str(), "{inventory}", plugin.inventory.summary.as_str());
    let t = replace_all(t.as_str(), "{permissions}", permissions.as_str());
    let t = replace_all(t.as_str(), "{mcp}", mcp.as_str());
    let t = replace_all(t.as_str(), "{unsupported}", unsupported.as_str());
    let t = replace_all(t.as_str(), "{content_hash}", content_hash);
    let t = replace_all(t.as_str(), "{capability_hash}", capability_hash);
    let mut t = replace_all(t.as_str(), "{path}", plugin.canonical_root.as_str());
    append_diagnostics(msgs, &mut t, plugin.diagnostics.as_slice());
    t
}

pub open spec fn opt_registry_view(r: Option<&PluginRegistry>) -> Option<RegistryView> {
    match r {
        Some(g) => Some(g@),
        None => None,
    }
}

/// A registry, when there is one, is well formed.
pub open spec fn registry_ready(r: Option<&PluginRegistry>) -> bool {
    r matches Some(g) ==> g@.wf()
}

/// The bundle a selector picks, when there is a registry.
pub open spec fn selected(r: Option<RegistryView>, selector: Seq<char>) -> Option<LoadedPlugin> {
    match r {
        Some(g) => g.lookup(selector),
        None => None,
    }
}

pub open spec fn not_found_result(msgs: PluginMessages, selector: Seq<char>) -> ResultView {
    error_result(spec_replace(msgs.bundle_not_found@, "{name}"@, selector))
}

fn bundle_not_found(msgs: &PluginMessages, selector: &str) -> (r: CommandResult)
    ensures
        r@ == not_found_result(*msgs, selector@),
{
    proof {
        reveal_strlit("{name}");
    }
    CommandResult::error(replace_all(msgs.bundle_not_found.as_str(), "{name}", selector))
}

fn select<'a>(registry: Option<&'a PluginRegistry>, selector: &str) -> (r: Option<&'a LoadedPlugin>)
    requires
        registry_ready(registry),
    ensures
        match r {
            Some(p) => selected(opt_registry_view(registry), selector@) == Some(*p),
            None => selected(opt_registry_view(registry), selector@) is None,
        },
{
    match registry {
        Some(g) => g.get(selector),
        None => None,
    }
}

pub open spec fn spec_show_bundle(msgs: PluginMessages, r: Option<RegistryView>, selector: Seq<char>) -> ResultView {
    match selected(r, selector) {
        None => not_found_result(msgs, selector),
        Some(p) => message_result(spec_bundle_detail(msgs, p, true)),
    }
}

/// Shows the detail of the bundle a selector picks.
pub fn show_bundle(msgs: &PluginMessages, registry: Option<&PluginRegistry>, selector: &str) -> (r:
    CommandResult)
    requires
        registry_ready(registry),
    ensures
        r@ == spec_show_bundle(*msgs, opt_registry_view(registry), selector@),
{
    match select(registry, selector) {
        None => bundle_not_found(msgs, selector),
        Some(p) => CommandResult::message(render_bundle_detail(msgs, p, true)),
    }
}

pub open spec fn spec_review_bundle(msgs: PluginMessages, r: Option<RegistryView>, selector: Seq<char>) -> ResultView {
    match selected(r, selector) {
        None => not_found_result(msgs, selector),
        Some(p) => message_result(
            spec_bundle_detail(msgs, p, true) + "\n/plugin trust "@ + p.spec_name() + " "@
                + spec_review_token(p) + "\n"@,
        ),
    }
}

/// The bundle a selector picks, if any, has a review token.
pub open spec fn selection_has_token(r: Option<&PluginRegistry>, selector: Seq<char>) -> bool {
    selected(opt_registry_view(r), selector) matches Some(p) ==> token_ready(p)
}

/// Shows the capability review of a bundle and the command that confirms
/// it, which carries the review token.
pub fn review_bundle(msgs: &PluginMessages, registry: Option<&PluginRegistry>, selector: &str) -> (r:
    CommandResult)
    requires
        registry_ready(registry),
        selection_has_token(registry, selector@),
    ensures
        r@ == spec_review_bundle(*msgs, opt_registry_view(registry), selector@),
{
    match select(registry, selector) {
        None => bundle_not_found(msgs, selector),
        Some(p) => {
            let mut output = render_bundle_detail(msgs, p, true);
            output.append("\n/plugin trust ");
            output.append(p.name());
            output.append(" ");
            let token = review_token(p);
            output.append(token.as_str());
            output.append("\n");
            CommandResult::message(output)
        },
    }
}

pub open spec fn bundle_line(p: LoadedPlugin) -> Seq<char> {
    "• "@ + p.spec_name() + " — "@ + p.spec_state_label() + "\n  "@ + p.scope.label() + " · "@
        + p.trust_status.label() + " · "@ + p.inventory@.summary + "\n  "@ + p.id@ + "\n"@
}

pub open spec fn bundle_lines(ps: Seq<LoadedPlugin>) -> Seq<char>
    decreases ps.len(),
{
    if ps.len() == 0 {
        Seq::empty()
    } else {
        bundle_lines(ps.drop_last()) + bundle_line(ps.last())
    }
}

pub open spec fn tool_line(t: LegacyTool) -> Seq<char> {
    "• "@ + t.name@ + " — "@ + t.description@ + "\n  "@ + t.path@ + "\n"@
}

pub open spec fn tool_lines(ts: Seq<LegacyTool>) -> Seq<char>
    decreases ts.len(),
{
    if ts.len() == 0 {
        Seq::empty()
    } else {
        tool_lines(ts.drop_last()) + tool_line(ts.last())
    }
}

pub open spec fn legacy_header(msgs: PluginMessages, dir: Seq<char>, count: nat) -> Seq<char> {
    spec_replace(
        spec_replace(msgs.legacy_list_header@, "{count}"@, spec_decimal(count)),
        "{dir}"@,
        dir,
    )
}

/// The bundle section of the listing.
pub open spec fn spec_bundle_listing(msgs: PluginMessages, r: Option<RegistryView>) -> Seq<char> {
    match r {
        None => msgs.bundle_none_found@,
        Some(g) => spec_append_diagnostics(
            msgs,
            if g.plugins.len() == 0 {
                msgs.bundle_none_found@
            } else {
                spec_replace(msgs.bundle_list_header@, "{count}"@, spec_decimal(g.plugins.len()))
                    + "\n"@ + bundle_lines(g.plugins)
            },
            g.diagnostics,
        ),
    }
}

pub open spec fn spec_list_output(
    msgs: PluginMessages,
    r: Option<RegistryView>,
    legacy: Option<LegacyListing>,
) -> Seq<char> {
    spec_bundle_listing(msgs, r) + match legacy {
        None => Seq::empty(),
        Some(l) => "\n"@ + legacy_header(msgs, l.dir@, l.tools@.len()) + "\n"@ + tool_lines(l.tools@),
    }
}

fn append_tool_lines(output: &mut String, tools: &Vec<LegacyTool>)
    ensures
        final(output)@ == old(output)@ + tool_lines(tools@),
{
    let ghost base = output@;
    let mut i: usize = 0;
    while i < tools.len()
        invariant
            i <= tools@.len(),
            output@ == base + tool_lines(tools@.take(i as int)),
        decreases tools@.len() - i,
    {
        let t = &tools[i];
        assert(tools@.take(i + 1).drop_last() =~= tools@.take(i as int));
        assert(tools@.take(i + 1).last() == *t);
        output.append("• ");
        output.append(t.name.as_str());
        output.append(" — ");
        output.append(t.description.as_str());
        output.append("\n  ");
        output.append(t.path.as_str());
        output.append("\n");
        assert(output@ =~= base + tool_lines(tools@.take(i + 1)));
        i = i + 1;
    }
    assert(tools@.take(tools@.len() as int) =~= tools@);
}

fn render_legacy_header(msgs: &PluginMessages, dir: &str, count: usize) -> (r: String)
    ensures
        r@ == legacy_header(*msgs, dir@, count as nat),
{
    proof {
        reveal_strlit("{count}");
        reveal_strlit("{dir}");
    }
    let n = decimal(count);
    let t = replace_all(msgs.legacy_list_header.as_str(), "{count}", n.as_str());
    replace_all(t.as_str(), "{dir}", dir)
}

fn bundle_line_text(p: &LoadedPlugin) -> (r: String)
    ensures
        r@ == bundle_line(*p),
{
    let mut r = String::from_str("• ");
    r.append(p.name());
    r.append(" — ");
    r.append(p.state_label());
    r.append("\n  ");
    r.append(p.scope.as_str());
    r.append(" · ");
    r.append(p.trust_status.as_str());
    r.append(" · ");
    r.append(p.inventory.summary.as_str());
    r.append("\n  ");
    r.append(p.id.as_str());
    r.append("\n");
    r
}

fn append_bundle_lines(output: &mut String, plugins: &Vec<&LoadedPlugin>)
    ensures
        final(output)@ == old(output)@ + bundle_lines(plugins@.map_values(|p: &LoadedPlugin| *p)),
{
    let ghost ps = plugins@.map_values(|p: &LoadedPlugin| *p);
    let ghost base = output@;
    let mut i: usize = 0;
    while i < plugins.len()
        invariant
            ps == plugins@.map_values(|p: &LoadedPlugin| *p),
            i <= plugins@.len(),
            output@ == base + bundle_lines(ps.take(i as int)),
        decreases plugins@.len() - i,
    {
        assert(ps.take(i + 1).drop_last() =~= ps.take(i as int));
        assert(ps.take(i + 1).last() == *plugins@[i as int]);
        let line = bundle_line_text(plugins[i]);
        output.append(line.as_str());
        assert(output@ =~= base + bundle_lines(ps.take(i + 1)));
        i = i + 1;
    }
    assert(ps.take(plugins@.len() as int) =~= ps);
}

fn bundle_listing(msgs: &PluginMessages, registry: Option<&PluginRegistry>) -> (r: String)
    ensures
        r@ == spec_bundle_listing(*msgs, opt_registry_view(registry)),
{
    proof {
        reveal_strlit("{count}");
    }
    match registry {
        None => msgs.bundle_none_found.clone(),
        Some(g) => {
            let plugins = g.list();
            proof {
                assert(plugins@.map_values(|p: &LoadedPlugin| *p) =~= g@.plugins);
            }
            let mut output = if plugins.len() == 0 {
                msgs.bundle_none_found.clone()
            } else {
                let n = decimal(plugins.len());
                let mut output = replace_all(msgs.bundle_list_header.as_str(), "{count}", n.as_str());
                output.append("\n");
                append_bundle_lines(&mut output, &plugins);
                output
            };
            append_diagnostics(msgs, &mut output, g.diagnostics());
            output
        },
    }
}

/// Lists the bundles, then the legacy executable tools when the legacy
/// plugin directory exists (`legacy`).
pub fn list_bundles_and_legacy_tools(
    msgs: &PluginMessages,
    registry: Option<&PluginRegistry>,
    legacy: Option<&LegacyListing>,
) -> (r: CommandResult)
    ensures
        r@ == message_result(
            spec_list_output(
                *msgs,
                opt_registry_view(registry),
                match legacy {
                    Some(l) => Some(*l),
                    None => None,
                },
            ),
        ),
{
    let mut output = bundle_listing(msgs, registry);
    let ghost listing = output@;
    match legacy {
        Some(l) => {
            output.append("\n");
            let header = render_legacy_header(msgs, l.dir.as_str(), l.tools.len());
            output.append(header.as_str());
            output.append("\n");
            append_tool_lines(&mut output, &l.tools);
            assert(output@ =~= listing + ("\n"@ + legacy_header(*msgs, l.dir@, l.tools@.len())
                + "\n"@ + tool_lines(l.tools@)));
        },
        None => {
            assert(output@ =~= listing + Seq::<char>::empty());
        },
    }
    CommandResult::message(output)
}

pub open spec fn validate_line(p: LoadedPlugin) -> Seq<char> {
    p.spec_name() + " — "@ + (if has_error(p.diagnostics@) {
        "invalid"@
    } else {
        "valid"@
    }) + " — "@ + p.inventory@.summary + "\n"@
}

/// A bundle's validation line reads `invalid` exactly when one of its
/// diagnostics is an error; a bundle whose diagnostics are all warnings (or
/// that has none) reads `valid`.
pub proof fn law_validation_verdict(p: LoadedPlugin)
    ensures
        (exists|i: int|
            0 <= i < p.diagnostics@.len() && #[trigger] p.diagnostics@[i].level
                == PluginDiagnosticLevel::Error) ==> validate_line(p) == p.spec_name()
            + " — invalid — "@ + p.inventory@.summary + "\n"@,
        (forall|i: int|
            0 <= i < p.diagnostics@.len() ==> #[trigger] p.diagnostics@[i].level
                != PluginDiagnosticLevel::Error) ==> validate_line(p) == p.spec_name()
            + " — valid — "@ + p.inventory@.summary + "\n"@,
{
    reveal_strlit(" — ");
    reveal_strlit(" — invalid — ");
    reveal_strlit(" — valid — ");
    reveal_strlit("invalid");
    reveal_strlit("valid");
    assert(p.spec_name() + " — "@ + "invalid"@ + " — "@ + p.inventory@.summary + "\n"@ =~= p.spec_name()
        + " — invalid — "@ + p.inventory@.summary + "\n"@);
    assert(p.spec_name() + " — "@ + "valid"@ + " — "@ + p.inventory@.summary + "\n"@ =~= p.spec_name()
        + " — valid — "@ + p.inventory@.summary + "\n"@);
}

/// One validation line per bundle, each followed by its diagnostics.
pub open spec fn validate_body(msgs: PluginMessages, ps: Seq<LoadedPlugin>) -> Seq<char>
    decreases ps.len(),
{
    if ps.len() == 0 {
        Seq::empty()
    } else {
        spec_append_diagnostics(
            msgs,
            validate_body(msgs, ps.drop_last()) + validate_line(ps.last()),
            ps.last().diagnostics@,
        )
    }
}

pub open spec fn spec_validate(msgs: PluginMessages, r: Option<RegistryView>, selector: Option<Seq<char>>) -> ResultView {
    match r {
        None => error_result(msgs.bundle_none_found@),
        Some(g) => {
            let ps = match selector {
                Some(s) => match g.lookup(s) {
                    Some(p) => seq![p],
                    None => Seq::empty(),
                },
                None => g.plugins,
            };
            if selector is Some && ps.len() == 0 {
                not_found_result(msgs, selector->0)
            } else {
                let out = spec_append_diagnostics(msgs, validate_body(msgs, ps), g.diagnostics);
                if out.len() == 0 {
                    message_result(
                        if g.spec_validation_is_clean() {
                            "valid"@
                        } else {
                            "invalid"@
                        },
                    )
                } else {
                    message_result(out)
                }
            }
        },
    }
}

/// Validates one bundle (`selector`) or all of them; this only reads.
pub fn validate_bundles(
    msgs: &PluginMessages,
    registry: Option<&PluginRegistry>,
    selector: Option<&str>,
) -> (r: CommandResult)
    requires
        registry_ready(registry),
    ensures
        r@ == spec_validate(
            *msgs,
            opt_registry_view(registry),
            match selector {
                Some(s) => Some(s@),
                None => None,
            },
        ),
{
    let g = match registry {
        None => return CommandResult::error(msgs.bundle_none_found.clone()),
        Some(g) => g,
    };
    let plugins: Vec<&LoadedPlugin> = match selector {
        Some(s) => {
            let mut v: Vec<&LoadedPlugin> = Vec::new();
            match g.get(s) {
                Some(p) => v.push(p),
                None => {},
            }
            v
        },
        None => g.list(),
    };
    let ghost ps = plugins@.map_values(|p: &LoadedPlugin| *p);
    proof {
        match selector {
            Some(s) => {
                match g@.lookup(s@) {
                    Some(p) => assert(ps =~= seq![p]),
                    None => assert(ps =~= Seq::<LoadedPlugin>::empty()),
                }
            },
            None => assert(ps =~= g@.plugins),
        }
    }
    match selector {
        Some(s) => {
            if plugins.len() == 0 {
                return bundle_not_found(msgs, s);
            }
        },
        None => {},
    }
    let mut output = String::new();
    let mut i: usize = 0;
    while i < plugins.len()
        invariant
            ps == plugins@.map_values(|p: &LoadedPlugin| *p),
            i <= plugins@.len(),
            output@ == validate_body(*msgs, ps.take(i as int)),
        decreases plugins@.len() - i,
    {
        let p = plugins[i];
        assert(ps.take(i + 1).drop_last() =~= ps.take(i as int));
        assert(ps.take(i + 1).last() == *p);
        let line = validate_line_text(p);
        output.append(line.as_str());
        append_diagnostics(msgs, &mut output, p.diagnostics.as_slice());
        i = i + 1;
    }
    assert(ps.take(plugins@.len() as int) =~= ps);
    append_diagnostics(msgs, &mut output, g.diagnostics());
    if output.unicode_len() == 0 {
        let clean = g.validation_is_clean();
        output.append(
            if clean {
                "valid"
            } else {
                "invalid"
            },
        );
        assert(output@ =~= (if clean {
            "valid"@
        } else {
            "invalid"@
        }));
    }
    CommandResult::message(output)
}

fn validate_line_text(p: &LoadedPlugin) -> (r: String)
    ensures
        r@ == validate_line(*p),
{
    let mut r = String::from_str(p.name());
    r.append(" — ");
    let verdict = if any_error_in(&p.diagnostics) {
        "invalid"
    } else {
        "valid"
    };
    r.append(verdict);
    r.append(" — ");
    r.append(p.inventory.summary.as_str());
    r.append("\n");
    r
}

fn any_error_in(diagnostics: &Vec<PluginDiagnostic>) -> (r: bool)
    ensures
        r == has_error(diagnostics@),
{
    crate::types::any_error(diagnostics)
}

/// What to do about a lifecycle change: answer at once, or persist `next`
/// and then report `action` (see `finish_mutation`).
#[derive(Debug)]
pub enum MutationPlan {
    Respond(CommandResult),
    Persist { next: PluginStateFile, action: &'static str },
}

pub open spec fn action_text(m: MutationView) -> Seq<char> {
    match m {
        MutationView::Trust(_) => "trusted"@,
        MutationView::Enable => "enabled"@,
        MutationView::Disable => "disabled"@,
        MutationView::Revoke => "trust-revoked"@,
    }
}

pub open spec fn token_mismatch_message() -> Seq<char> {
    "Review token does not match this bundle content and capability set; run `/plugin trust <name>` again"@
}

pub open spec fn not_initialized_message() -> Seq<char> {
    "Plugin registry is not initialized"@
}

/// The registry's answer to a lifecycle change.
pub open spec fn mutation_outcome(
    g: RegistryView,
    selector: Seq<char>,
    m: MutationView,
    r: Result<PluginStateFile, String>,
) -> bool {
    match m {
        MutationView::Trust(_) => g.review_now_outcome(selector, r),
        MutationView::Enable => g.enable_outcome(selector, r),
        MutationView::Disable => g.disable_outcome(selector, r),
        MutationView::Revoke => g.revoke_outcome(selector, r),
    }
}

/// The plan that follows from the registry's answer `r`.
pub open spec fn plan_from(
    msgs: PluginMessages,
    r: Result<PluginStateFile, String>,
    m: MutationView,
    plan: MutationPlan,
) -> bool {
    match r {
        Err(e) => plan matches MutationPlan::Respond(c) && c@ == action_error_result(msgs, e@),
        Ok(next) => plan matches MutationPlan::Persist { next: n, action } && n@ == next@ && action@
            == action_text(m),
    }
}

pub open spec fn persist_or_fail(
    msgs: PluginMessages,
    r: Option<RegistryView>,
    selector: Seq<char>,
    m: MutationView,
    plan: MutationPlan,
) -> bool {
    match r {
        None => plan matches MutationPlan::Respond(c) && c@ == action_error_result(
            msgs,
            not_initialized_message(),
        ),
        Some(g) => exists|a: Result<PluginStateFile, String>|
            mutation_outcome(g, selector, m, a) && plan_from(msgs, a, m, plan),
    }
}

/// Enabling an unreviewed bundle opens its review instead; trusting needs
/// the token of the current review; otherwise the registry decides.
pub open spec fn spec_plan(
    msgs: PluginMessages,
    r: Option<RegistryView>,
    selector: Seq<char>,
    m: MutationView,
    plan: MutationPlan,
) -> bool {
    match m {
        MutationView::Enable => if selected(r, selector) matches Some(p) && !p.spec_trusted() {
            plan matches MutationPlan::Respond(c) && c@ == spec_review_bundle(msgs, r, selector)
        } else {
            persist_or_fail(msgs, r, selector, m, plan)
        },
        MutationView::Trust(token) => match selected(r, selector) {
            None => plan matches MutationPlan::Respond(c) && c@ == not_found_result(msgs, selector),
            Some(p) => if token != spec_review_token(p) {
                plan matches MutationPlan::Respond(c) && c@ == action_error_result(
                    msgs,
                    token_mismatch_message(),
                )
            } else {
                persist_or_fail(msgs, r, selector, m, plan)
            },
        },
        _ => persist_or_fail(msgs, r, selector, m, plan),
    }
}

fn plan_with(
    msgs: &PluginMessages,
    r: Result<PluginStateFile, String>,
    m: &Mutation,
) -> (plan: MutationPlan)
    requires
        r matches Ok(st) ==> st@.wf(),
    ensures
        plan_from(*msgs, r, m@, plan),
        plan matches MutationPlan::Persist { next, .. } ==> next@.wf(),
{
    match r {
        Err(e) => MutationPlan::Respond(action_error(msgs, e.as_str())),
        Ok(next) => {
            let action = match m {
                Mutation::Trust(_) => "trusted",
                Mutation::Enable => "enabled",
                Mutation::Disable => "disabled",
                Mutation::Revoke => "trust-revoked",
            };
            MutationPlan::Persist { next, action }
        },
    }
}

fn ask_registry(
    msgs: &PluginMessages,
    registry: Option<&PluginRegistry>,
    selector: &str,
    m: &Mutation,
) -> (plan: MutationPlan)
    requires
        registry_ready(registry),
    ensures
        persist_or_fail(*msgs, opt_registry_view(registry), selector@, m@, plan),
        plan matches MutationPlan::Persist { next, .. } ==> next@.wf(),
{
    let g = match registry {
        None => return MutationPlan::Respond(
            action_error(msgs, "Plugin registry is not initialized"),
        ),
        Some(g) => g,
    };
    let r = match m {
        Mutation::Trust(_) => g.trust(selector),
        Mutation::Enable => g.enable(selector),
        Mutation::Disable => g.disable(selector),
        Mutation::Revoke => g.revoke_trust(selector),
    };
    let ghost a = r;
    let plan = plan_with(msgs, r, m);
    assert(mutation_outcome(g@, selector@, m@, a) && plan_from(*msgs, a, m@, plan));
    plan
}

/// The review token is sliced from the selected bundle's hashes only to
/// check a trust confirmation and to open the review of an untrusted bundle
/// that is to be enabled; there the hashes must be long enough for it.
pub open spec fn mutation_has_token(r: Option<&PluginRegistry>, selector: Seq<char>, m: MutationView) -> bool {
    match m {
        MutationView::Trust(_) => selection_has_token(r, selector),
        MutationView::Enable => selected(opt_registry_view(r), selector) matches Some(p) ==> (
        !p.spec_trusted() ==> token_ready(p)),
        _ => true,
    }
}

/// Plans a lifecycle change of the bundle a selector picks.
pub fn mutate_bundle(
    msgs: &PluginMessages,
    registry: Option<&PluginRegistry>,
    selector: &str,
    mutation: Mutation,
) -> (plan: MutationPlan)
    requires
        registry_ready(registry),
        mutation_has_token(registry, selector@, mutation@),
    ensures
        spec_plan(*msgs, opt_registry_view(registry), selector@, mutation@, plan),
        plan matches MutationPlan::Persist { next, .. } ==> next@.wf(),
{
    match &mutation {
        Mutation::Enable => {
            let needs_review = match select(registry, selector) {
                Some(p) => !p.trusted(),
                None => false,
            };
            if needs_review {
                return MutationPlan::Respond(review_bundle(msgs, registry, selector));
            }
        },
        Mutation::Trust(token) => {
            let expected = match select(registry, selector) {
                Some(p) => review_token(p),
                None => return MutationPlan::Respond(bundle_not_found(msgs, selector)),
            };
            if !str_eq(token.as_str(), expected.as_str()) {
                return MutationPlan::Respond(
                    action_error(
                        msgs,
                        "Review token does not match this bundle content and capability set; run `/plugin trust <name>` again",
                    ),
                );
            }
        },
        _ => {},
    }
    ask_registry(msgs, registry, selector, &mutation)
}

pub open spec fn success_text(msgs: PluginMessages, selector: Seq<char>, action: Seq<char>) -> Seq<char> {
    spec_replace(
        spec_replace(msgs.bundle_mutation_success@, "{name}"@, selector),
        "{action}"@,
        action,
    )
}

pub open spec fn finish_result(
    msgs: PluginMessages,
    rc: Result<(), String>,
    selector: Seq<char>,
    action: Seq<char>,
) -> ResultView {
    match rc {
        Ok(_) => message_result(success_text(msgs, selector, action)),
        Err(e) => action_error_result(msgs, e@),
    }
}

/// Commits a persisted change and reports it; `persisted` is the outcome of
/// writing `next`.
pub fn finish_mutation(
    msgs: &PluginMessages,
    registry: &mut PluginRegistry,
    selector: &str,
    next: PluginStateFile,
    persisted: Result<(), String>,
    action: &str,
) -> (r: CommandResult)
    requires
        old(registry)@.wf(),
        next@.wf(),
    ensures
        final(registry)@.wf(),
        exists|rc: Result<(), String>|
            old(registry)@.commit_outcome(next@, persisted, rc, final(registry)@) && r@
                == finish_result(*msgs, rc, selector@, action@),
{
    proof {
        reveal_strlit("{name}");
        reveal_strlit("{action}");
    }
    let ghost n = next@;
    let ghost p = persisted;
    let rc = registry.commit_state_change(next, persisted);
    let ghost rc0 = rc;
    let r = match rc {
        Ok(()) => {
            let t = replace_all(msgs.bundle_mutation_success.as_str(), "{name}", selector);
            CommandResult::message(replace_all(t.as_str(), "{action}", action))
        },
        Err(e) => action_error(msgs, e.as_str()),
    };
    assert(r@ == finish_result(*msgs, rc0, selector@, action@));
    r
}

/// What the command host does next for a `/plugin` command.
#[derive(Debug)]
pub enum PluginStep {
    /// Answer; nothing is persisted.
    Respond(CommandResult),
    /// Persist `next`, then commit it with `finish_mutation` (for `selector`
    /// and `action`) and answer with what that gives.
    Persist { selector: String, next: PluginStateFile, action: &'static str },
    /// Rediscover the workspace's bundles and answer with `reload_message`.
    Reload,
}

/// `step` carries out the mutation plan `plan` for `selector`.
pub open spec fn step_follows_plan(step: PluginStep, selector: Seq<char>, plan: MutationPlan) -> bool {
    match plan {
        MutationPlan::Respond(c) => step matches PluginStep::Respond(d) && d@ == c@,
        MutationPlan::Persist { next, action } => step matches PluginStep::Persist {
            selector: s,
            next: n,
            action: a,
        } && s@ == selector && n@ == next@ && a@ == action@,
    }
}

/// The review token is available wherever a command slices it.
pub open spec fn command_has_token(r: Option<&PluginRegistry>, cmd: CommandView) -> bool {
    match cmd {
        CommandView::Review(s) => selection_has_token(r, s),
        CommandView::Mutate(s, m) => mutation_has_token(r, s, m),
        _ => true,
    }
}

/// Whether the answer to a command reads the legacy tool directory.
pub open spec fn spec_reads_legacy(r: Option<RegistryView>, cmd: CommandView) -> bool {
    match cmd {
        CommandView::List => true,
        CommandView::Tools(_) => true,
        CommandView::Bare(s) => selected(r, s) is None,
        _ => false,
    }
}

pub open spec fn listing_view(legacy: Option<&LegacyListing>) -> Option<LegacyListing> {
    match legacy {
        Some(l) => Some(*l),
        None => None,
    }
}

pub open spec fn listed_tools(legacy: Option<LegacyListing>) -> Option<Seq<LegacyTool>> {
    match legacy {
        Some(l) => Some(l.tools@),
        None => None,
    }
}

pub open spec fn opt_str_view(o: Option<&str>) -> Option<Seq<char>> {
    match o {
        Some(s) => Some(s@),
        None => None,
    }
}

/// The step for each command. `legacy_dir` is the legacy tool directory, if
/// one could be resolved, and `legacy` what it holds when it exists.
pub open spec fn spec_step(
    msgs: PluginMessages,
    r: Option<RegistryView>,
    cmd: CommandView,
    legacy_dir: Option<Seq<char>>,
    legacy: Option<LegacyListing>,
    step: PluginStep,
) -> bool {
    match cmd {
        CommandView::Mutate(s, m) => exists|plan: MutationPlan|
            spec_plan(msgs, r, s, m, plan) && step_follows_plan(step, s, plan),
        CommandView::Reload => step is Reload,
        _ => step matches PluginStep::Respond(c) && c@ == spec_answer(msgs, r, cmd, legacy_dir, legacy),
    }
}

/// The answer to a command that neither persists nor rediscovers anything.
pub open spec fn spec_answer(
    msgs: PluginMessages,
    r: Option<RegistryView>,
    cmd: CommandView,
    legacy_dir: Option<Seq<char>>,
    legacy: Option<LegacyListing>,
) -> ResultView {
    match cmd {
        CommandView::List => message_result(spec_list_output(msgs, r, legacy)),
        CommandView::Help => message_result(msgs.bundle_usage@),
        CommandView::Show(s) => spec_show_bundle(msgs, r, s),
        CommandView::Validate(s) => spec_validate(msgs, r, s),
        CommandView::Review(s) => spec_review_bundle(msgs, r, s),
        CommandView::Tools(name) => spec_legacy_tools(msgs, legacy_dir, listed_tools(legacy), name),
        CommandView::Bare(s) => if selected(r, s) is Some {
            spec_show_bundle(msgs, r, s)
        } else {
            spec_legacy_tools(msgs, legacy_dir, listed_tools(legacy), Some(s))
        },
        _ => error_result(msgs.bundle_usage@),
    }
}

/// Whether the review token is available wherever `command` slices it.
pub fn command_token_available(registry: Option<&PluginRegistry>, command: &PluginCommand) -> (r:
    bool)
    requires
        registry_ready(registry),
    ensures
        r == command_has_token(registry, command@),
{
    match command {
        PluginCommand::Review(s) => match select(registry, s.as_str()) {
            Some(p) => review_token_available(p),
            None => true,
        },
        PluginCommand::Mutate(s, m) => match m {
            Mutation::Trust(_) => match select(registry, s.as_str()) {
                Some(p) => review_token_available(p),
                None => true,
            },
            Mutation::Enable => match select(registry, s.as_str()) {
                Some(p) => p.trusted() || review_token_available(p),
                None => true,
            },
            _ => true,
        },
        _ => true,
    }
}

/// Whether the answer to `command` reads the legacy tool directory; for
/// any other command the directory need not be looked at.
pub fn reads_legacy_tools(registry: Option<&PluginRegistry>, command: &PluginCommand) -> (r: bool)
    requires
        registry_ready(registry),
    ensures
        r == spec_reads_legacy(opt_registry_view(registry), command@),
{
    match command {
        PluginCommand::List => true,
        PluginCommand::Tools(_) => true,
        PluginCommand::Bare(s) => select(registry, s.as_str()).is_none(),
        _ => false,
    }
}

/// Decides what a `/plugin` command does: answers it, or asks the host to
/// persist a prepared state change or to rediscover the bundles.
pub fn route_plugin_command(
    msgs: &PluginMessages,
    registry: Option<&PluginRegistry>,
    command: PluginCommand,
    legacy_dir: Option<&str>,
    legacy: Option<&LegacyListing>,
) -> (step: PluginStep)
    requires
        registry_ready(registry),
        command_has_token(registry, command@),
    ensures
        spec_step(
            *msgs,
            opt_registry_view(registry),
            command@,
            opt_str_view(legacy_dir),
            listing_view(legacy),
            step,
        ),
        step matches PluginStep::Persist { next, .. } ==> next@.wf(),
{
    let tools: Option<&Vec<LegacyTool>> = match legacy {
        Some(l) => Some(&l.tools),
        None => None,
    };
    match command {
        PluginCommand::List => PluginStep::Respond(
            list_bundles_and_legacy_tools(msgs, registry, legacy),
        ),
        PluginCommand::Help => PluginStep::Respond(CommandResult::message(msgs.bundle_usage.clone())),
        PluginCommand::Show(s) => PluginStep::Respond(show_bundle(msgs, registry, s.as_str())),
        PluginCommand::Validate(s) => {
            let sel: Option<&str> = match &s {
                Some(v) => Some(v.as_str()),
                None => None,
            };
            PluginStep::Respond(validate_bundles(msgs, registry, sel))
        },
        PluginCommand::Review(s) => PluginStep::Respond(review_bundle(msgs, registry, s.as_str())),
        PluginCommand::Mutate(s, m) => {
            let ghost sel = s@;
            let ghost mv = m@;
            let plan = mutate_bundle(msgs, registry, s.as_str(), m);
            let ghost p = plan;
            let step = match plan {
                MutationPlan::Respond(c) => PluginStep::Respond(c),
                MutationPlan::Persist { next, action } => PluginStep::Persist {
                    selector: s,
                    next,
                    action,
                },
            };
            assert(spec_plan(*msgs, opt_registry_view(registry), sel, mv, p) && step_follows_plan(
                step,
                sel,
                p,
            ));
            step
        },
        PluginCommand::Reload => PluginStep::Reload,
        PluginCommand::Tools(name) => {
            let n: Option<&str> = match &name {
                Some(v) => Some(v.as_str()),
                None => None,
            };
            PluginStep::Respond(legacy_tools(msgs, legacy_dir, tools, n))
        },
        PluginCommand::Bare(s) => {
            if bare_selects_bundle(registry, s.as_str()) {
                PluginStep::Respond(show_bundle(msgs, registry, s.as_str()))
            } else {
                PluginStep::Respond(legacy_tools(msgs, legacy_dir, tools, Some(s.as_str())))
            }
        },
        PluginCommand::Usage => PluginStep::Respond(CommandResult::error(msgs.bundle_usage.clone())),
    }
}

/// Whether a bare word selects a bundle (it is shown) rather than a legacy
/// tool.
pub fn bare_selects_bundle(registry: Option<&PluginRegistry>, selector: &str) -> (r: bool)
    requires
        registry_ready(registry),
    ensures
        r == (selected(opt_registry_view(registry), selector@) is Some),
{
    match select(registry, selector) {
        Some(_) => true,
        None => false,
    }
}

pub open spec fn spec_reload(msgs: PluginMessages, r: Result<usize, String>, workspace: Seq<char>) -> ResultView {
    match r {
        Ok(count) => message_result(
            spec_replace(
                spec_replace(msgs.bundle_reloaded@, "{count}"@, spec_decimal(count as nat)),
                "{workspace}"@,
                workspace,
            ),
        ),
        Err(e) => action_error_result(msgs, e@),
    }
}

/// Reports a reload of the registry for `workspace`.
pub fn reload_message(msgs: &PluginMessages, reloaded: Result<usize, String>, workspace: &str) -> (r:
    CommandResult)
    ensures
        r@ == spec_reload(*msgs, reloaded, workspace@),
{
    proof {
        reveal_strlit("{count}");
        reveal_strlit("{workspace}");
    }
    match reloaded {
        Ok(count) => {
            let n = decimal(count);
            let t = replace_all(msgs.bundle_reloaded.as_str(), "{count}", n.as_str());
            CommandResult::message(replace_all(t.as_str(), "{workspace}", workspace))
        },
        Err(e) => action_error(msgs, e.as_str()),
    }
}

pub open spec fn is_first_tool(ts: Seq<LegacyTool>, name: Seq<char>, i: int) -> bool {
    &&& 0 <= i < ts.len()
    &&& ts[i].name@ == name
    &&& forall|j: int| 0 <= j < i ==> ts[j].name@ != name
}

pub open spec fn forty_equals() -> Seq<char> {
    Seq::new(40, |i: int| '=')
}

pub open spec fn tool_detail(msgs: PluginMessages, t: LegacyTool) -> Seq<char> {
    t.name@ + "\n"@ + forty_equals() + "\n"@ + spec_replace(
        msgs.detail_description@,
        "{description}"@,
        t.description@,
    ) + "\n"@ + spec_replace(msgs.detail_schema@, "{schema}"@, t.input_schema@) + "\n"@
        + spec_replace(msgs.detail_approval@, "{approval}"@, approval_text(t.approval)) + "\n"@
        + spec_replace(msgs.detail_path@, "{path}"@, t.path@) + "\n"@
}

pub open spec fn spec_show_legacy(msgs: PluginMessages, name: Seq<char>, ts: Seq<LegacyTool>) -> ResultView {
    if exists|i: int| is_first_tool(ts, name, i) {
        message_result(tool_detail(msgs, ts[choose|i: int| is_first_tool(ts, name, i)]))
    } else {
        error_result(spec_replace(msgs.legacy_not_found@, "{name}"@, name))
    }
}

fn tool_detail_text(msgs: &PluginMessages, t: &LegacyTool) -> (r: String)
    ensures
        r@ == tool_detail(*msgs, *t),
{
    proof {
        reveal_strlit("{description}");
        reveal_strlit("{schema}");
        reveal_strlit("{approval}");
        reveal_strlit("{path}");
    }
    let mut r = t.name.clone();
    r.append("\n");
    let mut k: usize = 0;
    let ghost base = r@;
    while k < 40
        invariant
            k <= 40,
            r@ == base + Seq::new(k as nat, |i: int| '='),
        decreases 40 - k,
    {
        push_char(&mut r, '=');
        assert(base + Seq::new((k + 1) as nat, |i: int| '=') =~= (base + Seq::new(
            k as nat,
            |i: int| '=',
        )).push('='));
        k = k + 1;
    }
    r.append("\n");
    let d = replace_all(msgs.detail_description.as_str(), "{description}", t.description.as_str());
    r.append(d.as_str());
    r.append("\n");
    let d = replace_all(msgs.detail_schema.as_str(), "{schema}", t.input_schema.as_str());
    r.append(d.as_str());
    r.append("\n");
    let d = replace_all(msgs.detail_approval.as_str(), "{approval}", approval_label(t.approval));
    r.append(d.as_str());
    r.append("\n");
    let d = replace_all(msgs.detail_path.as_str(), "{path}", t.path.as_str());
    r.append(d.as_str());
    r.append("\n");
    r
}

/// Shows the detail of the first legacy tool named `name`.
pub fn show_legacy_tool_detail(msgs: &PluginMessages, name: &str, discovered: &Vec<LegacyTool>) -> (r:
    CommandResult)
    ensures
        r@ == spec_show_legacy(*msgs, name@, discovered@),
{
    let mut i: usize = 0;
    while i < discovered.len()
        invariant
            i <= discovered@.len(),
            forall|j: int| 0 <= j < i ==> discovered@[j].name@ != name@,
        decreases discovered@.len() - i,
    {
        if str_eq(discovered[i].name.as_str(), name) {
            proof {
                assert(is_first_tool(discovered@, name@, i as int));
                let c = choose|c: int| is_first_tool(discovered@, name@, c);
                if c < i {
                    assert(discovered@[c].name@ == name@);
                } else if i < c {
                    assert(discovered@[i as int].name@ == name@);
                }
            }
            return CommandResult::message(tool_detail_text(msgs, &discovered[i]));
        }
        i = i + 1;
    }
    proof {
        reveal_strlit("{name}");
        if exists|c: int| is_first_tool(discovered@, name@, c) {
            let c = choose|c: int| is_first_tool(discovered@, name@, c);
            assert(discovered@[c].name@ == name@);
        }
    }
    CommandResult::error(replace_all(msgs.legacy_not_found.as_str(), "{name}", name))
}

pub open spec fn spec_list_legacy(msgs: PluginMessages, dir: Seq<char>, ts: Seq<LegacyTool>) -> ResultView {
    if ts.len() == 0 {
        message_result(spec_replace(msgs.legacy_none_found@, "{dir}"@, dir))
    } else {
        message_result(legacy_header(msgs, dir, ts.len()) + "\n"@ + tool_lines(ts))
    }
}

/// Lists the legacy tools found in `plugin_dir`.
pub fn list_legacy_tools(msgs: &PluginMessages, plugin_dir: &str, discovered: &Vec<LegacyTool>) -> (r:
    CommandResult)
    ensures
        r@ == spec_list_legacy(*msgs, plugin_dir@, discovered@),
{
    proof {
        reveal_strlit("{dir}");
    }
    if discovered.len() == 0 {
        return CommandResult::message(
            replace_all(msgs.legacy_none_found.as_str(), "{dir}", plugin_dir),
        );
    }
    let mut output = render_legacy_header(msgs, plugin_dir, discovered.len());
    output.append("\n");
    append_tool_lines(&mut output, discovered);
    CommandResult::message(output)
}

pub open spec fn no_legacy_dir_message() -> Seq<char> {
    "Could not resolve the legacy executable plugin-tool directory"@
}

/// The legacy tool command: `plugin_dir` is the legacy plugin directory if
/// it could be resolved, and `discovered` the tools found in it if it
/// exists.
pub open spec fn spec_legacy_tools(
    msgs: PluginMessages,
    plugin_dir: Option<Seq<char>>,
    discovered: Option<Seq<LegacyTool>>,
    name: Option<Seq<char>>,
) -> ResultView {
    match plugin_dir {
        None => action_error_result(msgs, no_legacy_dir_message()),
        Some(dir) => match discovered {
            None => message_result(spec_replace(msgs.legacy_none_found@, "{dir}"@, dir)),
            Some(ts) => match name {
                Some(n) => spec_show_legacy(msgs, n, ts),
                None => spec_list_legacy(msgs, dir, ts),
            },
        },
    }
}

pub fn legacy_tools(
    msgs: &PluginMessages,
    plugin_dir: Option<&str>,
    discovered: Option<&Vec<LegacyTool>>,
    name: Option<&str>,
) -> (r: CommandResult)
    ensures
        r@ == spec_legacy_tools(
            *msgs,
            match plugin_dir {
                Some(d) => Some(d@),
                None => None,
            },
            match discovered {
                Some(v) => Some(v@),
                None => None,
            },
            match name {
                Some(n) => Some(n@),
                None => None,
            },
        ),
{
    proof {
        reveal_strlit("{dir}");
    }
    let dir = match plugin_dir {
        None => return action_error(
            msgs,
            "Could not resolve the legacy executable plugin-tool directory",
        ),
        Some(d) => d,
    };
    let tools = match discovered {
        None => return CommandResult::message(
            replace_all(msgs.legacy_none_found.as_str(), "{dir}", dir),
        ),
        Some(t) => t,
    };
    match name {
        Some(n) => show_legacy_tool_detail(msgs, n, tools),
        None => list_legacy_tools(msgs, dir, tools),
    }
}

/// The legacy plugin directory: the configured one, else `tools` under the
/// Codewhale home (when the home could be resolved).
pub fn plugin_dir_for(configured: Option<Vec<PathComponent>>, home: Option<&Vec<PathComponent>>) -> (r:
    Option<Vec<PathComponent>>)
    ensures
        match configured {
            Some(c) => r == Some(c),
            None => match home {
                Some(h) => r matches Some(d) && path_view(d@) == path_view(h@).push(
                    ComponentView::Normal("tools"@),
                ),
                None => r is None,
            },
        },
{
    match configured {
        Some(c) => Some(c),
        None => match home {
            Some(h) => Some(join_name(h, "tools")),
            None => None,
        },
    }
}

/// Trust is only ever persisted with the token of the current review: a
/// planned trust change means the selected bundle exists and the token
/// matches its content and capability hashes.
pub proof fn law_trust_needs_matching_token(
    msgs: PluginMessages,
    r: Option<RegistryView>,
    selector: Seq<char>,
    token: Seq<char>,
    plan: MutationPlan,
)
    requires
        spec_plan(msgs, r, selector, MutationView::Trust(token), plan),
        plan is Persist,
    ensures
        selected(r, selector) matches Some(p) && token == spec_review_token(p),
{
}

/// Enabling a bundle that is not trusted opens its capability review and
/// persists nothing.
pub proof fn law_enable_of_unreviewed_opens_review(
    msgs: PluginMessages,
    r: Option<RegistryView>,
    selector: Seq<char>,
    plan: MutationPlan,
)
    requires
        spec_plan(msgs, r, selector, MutationView::Enable, plan),
        selected(r, selector) matches Some(p) && !p.spec_trusted(),
    ensures
        plan matches MutationPlan::Respond(c) && c@ == spec_review_bundle(msgs, r, selector),
{
}

} // verus!
