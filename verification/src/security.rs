//! Structured authority decisions for capability tools: which calls run, which need an
//! approval, which are denied, and how a dispatched side effect is recorded.

use vstd::prelude::*;

use crate::digest::{hex_lower, sha256_hex, sha256_text};
use crate::tools::{ToolExecutionError, ToolResult, ToolResultStatus};
use crate::json::{
    as_bool, as_str, clone_json, field, get, get_bool, get_str, json_print, json_view, print_json, JsonValue,
    JsonView,
};
use crate::text::{
    ascii_lower_seq, bounded, chars_of, contains_char, has_prefix, is_blank_str, push_str, starts_with, str_eq,
    take_chars, to_ascii_lowercase, trim,
};

verus! {

/// The permission level of a Run.
#[derive(PartialEq, Eq, Structural, Clone, Copy, Debug)]
pub enum PermissionProfile {
    ReadOnly,
    WorkspaceWrite,
    Writable,
    FullAccess,
}

/// Whether someone can answer an approval request.
#[derive(PartialEq, Eq, Structural, Clone, Copy, Debug)]
pub enum AuthorityMode {
    Interactive,
    Unattended,
}

/// What a tool does to the world.
#[derive(PartialEq, Eq, Structural, Clone, Copy, Debug)]
pub enum ToolEffect {
    ReadOnly,
    WorkspaceWrite,
    Process,
    ExternalSideEffect,
    BrowserObserve,
    BrowserAct,
    ComputerObserve,
    ComputerAct,
}

/// How an effect is named.
pub open spec fn effect_name(effect: ToolEffect) -> Seq<char> {
    match effect {
        ToolEffect::ReadOnly => "ReadOnly"@,
        ToolEffect::WorkspaceWrite => "WorkspaceWrite"@,
        ToolEffect::Process => "Process"@,
        ToolEffect::ExternalSideEffect => "ExternalSideEffect"@,
        ToolEffect::BrowserObserve => "BrowserObserve"@,
        ToolEffect::BrowserAct => "BrowserAct"@,
        ToolEffect::ComputerObserve => "ComputerObserve"@,
        ToolEffect::ComputerAct => "ComputerAct"@,
    }
}

pub fn effect_label(effect: ToolEffect) -> (out: &'static str)
    ensures
        out@ == effect_name(effect),
{
    match effect {
        ToolEffect::ReadOnly => "ReadOnly",
        ToolEffect::WorkspaceWrite => "WorkspaceWrite",
        ToolEffect::Process => "Process",
        ToolEffect::ExternalSideEffect => "ExternalSideEffect",
        ToolEffect::BrowserObserve => "BrowserObserve",
        ToolEffect::BrowserAct => "BrowserAct",
        ToolEffect::ComputerObserve => "ComputerObserve",
        ToolEffect::ComputerAct => "ComputerAct",
    }
}

/// File-system access a tool call needs.
#[derive(PartialEq, Eq, Structural, Clone, Copy, Debug)]
pub enum FileSystemAccess {
    Read,
    Write,
    Deny,
}

/// A tool as the model sees it.
#[derive(Debug)]
pub struct ToolDescriptor {
    pub name: String,
    pub description: String,
    pub input_schema: JsonValue,
    pub effect: ToolEffect,
    pub parallel_safe: bool,
    pub required_scopes: Vec<String>,
}

/// A policy rule that authorizes one MCP tool; `exposed_tool_name` is the name under which the
/// server's tool is exposed to the model.
#[derive(Debug)]
pub struct McpToolRule {
    pub server_id: String,
    pub exposed_tool_name: String,
    pub schema_hash: String,
    pub read_only: bool,
}

/// A policy rule that authorizes connector actions of one account.
#[derive(Debug)]
pub struct ConnectorRule {
    pub account_id: String,
    pub actions: Vec<String>,
    pub read_only_actions: Vec<String>,
    pub contribution_revision: String,
}

/// What a Run's authority snapshot says about one tool call's host.
#[derive(Debug)]
pub struct AuthorityContext {
    pub level: PermissionProfile,
    pub mode: AuthorityMode,
    pub capability_host: String,
    pub workspace_root: String,
    /// Some file-system rule of the policy denies access or is scoped by globs.
    pub filesystem_rules_scoped: bool,
    /// Commands the process grant allows (empty: no command restriction).
    pub allowed_commands: Vec<String>,
    pub mcp_rules: Vec<McpToolRule>,
    pub connector_rules: Vec<ConnectorRule>,
}

/// Whether the Run's file-system grants allow the required access to each workspace target:
/// the `path` argument's target, the `cwd` argument's target, and the workspace root.
#[derive(PartialEq, Eq, Structural, Clone, Copy, Debug)]
pub struct WorkspaceGrantAnswers {
    pub path: bool,
    pub cwd: bool,
    pub root: bool,
}

/// The decision on one tool call.
#[derive(Debug)]
pub enum AuthorityDecision {
    Allow { effective_effect: ToolEffect },
    RequireApproval { effective_effect: ToolEffect, code: String },
    Deny { code: String },
}

pub enum Verdict {
    Allow(ToolEffect),
    RequireApproval(ToolEffect, Seq<char>),
    Deny(Seq<char>),
}

impl View for AuthorityDecision {
    type V = Verdict;

    open spec fn view(&self) -> Verdict {
        match self {
            AuthorityDecision::Allow { effective_effect } => Verdict::Allow(*effective_effect),
            AuthorityDecision::RequireApproval { effective_effect, code } => Verdict::RequireApproval(
                *effective_effect,
                code@,
            ),
            AuthorityDecision::Deny { code } => Verdict::Deny(code@),
        }
    }
}

fn deny(code: &str) -> (d: AuthorityDecision)
    ensures
        d@ == Verdict::Deny(code@),
{
    AuthorityDecision::Deny { code: code.to_owned() }
}

// ---------------------------------------------------------------------------------------------
// Rules and paths
// ---------------------------------------------------------------------------------------------

/// A command rule matches `*`, the value itself ignoring ASCII case, or, ending in `*`, every
/// value that starts with the rest ignoring ASCII case.
pub open spec fn rule_matches(rule: Seq<char>, value: Seq<char>) -> bool {
    ||| rule == "*"@
    ||| ascii_lower_seq(rule) == ascii_lower_seq(value)
    ||| (rule.len() > 0 && rule.last() == '*' && has_prefix(ascii_lower_seq(value), ascii_lower_seq(rule.drop_last())))
}

pub fn string_rule_matches(rule: &str, value: &str) -> (b: bool)
    ensures
        b == rule_matches(rule@, value@),
{
    if str_eq(rule, "*") {
        return true;
    }
    let lower_rule = to_ascii_lowercase(rule);
    let lower_value = to_ascii_lowercase(value);
    if str_eq(lower_rule.as_str(), lower_value.as_str()) {
        return true;
    }
    let chars = chars_of(rule);
    if chars.len() > 0 && chars[chars.len() - 1] == '*' {
        let mut prefix = String::new();
        crate::text::push_chars(&mut prefix, &chars, 0, chars.len() - 1);
        assert(prefix@ =~= rule@.drop_last());
        let lower_prefix = to_ascii_lowercase(prefix.as_str());
        return starts_with(lower_value.as_str(), lower_prefix.as_str());
    }
    false
}

/// The pieces of a path between separators; as on Windows, slashes and backslashes alike
/// separate them.
pub open spec fn path_segments(path: Seq<char>) -> Seq<Seq<char>> {
    crate::agents::split_on(crate::agents::normalize_separators(path), '/')
}

/// `path` names a parent directory somewhere.
pub open spec fn climbs(path: Seq<char>) -> bool {
    path_segments(path).contains(crate::agents::parent_segment())
}

/// `path` is absolute by Windows rules: a drive, a colon and a separator (`C:\`, `C:/`).
/// A path rooted at a separator without a drive is not absolute there.
pub open spec fn absolute_path(path: Seq<char>) -> bool {
    crate::agents::drive_absolute(path)
}

/// `path` appended to `base` the way a Windows path buffer appends a relative path: a
/// backslash goes between them unless `base` is empty, ends with a separator, or is a bare
/// drive (`C:`).
pub open spec fn joined_under(base: Seq<char>, path: Seq<char>) -> Seq<char> {
    if base.len() == 0 || crate::agents::is_path_separator(base.last()) || (base.len() == 2
        && crate::agents::drive_prefixed(base)) {
        base + path
    } else {
        base + seq!['\\'] + path
    }
}

/// The workspace target a path argument designates, by Windows path rules: the root for an
/// empty path; an absolute (drive) path as given when no component is `..`; a relative path
/// joined under the root when it holds no `:`, does not start at a separator and no component
/// is `..`; nothing otherwise. Paths holding NUL or `%` designate nothing, and so do paths that
/// start at a separator, network (`\\server\share`) and verbatim (`\\?\`) paths among them.
pub open spec fn authority_target(workspace_root: Seq<char>, path: Seq<char>) -> Option<Seq<char>> {
    if path.len() == 0 {
        Some(workspace_root)
    } else if path.contains('\0') || path.contains('%') {
        None
    } else if absolute_path(path) {
        if climbs(path) { None } else { Some(path) }
    } else if crate::agents::is_path_separator(path[0]) || path.contains(':') || climbs(path) {
        None
    } else {
        Some(joined_under(workspace_root, path))
    }
}

fn has_parent_segment(path: &str) -> (b: bool)
    ensures
        b == climbs(path@),
{
    let ghost segs = path_segments(path@);
    let normalized = crate::agents::normalized_chars(path);
    let parts = crate::agents::split_chars(&normalized, '/');
    let mut k: usize = 0;
    while k < parts.len()
        invariant
            segs == path_segments(path@),
            crate::agents::views(parts@) == segs,
            k <= parts@.len(),
            forall|t: int| 0 <= t < k ==> segs[t] != crate::agents::parent_segment(),
        decreases parts@.len() - k,
    {
        let p = &parts[k];
        // A segment is `..` when exactly two dots stand between separators.
        if p.len() == 2 && p[0] == '.' && p[1] == '.' {
            assert(segs[k as int] =~= crate::agents::parent_segment());
            assert(segs.contains(crate::agents::parent_segment()));
            return true;
        }
        assert(segs[k as int] != crate::agents::parent_segment()) by {
            if segs[k as int] == crate::agents::parent_segment() {
                assert(p@ == crate::agents::parent_segment());
            }
        }
        k = k + 1;
    }
    false
}

pub fn workspace_authority_target(workspace_root: &str, path: &str) -> (out: Option<String>)
    ensures
        match out {
            Some(t) => authority_target(workspace_root@, path@) == Some(t@),
            None => authority_target(workspace_root@, path@) is None,
        },
{
    let chars = chars_of(path);
    if chars.len() == 0 {
        return Some(workspace_root.to_owned());
    }
    if contains_char(&chars, '\0') || contains_char(&chars, '%') {
        return None;
    }
    if crate::agents::is_drive_absolute(&chars) {
        if has_parent_segment(path) {
            return None;
        }
        return Some(path.to_owned());
    }
    if chars[0] == '/' || chars[0] == '\\' || contains_char(&chars, ':') || has_parent_segment(path) {
        return None;
    }
    let base = chars_of(workspace_root);
    let mut out = workspace_root.to_owned();
    let bare_drive = base.len() == 2 && crate::agents::is_drive_prefixed(&base);
    if base.len() > 0 && base[base.len() - 1] != '/' && base[base.len() - 1] != '\\' && !bare_drive {
        out.push('\\');
    }
    push_str(&mut out, path);
    assert(out@ =~= joined_under(workspace_root@, path@));
    Some(out)
}

// ---------------------------------------------------------------------------------------------
// Decisions
// ---------------------------------------------------------------------------------------------

/// Effects that only observe.
pub open spec fn observes_only(effect: ToolEffect) -> bool {
    effect == ToolEffect::ReadOnly || effect == ToolEffect::BrowserObserve || effect == ToolEffect::ComputerObserve
}

/// Authority beyond the policy: an unattended Run is denied; an interactive read-only Run
/// cannot ask to change anything; otherwise a person is asked.
pub open spec fn extra_authority(mode: AuthorityMode, level: PermissionProfile, effect: ToolEffect, code: Seq<char>) -> Verdict {
    if mode == AuthorityMode::Unattended {
        Verdict::Deny(code)
    } else if level == PermissionProfile::ReadOnly && !observes_only(effect) {
        Verdict::Deny("read_only_authority_cannot_request_write"@)
    } else {
        Verdict::RequireApproval(effect, code)
    }
}

pub fn interactive_extra_authority(context: &AuthorityContext, effect: ToolEffect, code: &str) -> (d: AuthorityDecision)
    ensures
        d@ == extra_authority(context.mode, context.level, effect, code@),
{
    match context.mode {
        AuthorityMode::Unattended => deny(code),
        AuthorityMode::Interactive => {
            if context.level == PermissionProfile::ReadOnly && !(effect == ToolEffect::ReadOnly || effect
                == ToolEffect::BrowserObserve || effect == ToolEffect::ComputerObserve) {
                deny("read_only_authority_cannot_request_write")
            } else {
                AuthorityDecision::RequireApproval { effective_effect: effect, code: code.to_owned() }
            }
        },
    }
}

/// Access a workspace tool needs: writing tools and processes write, the others read.
pub open spec fn required_access_of(effect: ToolEffect) -> FileSystemAccess {
    if effect == ToolEffect::WorkspaceWrite || effect == ToolEffect::Process {
        FileSystemAccess::Write
    } else {
        FileSystemAccess::Read
    }
}

pub fn required_access(effect: ToolEffect) -> (a: FileSystemAccess)
    ensures
        a == required_access_of(effect),
{
    match effect {
        ToolEffect::WorkspaceWrite | ToolEffect::Process => FileSystemAccess::Write,
        _ => FileSystemAccess::Read,
    }
}

/// A string argument.
pub open spec fn string_arg(arguments: JsonValue, key: Seq<char>) -> Option<Seq<char>> {
    as_str(field(arguments, key))
}

/// The SHA-256 digest, in lowercase hexadecimal, of a tool's input schema printed as JSON.
pub open spec fn schema_hash_of(descriptor: ToolDescriptor) -> Seq<char> {
    hex_lower(sha256_text(json_print(json_view(descriptor.input_schema))))
}

pub fn descriptor_schema_hash(descriptor: &ToolDescriptor) -> (out: String)
    ensures
        out@ == schema_hash_of(*descriptor),
{
    let schema = print_json(&descriptor.input_schema);
    sha256_hex(schema.as_str())
}

/// The SHA-256 digest, in lowercase hexadecimal, of the arguments printed as JSON.
pub fn parameter_hash(arguments: &JsonValue) -> (out: String)
    ensures
        out@ == hex_lower(sha256_text(json_print(json_view(*arguments)))),
{
    let encoded = print_json(arguments);
    sha256_hex(encoded.as_str())
}

pub open spec fn any_rule_matches(rules: Seq<String>, program: Seq<char>) -> bool {
    exists|i: int| 0 <= i < rules.len() && rule_matches(#[trigger] rules[i]@, program)
}

/// The decision on a workspace-worker call, or `None` when the workspace checks pass.
pub open spec fn workspace_verdict(
    context: AuthorityContext,
    descriptor: ToolDescriptor,
    arguments: JsonValue,
    grants: WorkspaceGrantAnswers,
) -> Option<Verdict> {
    let root = context.workspace_root@;
    let path = string_arg(arguments, "path"@);
    let cwd = string_arg(arguments, "cwd"@);
    let ask = extra_authority(context.mode, context.level, descriptor.effect, "workspace_path_requires_approval"@);
    if path is Some && authority_target(root, path.unwrap()) is None {
        Some(Verdict::Deny("workspace_path_outside_root"@))
    } else if path is Some && !grants.path {
        Some(ask)
    } else if cwd is Some && authority_target(root, cwd.unwrap()) is None {
        Some(Verdict::Deny("workspace_path_outside_root"@))
    } else if cwd is Some && !grants.cwd {
        Some(ask)
    } else if path is None && cwd is None && !grants.root {
        Some(Verdict::Deny("workspace_path_not_authorized"@))
    } else if descriptor.effect == ToolEffect::Process && context.filesystem_rules_scoped {
        Some(Verdict::Deny("process_filesystem_scope_not_os_enforceable"@))
    } else if descriptor.effect == ToolEffect::Process && context.allowed_commands@.len() > 0 {
        match string_arg(arguments, "program"@) {
            None => Some(Verdict::Deny("process_program_missing"@)),
            Some(program) => if any_rule_matches(context.allowed_commands@, program) {
                None
            } else if context.mode == AuthorityMode::Interactive {
                Some(Verdict::RequireApproval(descriptor.effect, "process_command_requires_approval"@))
            } else {
                Some(Verdict::Deny("process_command_not_preconfigured"@))
            },
        }
    } else {
        None
    }
}

/// The MCP server a capability host names, other than the resources host.
pub open spec fn mcp_server(host: Seq<char>) -> Option<Seq<char>> {
    if has_prefix(host, "mcp:"@) && host.skip(4) != "resources"@ {
        Some(host.skip(4))
    } else {
        None
    }
}

pub open spec fn mcp_rule_authorizes(rule: McpToolRule, server: Seq<char>, descriptor: ToolDescriptor) -> bool {
    &&& rule.server_id@ == server
    &&& rule.exposed_tool_name@ == descriptor.name@
    &&& rule.schema_hash@ == schema_hash_of(descriptor)
    &&& (descriptor.effect == ToolEffect::ReadOnly || !rule.read_only)
}

pub open spec fn strings_contain(list: Seq<String>, s: Seq<char>) -> bool {
    exists|i: int| 0 <= i < list.len() && (#[trigger] list[i])@ == s
}

pub open spec fn connector_rule_matches(rule: ConnectorRule, account: Seq<char>, action: Seq<char>, revision: Seq<char>) -> bool {
    &&& rule.account_id@ == account
    &&& strings_contain(rule.actions@, action)
    &&& rule.contribution_revision@ == revision
}

/// Index of the first connector rule matching the call.
pub open spec fn first_connector_rule(rules: Seq<ConnectorRule>, account: Seq<char>, action: Seq<char>, revision: Seq<char>) -> Option<int>
    decreases rules.len(),
{
    if rules.len() == 0 {
        None
    } else {
        match first_connector_rule(rules.drop_last(), account, action, revision) {
            Some(i) => Some(i),
            None => if connector_rule_matches(rules.last(), account, action, revision) {
                Some(rules.len() - 1)
            } else {
                None
            },
        }
    }
}

pub open spec fn download_allowed_by(rule: ConnectorRule, account: Seq<char>) -> bool {
    &&& rule.account_id@ == account
    &&& strings_contain(rule.actions@, "download_attachment"@)
    &&& trim(rule.contribution_revision@).len() > 0
}

/// The decision on one tool call, given the Run's authority, the tool, its arguments, and the
/// answers of the file-system grants for its workspace targets.
pub open spec fn authority_verdict(
    context: AuthorityContext,
    descriptor: ToolDescriptor,
    arguments: JsonValue,
    grants: WorkspaceGrantAnswers,
) -> Verdict {
    let effect = descriptor.effect;
    let host = context.capability_host@;
    if context.level == PermissionProfile::FullAccess {
        Verdict::Allow(effect)
    } else if host == "workspace-worker"@ && workspace_verdict(context, descriptor, arguments, grants) is Some {
        workspace_verdict(context, descriptor, arguments, grants).unwrap()
    } else if mcp_server(host) is Some {
        if exists|i: int|
            0 <= i < context.mcp_rules@.len() && mcp_rule_authorizes(
                #[trigger] context.mcp_rules@[i],
                mcp_server(host).unwrap(),
                descriptor,
            ) {
            Verdict::Allow(effect)
        } else {
            extra_authority(context.mode, context.level, effect, "mcp_tool_requires_approval"@)
        }
    } else if descriptor.name@ == "connector_invoke"@ {
        let account = string_arg(arguments, "accountId"@);
        let action = string_arg(arguments, "action"@);
        let revision = as_str(
            match field(arguments, "expectedRevision"@) {
                Some(e) => field(e, "actionHash"@),
                None => None,
            },
        );
        if account is None {
            Verdict::Deny("connector_account_missing"@)
        } else if action is None {
            Verdict::Deny("connector_action_missing"@)
        } else if revision is None {
            Verdict::Deny("connector_revision_missing"@)
        } else {
            let found = first_connector_rule(context.connector_rules@, account.unwrap(), action.unwrap(), revision.unwrap());
            let ask = extra_authority(context.mode, context.level, effect, "connector_action_requires_approval"@);
            match found {
                Some(i) => {
                    let read_only = strings_contain(context.connector_rules@[i].read_only_actions@, action.unwrap());
                    if context.level != PermissionProfile::ReadOnly || read_only {
                        Verdict::Allow(if read_only { ToolEffect::ReadOnly } else { effect })
                    } else {
                        ask
                    }
                },
                None => ask,
            }
        }
    } else if descriptor.name@ == "enterprise.download_attachment"@ {
        match string_arg(arguments, "accountId"@) {
            None => Verdict::Deny("connector_account_missing"@),
            Some(account) => if (exists|i: int|
                0 <= i < context.connector_rules@.len() && download_allowed_by(#[trigger] context.connector_rules@[i], account))
                && context.level != PermissionProfile::ReadOnly {
                Verdict::Allow(effect)
            } else {
                extra_authority(context.mode, context.level, effect, "connector_download_requires_approval"@)
            },
        }
    } else {
        Verdict::Allow(effect)
    }
}

/// The targets whose file-system grants a workspace-worker call needs: the `path` argument's,
/// the `cwd` argument's, and the workspace root, with the access required.
pub fn workspace_grant_targets(context: &AuthorityContext, descriptor: &ToolDescriptor, arguments: &JsonValue) -> (out: (
    FileSystemAccess,
    Option<String>,
    Option<String>,
    String,
))
    ensures
        out.0 == required_access_of(descriptor.effect),
        match out.1 {
            Some(t) => string_arg(*arguments, "path"@) is Some && authority_target(
                context.workspace_root@,
                string_arg(*arguments, "path"@).unwrap(),
            ) == Some(t@),
            None => string_arg(*arguments, "path"@) is None || authority_target(
                context.workspace_root@,
                string_arg(*arguments, "path"@).unwrap(),
            ) is None,
        },
        match out.2 {
            Some(t) => string_arg(*arguments, "cwd"@) is Some && authority_target(
                context.workspace_root@,
                string_arg(*arguments, "cwd"@).unwrap(),
            ) == Some(t@),
            None => string_arg(*arguments, "cwd"@) is None || authority_target(
                context.workspace_root@,
                string_arg(*arguments, "cwd"@).unwrap(),
            ) is None,
        },
        out.3@ == context.workspace_root@,
{
    let access = required_access(descriptor.effect);
    let path = match get_str(arguments, "path") {
        Some(p) => workspace_authority_target(context.workspace_root.as_str(), p.as_str()),
        None => None,
    };
    let cwd = match get_str(arguments, "cwd") {
        Some(p) => workspace_authority_target(context.workspace_root.as_str(), p.as_str()),
        None => None,
    };
    (access, path, cwd, context.workspace_root.clone())
}

fn any_command_matches(rules: &Vec<String>, program: &str) -> (b: bool)
    ensures
        b == any_rule_matches(rules@, program@),
{
    let mut i: usize = 0;
    while i < rules.len()
        invariant
            i <= rules@.len(),
            forall|k: int| 0 <= k < i ==> !rule_matches(#[trigger] rules@[k]@, program@),
        decreases rules@.len() - i,
    {
        if string_rule_matches(rules[i].as_str(), program) {
            return true;
        }
        i = i + 1;
    }
    false
}

fn workspace_decision(
    context: &AuthorityContext,
    descriptor: &ToolDescriptor,
    arguments: &JsonValue,
    grants: WorkspaceGrantAnswers,
) -> (out: Option<AuthorityDecision>)
    ensures
        match out {
            Some(d) => workspace_verdict(*context, *descriptor, *arguments, grants) == Some(d@),
            None => workspace_verdict(*context, *descriptor, *arguments, grants) is None,
        },
{
    proof {
        reveal_strlit("workspace_path_requires_approval");
    }
    let root = context.workspace_root.as_str();
    let path = get_str(arguments, "path");
    let cwd = get_str(arguments, "cwd");
    match path {
        Some(p) => {
            if workspace_authority_target(root, p.as_str()).is_none() {
                return Some(deny("workspace_path_outside_root"));
            }
            if !grants.path {
                return Some(interactive_extra_authority(context, descriptor.effect, "workspace_path_requires_approval"));
            }
        },
        None => {},
    }
    match cwd {
        Some(c) => {
            if workspace_authority_target(root, c.as_str()).is_none() {
                return Some(deny("workspace_path_outside_root"));
            }
            if !grants.cwd {
                return Some(interactive_extra_authority(context, descriptor.effect, "workspace_path_requires_approval"));
            }
        },
        None => {},
    }
    if path.is_none() && cwd.is_none() && !grants.root {
        return Some(deny("workspace_path_not_authorized"));
    }
    if descriptor.effect == ToolEffect::Process && context.filesystem_rules_scoped {
        return Some(deny("process_filesystem_scope_not_os_enforceable"));
    }
    if descriptor.effect == ToolEffect::Process && context.allowed_commands.len() > 0 {
        match get_str(arguments, "program") {
            None => return Some(deny("process_program_missing")),
            Some(program) => {
                if !any_command_matches(&context.allowed_commands, program.as_str()) {
                    return match context.mode {
                        AuthorityMode::Interactive => Some(
                            AuthorityDecision::RequireApproval {
                                effective_effect: descriptor.effect,
                                code: "process_command_requires_approval".to_owned(),
                            },
                        ),
                        AuthorityMode::Unattended => Some(deny("process_command_not_preconfigured")),
                    };
                }
            },
        }
    }
    None
}

fn mcp_server_of(host: &str) -> (out: Option<String>)
    ensures
        match out {
            Some(s) => mcp_server(host@) == Some(s@),
            None => mcp_server(host@) is None,
        },
{
    proof {
        reveal_strlit("mcp:");
    }
    if !starts_with(host, "mcp:") {
        return None;
    }
    let chars = chars_of(host);
    let mut rest = String::new();
    crate::text::push_chars(&mut rest, &chars, 4, chars.len());
    assert(rest@ =~= host@.skip(4));
    if str_eq(rest.as_str(), "resources") {
        return None;
    }
    Some(rest)
}

fn mcp_rule_found(rules: &Vec<McpToolRule>, server: &str, descriptor: &ToolDescriptor) -> (b: bool)
    ensures
        b == exists|i: int| 0 <= i < rules@.len() && mcp_rule_authorizes(#[trigger] rules@[i], server@, *descriptor),
{
    let hash = descriptor_schema_hash(descriptor);
    let mut i: usize = 0;
    while i < rules.len()
        invariant
            i <= rules@.len(),
            hash@ == schema_hash_of(*descriptor),
            forall|k: int| 0 <= k < i ==> !mcp_rule_authorizes(#[trigger] rules@[k], server@, *descriptor),
        decreases rules@.len() - i,
    {
        let rule = &rules[i];
        if str_eq(rule.server_id.as_str(), server) && str_eq(rule.exposed_tool_name.as_str(), descriptor.name.as_str())
            && str_eq(rule.schema_hash.as_str(), hash.as_str()) && (descriptor.effect == ToolEffect::ReadOnly
            || !rule.read_only) {
            assert(mcp_rule_authorizes(rules@[i as int], server@, *descriptor));
            return true;
        }
        i = i + 1;
    }
    false
}

fn list_contains(list: &Vec<String>, s: &str) -> (b: bool)
    ensures
        b == strings_contain(list@, s@),
{
    let mut i: usize = 0;
    while i < list.len()
        invariant
            i <= list@.len(),
            forall|k: int| 0 <= k < i ==> (#[trigger] list@[k])@ != s@,
        decreases list@.len() - i,
    {
        if str_eq(list[i].as_str(), s) {
            return true;
        }
        i = i + 1;
    }
    false
}

fn find_connector_rule(rules: &Vec<ConnectorRule>, account: &str, action: &str, revision: &str) -> (out: Option<usize>)
    ensures
        match out {
            Some(i) => first_connector_rule(rules@, account@, action@, revision@) == Some(i as int) && i < rules@.len(),
            None => first_connector_rule(rules@, account@, action@, revision@) is None,
        },
{
    let mut i: usize = 0;
    while i < rules.len()
        invariant
            i <= rules@.len(),
            first_connector_rule(rules@.take(i as int), account@, action@, revision@) is None,
        decreases rules@.len() - i,
    {
        proof {
            assert(rules@.take(i + 1).drop_last() =~= rules@.take(i as int));
        }
        let rule = &rules[i];
        if str_eq(rule.account_id.as_str(), account) && list_contains(&rule.actions, action) && str_eq(
            rule.contribution_revision.as_str(),
            revision,
        ) {
            proof {
                lemma_first_rule_prefix(rules@, account@, action@, revision@, i + 1);
            }
            return Some(i);
        }
        i = i + 1;
    }
    assert(rules@.take(i as int) =~= rules@);
    None
}

proof fn lemma_first_rule_prefix(rules: Seq<ConnectorRule>, account: Seq<char>, action: Seq<char>, revision: Seq<char>, n: int)
    requires
        0 < n <= rules.len(),
        first_connector_rule(rules.take(n), account, action, revision) is Some,
    ensures
        first_connector_rule(rules, account, action, revision) == first_connector_rule(rules.take(n), account, action, revision),
    decreases rules.len() - n,
{
    if n < rules.len() {
        assert(rules.take(n + 1).drop_last() =~= rules.take(n));
        lemma_first_rule_prefix(rules, account, action, revision, n + 1);
    } else {
        assert(rules.take(n) =~= rules);
    }
}

fn download_allowed(rules: &Vec<ConnectorRule>, account: &str) -> (b: bool)
    ensures
        b == exists|i: int| 0 <= i < rules@.len() && download_allowed_by(#[trigger] rules@[i], account@),
{
    let mut i: usize = 0;
    while i < rules.len()
        invariant
            i <= rules@.len(),
            forall|k: int| 0 <= k < i ==> !download_allowed_by(#[trigger] rules@[k], account@),
        decreases rules@.len() - i,
    {
        let rule = &rules[i];
        if str_eq(rule.account_id.as_str(), account) && list_contains(&rule.actions, "download_attachment")
            && !is_blank_str(rule.contribution_revision.as_str()) {
            assert(download_allowed_by(rules@[i as int], account@));
            return true;
        }
        i = i + 1;
    }
    false
}

/// Decides whether a tool call runs, needs an approval, or is denied.
pub fn structured_authority_decision(
    context: &AuthorityContext,
    descriptor: &ToolDescriptor,
    arguments: &JsonValue,
    grants: WorkspaceGrantAnswers,
) -> (out: AuthorityDecision)
    ensures
        out@ == authority_verdict(*context, *descriptor, *arguments, grants),
{
    proof {
        reveal_strlit("workspace-worker");
        reveal_strlit("connector_invoke");
        reveal_strlit("enterprise.download_attachment");
    }
    let effect = descriptor.effect;
    if context.level == PermissionProfile::FullAccess {
        return AuthorityDecision::Allow { effective_effect: effect };
    }
    if str_eq(context.capability_host.as_str(), "workspace-worker") {
        match workspace_decision(context, descriptor, arguments, grants) {
            Some(d) => return d,
            None => {},
        }
    }
    match mcp_server_of(context.capability_host.as_str()) {
        Some(server) => {
            if mcp_rule_found(&context.mcp_rules, server.as_str(), descriptor) {
                return AuthorityDecision::Allow { effective_effect: effect };
            }
            return interactive_extra_authority(context, effect, "mcp_tool_requires_approval");
        },
        None => {},
    }
    if str_eq(descriptor.name.as_str(), "connector_invoke") {
        let account = match get_str(arguments, "accountId") {
            Some(a) => a,
            None => return deny("connector_account_missing"),
        };
        let action = match get_str(arguments, "action") {
            Some(a) => a,
            None => return deny("connector_action_missing"),
        };
        let revision = match get(arguments, "expectedRevision") {
            Some(e) => get_str(e, "actionHash"),
            None => None,
        };
        let revision = match revision {
            Some(r) => r,
            None => return deny("connector_revision_missing"),
        };
        match find_connector_rule(&context.connector_rules, account.as_str(), action.as_str(), revision.as_str()) {
            Some(i) => {
                let read_only = list_contains(&context.connector_rules[i].read_only_actions, action.as_str());
                if context.level != PermissionProfile::ReadOnly || read_only {
                    return AuthorityDecision::Allow {
                        effective_effect: if read_only { ToolEffect::ReadOnly } else { effect },
                    };
                }
            },
            None => {},
        }
        return interactive_extra_authority(context, effect, "connector_action_requires_approval");
    }
    if str_eq(descriptor.name.as_str(), "enterprise.download_attachment") {
        let account = match get_str(arguments, "accountId") {
            Some(a) => a,
            None => return deny("connector_account_missing"),
        };
        if download_allowed(&context.connector_rules, account.as_str()) && context.level != PermissionProfile::ReadOnly {
            return AuthorityDecision::Allow { effective_effect: effect };
        }
        return interactive_extra_authority(context, effect, "connector_download_requires_approval");
    }
    AuthorityDecision::Allow { effective_effect: effect }
}

// ---------------------------------------------------------------------------------------------
// Resource summaries
// ---------------------------------------------------------------------------------------------

/// The first non-empty string among the `path`, `program`, `cwd`, `url` and `accountId`
/// arguments, cut to 512 characters, or `workspace-checkout`.
pub open spec fn resource_summary_of(arguments: JsonValue) -> Seq<char> {
    let keys = seq!["path"@, "program"@, "cwd"@, "url"@, "accountId"@];
    let nonempty = |k: Seq<char>| string_arg(arguments, k) is Some && string_arg(arguments, k).unwrap().len() > 0;
    if nonempty(keys[0]) {
        take_chars(string_arg(arguments, keys[0]).unwrap(), 512)
    } else if nonempty(keys[1]) {
        take_chars(string_arg(arguments, keys[1]).unwrap(), 512)
    } else if nonempty(keys[2]) {
        take_chars(string_arg(arguments, keys[2]).unwrap(), 512)
    } else if nonempty(keys[3]) {
        take_chars(string_arg(arguments, keys[3]).unwrap(), 512)
    } else if nonempty(keys[4]) {
        take_chars(string_arg(arguments, keys[4]).unwrap(), 512)
    } else {
        "workspace-checkout"@
    }
}

fn nonempty_arg<'a>(arguments: &'a JsonValue, key: &str) -> (out: Option<&'a String>)
    ensures
        match out {
            Some(v) => string_arg(*arguments, key@) == Some(v@) && v@.len() > 0,
            None => !(string_arg(*arguments, key@) is Some && string_arg(*arguments, key@).unwrap().len() > 0),
        },
{
    match get_str(arguments, key) {
        Some(v) => if v.unicode_len() > 0 { Some(v) } else { None },
        None => None,
    }
}

pub fn resource_summary(arguments: &JsonValue) -> (out: String)
    ensures
        out@ == resource_summary_of(*arguments),
{
    let found = match nonempty_arg(arguments, "path") {
        Some(v) => Some(v),
        None => match nonempty_arg(arguments, "program") {
            Some(v) => Some(v),
            None => match nonempty_arg(arguments, "cwd") {
                Some(v) => Some(v),
                None => match nonempty_arg(arguments, "url") {
                    Some(v) => Some(v),
                    None => nonempty_arg(arguments, "accountId"),
                },
            },
        },
    };
    match found {
        Some(v) => bounded(v.as_str(), 512),
        None => "workspace-checkout".to_owned(),
    }
}

/// A string argument, or `fallback` when it is missing.
pub open spec fn arg_or(arguments: JsonValue, key: Seq<char>, fallback: Seq<char>) -> Seq<char> {
    match string_arg(arguments, key) {
        Some(v) => v,
        None => fallback,
    }
}

/// The member `inner` of the object argument `outer`.
pub open spec fn nested(arguments: JsonValue, outer: Seq<char>, inner: Seq<char>) -> Option<JsonValue> {
    match field(arguments, outer) {
        Some(o) => field(o, inner),
        None => None,
    }
}

/// The resource an authority request is about, as recorded for approval and audit.
pub open spec fn authority_resource_of(context: AuthorityContext, descriptor: ToolDescriptor, arguments: JsonValue) -> Seq<char> {
    let effect = descriptor.effect;
    if mcp_server(context.capability_host@) is Some {
        "mcp:"@ + mcp_server(context.capability_host@).unwrap() + ":tool:"@ + descriptor.name@ + ":schema:"@
            + schema_hash_of(descriptor)
    } else if descriptor.name@ == "connector_invoke"@ {
        "connector:"@ + arg_or(arguments, "accountId"@, "missing"@) + ":action:"@ + arg_or(arguments, "action"@, "missing"@)
            + ":revision:"@ + match as_str(nested(arguments, "expectedRevision"@, "actionHash"@)) {
            Some(r) => r,
            None => "missing"@,
        }
    } else if descriptor.name@ == "enterprise.download_attachment"@ {
        "connector:"@ + arg_or(arguments, "accountId"@, "missing"@) + ":action:download_attachment"@
    } else if effect == ToolEffect::BrowserAct || effect == ToolEffect::BrowserObserve {
        let action = match as_str(nested(arguments, "action"@, "kind"@)) {
            Some(k) => k,
            None => if effect == ToolEffect::BrowserObserve { "observe"@ } else { "act"@ },
        };
        let url_value = match field(arguments, "url"@) {
            Some(u) => Some(u),
            None => nested(arguments, "action"@, "url"@),
        };
        let url = match as_str(url_value) {
            Some(u) => u,
            None => Seq::empty(),
        };
        "browser:"@ + arg_or(arguments, "leaseId"@, "new"@) + ":action:"@ + action + ":target:"@ + url
    } else if effect == ToolEffect::ComputerAct || effect == ToolEffect::ComputerObserve {
        let target_value = match field(arguments, "appName"@) {
            Some(a) => Some(a),
            None => field(arguments, "targetFingerprint"@),
        };
        let target = match as_str(target_value) {
            Some(t) => t,
            None => "computer"@,
        };
        "computer:"@ + target + ":action:"@ + descriptor.name@
    } else {
        resource_summary_of(arguments)
    }
}

fn str_arg_or(arguments: &JsonValue, key: &str, fallback: &str) -> (out: String)
    ensures
        out@ == arg_or(*arguments, key@, fallback@),
{
    match get_str(arguments, key) {
        Some(v) => v.clone(),
        None => fallback.to_owned(),
    }
}

fn nested_value<'a>(arguments: &'a JsonValue, outer: &str, inner: &str) -> (out: Option<&'a JsonValue>)
    ensures
        match out {
            Some(v) => nested(*arguments, outer@, inner@) == Some(*v),
            None => nested(*arguments, outer@, inner@) is None,
        },
{
    match get(arguments, outer) {
        Some(o) => get(o, inner),
        None => None,
    }
}

fn value_str(value: Option<&JsonValue>) -> (out: Option<&String>)
    ensures
        match out {
            Some(s) => as_str(match value {
                Some(v) => Some(*v),
                None => None,
            }) == Some(s@),
            None => as_str(match value {
                Some(v) => Some(*v),
                None => None,
            }) is None,
        },
{
    match value {
        Some(JsonValue::String(s)) => Some(s),
        _ => None,
    }
}

pub fn authority_resource_summary(context: &AuthorityContext, descriptor: &ToolDescriptor, arguments: &JsonValue) -> (out: String)
    ensures
        out@ == authority_resource_of(*context, *descriptor, *arguments),
{
    proof {
        reveal_strlit("connector_invoke");
        reveal_strlit("enterprise.download_attachment");
    }
    let effect = descriptor.effect;
    match mcp_server_of(context.capability_host.as_str()) {
        Some(server) => {
            let hash = descriptor_schema_hash(descriptor);
            let mut out = "mcp:".to_owned();
            push_str(&mut out, server.as_str());
            push_str(&mut out, ":tool:");
            push_str(&mut out, descriptor.name.as_str());
            push_str(&mut out, ":schema:");
            push_str(&mut out, hash.as_str());
            return out;
        },
        None => {},
    }
    if str_eq(descriptor.name.as_str(), "connector_invoke") {
        let account = str_arg_or(arguments, "accountId", "missing");
        let action = str_arg_or(arguments, "action", "missing");
        let revision = match value_str(nested_value(arguments, "expectedRevision", "actionHash")) {
            Some(r) => r.clone(),
            None => "missing".to_owned(),
        };
        let mut out = "connector:".to_owned();
        push_str(&mut out, account.as_str());
        push_str(&mut out, ":action:");
        push_str(&mut out, action.as_str());
        push_str(&mut out, ":revision:");
        push_str(&mut out, revision.as_str());
        return out;
    }
    if str_eq(descriptor.name.as_str(), "enterprise.download_attachment") {
        let account = str_arg_or(arguments, "accountId", "missing");
        let mut out = "connector:".to_owned();
        push_str(&mut out, account.as_str());
        push_str(&mut out, ":action:download_attachment");
        return out;
    }
    if effect == ToolEffect::BrowserAct || effect == ToolEffect::BrowserObserve {
        let lease = str_arg_or(arguments, "leaseId", "new");
        let action = match value_str(nested_value(arguments, "action", "kind")) {
            Some(k) => k.clone(),
            None => if effect == ToolEffect::BrowserObserve { "observe".to_owned() } else { "act".to_owned() },
        };
        let url_value = match get(arguments, "url") {
            Some(u) => Some(u),
            None => nested_value(arguments, "action", "url"),
        };
        let url = match value_str(url_value) {
            Some(u) => u.clone(),
            None => String::new(),
        };
        let mut out = "browser:".to_owned();
        push_str(&mut out, lease.as_str());
        push_str(&mut out, ":action:");
        push_str(&mut out, action.as_str());
        push_str(&mut out, ":target:");
        push_str(&mut out, url.as_str());
        return out;
    }
    if effect == ToolEffect::ComputerAct || effect == ToolEffect::ComputerObserve {
        let target_value = match get(arguments, "appName") {
            Some(a) => Some(a),
            None => get(arguments, "targetFingerprint"),
        };
        let target = match value_str(target_value) {
            Some(t) => t.clone(),
            None => "computer".to_owned(),
        };
        let mut out = "computer:".to_owned();
        push_str(&mut out, target.as_str());
        push_str(&mut out, ":action:");
        push_str(&mut out, descriptor.name.as_str());
        return out;
    }
    resource_summary(arguments)
}

// ---------------------------------------------------------------------------------------------
// Side effects
// ---------------------------------------------------------------------------------------------

/// Durable state of a dispatched side effect.
#[derive(PartialEq, Eq, Structural, Clone, Copy, Debug)]
pub enum SideEffectExecutionStatus {
    Claimed,
    Dispatched,
    Succeeded,
    Failed,
    Indeterminate,
    Cancelled,
}

/// Most characters of model content persisted with a side effect.
pub const PERSISTED_MODEL_CHARS: usize = 32000;

/// Most bytes of structured content persisted with a side effect.
pub const PERSISTED_STRUCTURED_BYTES: usize = 65536;

/// How a tool status is recorded: its side-effect status and its result code.
pub open spec fn completion_status(status: ToolResultStatus) -> (SideEffectExecutionStatus, Seq<char>) {
    match status {
        ToolResultStatus::Succeeded => (SideEffectExecutionStatus::Succeeded, "succeeded"@),
        ToolResultStatus::Aborted => (SideEffectExecutionStatus::Cancelled, "aborted"@),
        ToolResultStatus::TimedOut => (SideEffectExecutionStatus::Failed, "timed_out"@),
        ToolResultStatus::Failed => (SideEffectExecutionStatus::Failed, "failed"@),
        ToolResultStatus::Rejected => (SideEffectExecutionStatus::Failed, "failed"@),
    }
}

/// Structured content is persisted when it prints within the byte limit and does not ask to be
/// kept out of persistence.
pub open spec fn persists_structured(content: JsonValue) -> bool {
    &&& crate::text::utf8_len(json_print(json_view(content))) <= PERSISTED_STRUCTURED_BYTES
    &&& as_bool(field(content, "redactForPersistence"@)) != Some(true)
}

/// The persisted record of a completed result: its model content cut to
/// `PERSISTED_MODEL_CHARS` characters and its structured content, or a marker in its place.
pub open spec fn persisted_record(result: ToolResult) -> JsonView {
    JsonView::Object(
        seq![
            ("modelContent"@, JsonView::Str(take_chars(result.model_content@, PERSISTED_MODEL_CHARS as nat))),
            ("structuredContent"@, if persists_structured(result.structured_content) {
                json_view(result.structured_content)
            } else {
                JsonView::Object(seq![("truncatedOrRedacted"@, JsonView::Bool(true))])
            }),
        ],
    )
}

/// What is recorded once a dispatched side effect returns: a result's status, code and
/// persisted record; an executor error leaves the effect indeterminate.
pub fn side_effect_completion(result: &Result<ToolResult, ToolExecutionError>) -> (out: (
    SideEffectExecutionStatus,
    String,
    Option<JsonValue>,
))
    ensures
        match result {
            Ok(r) => {
                &&& (out.0, out.1@) == completion_status(r.status)
                &&& out.2 is Some
                &&& json_view(out.2.unwrap()) == persisted_record(*r)
            },
            Err(_) => {
                &&& out.0 == SideEffectExecutionStatus::Indeterminate
                &&& out.1@ == "executor_error_after_dispatch"@
                &&& out.2 is None
            },
        },
{
    match result {
        Ok(r) => {
            let (status, code) = match r.status {
                ToolResultStatus::Succeeded => (SideEffectExecutionStatus::Succeeded, "succeeded"),
                ToolResultStatus::Aborted => (SideEffectExecutionStatus::Cancelled, "aborted"),
                ToolResultStatus::TimedOut => (SideEffectExecutionStatus::Failed, "timed_out"),
                ToolResultStatus::Failed | ToolResultStatus::Rejected => (SideEffectExecutionStatus::Failed, "failed"),
            };
            let model_content = bounded(r.model_content.as_str(), PERSISTED_MODEL_CHARS);
            let printed = print_json(&r.structured_content);
            let printed_chars = chars_of(printed.as_str());
            let fits = !crate::text::utf8_len_exceeds(&printed_chars, PERSISTED_STRUCTURED_BYTES);
            let redact = match get_bool(&r.structured_content, "redactForPersistence") {
                Some(b) => b,
                None => false,
            };
            let structured = if fits && !redact {
                clone_json(&r.structured_content)
            } else {
                let members = vec![("truncatedOrRedacted".to_owned(), JsonValue::Bool(true))];
                proof {
                    crate::budget::lemma_members_view(members@);
                    assert(crate::json::members_view(members@) =~= seq![("truncatedOrRedacted"@, JsonView::Bool(true))]);
                }
                JsonValue::Object(members)
            };
            let ghost structured_view = json_view(structured);
            let ghost content_view = model_content@;
            let members = vec![
                ("modelContent".to_owned(), JsonValue::String(model_content)),
                ("structuredContent".to_owned(), structured),
            ];
            proof {
                crate::budget::lemma_members_view(members@);
                assert(crate::json::members_view(members@) =~= seq![
                    ("modelContent"@, JsonView::Str(content_view)),
                    ("structuredContent"@, structured_view),
                ]);
            }
            let record = JsonValue::Object(members);
            assert(json_view(record) =~= persisted_record(*r));
            (status, code.to_owned(), Some(record))
        },
        Err(_) => (SideEffectExecutionStatus::Indeterminate, "executor_error_after_dispatch".to_owned(), None),
    }
}

/// The result a recovered side effect reports without running again: the persisted model and
/// structured content where they were recorded, else a recovery note.
pub open spec fn recovered_result_view(succeeded: bool, persisted: Option<JsonValue>) -> (ToolResultStatus, Seq<char>, JsonView) {
    let value = match persisted {
        Some(v) => v,
        None => JsonValue::Null,
    };
    (
        if succeeded { ToolResultStatus::Succeeded } else { ToolResultStatus::Failed },
        match as_str(field(value, "modelContent"@)) {
            Some(m) => m,
            None => if succeeded {
                "the external operation was already completed before recovery"@
            } else {
                "the external operation had already failed before recovery"@
            },
        },
        match field(value, "structuredContent"@) {
            Some(s) => json_view(s),
            None => JsonView::Object(seq![("recovered"@, JsonView::Bool(true)), ("replayed"@, JsonView::Bool(false))]),
        },
    )
}

pub fn recovered_side_effect_result(call: &crate::tools::ToolCall, succeeded: bool, persisted_result: Option<JsonValue>) -> (out: ToolResult)
    ensures
        out.call_id@ == call.id@,
        out.tool_name@ == call.name@,
        (out.status, out.model_content@, json_view(out.structured_content)) == recovered_result_view(succeeded, persisted_result),
{
    let value = match persisted_result {
        Some(v) => v,
        None => JsonValue::Null,
    };
    let model_content = match get_str(&value, "modelContent") {
        Some(m) => m.clone(),
        None => if succeeded {
            "the external operation was already completed before recovery".to_owned()
        } else {
            "the external operation had already failed before recovery".to_owned()
        },
    };
    let structured_content = match get(&value, "structuredContent") {
        Some(s) => clone_json(s),
        None => {
            let members = vec![("recovered".to_owned(), JsonValue::Bool(true)), ("replayed".to_owned(), JsonValue::Bool(false))];
            proof {
                crate::budget::lemma_members_view(members@);
                assert(crate::json::members_view(members@) =~= seq![("recovered"@, JsonView::Bool(true)), ("replayed"@, JsonView::Bool(false))]);
            }
            let v = JsonValue::Object(members);
            assert(json_view(v) =~= JsonView::Object(seq![("recovered"@, JsonView::Bool(true)), ("replayed"@, JsonView::Bool(false))]));
            v
        },
    };
    ToolResult {
        call_id: call.id.clone(),
        tool_name: call.name.clone(),
        status: if succeeded { ToolResultStatus::Succeeded } else { ToolResultStatus::Failed },
        model_content,
        structured_content,
    }
}

} // verus!
