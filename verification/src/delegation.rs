//! What a child Agent Run inherits from its parent: narrowed grants, a bounded budget, and
//! allowlists that only shrink; and the argument checks of the delegation tools.

use vstd::prelude::*;

use crate::json::{as_u64, field, get, get_u64, JsonValue};
use crate::security::{FileSystemAccess, PermissionProfile};
use crate::text::{concat, push_str, str_eq, trim, trimmed};
use crate::tools::ToolExecutionError;

verus! {

/// How long a grant lasts.
#[derive(PartialEq, Eq, Structural, Clone, Copy, Debug)]
pub enum PermissionGrantScope {
    Session,
    Run,
}

/// File-system access to some roots.
#[derive(Debug)]
pub struct FileSystemGrant {
    pub access: FileSystemAccess,
    pub roots: Vec<String>,
    pub globs: Vec<String>,
    pub files: Vec<String>,
    pub special_roots: Vec<String>,
}

#[derive(Debug)]
pub struct NetworkGrant {
    pub enabled: bool,
    pub hosts: Vec<String>,
    pub protocols: Vec<String>,
    pub unrestricted_hosts: bool,
}

#[derive(Debug)]
pub struct ProcessGrant {
    pub spawn: bool,
    pub interactive: bool,
    pub allowed_commands: Vec<String>,
    pub unrestricted_commands: bool,
}

#[derive(Debug)]
pub struct BrowserGrant {
    pub observe: bool,
    pub act: bool,
    pub upload: bool,
    pub download: bool,
    pub cookie_storage: bool,
    pub cdp: bool,
    pub origins: Vec<String>,
    pub unrestricted_origins: bool,
}

#[derive(Debug)]
pub struct ComputerGrant {
    pub observe: bool,
    pub act: bool,
    pub allowed_applications: Vec<String>,
    pub unrestricted_targets: bool,
    pub max_actions: Option<u32>,
}

/// The capabilities granted to a Run.
#[derive(Debug)]
pub struct CapabilityGrantSet {
    pub profile: PermissionProfile,
    pub scope: PermissionGrantScope,
    pub session_id: String,
    pub run_id: Option<String>,
    pub source: String,
    pub file_system: Vec<FileSystemGrant>,
    pub network: NetworkGrant,
    pub process: ProcessGrant,
    pub browser: BrowserGrant,
    pub computer: ComputerGrant,
    pub review_each_command: bool,
    pub expires_at_ms: Option<i64>,
}

pub open spec fn strs(v: Seq<String>) -> Seq<Seq<char>> {
    v.map_values(|s: String| s@)
}

fn copy_strings(v: &Vec<String>) -> (out: Vec<String>)
    ensures
        strs(out@) == strs(v@),
{
    let mut out: Vec<String> = Vec::new();
    let mut i: usize = 0;
    while i < v.len()
        invariant
            i <= v@.len(),
            strs(out@) == strs(v@).take(i as int),
        decreases v@.len() - i,
    {
        let ghost before = strs(out@);
        let c = v[i].clone();
        assert(c@ == v@[i as int]@);
        out.push(c);
        assert(strs(out@) =~= before.push(v@[i as int]@));
        assert(strs(out@) =~= strs(v@).take(i + 1));
        i = i + 1;
    }
    assert(strs(v@).take(i as int) =~= strs(v@));
    out
}

pub open spec fn file_grant_view(g: FileSystemGrant) -> (FileSystemAccess, Seq<Seq<char>>, Seq<Seq<char>>, Seq<Seq<char>>, Seq<Seq<char>>) {
    (g.access, strs(g.roots@), strs(g.globs@), strs(g.files@), strs(g.special_roots@))
}

pub open spec fn file_grant_views(gs: Seq<FileSystemGrant>) -> Seq<(FileSystemAccess, Seq<Seq<char>>, Seq<Seq<char>>, Seq<Seq<char>>, Seq<Seq<char>>)> {
    gs.map_values(|g: FileSystemGrant| file_grant_view(g))
}

/// Write access narrowed to read; other access kept.
pub open spec fn read_only_access(a: FileSystemAccess) -> FileSystemAccess {
    if a == FileSystemAccess::Write { FileSystemAccess::Read } else { a }
}

pub open spec fn narrowed_file_grant(g: (FileSystemAccess, Seq<Seq<char>>, Seq<Seq<char>>, Seq<Seq<char>>, Seq<Seq<char>>), read_only: bool) -> (FileSystemAccess, Seq<Seq<char>>, Seq<Seq<char>>, Seq<Seq<char>>, Seq<Seq<char>>) {
    if read_only { (read_only_access(g.0), g.1, g.2, g.3, g.4) } else { g }
}

/// The source recorded on a child's grants.
pub open spec fn child_grant_source(parent_run_id: Option<String>) -> Seq<char> {
    "multi_agent_parent:"@ + match parent_run_id {
        Some(id) => id@,
        None => "unknown"@,
    }
}

/// A child's grants: the parent's, scoped to the child's Run and given the child's profile.
/// A read-only child loses every mutating authority: file-system writes become reads, the
/// process grant is emptied, and the browser and computer keep observation only.
pub open spec fn narrowed(parent: CapabilityGrantSet, child_session: Seq<char>, child_run: Seq<char>, profile: PermissionProfile, child: CapabilityGrantSet) -> bool {
    let read_only = profile == PermissionProfile::ReadOnly;
    &&& child.profile == profile
    &&& child.scope == PermissionGrantScope::Run
    &&& child.session_id@ == child_session
    &&& child.run_id is Some && child.run_id.unwrap()@ == child_run
    &&& child.source@ == child_grant_source(parent.run_id)
    &&& file_grant_views(child.file_system@) == file_grant_views(parent.file_system@).map_values(
        |g: (FileSystemAccess, Seq<Seq<char>>, Seq<Seq<char>>, Seq<Seq<char>>, Seq<Seq<char>>)| narrowed_file_grant(g, read_only),
    )
    &&& child.network.enabled == parent.network.enabled
    &&& strs(child.network.hosts@) == strs(parent.network.hosts@)
    &&& strs(child.network.protocols@) == strs(parent.network.protocols@)
    &&& child.network.unrestricted_hosts == parent.network.unrestricted_hosts
    &&& if read_only {
        &&& !child.process.spawn && !child.process.interactive && child.process.allowed_commands@.len() == 0
        &&& !child.process.unrestricted_commands
    } else {
        &&& child.process.spawn == parent.process.spawn
        &&& child.process.interactive == parent.process.interactive
        &&& strs(child.process.allowed_commands@) == strs(parent.process.allowed_commands@)
        &&& child.process.unrestricted_commands == parent.process.unrestricted_commands
    }
    &&& child.browser.observe == parent.browser.observe
    &&& child.browser.act == (parent.browser.act && !read_only)
    &&& child.browser.upload == (parent.browser.upload && !read_only)
    &&& child.browser.download == (parent.browser.download && !read_only)
    &&& child.browser.cookie_storage == (parent.browser.cookie_storage && !read_only)
    &&& child.browser.cdp == (parent.browser.cdp && !read_only)
    &&& strs(child.browser.origins@) == strs(parent.browser.origins@)
    &&& child.browser.unrestricted_origins == parent.browser.unrestricted_origins
    &&& child.computer.observe == parent.computer.observe
    &&& child.computer.act == (parent.computer.act && !read_only)
    &&& strs(child.computer.allowed_applications@) == strs(parent.computer.allowed_applications@)
    &&& child.computer.unrestricted_targets == parent.computer.unrestricted_targets
    &&& child.computer.max_actions == parent.computer.max_actions
    &&& child.review_each_command == parent.review_each_command
    &&& child.expires_at_ms == parent.expires_at_ms
}

/// Derives a child's grants from its parent's.
pub fn narrow_grants(
    parent: &CapabilityGrantSet,
    child_session_id: &str,
    child_run_id: &str,
    profile: PermissionProfile,
) -> (child: CapabilityGrantSet)
    ensures
        narrowed(*parent, child_session_id@, child_run_id@, profile, child),
{
    let read_only = profile == PermissionProfile::ReadOnly;
    let mut file_system: Vec<FileSystemGrant> = Vec::new();
    let mut i: usize = 0;
    let ghost target = file_grant_views(parent.file_system@).map_values(
        |g: (FileSystemAccess, Seq<Seq<char>>, Seq<Seq<char>>, Seq<Seq<char>>, Seq<Seq<char>>)| narrowed_file_grant(g, read_only),
    );
    while i < parent.file_system.len()
        invariant
            i <= parent.file_system@.len(),
            target == file_grant_views(parent.file_system@).map_values(
                |g: (FileSystemAccess, Seq<Seq<char>>, Seq<Seq<char>>, Seq<Seq<char>>, Seq<Seq<char>>)| narrowed_file_grant(g, read_only),
            ),
            file_grant_views(file_system@) == target.take(i as int),
        decreases parent.file_system@.len() - i,
    {
        let g = &parent.file_system[i];
        let access = if read_only && g.access == FileSystemAccess::Write { FileSystemAccess::Read } else { g.access };
        let copy = FileSystemGrant {
            access,
            roots: copy_strings(&g.roots),
            globs: copy_strings(&g.globs),
            files: copy_strings(&g.files),
            special_roots: copy_strings(&g.special_roots),
        };
        let ghost before = file_grant_views(file_system@);
        assert(file_grant_view(copy) == target[i as int]);
        file_system.push(copy);
        assert(file_grant_views(file_system@) =~= before.push(file_grant_view(copy)));
        assert(file_grant_views(file_system@) =~= target.take(i + 1));
        i = i + 1;
    }
    assert(target.take(i as int) =~= target);
    let process = if read_only {
        ProcessGrant { spawn: false, interactive: false, allowed_commands: Vec::new(), unrestricted_commands: false }
    } else {
        ProcessGrant {
            spawn: parent.process.spawn,
            interactive: parent.process.interactive,
            allowed_commands: copy_strings(&parent.process.allowed_commands),
            unrestricted_commands: parent.process.unrestricted_commands,
        }
    };
    let mut source = "multi_agent_parent:".to_owned();
    match &parent.run_id {
        Some(id) => push_str(&mut source, id.as_str()),
        None => push_str(&mut source, "unknown"),
    }
    CapabilityGrantSet {
        profile,
        scope: PermissionGrantScope::Run,
        session_id: child_session_id.to_owned(),
        run_id: Some(child_run_id.to_owned()),
        source,
        file_system,
        network: NetworkGrant {
            enabled: parent.network.enabled,
            hosts: copy_strings(&parent.network.hosts),
            protocols: copy_strings(&parent.network.protocols),
            unrestricted_hosts: parent.network.unrestricted_hosts,
        },
        process,
        browser: BrowserGrant {
            observe: parent.browser.observe,
            act: parent.browser.act && !read_only,
            upload: parent.browser.upload && !read_only,
            download: parent.browser.download && !read_only,
            cookie_storage: parent.browser.cookie_storage && !read_only,
            cdp: parent.browser.cdp && !read_only,
            origins: copy_strings(&parent.browser.origins),
            unrestricted_origins: parent.browser.unrestricted_origins,
        },
        computer: ComputerGrant {
            observe: parent.computer.observe,
            act: parent.computer.act && !read_only,
            allowed_applications: copy_strings(&parent.computer.allowed_applications),
            unrestricted_targets: parent.computer.unrestricted_targets,
            max_actions: parent.computer.max_actions,
        },
        review_each_command: parent.review_each_command,
        expires_at_ms: parent.expires_at_ms,
    }
}

/// A read-only child holds no mutating authority at all.
pub proof fn read_only_child_has_no_mutating_authority(
    parent: CapabilityGrantSet,
    child_session: Seq<char>,
    child_run: Seq<char>,
    child: CapabilityGrantSet,
)
    requires
        narrowed(parent, child_session, child_run, PermissionProfile::ReadOnly, child),
    ensures
        forall|i: int| 0 <= i < child.file_system@.len() ==> (#[trigger] child.file_system@[i]).access != FileSystemAccess::Write,
        !child.process.spawn && !child.process.interactive && !child.process.unrestricted_commands,
        !child.browser.act && !child.browser.upload && !child.browser.download && !child.browser.cookie_storage
            && !child.browser.cdp,
        !child.computer.act,
{
    assert forall|i: int| 0 <= i < child.file_system@.len() implies (#[trigger] child.file_system@[i]).access
        != FileSystemAccess::Write by {
        let cv = file_grant_views(child.file_system@);
        let pv = file_grant_views(parent.file_system@);
        assert(cv.len() == child.file_system@.len());
        assert(cv[i] == file_grant_view(child.file_system@[i]));
        assert(cv[i] == narrowed_file_grant(pv[i], true));
    }
}

// ---------------------------------------------------------------------------------------------
// Budget
// ---------------------------------------------------------------------------------------------

/// The limits of one Run.
#[derive(PartialEq, Eq, Structural, Clone, Copy, Debug)]
pub struct RunBudget {
    pub max_model_requests: u32,
    pub max_tool_calls: u32,
    pub max_parallel_read_tools: u32,
    pub model_timeout_ms: u64,
    pub tool_timeout_ms: u64,
}

pub open spec fn failure_text(e: ToolExecutionError) -> Seq<char> {
    match e {
        ToolExecutionError::Failed(m) => m@,
    }
}

/// A failed tool execution with `message`.
pub fn failed(message: &str) -> (e: ToolExecutionError)
    ensures
        failure_text(e) == message@,
{
    ToolExecutionError::Failed(message.to_owned())
}

/// An optional whole-number argument that fits in 32 bits: absent or null gives `None`;
/// anything else is an error.
pub open spec fn u32_arg(arguments: JsonValue, key: Seq<char>) -> Result<Option<u32>, ()> {
    match field(arguments, key) {
        None => Ok(None),
        Some(JsonValue::Null) => Ok(None),
        Some(v) => match as_u64(Some(v)) {
            Some(n) => if n <= u32::MAX { Ok(Some(n as u32)) } else { Err(()) },
            None => Err(()),
        },
    }
}

pub fn optional_u32(arguments: &JsonValue, key: &str) -> (out: Result<Option<u32>, ToolExecutionError>)
    ensures
        match out {
            Ok(v) => u32_arg(*arguments, key@) == Ok::<Option<u32>, ()>(v),
            Err(e) => u32_arg(*arguments, key@) is Err && failure_text(e) == key@ + " must be a positive integer"@,
        },
{
    match get(arguments, key) {
        None => Ok(None),
        Some(JsonValue::Null) => Ok(None),
        Some(_) => match get_u64(arguments, key) {
            Some(n) => if n <= 4294967295u64 {
                Ok(Some(n as u32))
            } else {
                Err(ToolExecutionError::Failed(concat(key, " must be a positive integer")))
            },
            None => Err(ToolExecutionError::Failed(concat(key, " must be a positive integer"))),
        },
    }
}

pub open spec fn quarter_at_least_one(n: u32) -> u32 {
    if n / 4 >= 1 { (n / 4) as u32 } else { 1 }
}

/// A child's budget: the requested limits (a quarter of the parent's, at least one, when not
/// requested), which must be positive and within the parent's; at most four parallel reads; the
/// parent's timeouts.
pub open spec fn child_budget_of(parent: RunBudget, arguments: JsonValue) -> Result<RunBudget, Seq<char>> {
    match u32_arg(arguments, "maxModelRequests"@) {
        Err(_) => Err("maxModelRequests must be a positive integer"@),
        Ok(m) => match u32_arg(arguments, "maxToolCalls"@) {
            Err(_) => Err("maxToolCalls must be a positive integer"@),
            Ok(t) => {
                let models = match m {
                    Some(v) => v,
                    None => quarter_at_least_one(parent.max_model_requests),
                };
                let tools = match t {
                    Some(v) => v,
                    None => quarter_at_least_one(parent.max_tool_calls),
                };
                if models == 0 || tools == 0 || models > parent.max_model_requests || tools > parent.max_tool_calls {
                    Err("child budget must be positive and no larger than the parent budget"@)
                } else {
                    Ok(
                        RunBudget {
                            max_model_requests: models,
                            max_tool_calls: tools,
                            max_parallel_read_tools: if parent.max_parallel_read_tools <= 4 {
                                parent.max_parallel_read_tools
                            } else {
                                4
                            },
                            model_timeout_ms: parent.model_timeout_ms,
                            tool_timeout_ms: parent.tool_timeout_ms,
                        },
                    )
                }
            },
        },
    }
}

pub fn child_budget(parent: &RunBudget, arguments: &JsonValue) -> (out: Result<RunBudget, ToolExecutionError>)
    ensures
        match out {
            Ok(b) => child_budget_of(*parent, *arguments) == Ok::<RunBudget, Seq<char>>(b),
            Err(e) => child_budget_of(*parent, *arguments) == Err::<RunBudget, Seq<char>>(failure_text(e)),
        },
{
    proof {
        reveal_strlit("maxModelRequests");
        reveal_strlit("maxToolCalls");
        reveal_strlit(" must be a positive integer");
        reveal_strlit("maxModelRequests must be a positive integer");
        reveal_strlit("maxToolCalls must be a positive integer");
    }
    let default_models = if parent.max_model_requests / 4 >= 1 { parent.max_model_requests / 4 } else { 1 };
    let default_tools = if parent.max_tool_calls / 4 >= 1 { parent.max_tool_calls / 4 } else { 1 };
    let models = match optional_u32(arguments, "maxModelRequests") {
        Ok(Some(v)) => v,
        Ok(None) => default_models,
        Err(e) => {
            assert("maxModelRequests"@ + " must be a positive integer"@ =~= "maxModelRequests must be a positive integer"@);
            return Err(e);
        },
    };
    let tools = match optional_u32(arguments, "maxToolCalls") {
        Ok(Some(v)) => v,
        Ok(None) => default_tools,
        Err(e) => {
            assert("maxToolCalls"@ + " must be a positive integer"@ =~= "maxToolCalls must be a positive integer"@);
            return Err(e);
        },
    };
    if models == 0 || tools == 0 || models > parent.max_model_requests || tools > parent.max_tool_calls {
        return Err(failed("child budget must be positive and no larger than the parent budget"));
    }
    Ok(
        RunBudget {
            max_model_requests: models,
            max_tool_calls: tools,
            max_parallel_read_tools: if parent.max_parallel_read_tools <= 4 { parent.max_parallel_read_tools } else { 4 },
            model_timeout_ms: parent.model_timeout_ms,
            tool_timeout_ms: parent.tool_timeout_ms,
        },
    )
}

/// A child never receives more budget than its parent.
pub proof fn child_budget_is_bounded_by_parent(parent: RunBudget, arguments: JsonValue)
    requires
        child_budget_of(parent, arguments) is Ok,
    ensures
        ({
            let b = child_budget_of(parent, arguments)->Ok_0;
            &&& 0 < b.max_model_requests <= parent.max_model_requests
            &&& 0 < b.max_tool_calls <= parent.max_tool_calls
            &&& b.max_parallel_read_tools <= parent.max_parallel_read_tools
            &&& b.max_parallel_read_tools <= 4
        }),
{
}

/// A child gets the limits it asks for: an explicit model-request or tool-call limit that is
/// positive and within the parent's is granted exactly as asked (an absent one defaults to a
/// quarter of the parent's, at least one), parallel reads are the parent's but at most four, the timeouts are the
/// parent's; a limit of zero or above the parent's is refused.
pub proof fn requested_child_limits_are_granted(
    parent: RunBudget,
    arguments: JsonValue,
    models: Option<u32>,
    tools: Option<u32>,
)
    requires
        u32_arg(arguments, "maxModelRequests"@) == Ok::<Option<u32>, ()>(models),
        u32_arg(arguments, "maxToolCalls"@) == Ok::<Option<u32>, ()>(tools),
    ensures
        (models matches Some(m) && (m == 0 || m > parent.max_model_requests)) ==> child_budget_of(parent, arguments) is Err,
        (tools matches Some(t) && (t == 0 || t > parent.max_tool_calls)) ==> child_budget_of(parent, arguments) is Err,
        (parent.max_model_requests > 0 && parent.max_tool_calls > 0 && (models matches Some(m) ==> 0 < m
            <= parent.max_model_requests) && (tools matches Some(t) ==> 0 < t <= parent.max_tool_calls))
            ==> child_budget_of(parent, arguments) is Ok,
        child_budget_of(parent, arguments) matches Ok(b) ==> {
            &&& (models matches Some(m) ==> b.max_model_requests == m)
            &&& (tools matches Some(t) ==> b.max_tool_calls == t)
            &&& (models is None ==> 0 < b.max_model_requests <= parent.max_model_requests && b.max_model_requests == (
            if parent.max_model_requests / 4 >= 1 {
                parent.max_model_requests / 4
            } else {
                1
            }))
            &&& (tools is None ==> 0 < b.max_tool_calls <= parent.max_tool_calls && b.max_tool_calls == (
            if parent.max_tool_calls / 4 >= 1 {
                parent.max_tool_calls / 4
            } else {
                1
            }))
            &&& b.max_parallel_read_tools == (if parent.max_parallel_read_tools <= 4 {
                parent.max_parallel_read_tools
            } else {
                4
            })
            &&& b.model_timeout_ms == parent.model_timeout_ms
            &&& b.tool_timeout_ms == parent.tool_timeout_ms
        },
{
}

// ---------------------------------------------------------------------------------------------
// Allowlists
// ---------------------------------------------------------------------------------------------

/// The names of `requested` that `parent` also holds, in requested order.
pub open spec fn kept_names(parent: Seq<Seq<char>>, requested: Seq<Seq<char>>) -> Seq<Seq<char>> {
    requested.filter(|name: Seq<char>| parent.contains(name))
}

/// A child's allowlist: absent on both sides stays absent; one side alone is kept; both sides
/// give the requested names the parent allows.
pub open spec fn intersected_names(parent: Option<Seq<Seq<char>>>, requested: Option<Seq<Seq<char>>>) -> Option<Seq<Seq<char>>> {
    match (parent, requested) {
        (None, None) => None,
        (Some(p), None) => Some(p),
        (None, Some(r)) => Some(r),
        (Some(p), Some(r)) => Some(kept_names(p, r)),
    }
}

fn contains_name(list: &Vec<String>, name: &String) -> (b: bool)
    ensures
        b == strs(list@).contains(name@),
{
    let mut i: usize = 0;
    while i < list.len()
        invariant
            i <= list@.len(),
            forall|k: int| 0 <= k < i ==> strs(list@)[k] != name@,
        decreases list@.len() - i,
    {
        if crate::text::str_eq(list[i].as_str(), name.as_str()) {
            assert(strs(list@)[i as int] == name@);
            return true;
        }
        i = i + 1;
    }
    false
}

fn filter_names(keep_from: &Vec<String>, values: &Vec<String>) -> (out: Vec<String>)
    ensures
        strs(out@) == kept_names(strs(keep_from@), strs(values@)),
{
    let ghost p = strs(keep_from@);
    let ghost r = strs(values@);
    let mut out: Vec<String> = Vec::new();
    let mut i: usize = 0;
    while i < values.len()
        invariant
            p == strs(keep_from@),
            r == strs(values@),
            i <= values@.len(),
            strs(out@) == kept_names(p, r.take(i as int)),
        decreases values@.len() - i,
    {
        proof {
            assert(r.take(i + 1).drop_last() =~= r.take(i as int));
            reveal_with_fuel(Seq::filter, 1);
        }
        let ghost before = strs(out@);
        if contains_name(keep_from, &values[i]) {
            out.push(values[i].clone());
            assert(strs(out@) =~= before.push(r[i as int]));
        }
        i = i + 1;
    }
    assert(r.take(i as int) =~= r);
    out
}

pub fn intersect_names(parent: Option<&Vec<String>>, requested: Option<&Vec<String>>) -> (out: Option<Vec<String>>)
    ensures
        match out {
            Some(v) => intersected_names(
                match parent {
                    Some(p) => Some(strs(p@)),
                    None => None,
                },
                match requested {
                    Some(r) => Some(strs(r@)),
                    None => None,
                },
            ) == Some(strs(v@)),
            None => parent is None && requested is None,
        },
{
    match (parent, requested) {
        (None, None) => None,
        (Some(p), None) => Some(copy_strings(p)),
        (None, Some(r)) => Some(copy_strings(r)),
        (Some(p), Some(r)) => Some(filter_names(p, r)),
    }
}

/// A child's allowlist never names what its parent's allowlist does not.
pub proof fn intersected_names_stay_within_parent(parent: Seq<Seq<char>>, requested: Option<Seq<Seq<char>>>)
    ensures
        forall|i: int|
            0 <= i < intersected_names(Some(parent), requested).unwrap().len() ==> parent.contains(
                #[trigger] intersected_names(Some(parent), requested).unwrap()[i],
            ),
{
    match requested {
        None => {},
        Some(r) => {
            let kept = kept_names(parent, r);
            broadcast use vstd::seq_lib::group_filter_ensures;
            assert forall|i: int| 0 <= i < kept.len() implies parent.contains(#[trigger] kept[i]) by {
                assert(kept.contains(kept[i]));
            }
        },
    }
}

/// The parent's skills that the child requests, in the parent's order; all of them when the
/// child requests none in particular.
pub open spec fn intersected_skills(parent: Seq<Seq<char>>, requested: Option<Seq<Seq<char>>>) -> Seq<Seq<char>> {
    match requested {
        None => parent,
        Some(r) => kept_names(r, parent),
    }
}

pub fn intersect_skills(parent: &Vec<String>, requested: Option<&Vec<String>>) -> (out: Vec<String>)
    ensures
        strs(out@) == intersected_skills(
            strs(parent@),
            match requested {
                Some(r) => Some(strs(r@)),
                None => None,
            },
        ),
{
    match requested {
        None => copy_strings(parent),
        Some(r) => filter_names(r, parent),
    }
}

// ---------------------------------------------------------------------------------------------
// Arguments
// ---------------------------------------------------------------------------------------------

/// A required string argument, trimmed: it must be non-empty and at most `max` characters.
pub open spec fn required_string_of(arguments: JsonValue, key: Seq<char>, max: nat) -> Result<Seq<char>, Seq<char>> {
    match crate::json::as_str(field(arguments, key)) {
        Some(v) => if trim(v).len() == 0 {
            Err(key + " is required"@)
        } else if trim(v).len() > max {
            Err(key + " is too long"@)
        } else {
            Ok(trim(v))
        },
        None => Err(key + " is required"@),
    }
}

pub fn required_string(arguments: &JsonValue, key: &str, max: usize) -> (out: Result<String, ToolExecutionError>)
    ensures
        match out {
            Ok(v) => required_string_of(*arguments, key@, max as nat) == Ok::<Seq<char>, Seq<char>>(v@),
            Err(e) => required_string_of(*arguments, key@, max as nat) == Err::<Seq<char>, Seq<char>>(failure_text(e)),
        },
{
    match crate::json::get_str(arguments, key) {
        Some(v) => {
            let t = trimmed(v.as_str());
            let n = t.unicode_len();
            if n == 0 {
                Err(ToolExecutionError::Failed(concat(key, " is required")))
            } else if n > max {
                Err(ToolExecutionError::Failed(concat(key, " is too long")))
            } else {
                Ok(t)
            }
        },
        None => Err(ToolExecutionError::Failed(concat(key, " is required"))),
    }
}

/// An optional string argument: absent or null gives `None`; a non-string is an error.
pub open spec fn optional_string_of(arguments: JsonValue, key: Seq<char>) -> Result<Option<Seq<char>>, Seq<char>> {
    match field(arguments, key) {
        None => Ok(None),
        Some(JsonValue::Null) => Ok(None),
        Some(JsonValue::String(s)) => Ok(Some(s@)),
        Some(_) => Err(key + " must be a string"@),
    }
}

pub fn optional_string(arguments: &JsonValue, key: &str) -> (out: Result<Option<String>, ToolExecutionError>)
    ensures
        match out {
            Ok(v) => optional_string_of(*arguments, key@) == Ok::<Option<Seq<char>>, Seq<char>>(
                match v {
                    Some(s) => Some(s@),
                    None => None,
                },
            ),
            Err(e) => optional_string_of(*arguments, key@) == Err::<Option<Seq<char>>, Seq<char>>(failure_text(e)),
        },
{
    match get(arguments, key) {
        None => Ok(None),
        Some(JsonValue::Null) => Ok(None),
        Some(JsonValue::String(s)) => Ok(Some(s.clone())),
        Some(_) => Err(ToolExecutionError::Failed(concat(key, " must be a string"))),
    }
}

pub open spec fn all_strings(items: Seq<JsonValue>) -> bool {
    forall|i: int| 0 <= i < items.len() ==> (#[trigger] items[i]) is String
}

pub open spec fn item_strings(items: Seq<JsonValue>) -> Seq<Seq<char>> {
    items.map_values(|v: JsonValue| match v {
        JsonValue::String(s) => s@,
        _ => Seq::empty(),
    })
}

/// An optional array of at most 256 strings.
pub open spec fn string_array_of(arguments: JsonValue, key: Seq<char>) -> Result<Option<Seq<Seq<char>>>, Seq<char>> {
    match field(arguments, key) {
        None => Ok(None),
        Some(JsonValue::Array(items)) => if items@.len() > 256 {
            Err(key + " is too large"@)
        } else if !all_strings(items@) {
            Err(key + " must contain strings"@)
        } else {
            Ok(Some(item_strings(items@)))
        },
        Some(_) => Err(key + " must be an array"@),
    }
}

pub fn string_array(arguments: &JsonValue, key: &str) -> (out: Result<Option<Vec<String>>, ToolExecutionError>)
    ensures
        match out {
            Ok(v) => string_array_of(*arguments, key@) == Ok::<Option<Seq<Seq<char>>>, Seq<char>>(
                match v {
                    Some(s) => Some(strs(s@)),
                    None => None,
                },
            ),
            Err(e) => string_array_of(*arguments, key@) == Err::<Option<Seq<Seq<char>>>, Seq<char>>(failure_text(e)),
        },
{
    match get(arguments, key) {
        None => Ok(None),
        Some(JsonValue::Array(items)) => {
            if items.len() > 256 {
                return Err(ToolExecutionError::Failed(concat(key, " is too large")));
            }
            let mut out: Vec<String> = Vec::new();
            let mut i: usize = 0;
            assert(field(*arguments, key@) == Some(JsonValue::Array(*items)));
            while i < items.len()
                invariant
                    field(*arguments, key@) == Some(JsonValue::Array(*items)),
                    items@.len() <= 256,
                    i <= items@.len(),
                    all_strings(items@.take(i as int)),
                    strs(out@) == item_strings(items@.take(i as int)),
                decreases items@.len() - i,
            {
                match &items[i] {
                    JsonValue::String(s) => {
                        let ghost before = strs(out@);
                        let c = s.clone();
                        out.push(c);
                        assert(strs(out@) =~= before.push(s@));
                        assert(items@.take(i + 1).drop_last() =~= items@.take(i as int));
                        assert(strs(out@) =~= item_strings(items@.take(i + 1)));
                        assert(all_strings(items@.take(i + 1)));
                    },
                    _ => {
                        assert(!all_strings(items@)) by {
                            assert(!(items@[i as int] is String));
                        }
                        return Err(ToolExecutionError::Failed(concat(key, " must contain strings")));
                    },
                }
                i = i + 1;
            }
            assert(items@.take(i as int) =~= items@);
            Ok(Some(out))
        },
        Some(_) => Err(ToolExecutionError::Failed(concat(key, " must be an array"))),
    }
}

// ---------------------------------------------------------------------------------------------
// Spawning a child
// ---------------------------------------------------------------------------------------------

/// What a spawn request asks of a child Run, once checked against its parent.
#[derive(Debug)]
pub struct ChildPlan {
    pub title: String,
    pub prompt: String,
    pub permission_profile: PermissionProfile,
    pub budget: RunBudget,
    pub tool_allowlist: Option<Vec<String>>,
    pub skill_allowlist: Vec<String>,
}

pub open spec fn opt_strs(v: Option<Vec<String>>) -> Option<Seq<Seq<char>>> {
    match v {
        Some(l) => Some(strs(l@)),
        None => None,
    }
}

pub type ChildPlanView = (Seq<char>, Seq<char>, PermissionProfile, RunBudget, Option<Seq<Seq<char>>>, Seq<Seq<char>>);

pub open spec fn child_plan_view(p: ChildPlan) -> ChildPlanView {
    (
        p.title@,
        p.prompt@,
        p.permission_profile,
        p.budget,
        match p.tool_allowlist {
            Some(l) => Some(strs(l@)),
            None => None,
        },
        strs(p.skill_allowlist@),
    )
}

/// The child's permission profile: read-only unless it asks to inherit the parent's.
pub open spec fn child_profile_of(arguments: JsonValue, parent: PermissionProfile) -> Result<PermissionProfile, Seq<char>> {
    match optional_string_of(arguments, "permissionProfile"@) {
        Err(e) => Err(e),
        Ok(None) => Ok(PermissionProfile::ReadOnly),
        Ok(Some(p)) => if p == "read_only"@ {
            Ok(PermissionProfile::ReadOnly)
        } else if p == "inherit"@ {
            Ok(parent)
        } else {
            Err("permissionProfile must be read_only or inherit"@)
        },
    }
}

/// The plan of a spawn request, or the first argument's error: a title (at most 200
/// characters) and a prompt (at most 32000), the permission profile, a budget within the
/// parent's, and tool and Skill allowlists intersected with the parent's.
pub open spec fn child_plan_of(
    arguments: JsonValue,
    parent_profile: PermissionProfile,
    parent_budget: RunBudget,
    parent_tools: Option<Seq<Seq<char>>>,
    parent_skills: Seq<Seq<char>>,
) -> Result<ChildPlanView, Seq<char>> {
    match required_string_of(arguments, "title"@, 200) {
        Err(e) => Err(e),
        Ok(title) => match required_string_of(arguments, "prompt"@, 32000) {
            Err(e) => Err(e),
            Ok(prompt) => match child_profile_of(arguments, parent_profile) {
                Err(e) => Err(e),
                Ok(profile) => if profile != PermissionProfile::ReadOnly && profile != parent_profile {
                    Err("child permission profile cannot widen the parent"@)
                } else {
                    match child_budget_of(parent_budget, arguments) {
                        Err(e) => Err(e),
                        Ok(budget) => match string_array_of(arguments, "toolAllowlist"@) {
                            Err(e) => Err(e),
                            Ok(tools) => match string_array_of(arguments, "skillIds"@) {
                                Err(e) => Err(e),
                                Ok(skills) => Ok(
                                    (
                                        title,
                                        prompt,
                                        profile,
                                        budget,
                                        intersected_names(parent_tools, tools),
                                        intersected_skills(parent_skills, skills),
                                    ),
                                ),
                            },
                        },
                    }
                },
            },
        },
    }
}

/// Checks a spawn request's arguments against the parent Run (see `child_plan_of`).
pub fn plan_child(
    arguments: &JsonValue,
    parent_profile: PermissionProfile,
    parent_budget: &RunBudget,
    parent_tools: Option<&Vec<String>>,
    parent_skills: &Vec<String>,
) -> (out: Result<ChildPlan, ToolExecutionError>)
    ensures
        ({
            let expected = child_plan_of(
                *arguments,
                parent_profile,
                *parent_budget,
                match parent_tools {
                    Some(l) => Some(strs(l@)),
                    None => None,
                },
                strs(parent_skills@),
            );
            match out {
                Ok(p) => expected == Ok::<ChildPlanView, Seq<char>>(child_plan_view(p)),
                Err(e) => expected == Err::<ChildPlanView, Seq<char>>(failure_text(e)),
            }
        }),
{
    proof {
        reveal_strlit("read_only");
        reveal_strlit("inherit");
    }
    let title = required_string(arguments, "title", 200)?;
    let prompt = required_string(arguments, "prompt", 32000)?;
    let permission_profile = match optional_string(arguments, "permissionProfile")? {
        None => PermissionProfile::ReadOnly,
        Some(p) => if str_eq(p.as_str(), "read_only") {
            PermissionProfile::ReadOnly
        } else if str_eq(p.as_str(), "inherit") {
            parent_profile
        } else {
            return Err(failed("permissionProfile must be read_only or inherit"));
        },
    };
    if permission_profile != PermissionProfile::ReadOnly && permission_profile != parent_profile {
        return Err(failed("child permission profile cannot widen the parent"));
    }
    let budget = child_budget(parent_budget, arguments)?;
    let requested_tools = string_array(arguments, "toolAllowlist")?;
    let requested_skills = string_array(arguments, "skillIds")?;
    let tool_allowlist = match &requested_tools {
        Some(r) => intersect_names(parent_tools, Some(r)),
        None => intersect_names(parent_tools, None),
    };
    let skill_allowlist = match &requested_skills {
        Some(r) => intersect_skills(parent_skills, Some(r)),
        None => intersect_skills(parent_skills, None),
    };
    proof {
        let pt = match parent_tools {
            Some(l) => Some(strs(l@)),
            None => None,
        };
        assert(opt_strs(tool_allowlist) == intersected_names(pt, opt_strs(requested_tools)));
    }
    Ok(ChildPlan { title, prompt, permission_profile, budget, tool_allowlist, skill_allowlist })
}

/// A child never holds more permission than its parent: its profile is read-only or the
/// parent's, and its budget stays within the parent's.
pub proof fn child_plans_never_widen_the_parent(
    arguments: JsonValue,
    parent_profile: PermissionProfile,
    parent_budget: RunBudget,
    parent_tools: Option<Seq<Seq<char>>>,
    parent_skills: Seq<Seq<char>>,
)
    requires
        child_plan_of(arguments, parent_profile, parent_budget, parent_tools, parent_skills) is Ok,
    ensures
        ({
            let p = child_plan_of(arguments, parent_profile, parent_budget, parent_tools, parent_skills)->Ok_0;
            &&& (p.2 == PermissionProfile::ReadOnly || p.2 == parent_profile)
            &&& 0 < p.3.max_model_requests <= parent_budget.max_model_requests
            &&& 0 < p.3.max_tool_calls <= parent_budget.max_tool_calls
        }),
{
    child_budget_is_bounded_by_parent(parent_budget, arguments);
}

/// Where a new child task sits in its task tree: under its parent task's root when the parent
/// is itself a task, else rooted at itself and the parent Run; one level deeper than the
/// parent (saturating).
pub fn child_task_lineage(
    task_id: &str,
    parent_task_root: Option<(&str, &str)>,
    parent_run_id: &str,
    parent_depth: u32,
) -> (out: (String, String, u32))
    ensures
        match parent_task_root {
            Some((root_task, root_run)) => out.0@ == root_task@ && out.1@ == root_run@,
            None => out.0@ == task_id@ && out.1@ == parent_run_id@,
        },
        out.2 == (if parent_depth == u32::MAX { u32::MAX } else { (parent_depth + 1) as u32 }),
{
    let depth = parent_depth.saturating_add(1);
    match parent_task_root {
        Some((root_task, root_run)) => (root_task.to_owned(), root_run.to_owned(), depth),
        None => (task_id.to_owned(), parent_run_id.to_owned(), depth),
    }
}

} // verus!
