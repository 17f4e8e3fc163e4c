//! The world a Run's steps see: sandbox reports that only narrow, world refreshes that advance
//! the context revision, step revisions, and the tool plan of a step.

use vstd::prelude::*;

use crate::agents::{layer_views, AgentInstructionLayer};
use crate::lex::{insert_sorted, lex_compare, lex_lt, strictly_sorted};
use crate::json::{json_print, json_view, members_view, items_view, print_json, JsonValue, JsonView};
use crate::runs::{BehaviorMode, EntryProfile};
use crate::runs::WorkloadKind;
use crate::security::{ToolDescriptor, ToolEffect};
use crate::skills::WorkloadResolutionSource;
use crate::text::str_eq;
use vstd::multiset::Multiset;

verus! {

/// How ready the sandbox is.
#[derive(PartialEq, Eq, Structural, Clone, Copy, Debug)]
pub enum SandboxReadiness {
    Ready,
    Degraded,
    SetupRequired,
    Unavailable,
}

/// What the sandbox enforces.
#[derive(Debug)]
pub struct SandboxCapabilityReport {
    pub backend: String,
    pub readiness: SandboxReadiness,
    pub os_enforced: bool,
    pub filesystem_enforced: bool,
    pub process_enforced: bool,
    pub network_enforced: bool,
    pub version: Option<String>,
    pub stable_error_code: Option<String>,
    pub diagnostics: Vec<String>,
}

pub open spec fn strs(v: Seq<String>) -> Seq<Seq<char>> {
    v.map_values(|s: String| s@)
}

pub open spec fn opt_text(v: Option<String>) -> Option<Seq<char>> {
    match v {
        Some(s) => Some(s@),
        None => None,
    }
}

/// The readiness of two reports together: ready only when both are ready and everything is
/// enforced; else unavailable if either is; else needing setup if either does; else degraded.
pub open spec fn joint_readiness(initial: SandboxCapabilityReport, current: SandboxCapabilityReport, all_enforced: bool) -> SandboxReadiness {
    if all_enforced && initial.readiness == SandboxReadiness::Ready && current.readiness == SandboxReadiness::Ready {
        SandboxReadiness::Ready
    } else if initial.readiness == SandboxReadiness::Unavailable || current.readiness == SandboxReadiness::Unavailable {
        SandboxReadiness::Unavailable
    } else if initial.readiness == SandboxReadiness::SetupRequired || current.readiness == SandboxReadiness::SetupRequired {
        SandboxReadiness::SetupRequired
    } else {
        SandboxReadiness::Degraded
    }
}

/// The intersection of a Run's sandbox report with a newer one: each guarantee holds only when
/// both reports give it; the initial backend and version stay; the newer error code wins;
/// diagnostics are the sorted, distinct union of both.
pub open spec fn intersected(initial: SandboxCapabilityReport, current: SandboxCapabilityReport, out: SandboxCapabilityReport) -> bool {
    let os = initial.os_enforced && current.os_enforced;
    let fs = initial.filesystem_enforced && current.filesystem_enforced;
    let process = initial.process_enforced && current.process_enforced;
    let network = initial.network_enforced && current.network_enforced;
    &&& out.backend@ == initial.backend@
    &&& out.os_enforced == os
    &&& out.filesystem_enforced == fs
    &&& out.process_enforced == process
    &&& out.network_enforced == network
    &&& out.readiness == joint_readiness(initial, current, os && fs && process && network)
    &&& opt_text(out.version) == opt_text(initial.version)
    &&& opt_text(out.stable_error_code) == (if current.stable_error_code is Some {
        opt_text(current.stable_error_code)
    } else {
        opt_text(initial.stable_error_code)
    })
    &&& strictly_sorted(strs(out.diagnostics@))
    &&& strs(out.diagnostics@).to_set() == strs(initial.diagnostics@).to_set() + strs(current.diagnostics@).to_set()
}

fn copy_opt(v: &Option<String>) -> (out: Option<String>)
    ensures
        opt_text(out) == opt_text(*v),
{
    match v {
        Some(s) => Some(s.clone()),
        None => None,
    }
}

fn add_all_sorted(out: &mut Vec<String>, items: &Vec<String>)
    requires
        strictly_sorted(strs(old(out)@)),
    ensures
        strictly_sorted(strs(final(out)@)),
        strs(final(out)@).to_set() == strs(old(out)@).to_set() + strs(items@).to_set(),
{
    let ghost start = strs(out@).to_set();
    let mut i: usize = 0;
    while i < items.len()
        invariant
            i <= items@.len(),
            strictly_sorted(strs(out@)),
            strs(out@).to_set() == start + strs(items@).take(i as int).to_set(),
        decreases items@.len() - i,
    {
        assert(strs(out@) =~= crate::lex::views(out@));
        insert_sorted(out, items[i].clone());
        assert(strs(out@) =~= crate::lex::views(out@));
        proof {
            assert(strs(items@).take(i + 1) =~= strs(items@).take(i as int).push(items@[i as int]@));
            strs(items@).take(i as int).lemma_push_to_set_commute(items@[i as int]@);
            assert(strs(out@).to_set() =~= start + strs(items@).take(i + 1).to_set());
        }
        i = i + 1;
    }
    assert(strs(items@).take(i as int) =~= strs(items@));
}

pub fn intersect_sandbox_reports(initial: &SandboxCapabilityReport, current: &SandboxCapabilityReport) -> (out: SandboxCapabilityReport)
    ensures
        intersected(*initial, *current, out),
{
    let os_enforced = initial.os_enforced && current.os_enforced;
    let filesystem_enforced = initial.filesystem_enforced && current.filesystem_enforced;
    let process_enforced = initial.process_enforced && current.process_enforced;
    let network_enforced = initial.network_enforced && current.network_enforced;
    let readiness = if os_enforced && filesystem_enforced && process_enforced && network_enforced && initial.readiness
        == SandboxReadiness::Ready && current.readiness == SandboxReadiness::Ready {
        SandboxReadiness::Ready
    } else if initial.readiness == SandboxReadiness::Unavailable || current.readiness == SandboxReadiness::Unavailable {
        SandboxReadiness::Unavailable
    } else if initial.readiness == SandboxReadiness::SetupRequired || current.readiness == SandboxReadiness::SetupRequired {
        SandboxReadiness::SetupRequired
    } else {
        SandboxReadiness::Degraded
    };
    let mut diagnostics: Vec<String> = Vec::new();
    assert(strs(diagnostics@).to_set() =~= Set::<Seq<char>>::empty());
    add_all_sorted(&mut diagnostics, &initial.diagnostics);
    add_all_sorted(&mut diagnostics, &current.diagnostics);
    assert(strs(diagnostics@).to_set() =~= strs(initial.diagnostics@).to_set() + strs(current.diagnostics@).to_set());
    let stable_error_code = if current.stable_error_code.is_some() {
        copy_opt(&current.stable_error_code)
    } else {
        copy_opt(&initial.stable_error_code)
    };
    SandboxCapabilityReport {
        backend: initial.backend.clone(),
        readiness,
        os_enforced,
        filesystem_enforced,
        process_enforced,
        network_enforced,
        version: copy_opt(&initial.version),
        stable_error_code,
        diagnostics,
    }
}

/// A newer sandbox report never widens what a Run's snapshot enforces: a guarantee holds after
/// the intersection only if it held before, and readiness is never gained.
pub proof fn sandbox_intersection_never_widens(initial: SandboxCapabilityReport, current: SandboxCapabilityReport, out: SandboxCapabilityReport)
    requires
        intersected(initial, current, out),
    ensures
        out.os_enforced ==> initial.os_enforced,
        out.filesystem_enforced ==> initial.filesystem_enforced,
        out.process_enforced ==> initial.process_enforced,
        out.network_enforced ==> initial.network_enforced,
        out.readiness == SandboxReadiness::Ready ==> initial.readiness == SandboxReadiness::Ready,
        initial.readiness == SandboxReadiness::Unavailable ==> out.readiness == SandboxReadiness::Unavailable,
{
}

pub open spec fn reports_equal(a: SandboxCapabilityReport, b: SandboxCapabilityReport) -> bool {
    &&& a.backend@ == b.backend@
    &&& a.readiness == b.readiness
    &&& a.os_enforced == b.os_enforced
    &&& a.filesystem_enforced == b.filesystem_enforced
    &&& a.process_enforced == b.process_enforced
    &&& a.network_enforced == b.network_enforced
    &&& opt_text(a.version) == opt_text(b.version)
    &&& opt_text(a.stable_error_code) == opt_text(b.stable_error_code)
    &&& strs(a.diagnostics@) == strs(b.diagnostics@)
}

fn same_strings(a: &Vec<String>, b: &Vec<String>) -> (eq: bool)
    ensures
        eq == (strs(a@) == strs(b@)),
{
    if a.len() != b.len() {
        proof {
            assert(strs(a@).len() != strs(b@).len());
        }
        return false;
    }
    let mut i: usize = 0;
    while i < a.len()
        invariant
            a@.len() == b@.len(),
            i <= a@.len(),
            forall|k: int| 0 <= k < i ==> a@[k]@ == b@[k]@,
        decreases a@.len() - i,
    {
        if !str_eq(a[i].as_str(), b[i].as_str()) {
            assert(strs(a@)[i as int] != strs(b@)[i as int]);
            return false;
        }
        i = i + 1;
    }
    assert(strs(a@) =~= strs(b@));
    true
}

fn same_opt(a: &Option<String>, b: &Option<String>) -> (eq: bool)
    ensures
        eq == (opt_text(*a) == opt_text(*b)),
{
    match (a, b) {
        (Some(x), Some(y)) => str_eq(x.as_str(), y.as_str()),
        (None, None) => true,
        _ => false,
    }
}

pub fn same_report(a: &SandboxCapabilityReport, b: &SandboxCapabilityReport) -> (eq: bool)
    ensures
        eq == reports_equal(*a, *b),
{
    str_eq(a.backend.as_str(), b.backend.as_str()) && a.readiness == b.readiness && a.os_enforced == b.os_enforced
        && a.filesystem_enforced == b.filesystem_enforced && a.process_enforced == b.process_enforced
        && a.network_enforced == b.network_enforced && same_opt(&a.version, &b.version) && same_opt(
        &a.stable_error_code,
        &b.stable_error_code,
    ) && same_strings(&a.diagnostics, &b.diagnostics)
}

// ---------------------------------------------------------------------------------------------
// World state
// ---------------------------------------------------------------------------------------------

/// A Skill activated in a Run.
#[derive(Debug)]
pub struct SkillActivation {
    pub skill_id: String,
    pub content_revision: String,
}

/// An MCP tool selected for a Run.
#[derive(Debug)]
pub struct McpToolSelection {
    pub server_id: String,
    pub tool_name: String,
}

/// What the steps of a Run see of the world.
#[derive(Debug)]
pub struct StepWorldState {
    pub context_revision: u64,
    pub profile_revision: u64,
    pub agents_revision: String,
    pub skills_revision: String,
    pub mcp_revision: String,
    pub host_revision: String,
    pub instructions: Vec<AgentInstructionLayer>,
    pub skill_activations: Vec<SkillActivation>,
    pub mcp_bindings: Vec<McpToolSelection>,
    pub disabled_tool_names: Vec<String>,
    pub diagnostics: Vec<String>,
    pub sandbox: SandboxCapabilityReport,
    pub host_ready: bool,
}

pub open spec fn activation_views(v: Seq<SkillActivation>) -> Seq<(Seq<char>, Seq<char>)> {
    v.map_values(|a: SkillActivation| (a.skill_id@, a.content_revision@))
}

pub open spec fn binding_views(v: Seq<McpToolSelection>) -> Seq<(Seq<char>, Seq<char>)> {
    v.map_values(|b: McpToolSelection| (b.server_id@, b.tool_name@))
}

/// Two worlds with the same content, revisions counters aside.
pub open spec fn same_world_content(a: StepWorldState, b: StepWorldState) -> bool {
    &&& a.agents_revision@ == b.agents_revision@
    &&& a.mcp_revision@ == b.mcp_revision@
    &&& a.host_revision@ == b.host_revision@
    &&& layer_views(a.instructions@) == layer_views(b.instructions@)
    &&& activation_views(a.skill_activations@) == activation_views(b.skill_activations@)
    &&& a.skills_revision@ == b.skills_revision@
    &&& binding_views(a.mcp_bindings@) == binding_views(b.mcp_bindings@)
    &&& strs(a.disabled_tool_names@) == strs(b.disabled_tool_names@)
    &&& strs(a.diagnostics@) == strs(b.diagnostics@)
    &&& reports_equal(a.sandbox, b.sandbox)
    &&& a.host_ready == b.host_ready
}

fn same_pairs(a: &Vec<SkillActivation>, b: &Vec<SkillActivation>) -> (eq: bool)
    ensures
        eq == (activation_views(a@) == activation_views(b@)),
{
    if a.len() != b.len() {
        proof {
            assert(activation_views(a@).len() != activation_views(b@).len());
        }
        return false;
    }
    let mut i: usize = 0;
    while i < a.len()
        invariant
            a@.len() == b@.len(),
            i <= a@.len(),
            forall|k: int| 0 <= k < i ==> activation_views(a@)[k] == activation_views(b@)[k],
        decreases a@.len() - i,
    {
        if !(str_eq(a[i].skill_id.as_str(), b[i].skill_id.as_str()) && str_eq(
            a[i].content_revision.as_str(),
            b[i].content_revision.as_str(),
        )) {
            assert(activation_views(a@)[i as int] != activation_views(b@)[i as int]);
            return false;
        }
        i = i + 1;
    }
    assert(activation_views(a@) =~= activation_views(b@));
    true
}

fn same_bindings(a: &Vec<McpToolSelection>, b: &Vec<McpToolSelection>) -> (eq: bool)
    ensures
        eq == (binding_views(a@) == binding_views(b@)),
{
    if a.len() != b.len() {
        proof {
            assert(binding_views(a@).len() != binding_views(b@).len());
        }
        return false;
    }
    let mut i: usize = 0;
    while i < a.len()
        invariant
            a@.len() == b@.len(),
            i <= a@.len(),
            forall|k: int| 0 <= k < i ==> binding_views(a@)[k] == binding_views(b@)[k],
        decreases a@.len() - i,
    {
        if !(str_eq(a[i].server_id.as_str(), b[i].server_id.as_str()) && str_eq(a[i].tool_name.as_str(), b[i].tool_name.as_str())) {
            assert(binding_views(a@)[i as int] != binding_views(b@)[i as int]);
            return false;
        }
        i = i + 1;
    }
    assert(binding_views(a@) =~= binding_views(b@));
    true
}

fn same_layers(a: &Vec<AgentInstructionLayer>, b: &Vec<AgentInstructionLayer>) -> (eq: bool)
    ensures
        eq == (layer_views(a@) == layer_views(b@)),
{
    if a.len() != b.len() {
        proof {
            assert(layer_views(a@).len() != layer_views(b@).len());
        }
        return false;
    }
    let mut i: usize = 0;
    while i < a.len()
        invariant
            a@.len() == b@.len(),
            i <= a@.len(),
            forall|k: int| 0 <= k < i ==> layer_views(a@)[k] == layer_views(b@)[k],
        decreases a@.len() - i,
    {
        let x = &a[i];
        let y = &b[i];
        if !(str_eq(x.relative_directory.as_str(), y.relative_directory.as_str()) && str_eq(
            x.source_path.as_str(),
            y.source_path.as_str(),
        ) && str_eq(x.content_hash.as_str(), y.content_hash.as_str()) && str_eq(x.markdown.as_str(), y.markdown.as_str())) {
            assert(layer_views(a@)[i as int] != layer_views(b@)[i as int]);
            return false;
        }
        i = i + 1;
    }
    assert(layer_views(a@) =~= layer_views(b@));
    true
}

fn same_world(a: &StepWorldState, b: &StepWorldState) -> (eq: bool)
    ensures
        eq == same_world_content(*a, *b),
{
    str_eq(a.agents_revision.as_str(), b.agents_revision.as_str()) && str_eq(a.mcp_revision.as_str(), b.mcp_revision.as_str())
        && str_eq(a.host_revision.as_str(), b.host_revision.as_str()) && same_layers(&a.instructions, &b.instructions)
        && same_pairs(&a.skill_activations, &b.skill_activations) && str_eq(
        a.skills_revision.as_str(),
        b.skills_revision.as_str(),
    ) && same_bindings(&a.mcp_bindings, &b.mcp_bindings) && same_strings(&a.disabled_tool_names, &b.disabled_tool_names)
        && same_strings(&a.diagnostics, &b.diagnostics) && same_report(&a.sandbox, &b.sandbox) && a.host_ready
        == b.host_ready
}

pub open spec fn sat_next(n: u64) -> u64 {
    if n == u64::MAX { n } else { (n + 1) as u64 }
}

/// The world of a running Run, refreshed between steps.
#[derive(Debug)]
pub struct StepWorld {
    pub world: StepWorldState,
}

impl StepWorld {
    /// Narrows the sandbox to what a newer report also enforces; a change advances the context
    /// revision.
    pub fn narrow_sandbox(&mut self, sandbox: &SandboxCapabilityReport)
        ensures
            intersected(old(self).world.sandbox, *sandbox, final(self).world.sandbox),
            ({
                let changed = !reports_equal(final(self).world.sandbox, old(self).world.sandbox);
                &&& final(self).world.context_revision == if changed {
                    sat_next(old(self).world.context_revision)
                } else {
                    old(self).world.context_revision
                }
            }),
            changed_only_sandbox(old(self).world, final(self).world),
    {
        let narrowed = intersect_sandbox_reports(&self.world.sandbox, sandbox);
        if !same_report(&self.world.sandbox, &narrowed) {
            self.world.sandbox = narrowed;
            self.world.context_revision = if self.world.context_revision == u64::MAX {
                self.world.context_revision
            } else {
                self.world.context_revision + 1
            };
            proof {
                lemma_reports_equal_symmetric(old(self).world.sandbox, self.world.sandbox);
            }
        } else {
            assert(strs(self.world.sandbox.diagnostics@) == strs(narrowed.diagnostics@));
        }
    }

    /// Installs a refreshed world when its content differs; the context revision then advances
    /// past the current one and the profile revision is kept.
    pub fn apply_world_refresh(&mut self, world: StepWorldState) -> (changed: bool)
        ensures
            changed == !same_world_content(old(self).world, world),
            !changed ==> final(self).world == old(self).world,
            changed ==> {
                &&& final(self).world.context_revision == sat_next(old(self).world.context_revision)
                &&& final(self).world.profile_revision == old(self).world.profile_revision
                &&& same_world_content(final(self).world, world)
                &&& final(self).world.agents_revision == world.agents_revision
                &&& final(self).world.mcp_revision == world.mcp_revision
                &&& final(self).world.host_revision == world.host_revision
            },
    {
        if same_world(&self.world, &world) {
            return false;
        }
        let mut world = world;
        world.context_revision = if self.world.context_revision == u64::MAX {
            self.world.context_revision
        } else {
            self.world.context_revision + 1
        };
        world.profile_revision = self.world.profile_revision;
        self.world = world;
        proof {
            lemma_reports_equal_symmetric(self.world.sandbox, self.world.sandbox);
        }
        true
    }
}

proof fn lemma_reports_equal_symmetric(a: SandboxCapabilityReport, b: SandboxCapabilityReport)
    ensures
        reports_equal(a, b) == reports_equal(b, a),
{
}

/// Everything but the sandbox and the context revision is kept.
pub open spec fn changed_only_sandbox(before: StepWorldState, after: StepWorldState) -> bool {
    &&& after.profile_revision == before.profile_revision
    &&& after.agents_revision == before.agents_revision
    &&& after.skills_revision == before.skills_revision
    &&& after.mcp_revision == before.mcp_revision
    &&& after.host_revision == before.host_revision
    &&& after.instructions == before.instructions
    &&& after.skill_activations == before.skill_activations
    &&& after.mcp_bindings == before.mcp_bindings
    &&& after.disabled_tool_names == before.disabled_tool_names
    &&& after.diagnostics == before.diagnostics
    &&& after.host_ready == before.host_ready
}

// ---------------------------------------------------------------------------------------------
// Step revisions
// ---------------------------------------------------------------------------------------------

/// Hands out step revisions: each capture takes the next one, starting at 1.
#[derive(Debug)]
pub struct StepContextFactory {
    next_step_revision: u64,
}

impl StepContextFactory {
    /// Revisions handed out so far.
    pub closed spec fn issued(&self) -> u64 {
        self.next_step_revision
    }

    pub fn new() -> (f: Self)
        ensures
            f.issued() == 0,
    {
        StepContextFactory { next_step_revision: 0 }
    }

    /// The revision of the next captured step: one past the revisions handed out (saturating);
    /// the counter wraps as an atomic counter does.
    pub fn next_revision(&mut self) -> (r: u64)
        ensures
            r == sat_next(old(self).issued()),
            final(self).issued() == (if old(self).issued() == u64::MAX { 0 } else { (old(self).issued() + 1) as u64 }),
    {
        let current = self.next_step_revision;
        self.next_step_revision = if current == u64::MAX { 0 } else { current + 1 };
        if current == u64::MAX { current } else { current + 1 }
    }
}

impl Default for StepContextFactory {
    fn default() -> (f: Self)
        ensures
            f.issued() == 0,
    {
        StepContextFactory::new()
    }
}

/// Revisions handed out one after another strictly increase, below the last one.
pub proof fn step_revisions_increase(issued: u64)
    requires
        issued < u64::MAX - 1,
    ensures
        sat_next(issued) < sat_next((issued + 1) as u64),
{
}

// ---------------------------------------------------------------------------------------------
// Tool plans
// ---------------------------------------------------------------------------------------------

/// A tool descriptor as a plan sees it: its name, effect, description, input schema,
/// parallel safety and required scopes.
pub struct ToolView {
    pub name: Seq<char>,
    pub effect: ToolEffect,
    pub description: Seq<char>,
    pub input_schema: JsonView,
    pub parallel_safe: bool,
    pub required_scopes: Seq<Seq<char>>,
}

pub open spec fn tool_view(t: ToolDescriptor) -> ToolView {
    ToolView {
        name: t.name@,
        effect: t.effect,
        description: t.description@,
        input_schema: json_view(t.input_schema),
        parallel_safe: t.parallel_safe,
        required_scopes: strs(t.required_scopes@),
    }
}

pub open spec fn tool_names(v: Seq<ToolDescriptor>) -> Seq<Seq<char>> {
    v.map_values(|t: ToolDescriptor| t.name@)
}

/// A tool passes the plan's filter: its profile allows it, Plan mode keeps only read-only
/// tools, a Run allowlist names it, and it is not disabled.
pub open spec fn plan_keeps(name: Seq<char>, effect: ToolEffect, profile_allows: bool, plan_mode: bool, run_allowlist: Option<Seq<Seq<char>>>, disabled: Seq<Seq<char>>) -> bool {
    &&& profile_allows
    &&& (!plan_mode || effect == ToolEffect::ReadOnly)
    &&& match run_allowlist {
        Some(names) => names.contains(name),
        None => true,
    }
    &&& !disabled.contains(name)
}

pub open spec fn lex_le(a: Seq<char>, b: Seq<char>) -> bool {
    a == b || lex_lt(a, b)
}

pub open spec fn sorted_names(s: Seq<Seq<char>>) -> bool {
    forall|i: int, j: int| 0 <= i < j < s.len() ==> lex_le(#[trigger] s[i], #[trigger] s[j])
}

/// The tools a step may call, sorted by name.
#[derive(Debug)]
pub struct ToolPlan {
    pub hash: String,
    pub tools: Vec<ToolDescriptor>,
}

fn contains_string(list: &Vec<String>, name: &String) -> (b: bool)
    ensures
        b == strs(list@).contains(name@),
{
    let mut i: usize = 0;
    while i < list.len()
        invariant
            i <= list@.len(),
            forall|k: int| 0 <= k < i ==> strs(list@)[k] != name@,
        decreases list@.len() - i,
    {
        if str_eq(list[i].as_str(), name.as_str()) {
            assert(strs(list@)[i as int] == name@);
            return true;
        }
        i = i + 1;
    }
    false
}

proof fn lemma_le_trans(a: Seq<char>, b: Seq<char>, c: Seq<char>)
    requires
        lex_le(a, b),
        lex_le(b, c),
    ensures
        lex_le(a, c),
{
    if a != b && b != c {
        crate::lex::lemma_lex_transitive(a, b, c);
    }
}

/// Where a tool named `name` goes in a list sorted by name: after the last tool whose name is
/// not greater.
pub open spec fn insert_pos(vs: Seq<ToolView>, name: Seq<char>) -> int
    decreases vs.len(),
{
    if vs.len() == 0 {
        0
    } else if lex_le(vs.last().name, name) {
        vs.len() as int
    } else {
        insert_pos(vs.drop_last(), name)
    }
}

/// The tools sorted by name, stably: tools of equal names keep their order.
pub open spec fn stable_sorted(vs: Seq<ToolView>) -> Seq<ToolView>
    decreases vs.len(),
{
    if vs.len() == 0 {
        Seq::empty()
    } else {
        let r = stable_sorted(vs.drop_last());
        r.insert(insert_pos(r, vs.last().name), vs.last())
    }
}

proof fn lemma_insert_pos_bounds(vs: Seq<ToolView>, name: Seq<char>)
    ensures
        0 <= insert_pos(vs, name) <= vs.len(),
    decreases vs.len(),
{
    if vs.len() > 0 {
        lemma_insert_pos_bounds(vs.drop_last(), name);
    }
}

proof fn lemma_insert_pos(vs: Seq<ToolView>, name: Seq<char>, i: int)
    requires
        0 <= i <= vs.len(),
        forall|k: int| i <= k < vs.len() ==> lex_lt(name, #[trigger] vs[k].name),
        i > 0 ==> lex_le(vs[i - 1].name, name),
    ensures
        insert_pos(vs, name) == i,
    decreases vs.len(),
{
    if vs.len() > i {
        let last = vs.last().name;
        assert(lex_lt(name, vs[vs.len() - 1].name));
        if last == name {
            crate::lex::lemma_lex_irreflexive(name);
        } else if lex_lt(last, name) {
            crate::lex::lemma_lex_asymmetric(name, last);
        }
        assert(!lex_le(last, name));
        let d = vs.drop_last();
        assert forall|k: int| i <= k < d.len() implies lex_lt(name, #[trigger] d[k].name) by {
            assert(d[k] == vs[k]);
        }
        if i > 0 {
            assert(d[i - 1] == vs[i - 1]);
        }
        lemma_insert_pos(d, name, i);
    }
}

/// Inserts a tool after every tool whose name is not greater.
fn insert_by_name(tools: &mut Vec<ToolDescriptor>, tool: ToolDescriptor)
    requires
        sorted_names(tool_names(old(tools)@)),
    ensures
        sorted_names(tool_names(final(tools)@)),
        tool_names(final(tools)@).to_multiset() == tool_names(old(tools)@).to_multiset().insert(tool.name@),
        exists|p: int| 0 <= p <= old(tools)@.len() && final(tools)@ == old(tools)@.insert(p, tool),
        final(tools)@ == old(tools)@.insert(insert_pos(tool_views(old(tools)@), tool.name@), tool),
{
    broadcast use vstd::seq_lib::group_to_multiset_ensures;
    let ghost before = tool_names(tools@);
    let ghost name = tool.name@;
    let mut i: usize = tools.len();
    while i > 0
        invariant
            i <= tools@.len(),
            tools@ == old(tools)@,
            before == tool_names(tools@),
            name == tool.name@,
            sorted_names(before),
            forall|k: int| i <= k < before.len() ==> lex_lt(name, #[trigger] before[k]),
        ensures
            i <= tools@.len(),
            tools@ == old(tools)@,
            forall|k: int| i <= k < before.len() ==> lex_lt(name, #[trigger] before[k]),
            i > 0 ==> lex_le(before[i - 1], name),
        decreases i,
    {
        let r = lex_compare(tools[i - 1].name.as_str(), tool.name.as_str());
        if r != 1 {
            break;
        }
        i = i - 1;
    }
    proof {
        assert forall|k: int| 0 <= k < i implies lex_le(#[trigger] before[k], name) by {
            if k < i - 1 {
                lemma_le_trans(before[k], before[i - 1], name);
            }
        }
    }
    proof {
        let vs = tool_views(tools@);
        assert forall|k: int| i <= k < vs.len() implies lex_lt(name, #[trigger] vs[k].name) by {
            assert(vs[k].name == before[k]);
        }
        if i > 0 {
            assert(vs[i - 1].name == before[i - 1]);
        }
        lemma_insert_pos(vs, name, i as int);
    }
    let ghost old_tools = tools@;
    tools.insert(i, tool);
    proof {
        let after = tool_names(tools@);
        assert(after =~= before.insert(i as int, name));
        assert forall|a: int, b: int| 0 <= a < b < after.len() implies lex_le(#[trigger] after[a], #[trigger] after[b]) by {
            if a < i && b > i {
                lemma_le_trans(after[a], name, after[b]);
            } else if a == i && b > i {
            } else if a < i && b == i {
            } else if a > i {
                assert(after[a] == before[a - 1] && after[b] == before[b - 1]);
            } else {
                assert(after[a] == before[a] && after[b] == before[b]);
            }
        }
        assert(after.remove(i as int) =~= before);
        assert(after[i as int] == name);
        assert(after.to_multiset() =~= before.to_multiset().insert(name)) by {
            assert(after.contains(name));
            assert(after.to_multiset().count(name) > 0);
        }
        assert(tools@ == old_tools.insert(i as int, tool));
    }
}

/// Views of tools.
pub open spec fn tool_views(v: Seq<ToolDescriptor>) -> Seq<ToolView> {
    v.map_values(|t: ToolDescriptor| tool_view(t))
}

/// The registered tools among the first `n` that pass the plan's filter, in order.
pub open spec fn kept_tools(
    registered: Seq<ToolDescriptor>,
    profile_allows: Seq<bool>,
    plan_mode: bool,
    run_allowlist: Option<Seq<Seq<char>>>,
    disabled: Seq<Seq<char>>,
    n: int,
) -> Seq<ToolView>
    decreases n,
{
    if n <= 0 || n > registered.len() {
        Seq::empty()
    } else {
        let rest = kept_tools(registered, profile_allows, plan_mode, run_allowlist, disabled, n - 1);
        let t = registered[n - 1];
        if plan_keeps(t.name@, t.effect, profile_allows[n - 1], plan_mode, run_allowlist, disabled) {
            rest.push(tool_view(t))
        } else {
            rest
        }
    }
}

/// A tool in a plan's canonical form: an object of its descriptor's fields, keys in order.
pub open spec fn tool_json(t: ToolView) -> JsonView {
    JsonView::Object(
        seq![
            ("description"@, JsonView::Str(t.description)),
            ("effect"@, JsonView::Str(crate::security::effect_name(t.effect))),
            ("inputSchema"@, t.input_schema),
            ("name"@, JsonView::Str(t.name)),
            ("parallelSafe"@, JsonView::Bool(t.parallel_safe)),
            ("requiredScopes"@, JsonView::Array(t.required_scopes.map_values(|c: Seq<char>| JsonView::Str(c)))),
        ],
    )
}

/// The canonical form a plan is hashed in: the entry profile, workload and behaviour mode by
/// name, the provider's tool-call and strict-schema flags, and the plan's full descriptors.
pub open spec fn plan_json(
    entry_profile: EntryProfile,
    workload: WorkloadKind,
    mode: BehaviorMode,
    tool_calls: bool,
    strict_json_schema: bool,
    tools: Seq<ToolView>,
) -> JsonView {
    JsonView::Array(
        seq![
            JsonView::Str(crate::profiles::entry_profile_name(entry_profile)),
            JsonView::Str(crate::profiles::workload_name(workload)),
            JsonView::Str(crate::profiles::mode_name(mode)),
            JsonView::Bool(tool_calls),
            JsonView::Bool(strict_json_schema),
            JsonView::Array(tools.map_values(|t: ToolView| tool_json(t))),
        ],
    )
}

/// The hash of a plan: SHA-256, in lowercase hexadecimal, of its canonical JSON.
pub open spec fn plan_hash_of(
    entry_profile: EntryProfile,
    workload: WorkloadKind,
    mode: BehaviorMode,
    tool_calls: bool,
    strict_json_schema: bool,
    tools: Seq<ToolView>,
) -> Seq<char> {
    crate::digest::hex_lower(
        crate::digest::sha256_text(json_print(plan_json(entry_profile, workload, mode, tool_calls, strict_json_schema, tools))),
    )
}

fn tool_value(t: &ToolDescriptor) -> (out: JsonValue)
    ensures
        json_view(out) == tool_json(tool_view(*t)),
{
    let scopes = str_list_value(&t.required_scopes);
    let members = vec![
        crate::json::json_member("description", crate::json::json_str(t.description.as_str())),
        crate::json::json_member("effect", crate::json::json_str(crate::security::effect_label(t.effect))),
        crate::json::json_member("inputSchema", crate::json::clone_json(&t.input_schema)),
        crate::json::json_member("name", crate::json::json_str(t.name.as_str())),
        crate::json::json_member("parallelSafe", JsonValue::Bool(t.parallel_safe)),
        crate::json::json_member("requiredScopes", scopes),
    ];
    let ghost ms = members@;
    let item = crate::json::json_object(members);
    assert(t.required_scopes@.map_values(|s: String| JsonView::Str(s@)) =~= strs(t.required_scopes@).map_values(
        |c: Seq<char>| JsonView::Str(c),
    ));
    assert(crate::json::member_views(ms) =~= tool_json(tool_view(*t))->Object_0);
    item
}

fn plan_hash(
    entry_profile: EntryProfile,
    workload: WorkloadKind,
    mode: BehaviorMode,
    tool_calls: bool,
    strict_json_schema: bool,
    tools: &Vec<ToolDescriptor>,
) -> (out: String)
    ensures
        out@ == plan_hash_of(entry_profile, workload, mode, tool_calls, strict_json_schema, tool_views(tools@)),
{
    let mut items: Vec<JsonValue> = Vec::new();
    let mut i: usize = 0;
    while i < tools.len()
        invariant
            i <= tools@.len(),
            crate::json::value_views(items@) == plan_json(
                entry_profile,
                workload,
                mode,
                tool_calls,
                strict_json_schema,
                tool_views(tools@),
            )->Array_0[5]->Array_0.take(i as int),
        decreases tools@.len() - i,
    {
        let item = tool_value(&tools[i]);
        let ghost before = items@;
        items.push(item);
        assert(crate::json::value_views(items@) =~= crate::json::value_views(before).push(crate::json::json_view(item)));
        i = i + 1;
    }
    let ghost tv = plan_json(entry_profile, workload, mode, tool_calls, strict_json_schema, tool_views(tools@))->Array_0[5]
        ->Array_0;
    assert(tv.take(i as int) =~= tv);
    let list = crate::json::json_array(items);
    let top = vec![
        crate::json::json_str(crate::profiles::entry_profile_label(entry_profile)),
        crate::json::json_str(crate::profiles::workload_label(workload)),
        crate::json::json_str(crate::profiles::mode_label(mode)),
        JsonValue::Bool(tool_calls),
        JsonValue::Bool(strict_json_schema),
        list,
    ];
    let ghost ts = top@;
    let value = crate::json::json_array(top);
    assert(crate::json::value_views(ts) =~= plan_json(
        entry_profile,
        workload,
        mode,
        tool_calls,
        strict_json_schema,
        tool_views(tools@),
    )->Array_0);
    let text = print_json(&value);
    canonical_hash(text.as_str())
}

impl ToolPlan {
    /// The plan of a step: the registered tools that pass the plan's filter (Plan mode keeps
    /// only read-only tools, each judged by its own effect), sorted by name; none when the
    /// provider cannot call tools; and the hash of its canonical form. `profile_allows[i]`
    /// says whether the entry profile and workload allow the `i`-th registered tool.
    pub fn build(
        entry_profile: EntryProfile,
        workload: WorkloadKind,
        mode: BehaviorMode,
        tool_calls: bool,
        strict_json_schema: bool,
        registered: Vec<ToolDescriptor>,
        profile_allows: &Vec<bool>,
        run_allowlist: Option<&Vec<String>>,
        disabled_tool_names: &Vec<String>,
    ) -> (out: ToolPlan)
        requires
            profile_allows@.len() == registered@.len(),
        ensures
            sorted_names(tool_names(out.tools@)),
            !tool_calls ==> out.tools@.len() == 0,
            tool_calls ==> tool_views(out.tools@).to_multiset() == kept_tools(
                registered@,
                profile_allows@,
                mode == BehaviorMode::Plan,
                match run_allowlist {
                    Some(l) => Some(strs(l@)),
                    None => None,
                },
                strs(disabled_tool_names@),
                registered@.len() as int,
            ).to_multiset(),
            forall|k: int| 0 <= k < out.tools@.len() ==> registered_tool(#[trigger] out.tools@[k], registered@),
            tool_calls ==> tool_views(out.tools@) == stable_sorted(
                kept_tools(
                    registered@,
                    profile_allows@,
                    mode == BehaviorMode::Plan,
                    match run_allowlist {
                        Some(l) => Some(strs(l@)),
                        None => None,
                    },
                    strs(disabled_tool_names@),
                    registered@.len() as int,
                ),
            ),
            out.hash@ == plan_hash_of(entry_profile, workload, mode, tool_calls, strict_json_schema, tool_views(out.tools@)),
    {
        let tools = Self::select_tools(
            mode == BehaviorMode::Plan,
            tool_calls,
            registered,
            profile_allows,
            run_allowlist,
            disabled_tool_names,
        );
        let hash = plan_hash(entry_profile, workload, mode, tool_calls, strict_json_schema, &tools);
        ToolPlan { hash, tools }
    }

    fn select_tools(
        plan_mode: bool,
        provider_tool_calls: bool,
        registered: Vec<ToolDescriptor>,
        profile_allows: &Vec<bool>,
        run_allowlist: Option<&Vec<String>>,
        disabled_tool_names: &Vec<String>,
    ) -> (out: Vec<ToolDescriptor>)
        requires
            profile_allows@.len() == registered@.len(),
        ensures
            sorted_names(tool_names(out@)),
            !provider_tool_calls ==> out@.len() == 0,
            provider_tool_calls ==> tool_views(out@).to_multiset() == kept_tools(
                registered@,
                profile_allows@,
                plan_mode,
                match run_allowlist {
                    Some(l) => Some(strs(l@)),
                    None => None,
                },
                strs(disabled_tool_names@),
                registered@.len() as int,
            ).to_multiset(),
            forall|k: int| 0 <= k < out@.len() ==> registered_tool(#[trigger] out@[k], registered@),
            provider_tool_calls ==> tool_views(out@) == stable_sorted(
                kept_tools(
                    registered@,
                    profile_allows@,
                    plan_mode,
                    match run_allowlist {
                        Some(l) => Some(strs(l@)),
                        None => None,
                    },
                    strs(disabled_tool_names@),
                    registered@.len() as int,
                ),
            ),
    {
        let ghost allow = match run_allowlist {
            Some(l) => Some(strs(l@)),
            None => None,
        };
        let mut out: Vec<ToolDescriptor> = Vec::new();
        if !provider_tool_calls {
            return out;
        }
        broadcast use vstd::seq_lib::group_to_multiset_ensures;
        let ghost reg = registered@;
        let n = registered.len();
        let mut i: usize = 0;
        assert(tool_views(out@) =~= kept_tools(reg, profile_allows@, plan_mode, allow, strs(disabled_tool_names@), 0));
        for tool in it: registered.into_iter()
            invariant
                it.seq() == reg,
                reg.len() == n,
                profile_allows@.len() == reg.len(),
                allow == match run_allowlist {
                    Some(l) => Some(strs(l@)),
                    None => None,
                },
                i == it.index(),
                sorted_names(tool_names(out@)),
                tool_views(out@).to_multiset() == kept_tools(reg, profile_allows@, plan_mode, allow, strs(disabled_tool_names@), i as int).to_multiset(),
                forall|k: int| 0 <= k < out@.len() ==> registered_tool(#[trigger] out@[k], reg),
                tool_views(out@) == stable_sorted(kept_tools(reg, profile_allows@, plan_mode, allow, strs(disabled_tool_names@), i as int)),
        {
            let listed = match run_allowlist {
                Some(l) => contains_string(l, &tool.name),
                None => true,
            };
            let keep = profile_allows[i] && (!plan_mode || tool.effect == ToolEffect::ReadOnly) && listed
                && !contains_string(disabled_tool_names, &tool.name);
            let ghost before = out@;
            let ghost t = tool;
            if keep {
                insert_by_name(&mut out, tool);
            }
            proof {
                assert(t == reg[i as int]);
                if keep {
                    let p = choose|p: int| 0 <= p <= before.len() && out@ == before.insert(p, t);
                    assert forall|k: int| 0 <= k < out@.len() implies registered_tool(#[trigger] out@[k], reg) by {
                        if k < p {
                            assert(out@[k] == before[k]);
                            assert(registered_tool(before[k], reg));
                        } else if k == p {
                            assert(out@[k] == reg[i as int]);
                        } else {
                            assert(out@[k] == before[k - 1]);
                            assert(registered_tool(before[k - 1], reg));
                        }
                    }
                    assert(tool_views(out@) =~= tool_views(before).insert(p, tool_view(t)));
                    vstd::seq_lib::to_multiset_insert(tool_views(before), p, tool_view(t));
                    let kept_i = kept_tools(reg, profile_allows@, plan_mode, allow, strs(disabled_tool_names@), i as int);
                    kept_i.to_multiset_ensures();
                    assert(kept_i.push(tool_view(t)).to_multiset() =~= kept_i.to_multiset().insert(tool_view(t)));
                    let sorted_i = stable_sorted(kept_i);
                    assert(kept_i.push(tool_view(t)).drop_last() =~= kept_i);
                    assert(tool_views(before) == sorted_i);
                    assert(out@ == before.insert(insert_pos(sorted_i, t.name@), t));
                    let q = insert_pos(sorted_i, t.name@);
                    let lhs = tool_views(out@);
                    let rhs = sorted_i.insert(q, tool_view(t));
                    assert(0 <= q <= sorted_i.len()) by {
                        lemma_insert_pos_bounds(sorted_i, t.name@);
                    }
                    assert(lhs.len() == rhs.len());
                    assert forall|k: int| 0 <= k < lhs.len() implies lhs[k] == rhs[k] by {
                        assert(lhs[k] == tool_view(out@[k]));
                        if k < q {
                            assert(out@[k] == before[k]);
                        } else if k > q {
                            assert(out@[k] == before[k - 1]);
                        }
                    }
                    assert(lhs =~= rhs);
                    assert(stable_sorted(kept_i.push(tool_view(t))) == sorted_i.insert(
                        insert_pos(sorted_i, tool_view(t).name),
                        tool_view(t),
                    ));
                }
                assert(kept_tools(reg, profile_allows@, plan_mode, allow, strs(disabled_tool_names@), i + 1) == if keep {
                    kept_tools(reg, profile_allows@, plan_mode, allow, strs(disabled_tool_names@), i as int).push(tool_view(t))
                } else {
                    kept_tools(reg, profile_allows@, plan_mode, allow, strs(disabled_tool_names@), i as int)
                });
            }
            i = i + 1;
        }
        out
    }
}

proof fn lemma_plan_mode_keeps_read_only(
    registered: Seq<ToolDescriptor>,
    profile_allows: Seq<bool>,
    run_allowlist: Option<Seq<Seq<char>>>,
    disabled: Seq<Seq<char>>,
    n: int,
)
    ensures
        forall|i: int|
            0 <= i < kept_tools(registered, profile_allows, true, run_allowlist, disabled, n).len() ==> (#[trigger] kept_tools(
                registered,
                profile_allows,
                true,
                run_allowlist,
                disabled,
                n,
            )[i]).effect == ToolEffect::ReadOnly,
    decreases n,
{
    if n > 0 && n <= registered.len() {
        lemma_plan_mode_keeps_read_only(registered, profile_allows, run_allowlist, disabled, n - 1);
    }
}

/// A Plan-mode plan offers only read-only tools: every tool whose view is among those the
/// plan's filter keeps has the read-only effect.
pub proof fn plan_mode_offers_only_read_only_tools(
    registered: Seq<ToolDescriptor>,
    profile_allows: Seq<bool>,
    run_allowlist: Option<Seq<Seq<char>>>,
    disabled: Seq<Seq<char>>,
    tools: Seq<ToolDescriptor>,
)
    requires
        tool_views(tools).to_multiset() == kept_tools(
            registered,
            profile_allows,
            true,
            run_allowlist,
            disabled,
            registered.len() as int,
        ).to_multiset(),
    ensures
        forall|k: int| 0 <= k < tools.len() ==> (#[trigger] tools[k]).effect == ToolEffect::ReadOnly,
{
    broadcast use vstd::seq_lib::group_to_multiset_ensures;
    let kept = kept_tools(registered, profile_allows, true, run_allowlist, disabled, registered.len() as int);
    lemma_plan_mode_keeps_read_only(registered, profile_allows, run_allowlist, disabled, registered.len() as int);
    assert forall|k: int| 0 <= k < tools.len() implies (#[trigger] tools[k]).effect == ToolEffect::ReadOnly by {
        let v = tool_view(tools[k]);
        assert(tool_views(tools)[k] == v);
        assert(tool_views(tools).contains(v));
        assert(kept.to_multiset().count(v) > 0);
        assert(kept.contains(v));
        let i = choose|i: int| 0 <= i < kept.len() && kept[i] == v;
        assert(kept[i].effect == ToolEffect::ReadOnly);
    }
}

/// Building a plan is deterministic: plans built from the same registered tools, filter,
/// provider flags and profile offer the same tools, in the same order, under the same hash.
pub proof fn tool_plans_are_deterministic(
    entry_profile: EntryProfile,
    workload: WorkloadKind,
    mode: BehaviorMode,
    strict_json_schema: bool,
    registered: Seq<ToolDescriptor>,
    profile_allows: Seq<bool>,
    run_allowlist: Option<Seq<Seq<char>>>,
    disabled: Seq<Seq<char>>,
    first: Seq<ToolDescriptor>,
    second: Seq<ToolDescriptor>,
)
    requires
        tool_views(first) == stable_sorted(
            kept_tools(registered, profile_allows, mode == BehaviorMode::Plan, run_allowlist, disabled, registered.len() as int),
        ),
        tool_views(second) == stable_sorted(
            kept_tools(registered, profile_allows, mode == BehaviorMode::Plan, run_allowlist, disabled, registered.len() as int),
        ),
    ensures
        tool_views(first) == tool_views(second),
        tool_names(first) == tool_names(second),
        plan_hash_of(entry_profile, workload, mode, true, strict_json_schema, tool_views(first)) == plan_hash_of(
            entry_profile,
            workload,
            mode,
            true,
            strict_json_schema,
            tool_views(second),
        ),
{
    assert(tool_views(first).len() == first.len() && tool_views(second).len() == second.len());
    assert(tool_names(first).len() == tool_names(second).len());
    assert forall|k: int| 0 <= k < tool_names(first).len() implies tool_names(first)[k] == tool_names(second)[k] by {
        assert(tool_views(first)[k] == tool_view(first[k]));
        assert(tool_views(second)[k] == tool_view(second[k]));
        assert(tool_views(first)[k].name == tool_views(second)[k].name);
    }
    assert(tool_names(first) =~= tool_names(second));
}

/// The tool is one of the registered ones.
pub open spec fn registered_tool(tool: ToolDescriptor, registered: Seq<ToolDescriptor>) -> bool {
    exists|t: int| 0 <= t < registered.len() && tool == registered[t]
}

impl ToolPlan {
    /// Whether the plan offers a tool named `name`.
    pub fn allows(&self, name: &str) -> (b: bool)
        ensures
            b == tool_names(self.tools@).contains(name@),
    {
        let mut i: usize = 0;
        while i < self.tools.len()
            invariant
                i <= self.tools@.len(),
                forall|k: int| 0 <= k < i ==> tool_names(self.tools@)[k] != name@,
            decreases self.tools@.len() - i,
        {
            if str_eq(self.tools[i].name.as_str(), name) {
                assert(tool_names(self.tools@)[i as int] == name@);
                return true;
            }
            i = i + 1;
        }
        false
    }
}

/// The hash of a plan or a step context: the SHA-256 digest, in lowercase hexadecimal, of its
/// canonical serialization.
pub fn canonical_hash(serialized: &str) -> (out: String)
    ensures
        out@ == crate::digest::hex_lower(crate::digest::sha256_text(serialized@)),
{
    crate::digest::sha256_hex(serialized)
}

/// What identifies a step context: the Run and step, the registry and profile, the world's
/// revisions, the disabled tools and diagnostics, and the tool plan's hash.
#[derive(Debug)]
pub struct StepContextIdentity {
    pub session_id: String,
    pub run_id: String,
    pub run_generation: u64,
    pub step_revision: u64,
    pub registry_revision: String,
    pub entry_profile: EntryProfile,
    pub workload: WorkloadKind,
    pub behavior_mode: BehaviorMode,
    pub tool_plan_hash: String,
}

pub open spec fn num(n: u64) -> JsonView {
    JsonView::Number(crate::text::decimal(n as nat))
}

pub open spec fn str_list(v: Seq<String>) -> JsonView {
    JsonView::Array(v.map_values(|s: String| JsonView::Str(s@)))
}

/// The canonical form a step context is hashed in, grouped as four arrays.
pub open spec fn context_json(id: StepContextIdentity, world: StepWorldState) -> JsonView {
    JsonView::Array(
        seq![
            JsonView::Array(seq![JsonView::Str(id.session_id@), JsonView::Str(id.run_id@), num(id.run_generation), num(id.step_revision)]),
            JsonView::Array(
                seq![
                    JsonView::Str(id.registry_revision@),
                    JsonView::Str(crate::profiles::entry_profile_name(id.entry_profile)),
                    JsonView::Str(crate::profiles::workload_name(id.workload)),
                    JsonView::Str(crate::profiles::mode_name(id.behavior_mode)),
                ],
            ),
            JsonView::Array(
                seq![
                    num(world.context_revision),
                    num(world.profile_revision),
                    JsonView::Str(world.agents_revision@),
                    JsonView::Str(world.skills_revision@),
                    JsonView::Str(world.mcp_revision@),
                    JsonView::Str(world.host_revision@),
                ],
            ),
            JsonView::Array(seq![str_list(world.disabled_tool_names@), str_list(world.diagnostics@), JsonView::Str(id.tool_plan_hash@)]),
        ],
    )
}

fn str_list_value(v: &Vec<String>) -> (out: JsonValue)
    ensures
        json_view(out) == str_list(v@),
{
    let mut items: Vec<JsonValue> = Vec::new();
    let mut i: usize = 0;
    while i < v.len()
        invariant
            i <= v@.len(),
            crate::json::value_views(items@) == v@.take(i as int).map_values(|s: String| JsonView::Str(s@)),
        decreases v@.len() - i,
    {
        let ghost before = items@;
        items.push(crate::json::json_str(v[i].as_str()));
        assert(crate::json::value_views(items@) =~= crate::json::value_views(before).push(JsonView::Str(v@[i as int]@)));
        assert(v@.take(i + 1).map_values(|s: String| JsonView::Str(s@)) =~= v@.take(i as int).map_values(
            |s: String| JsonView::Str(s@),
        ).push(JsonView::Str(v@[i as int]@)));
        i = i + 1;
    }
    assert(v@.take(i as int) =~= v@);
    crate::json::json_array(items)
}

fn num_value(n: u64) -> (out: JsonValue)
    ensures
        json_view(out) == num(n),
{
    JsonValue::Number(crate::text::decimal_string(n))
}

/// The hash of a step context: SHA-256, in lowercase hexadecimal, of its canonical JSON. Two
/// captures with the same identity and world hash alike, whatever started the Run.
pub fn context_hash(id: &StepContextIdentity, world: &StepWorldState) -> (out: String)
    ensures
        out@ == crate::digest::hex_lower(crate::digest::sha256_text(json_print(context_json(*id, *world)))),
{
    let g1 = vec![
        crate::json::json_str(id.session_id.as_str()),
        crate::json::json_str(id.run_id.as_str()),
        num_value(id.run_generation),
        num_value(id.step_revision),
    ];
    let ghost v1 = g1@;
    let a1 = crate::json::json_array(g1);
    let g2 = vec![
        crate::json::json_str(id.registry_revision.as_str()),
        crate::json::json_str(crate::profiles::entry_profile_label(id.entry_profile)),
        crate::json::json_str(crate::profiles::workload_label(id.workload)),
        crate::json::json_str(crate::profiles::mode_label(id.behavior_mode)),
    ];
    let ghost v2 = g2@;
    let a2 = crate::json::json_array(g2);
    let g3 = vec![
        num_value(world.context_revision),
        num_value(world.profile_revision),
        crate::json::json_str(world.agents_revision.as_str()),
        crate::json::json_str(world.skills_revision.as_str()),
        crate::json::json_str(world.mcp_revision.as_str()),
        crate::json::json_str(world.host_revision.as_str()),
    ];
    let ghost v3 = g3@;
    let a3 = crate::json::json_array(g3);
    let g4 = vec![
        str_list_value(&world.disabled_tool_names),
        str_list_value(&world.diagnostics),
        crate::json::json_str(id.tool_plan_hash.as_str()),
    ];
    let ghost v4 = g4@;
    let a4 = crate::json::json_array(g4);
    let ghost cj = context_json(*id, *world);
    assert(crate::json::value_views(v1) =~= cj->Array_0[0]->Array_0);
    assert(crate::json::value_views(v2) =~= cj->Array_0[1]->Array_0);
    assert(crate::json::value_views(v3) =~= cj->Array_0[2]->Array_0);
    assert(crate::json::value_views(v4) =~= cj->Array_0[3]->Array_0);
    let ghost w1 = json_view(a1);
    let ghost w2 = json_view(a2);
    let ghost w3 = json_view(a3);
    let ghost w4 = json_view(a4);
    let top = vec![a1, a2, a3, a4];
    let ghost vt = top@;
    let value = crate::json::json_array(top);
    assert(crate::json::value_views(vt) =~= seq![w1, w2, w3, w4]);
    assert(crate::json::value_views(vt) =~= cj->Array_0);
    let text = print_json(&value);
    canonical_hash(text.as_str())
}

// ---------------------------------------------------------------------------------------------
// Skill activation
// ---------------------------------------------------------------------------------------------

/// Activations ordered by Skill id (lexicographically, not decreasing).
pub open spec fn ids_sorted(s: Seq<(Seq<char>, Seq<char>)>) -> bool {
    forall|i: int, j: int| 0 <= i < j < s.len() ==> !lex_lt(#[trigger] s[j].0, #[trigger] s[i].0)
}

/// The activations of one Skill, in their order.
pub open spec fn with_id(s: Seq<(Seq<char>, Seq<char>)>, id: Seq<char>) -> Seq<(Seq<char>, Seq<char>)> {
    s.filter(|p: (Seq<char>, Seq<char>)| p.0 == id)
}

/// `out` is `input` sorted by Skill id, activations of one Skill keeping their order.
pub open spec fn stably_sorted_by_id(out: Seq<(Seq<char>, Seq<char>)>, input: Seq<(Seq<char>, Seq<char>)>) -> bool {
    &&& ids_sorted(out)
    &&& forall|id: Seq<char>| #[trigger] with_id(out, id) == with_id(input, id)
}

proof fn lemma_no_such_id(s: Seq<(Seq<char>, Seq<char>)>, id: Seq<char>)
    requires
        forall|i: int| 0 <= i < s.len() ==> (#[trigger] s[i]).0 != id,
    ensures
        with_id(s, id) == Seq::<(Seq<char>, Seq<char>)>::empty(),
    decreases s.len(),
{
    reveal(Seq::filter);
    if s.len() > 0 {
        lemma_no_such_id(s.drop_last(), id);
    }
    assert(with_id(s, id) =~= Seq::<(Seq<char>, Seq<char>)>::empty());
}

fn copy_activation(a: &SkillActivation) -> (out: SkillActivation)
    ensures
        out.skill_id@ == a.skill_id@,
        out.content_revision@ == a.content_revision@,
{
    SkillActivation { skill_id: a.skill_id.clone(), content_revision: a.content_revision.clone() }
}

/// Inserts an activation after every activation whose Skill id is not greater.
fn insert_by_id(out: &mut Vec<SkillActivation>, x: SkillActivation)
    requires
        ids_sorted(activation_views(old(out)@)),
    ensures
        ids_sorted(activation_views(final(out)@)),
        forall|id: Seq<char>| #[trigger] with_id(activation_views(final(out)@), id) == if x.skill_id@ == id {
            with_id(activation_views(old(out)@), id).push((x.skill_id@, x.content_revision@))
        } else {
            with_id(activation_views(old(out)@), id)
        },
{
    let ghost before = activation_views(out@);
    let ghost xv = (x.skill_id@, x.content_revision@);
    let mut i: usize = out.len();
    while i > 0
        invariant
            i <= out@.len(),
            out@ == old(out)@,
            before == activation_views(out@),
            xv == (x.skill_id@, x.content_revision@),
            ids_sorted(before),
            forall|k: int| i <= k < before.len() ==> lex_lt(xv.0, #[trigger] before[k].0),
        ensures
            i <= out@.len(),
            out@ == old(out)@,
            forall|k: int| i <= k < before.len() ==> lex_lt(xv.0, #[trigger] before[k].0),
            i > 0 ==> !lex_lt(xv.0, before[i - 1].0),
        decreases i,
    {
        let r = lex_compare(out[i - 1].skill_id.as_str(), x.skill_id.as_str());
        if r != 1 {
            break;
        }
        i = i - 1;
    }
    proof {
        assert forall|k: int| 0 <= k < i implies !lex_lt(xv.0, #[trigger] before[k].0) by {
            if k < i - 1 && lex_lt(xv.0, before[k].0) {
                crate::lex::lemma_lex_total(before[k].0, before[i - 1].0);
                if before[k].0 != before[i - 1].0 {
                    crate::lex::lemma_lex_asymmetric(xv.0, before[k].0);
                    crate::lex::lemma_lex_total(xv.0, before[k].0);
                    crate::lex::lemma_lex_transitive(xv.0, before[k].0, before[i - 1].0);
                }
            }
        }
    }
    out.insert(i, x);
    proof {
        let after = activation_views(out@);
        assert(after =~= before.insert(i as int, xv));
        assert forall|a: int, b: int| 0 <= a < b < after.len() implies !lex_lt(#[trigger] after[b].0, #[trigger] after[a].0) by {
            if a < i && b > i {
                assert(after[a] == before[a] && after[b] == before[b - 1]);
                if lex_lt(after[b].0, after[a].0) {
                    crate::lex::lemma_lex_transitive(xv.0, after[b].0, after[a].0);
                }
            } else if a == i && b > i {
                assert(after[b] == before[b - 1]);
                crate::lex::lemma_lex_asymmetric(xv.0, after[b].0);
            } else if a < i && b == i {
                assert(after[a] == before[a]);
            } else if a > i {
                assert(after[a] == before[a - 1] && after[b] == before[b - 1]);
            } else {
                assert(after[a] == before[a] && after[b] == before[b]);
            }
        }
        let head = before.take(i as int);
        let tail = before.skip(i as int);
        assert(before =~= head + tail);
        assert(after =~= head + seq![xv] + tail);
        assert forall|id: Seq<char>| #[trigger] with_id(after, id) == if xv.0 == id {
            with_id(before, id).push(xv)
        } else {
            with_id(before, id)
        } by {
            let pred = |p: (Seq<char>, Seq<char>)| p.0 == id;
            Seq::filter_distributes_over_add(head + seq![xv], tail, pred);
            Seq::filter_distributes_over_add(head, seq![xv], pred);
            Seq::filter_distributes_over_add(head, tail, pred);
            head.lemma_filter_push(xv, pred);
            assert(head + seq![xv] =~= head.push(xv));
            if xv.0 == id {
                assert forall|k: int| 0 <= k < tail.len() implies (#[trigger] tail[k]).0 != id by {
                    assert(tail[k] == before[i + k]);
                    crate::lex::lemma_lex_irreflexive(xv.0);
                }
                lemma_no_such_id(tail, id);
                assert(with_id(after, id) =~= with_id(head, id).push(xv));
                assert(with_id(before, id) =~= with_id(head, id));
            } else {
                reveal(Seq::filter);
                assert(seq![xv].filter(pred) =~= Seq::<(Seq<char>, Seq<char>)>::empty());
                assert(with_id(after, id) =~= with_id(head, id) + with_id(tail, id));
            }
        }
    }
}

/// The activations sorted by Skill id; activations of one Skill keep their order.
fn sort_by_skill_id(v: &Vec<SkillActivation>) -> (out: Vec<SkillActivation>)
    ensures
        stably_sorted_by_id(activation_views(out@), activation_views(v@)),
{
    let ghost input = activation_views(v@);
    let mut out: Vec<SkillActivation> = Vec::new();
    let mut i: usize = 0;
    while i < v.len()
        invariant
            i <= v@.len(),
            input == activation_views(v@),
            ids_sorted(activation_views(out@)),
            forall|id: Seq<char>| #[trigger] with_id(activation_views(out@), id) == with_id(input.take(i as int), id),
        decreases v@.len() - i,
    {
        let a = copy_activation(&v[i]);
        let ghost prev = activation_views(out@);
        insert_by_id(&mut out, a);
        proof {
            assert(input.take(i + 1) =~= input.take(i as int).push(input[i as int]));
            assert forall|id: Seq<char>| #[trigger] with_id(activation_views(out@), id) == with_id(input.take(i + 1), id) by {
                input.take(i as int).lemma_filter_push(input[i as int], |p: (Seq<char>, Seq<char>)| p.0 == id);
                assert(with_id(prev, id) == with_id(input.take(i as int), id));
            }
        }
        i = i + 1;
    }
    assert(input.take(i as int) =~= input);
    out
}

/// The JSON an activation list is hashed as: an array of `{"skillId", "contentRevision"}`.
pub open spec fn activations_json(s: Seq<(Seq<char>, Seq<char>)>) -> JsonView {
    JsonView::Array(
        s.map_values(
            |p: (Seq<char>, Seq<char>)|
                JsonView::Object(seq![("skillId"@, JsonView::Str(p.0)), ("contentRevision"@, JsonView::Str(p.1))]),
        ),
    )
}

/// The revision of a Skill activation list.
pub open spec fn skills_revision_of(s: Seq<(Seq<char>, Seq<char>)>) -> Seq<char> {
    crate::digest::hex_lower(crate::digest::sha256_text(json_print(activations_json(s))))
}

fn activation_json(a: &SkillActivation) -> (out: JsonValue)
    ensures
        json_view(out) == JsonView::Object(
            seq![("skillId"@, JsonView::Str(a.skill_id@)), ("contentRevision"@, JsonView::Str(a.content_revision@))],
        ),
{
    let members = vec![
        ("skillId".to_owned(), JsonValue::String(a.skill_id.clone())),
        ("contentRevision".to_owned(), JsonValue::String(a.content_revision.clone())),
    ];
    proof {
        crate::budget::lemma_members_view(members@);
        assert(members_view(members@) =~= seq![
            ("skillId"@, JsonView::Str(a.skill_id@)),
            ("contentRevision"@, JsonView::Str(a.content_revision@)),
        ]);
    }
    JsonValue::Object(members)
}

fn skills_revision(v: &Vec<SkillActivation>) -> (out: String)
    ensures
        out@ == skills_revision_of(activation_views(v@)),
{
    let mut items: Vec<JsonValue> = Vec::new();
    let mut i: usize = 0;
    while i < v.len()
        invariant
            i <= v@.len(),
            items@.len() == i,
            forall|k: int| 0 <= k < i ==> json_view(#[trigger] items@[k]) == activations_json(activation_views(v@))->Array_0[k],
        decreases v@.len() - i,
    {
        items.push(activation_json(&v[i]));
        i = i + 1;
    }
    proof {
        crate::budget::lemma_items_view(items@);
        assert(items_view(items@) =~= activations_json(activation_views(v@))->Array_0);
    }
    let encoded = print_json(&JsonValue::Array(items));
    canonical_hash(encoded.as_str())
}

/// How a Run's workload was resolved.
#[derive(Debug)]
pub struct WorkloadResolution {
    pub workload: WorkloadKind,
    pub source: WorkloadResolutionSource,
    pub activated_skill_ids: Vec<String>,
    pub reason: String,
    pub classifier_revision: Option<String>,
}

/// The world and the workload a Run's next step starts from.
#[derive(Debug)]
pub struct StepRuntimeSnapshot {
    pub world: StepWorldState,
    pub workload: WorkloadResolution,
}

/// The activation is already there: same Skill, same content revision.
pub open spec fn already_active(s: Seq<(Seq<char>, Seq<char>)>, a: (Seq<char>, Seq<char>)) -> bool {
    exists|i: int| 0 <= i < s.len() && #[trigger] s[i] == a
}

fn is_active(v: &Vec<SkillActivation>, a: &SkillActivation) -> (b: bool)
    ensures
        b == already_active(activation_views(v@), (a.skill_id@, a.content_revision@)),
{
    let mut i: usize = 0;
    while i < v.len()
        invariant
            i <= v@.len(),
            forall|k: int| 0 <= k < i ==> activation_views(v@)[k] != (a.skill_id@, a.content_revision@),
        decreases v@.len() - i,
    {
        if str_eq(v[i].skill_id.as_str(), a.skill_id.as_str()) && str_eq(
            v[i].content_revision.as_str(),
            a.content_revision.as_str(),
        ) {
            assert(activation_views(v@)[i as int] == (a.skill_id@, a.content_revision@));
            return true;
        }
        i = i + 1;
    }
    false
}

/// Once a Skill is activated it is active: activating it again at the same content revision
/// changes nothing.
pub proof fn activated_skill_stays_active(
    after: Seq<(Seq<char>, Seq<char>)>,
    before: Seq<(Seq<char>, Seq<char>)>,
    added: (Seq<char>, Seq<char>),
)
    requires
        stably_sorted_by_id(after, before.push(added)),
    ensures
        already_active(after, added),
{
    let pred = |p: (Seq<char>, Seq<char>)| p.0 == added.0;
    before.lemma_filter_push(added, pred);
    assert(with_id(after, added.0) == with_id(before, added.0).push(added));
    let f = with_id(after, added.0);
    assert(f[f.len() - 1] == added);
    assert(after.filter(pred).contains(added));
    after.lemma_filter_contains_rev(pred, added);
    assert(after.contains(added));
    let i = choose|i: int| 0 <= i < after.len() && after[i] == added;
    assert(after[i] == added);
}

impl StepRuntimeSnapshot {
    /// Activates a Skill for the Run's next steps. A Skill already active at the same content
    /// revision changes nothing. Otherwise the activations, sorted by Skill id, gain it; the
    /// Skills revision is rehashed, the context revision advances, the profile revision
    /// advances when the workload changes, and the workload resolution is replaced.
    pub fn activate_skill(
        &mut self,
        activation: SkillActivation,
        source: WorkloadResolutionSource,
        workload: WorkloadKind,
        reason: String,
        classifier_revision: Option<String>,
    ) -> (activated: bool)
        ensures
            activated == !already_active(
                activation_views(old(self).world.skill_activations@),
                (activation.skill_id@, activation.content_revision@),
            ),
            !activated ==> *final(self) == *old(self),
            activated ==> {
                let acts = activation_views(final(self).world.skill_activations@);
                &&& stably_sorted_by_id(
                    acts,
                    activation_views(old(self).world.skill_activations@).push(
                        (activation.skill_id@, activation.content_revision@),
                    ),
                )
                &&& final(self).world.skills_revision@ == skills_revision_of(acts)
                &&& final(self).world.context_revision == sat_next(old(self).world.context_revision)
                &&& final(self).world.profile_revision == if old(self).workload.workload != workload {
                    sat_next(old(self).world.profile_revision)
                } else {
                    old(self).world.profile_revision
                }
                &&& final(self).workload.workload == workload
                &&& final(self).workload.source == source
                &&& strs(final(self).workload.activated_skill_ids@) == acts.map_values(
                    |p: (Seq<char>, Seq<char>)| p.0,
                )
                &&& final(self).workload.reason == reason
                &&& final(self).workload.classifier_revision == classifier_revision
                &&& final(self).world.agents_revision == old(self).world.agents_revision
                &&& final(self).world.mcp_revision == old(self).world.mcp_revision
                &&& final(self).world.host_revision == old(self).world.host_revision
                &&& final(self).world.instructions == old(self).world.instructions
                &&& final(self).world.mcp_bindings == old(self).world.mcp_bindings
                &&& final(self).world.disabled_tool_names == old(self).world.disabled_tool_names
                &&& final(self).world.diagnostics == old(self).world.diagnostics
                &&& final(self).world.sandbox == old(self).world.sandbox
                &&& final(self).world.host_ready == old(self).world.host_ready
            },
    {
        if is_active(&self.world.skill_activations, &activation) {
            return false;
        }
        let mut combined: Vec<SkillActivation> = Vec::new();
        let mut i: usize = 0;
        while i < self.world.skill_activations.len()
            invariant
                i <= self.world.skill_activations@.len(),
                combined@.len() == i,
                activation_views(combined@) == activation_views(self.world.skill_activations@).take(i as int),
            decreases self.world.skill_activations@.len() - i,
        {
            let a = copy_activation(&self.world.skill_activations[i]);
            let ghost prev = combined@;
            combined.push(a);
            proof {
                let src = activation_views(self.world.skill_activations@);
                assert forall|j: int| 0 <= j < i + 1 implies #[trigger] activation_views(combined@)[j] == src.take(i + 1)[j] by {
                    if j < i {
                        assert(combined@[j] == prev[j]);
                        assert(activation_views(prev)[j] == src.take(i as int)[j]);
                    }
                }
            }
            assert(activation_views(combined@) =~= activation_views(self.world.skill_activations@).take(i + 1));
            i = i + 1;
        }
        let ghost added = (activation.skill_id@, activation.content_revision@);
        let ghost prev = combined@;
        assert(activation_views(self.world.skill_activations@).take(i as int) =~= activation_views(self.world.skill_activations@));
        combined.push(activation);
        proof {
            let src = activation_views(self.world.skill_activations@);
            assert forall|j: int| 0 <= j < src.len() + 1 implies #[trigger] activation_views(combined@)[j] == src.push(added)[j] by {
                if j < src.len() {
                    assert(combined@[j] == prev[j]);
                    assert(activation_views(prev)[j] == src[j]);
                }
            }
        }
        assert(activation_views(combined@) =~= activation_views(self.world.skill_activations@).push(added));
        let sorted = sort_by_skill_id(&combined);
        let revision = skills_revision(&sorted);
        let mut ids: Vec<String> = Vec::new();
        let mut k: usize = 0;
        while k < sorted.len()
            invariant
                k <= sorted@.len(),
                ids@.len() == k,
                strs(ids@) == activation_views(sorted@).take(k as int).map_values(|p: (Seq<char>, Seq<char>)| p.0),
            decreases sorted@.len() - k,
        {
            let ghost prev = ids@;
            ids.push(sorted[k].skill_id.clone());
            proof {
                let want = activation_views(sorted@).take(k + 1).map_values(|p: (Seq<char>, Seq<char>)| p.0);
                let had = activation_views(sorted@).take(k as int).map_values(|p: (Seq<char>, Seq<char>)| p.0);
                assert forall|j: int| 0 <= j < k + 1 implies #[trigger] strs(ids@)[j] == want[j] by {
                    if j < k {
                        assert(ids@[j] == prev[j]);
                        assert(strs(prev)[j] == had[j]);
                    }
                }
            }
            assert(strs(ids@) =~= activation_views(sorted@).take(k + 1).map_values(|p: (Seq<char>, Seq<char>)| p.0));
            k = k + 1;
        }
        assert(activation_views(sorted@).take(k as int) =~= activation_views(sorted@));
        if self.workload.workload != workload {
            self.world.profile_revision = if self.world.profile_revision == u64::MAX {
                self.world.profile_revision
            } else {
                self.world.profile_revision + 1
            };
        }
        self.world.context_revision = if self.world.context_revision == u64::MAX {
            self.world.context_revision
        } else {
            self.world.context_revision + 1
        };
        self.world.skill_activations = sorted;
        self.world.skills_revision = revision;
        self.workload = WorkloadResolution {
            workload,
            source,
            activated_skill_ids: ids,
            reason,
            classifier_revision,
        };
        true
    }
}

} // verus!
