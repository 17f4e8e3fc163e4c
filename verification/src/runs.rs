//! Agent Run bookkeeping: the checks on a new Run, the registry of executing Runs, and the
//! generation fencing of session lanes.

use vstd::prelude::*;

use crate::json::{json_view, JsonValue, JsonView};
use crate::security::PermissionProfile;
use crate::text::{str_eq, trim, trimmed};

verus! {

// ---------------------------------------------------------------------------------------------
// Creating a Run
// ---------------------------------------------------------------------------------------------

/// Where a Run was started from.
#[derive(PartialEq, Eq, Structural, Clone, Copy, Debug)]
pub enum EntryProfile {
    Workbench,
    DesktopControl,
    PetConversation,
}

/// The kind of work a Run is classified as.
#[derive(PartialEq, Eq, Structural, Clone, Copy, Debug)]
pub enum WorkloadKind {
    General,
    Coding,
    Office,
}

/// How the agent behaves in a Run.
#[derive(PartialEq, Eq, Structural, Clone, Copy, Debug)]
pub enum BehaviorMode {
    Default,
    Plan,
}

/// What a session is bound to.
#[derive(Debug)]
pub enum SessionContextBinding {
    General,
    Avatar { avatar_id: String },
    Project { project_id: String },
}

/// Where a Run executes: a checkout of a Project.
#[derive(Debug)]
pub struct ExecutionTarget {
    pub project_id: String,
    pub checkout_id: String,
}

/// The parts of a Run request that decide whether it may be created.
#[derive(Debug)]
pub struct AgentRunCreateRequest {
    pub prompt: String,
    pub title: String,
    pub behavior_mode: BehaviorMode,
    pub permission_profile: PermissionProfile,
    pub entry_profile: EntryProfile,
    pub workload_override: Option<WorkloadKind>,
    pub context: SessionContextBinding,
    pub execution_target: Option<ExecutionTarget>,
}

/// Why a Run could not be created.
#[derive(PartialEq, Eq, Structural, Clone, Copy, Debug)]
pub enum AgentRunFactoryError {
    InvalidPrompt,
    InvalidTitle,
    CodingProjectRequired,
    UnexpectedExecutionTarget,
    PlanMustBeReadOnly,
    DesktopControlDisabled,
}

impl AgentRunFactoryError {
    /// The error's message.
    pub fn message(&self) -> (out: &'static str)
        ensures
            out@ == match self {
                AgentRunFactoryError::InvalidPrompt => "prompt must contain 1-32000 characters"@,
                AgentRunFactoryError::InvalidTitle => "title must contain 1-200 characters"@,
                AgentRunFactoryError::CodingProjectRequired => "coding Runs require a Project context and matching execution target"@,
                AgentRunFactoryError::UnexpectedExecutionTarget => "General and Avatar contexts cannot carry a workspace execution target"@,
                AgentRunFactoryError::PlanMustBeReadOnly => "Plan mode must use a read-only permission profile"@,
                AgentRunFactoryError::DesktopControlDisabled => "desktop-control Runs are disabled"@,
            },
    {
        match self {
            AgentRunFactoryError::InvalidPrompt => "prompt must contain 1-32000 characters",
            AgentRunFactoryError::InvalidTitle => "title must contain 1-200 characters",
            AgentRunFactoryError::CodingProjectRequired => "coding Runs require a Project context and matching execution target",
            AgentRunFactoryError::UnexpectedExecutionTarget => "General and Avatar contexts cannot carry a workspace execution target",
            AgentRunFactoryError::PlanMustBeReadOnly => "Plan mode must use a read-only permission profile",
            AgentRunFactoryError::DesktopControlDisabled => "desktop-control Runs are disabled",
        }
    }
}

/// Most characters of a prompt.
pub const MAX_PROMPT_CHARS: usize = 32000;

/// Most characters of a title.
pub const MAX_TITLE_CHARS: usize = 200;

/// A coding Run from the Workbench that targets a checkout of the Project it is bound to.
pub open spec fn coding_target_matches(request: AgentRunCreateRequest) -> bool {
    match (request.context, request.execution_target) {
        (SessionContextBinding::Project { project_id }, Some(target)) => target.project_id@ == project_id@,
        _ => false,
    }
}

/// The first check a new Run fails: its trimmed prompt and title must be non-empty and
/// bounded; Plan mode must be read-only; a coding Workbench Run must target its own Project;
/// desktop-control and pet-conversation Runs are disabled; a General or Avatar session carries
/// no execution target.
pub open spec fn create_request_error(request: AgentRunCreateRequest) -> Option<AgentRunFactoryError> {
    let prompt = trim(request.prompt@);
    let title = trim(request.title@);
    let coding = request.entry_profile == EntryProfile::Workbench && request.workload_override == Some(WorkloadKind::Coding);
    if prompt.len() == 0 || prompt.len() > MAX_PROMPT_CHARS {
        Some(AgentRunFactoryError::InvalidPrompt)
    } else if title.len() == 0 || title.len() > MAX_TITLE_CHARS {
        Some(AgentRunFactoryError::InvalidTitle)
    } else if request.behavior_mode == BehaviorMode::Plan && request.permission_profile != PermissionProfile::ReadOnly {
        Some(AgentRunFactoryError::PlanMustBeReadOnly)
    } else if coding && coding_target_matches(request) {
        None
    } else if coding {
        Some(AgentRunFactoryError::CodingProjectRequired)
    } else if request.entry_profile == EntryProfile::DesktopControl || request.entry_profile == EntryProfile::PetConversation {
        Some(AgentRunFactoryError::DesktopControlDisabled)
    } else if !(request.context is Project) && request.execution_target is Some {
        Some(AgentRunFactoryError::UnexpectedExecutionTarget)
    } else {
        None
    }
}

pub fn validate_create_request(request: &AgentRunCreateRequest) -> (out: Result<(), AgentRunFactoryError>)
    ensures
        match out {
            Ok(_) => create_request_error(*request) is None,
            Err(e) => create_request_error(*request) == Some(e),
        },
{
    let prompt = trimmed(request.prompt.as_str());
    let prompt_len = prompt.unicode_len();
    if prompt_len == 0 || prompt_len > MAX_PROMPT_CHARS {
        return Err(AgentRunFactoryError::InvalidPrompt);
    }
    let title = trimmed(request.title.as_str());
    let title_len = title.unicode_len();
    if title_len == 0 || title_len > MAX_TITLE_CHARS {
        return Err(AgentRunFactoryError::InvalidTitle);
    }
    if request.behavior_mode == BehaviorMode::Plan && request.permission_profile != PermissionProfile::ReadOnly {
        return Err(AgentRunFactoryError::PlanMustBeReadOnly);
    }
    let coding = request.entry_profile == EntryProfile::Workbench && match request.workload_override {
        Some(WorkloadKind::Coding) => true,
        _ => false,
    };
    if coding {
        let matches = match (&request.context, &request.execution_target) {
            (SessionContextBinding::Project { project_id }, Some(target)) => str_eq(
                target.project_id.as_str(),
                project_id.as_str(),
            ),
            _ => false,
        };
        if matches {
            return Ok(());
        }
        return Err(AgentRunFactoryError::CodingProjectRequired);
    }
    if request.entry_profile == EntryProfile::DesktopControl || request.entry_profile == EntryProfile::PetConversation {
        return Err(AgentRunFactoryError::DesktopControlDisabled);
    }
    let project = match &request.context {
        SessionContextBinding::Project { .. } => true,
        _ => false,
    };
    if !project && request.execution_target.is_some() {
        return Err(AgentRunFactoryError::UnexpectedExecutionTarget);
    }
    Ok(())
}

// ---------------------------------------------------------------------------------------------
// Executing Runs
// ---------------------------------------------------------------------------------------------

/// Whether a Run competes for the background slots.
#[derive(PartialEq, Eq, Structural, Clone, Copy, Debug)]
pub enum AgentRunPriority {
    Interactive,
    Background,
}

/// Why the registry refused an operation.
#[derive(PartialEq, Eq, Structural, Clone, Copy, Debug)]
pub enum AgentExecutorRegistryError {
    AlreadyRegistered,
    NotRegistered,
    StaleGeneration,
}

impl AgentExecutorRegistryError {
    /// The error's message.
    pub fn message(&self) -> (out: &'static str)
        ensures
            out@ == match self {
                AgentExecutorRegistryError::AlreadyRegistered => "run is already registered"@,
                AgentExecutorRegistryError::NotRegistered => "run is not registered"@,
                AgentExecutorRegistryError::StaleGeneration => "run generation precondition failed"@,
            },
    {
        match self {
            AgentExecutorRegistryError::AlreadyRegistered => "run is already registered",
            AgentExecutorRegistryError::NotRegistered => "run is not registered",
            AgentExecutorRegistryError::StaleGeneration => "run generation precondition failed",
        }
    }
}

/// A Run being executed.
#[derive(Debug)]
pub struct ActiveRun {
    pub session_id: String,
    pub run_id: String,
    pub run_generation: u64,
    pub priority: AgentRunPriority,
}

/// What the registry knows of a Run: its session, generation and priority.
pub type ActiveRunView = (Seq<char>, u64, AgentRunPriority);

pub open spec fn active_view(r: ActiveRun) -> ActiveRunView {
    (r.session_id@, r.run_generation, r.priority)
}

/// The Runs being executed, each registered once.
#[derive(Debug)]
pub struct RunRegistry {
    runs: Vec<ActiveRun>,
}

pub open spec fn runs_map(runs: Seq<ActiveRun>) -> Map<Seq<char>, ActiveRunView>
    decreases runs.len(),
{
    if runs.len() == 0 {
        Map::empty()
    } else {
        runs_map(runs.drop_last()).insert(runs.last().run_id@, active_view(runs.last()))
    }
}

pub open spec fn unique_ids(runs: Seq<ActiveRun>) -> bool {
    forall|i: int, j: int| 0 <= i < j < runs.len() ==> (#[trigger] runs[i]).run_id@ != (#[trigger] runs[j]).run_id@
}

proof fn lemma_runs_map(runs: Seq<ActiveRun>)
    requires
        unique_ids(runs),
    ensures
        forall|i: int| 0 <= i < runs.len() ==> #[trigger] runs_map(runs).dom().contains(runs[i].run_id@)
            && runs_map(runs)[runs[i].run_id@] == active_view(runs[i]),
        forall|id: Seq<char>| #[trigger] runs_map(runs).dom().contains(id) ==> exists|i: int|
            0 <= i < runs.len() && runs[i].run_id@ == id,
    decreases runs.len(),
{
    if runs.len() > 0 {
        let d = runs.drop_last();
        assert(unique_ids(d));
        lemma_runs_map(d);
        assert forall|id: Seq<char>| #[trigger] runs_map(runs).dom().contains(id) implies exists|i: int|
            0 <= i < runs.len() && runs[i].run_id@ == id by {
            if id != runs.last().run_id@ {
                assert(runs_map(d).dom().contains(id));
                let i = choose|i: int| 0 <= i < d.len() && d[i].run_id@ == id;
                assert(runs[i] == d[i]);
            } else {
                assert(runs[runs.len() - 1].run_id@ == id);
            }
        }
        assert forall|i: int| 0 <= i < runs.len() implies #[trigger] runs_map(runs).dom().contains(runs[i].run_id@)
            && runs_map(runs)[runs[i].run_id@] == active_view(runs[i]) by {
            if i < runs.len() - 1 {
                assert(runs[i] == d[i]);
                assert(runs_map(d).dom().contains(d[i].run_id@));
                assert(runs[i].run_id@ != runs[runs.len() - 1].run_id@);
            }
        }
    }
}

impl View for RunRegistry {
    type V = Map<Seq<char>, ActiveRunView>;

    closed spec fn view(&self) -> Map<Seq<char>, ActiveRunView> {
        runs_map(self.runs@)
    }
}

impl RunRegistry {
    /// Each Run is registered once.
    pub closed spec fn well_formed(&self) -> bool {
        unique_ids(self.runs@)
    }

    pub fn new() -> (r: Self)
        ensures
            r.well_formed(),
            r@ == Map::<Seq<char>, ActiveRunView>::empty(),
    {
        RunRegistry { runs: Vec::new() }
    }

    fn position(&self, run_id: &str) -> (out: Option<usize>)
        requires
            self.well_formed(),
        ensures
            match out {
                Some(i) => i < self.runs@.len() && self.runs@[i as int].run_id@ == run_id@,
                None => !self@.dom().contains(run_id@),
            },
    {
        proof {
            lemma_runs_map(self.runs@);
        }
        let mut i: usize = 0;
        while i < self.runs.len()
            invariant
                i <= self.runs@.len(),
                forall|k: int| 0 <= k < i ==> (#[trigger] self.runs@[k]).run_id@ != run_id@,
            decreases self.runs@.len() - i,
        {
            if str_eq(self.runs[i].run_id.as_str(), run_id) {
                return Some(i);
            }
            i = i + 1;
        }
        None
    }

    /// Registers a Run; a Run already registered is refused.
    pub fn register(&mut self, session_id: &str, run_id: &str, run_generation: u64, priority: AgentRunPriority) -> (out: Result<(), AgentExecutorRegistryError>)
        requires
            old(self).well_formed(),
        ensures
            final(self).well_formed(),
            match out {
                Ok(_) => !old(self)@.dom().contains(run_id@) && final(self)@ == old(self)@.insert(
                    run_id@,
                    (session_id@, run_generation, priority),
                ),
                Err(e) => old(self)@.dom().contains(run_id@) && e == AgentExecutorRegistryError::AlreadyRegistered
                    && final(self)@ == old(self)@,
            },
    {
        match self.position(run_id) {
            Some(i) => {
                proof {
                    lemma_runs_map(self.runs@);
                }
                Err(AgentExecutorRegistryError::AlreadyRegistered)
            },
            None => {
                let ghost before = self.runs@;
                proof {
                    lemma_runs_map(before);
                }
                self.runs.push(
                    ActiveRun { session_id: session_id.to_owned(), run_id: run_id.to_owned(), run_generation, priority },
                );
                assert(self.runs@.drop_last() =~= before);
                assert forall|i: int, j: int| 0 <= i < j < self.runs@.len() implies (#[trigger] self.runs@[i]).run_id@
                    != (#[trigger] self.runs@[j]).run_id@ by {
                    if j == self.runs@.len() - 1 {
                        assert(before[i] == self.runs@[i]);
                        assert(runs_map(before).dom().contains(before[i].run_id@));
                    } else {
                        assert(before[i] == self.runs@[i] && before[j] == self.runs@[j]);
                    }
                }
                Ok(())
            },
        }
    }

    /// The registered Run with `run_id`: its session, generation and priority.
    pub fn get(&self, run_id: &str) -> (out: Option<(String, u64, AgentRunPriority)>)
        requires
            self.well_formed(),
        ensures
            match out {
                Some(r) => self@.dom().contains(run_id@) && self@[run_id@] == (r.0@, r.1, r.2),
                None => !self@.dom().contains(run_id@),
            },
    {
        match self.position(run_id) {
            Some(i) => {
                proof {
                    lemma_runs_map(self.runs@);
                }
                let r = &self.runs[i];
                Some((r.session_id.clone(), r.run_generation, r.priority))
            },
            None => None,
        }
    }

    /// Whether no Run is registered.
    pub fn is_empty(&self) -> (b: bool)
        requires
            self.well_formed(),
        ensures
            b == (self@ == Map::<Seq<char>, ActiveRunView>::empty()),
    {
        proof {
            lemma_runs_map(self.runs@);
            if self.runs@.len() > 0 {
                assert(self@.dom().contains(self.runs@[0].run_id@));
            } else {
                assert(self@ =~= Map::<Seq<char>, ActiveRunView>::empty());
            }
        }
        self.runs.len() == 0
    }

    /// Checks a cancellation of the Run at `expected_generation`; on success the Run's session
    /// is returned, whose lane the caller resets after cancelling the Run.
    pub fn cancel(&self, run_id: &str, expected_generation: u64) -> (out: Result<String, AgentExecutorRegistryError>)
        requires
            self.well_formed(),
        ensures
            match out {
                Ok(session) => self@.dom().contains(run_id@) && self@[run_id@].1 == expected_generation
                    && self@[run_id@].0 == session@,
                Err(e) => if !self@.dom().contains(run_id@) {
                    e == AgentExecutorRegistryError::NotRegistered
                } else {
                    self@[run_id@].1 != expected_generation && e == AgentExecutorRegistryError::StaleGeneration
                },
            },
    {
        match self.get(run_id) {
            None => Err(AgentExecutorRegistryError::NotRegistered),
            Some((session, generation, _)) => {
                if generation != expected_generation {
                    Err(AgentExecutorRegistryError::StaleGeneration)
                } else {
                    Ok(session)
                }
            },
        }
    }

    /// Removes the Run when it is registered at `expected_generation`.
    pub fn remove(&mut self, run_id: &str, expected_generation: u64) -> (removed: bool)
        requires
            old(self).well_formed(),
        ensures
            final(self).well_formed(),
            removed == (old(self)@.dom().contains(run_id@) && old(self)@[run_id@].1 == expected_generation),
            removed ==> final(self)@ == old(self)@.remove(run_id@),
            !removed ==> final(self)@ == old(self)@,
    {
        proof {
            lemma_runs_map(self.runs@);
        }
        match self.position(run_id) {
            Some(i) => {
                if self.runs[i].run_generation != expected_generation {
                    return false;
                }
                let ghost before = self.runs@;
                let _ = self.runs.remove(i);
                proof {
                    assert(self.runs@ =~= before.remove(i as int));
                    assert forall|a: int, b: int| 0 <= a < b < self.runs@.len() implies (#[trigger] self.runs@[a]).run_id@
                        != (#[trigger] self.runs@[b]).run_id@ by {
                        let a0 = if a < i { a } else { a + 1 };
                        let b0 = if b < i { b } else { b + 1 };
                        assert(self.runs@[a] == before[a0] && self.runs@[b] == before[b0]);
                    }
                    lemma_runs_map(self.runs@);
                    assert forall|id: Seq<char>| #[trigger] self@.dom().contains(id) <==> runs_map(before).remove(run_id@).dom().contains(id) by {
                        if self@.dom().contains(id) {
                            let k = choose|k: int| 0 <= k < self.runs@.len() && self.runs@[k].run_id@ == id;
                            let k0 = if k < i { k } else { k + 1 };
                            assert(self.runs@[k] == before[k0]);
                        }
                        if runs_map(before).remove(run_id@).dom().contains(id) {
                            let k0 = choose|k: int| 0 <= k < before.len() && before[k].run_id@ == id;
                            assert(k0 != i);
                            let k = if k0 < i { k0 } else { k0 - 1 };
                            assert(self.runs@[k] == before[k0]);
                        }
                    }
                    assert forall|id: Seq<char>| #[trigger] self@.dom().contains(id) implies self@[id] == runs_map(before).remove(run_id@)[id] by {
                        let k = choose|k: int| 0 <= k < self.runs@.len() && self.runs@[k].run_id@ == id;
                        let k0 = if k < i { k } else { k + 1 };
                        assert(self.runs@[k] == before[k0]);
                    }
                    assert(self@ =~= runs_map(before).remove(run_id@));
                }
                true
            },
            None => false,
        }
    }

    /// The Runs of a session, to be cancelled when its lane is reset.
    pub fn runs_of_session(&self, session_id: &str) -> (out: Vec<String>)
        requires
            self.well_formed(),
        ensures
            forall|i: int| 0 <= i < out@.len() ==> self@.dom().contains(#[trigger] out@[i]@) && self@[out@[i]@].0 == session_id@,
            forall|id: Seq<char>| #[trigger] self@.dom().contains(id) && self@[id].0 == session_id@ ==> exists|i: int|
                0 <= i < out@.len() && out@[i]@ == id,
    {
        proof {
            lemma_runs_map(self.runs@);
        }
        let mut out: Vec<String> = Vec::new();
        let mut i: usize = 0;
        while i < self.runs.len()
            invariant
                self.well_formed(),
                i <= self.runs@.len(),
                forall|k: int| 0 <= k < out@.len() ==> runs_map(self.runs@).dom().contains(#[trigger] out@[k]@) && runs_map(self.runs@)[out@[k]@].0 == session_id@,
                forall|k: int| 0 <= k < i && self.runs@[k].session_id@ == session_id@ ==> exists|t: int|
                    0 <= t < out@.len() && #[trigger] out@[t]@ == self.runs@[k].run_id@,
            decreases self.runs@.len() - i,
        {
            proof {
                lemma_runs_map(self.runs@);
            }
            if str_eq(self.runs[i].session_id.as_str(), session_id) {
                let id = self.runs[i].run_id.clone();
                let ghost before = out@;
                out.push(id);
                assert(out@[out@.len() - 1]@ == self.runs@[i as int].run_id@);
                assert forall|k: int| 0 <= k < i + 1 && self.runs@[k].session_id@ == session_id@ implies exists|t: int|
                    0 <= t < out@.len() && #[trigger] out@[t]@ == self.runs@[k].run_id@ by {
                    if k < i {
                        let t = choose|t: int| 0 <= t < before.len() && before[t]@ == self.runs@[k].run_id@;
                        assert(out@[t] == before[t]);
                    } else {
                        assert(out@[out@.len() - 1]@ == self.runs@[k].run_id@);
                    }
                }
            }
            i = i + 1;
        }
        proof {
            lemma_runs_map(self.runs@);
            assert forall|id: Seq<char>| #[trigger] runs_map(self.runs@).dom().contains(id) && runs_map(self.runs@)[id].0 == session_id@ implies exists|t: int|
                0 <= t < out@.len() && out@[t]@ == id by {
                let k = choose|k: int| 0 <= k < self.runs@.len() && self.runs@[k].run_id@ == id;
                assert(runs_map(self.runs@)[self.runs@[k].run_id@] == active_view(self.runs@[k]));
            }
        }
        out
    }
}

/// A Run registered and then looked up is found with what it was registered with.
pub proof fn registered_run_is_found(before: Map<Seq<char>, ActiveRunView>, run_id: Seq<char>, run: ActiveRunView)
    ensures
        before.insert(run_id, run).dom().contains(run_id),
        before.insert(run_id, run)[run_id] == run,
{
}

// ---------------------------------------------------------------------------------------------
// Session lanes
// ---------------------------------------------------------------------------------------------

/// The generation of a session lane observed at some point.
#[derive(Debug)]
pub struct LaneMarker {
    pub session_id: String,
    pub generation: u64,
}

/// Why a lane could not be entered.
#[derive(PartialEq, Eq, Structural, Clone, Copy, Debug)]
pub enum LaneError {
    Cancelled,
    StaleGeneration,
}

impl LaneError {
    /// The error's message.
    pub fn message(&self) -> (out: &'static str)
        ensures
            out@ == match self {
                LaneError::Cancelled => "session lane was cancelled"@,
                LaneError::StaleGeneration => "session lane generation is stale"@,
            },
    {
        match self {
            LaneError::Cancelled => "session lane was cancelled",
            LaneError::StaleGeneration => "session lane generation is stale",
        }
    }
}

/// The current generation of each session lane; a lane never reset is at generation 1.
#[derive(Debug)]
pub struct LaneGenerations {
    lanes: Vec<(String, u64)>,
}

pub open spec fn lanes_map(lanes: Seq<(String, u64)>) -> Map<Seq<char>, u64>
    decreases lanes.len(),
{
    if lanes.len() == 0 {
        Map::empty()
    } else {
        lanes_map(lanes.drop_last()).insert(lanes.last().0@, lanes.last().1)
    }
}

/// The generation of `session`'s lane.
pub open spec fn generation_in(lanes: Map<Seq<char>, u64>, session: Seq<char>) -> u64 {
    if lanes.dom().contains(session) { lanes[session] } else { 1 }
}

pub open spec fn saturating_next(g: u64) -> u64 {
    if g == u64::MAX { g } else { (g + 1) as u64 }
}

impl View for LaneGenerations {
    type V = Map<Seq<char>, u64>;

    closed spec fn view(&self) -> Map<Seq<char>, u64> {
        lanes_map(self.lanes@)
    }
}

proof fn lemma_lanes_map_update(lanes: Seq<(String, u64)>, i: int, g: u64)
    requires
        0 <= i < lanes.len(),
    ensures
        lanes_map(lanes.update(i, (lanes[i].0, g))) == lanes_map(lanes).insert(lanes[i].0@, g) || exists|j: int|
            i < j < lanes.len() && lanes[j].0@ == lanes[i].0@,
    decreases lanes.len(),
{
    if i < lanes.len() - 1 {
        let d = lanes.drop_last();
        lemma_lanes_map_update(d, i, g);
        assert(lanes.update(i, (lanes[i].0, g)).drop_last() =~= d.update(i, (d[i].0, g)));
        if !(exists|j: int| i < j < d.len() && d[j].0@ == d[i].0@) {
            if lanes.last().0@ == lanes[i].0@ {
                assert(lanes[lanes.len() - 1].0@ == lanes[i].0@);
            } else {
                assert(lanes_map(lanes.update(i, (lanes[i].0, g))) =~= lanes_map(lanes).insert(lanes[i].0@, g));
            }
        } else {
            let j = choose|j: int| i < j < d.len() && d[j].0@ == d[i].0@;
            assert(lanes[j] == d[j]);
        }
    } else {
        assert(lanes.update(i, (lanes[i].0, g)).drop_last() =~= lanes.drop_last());
        assert(lanes_map(lanes.update(i, (lanes[i].0, g))) =~= lanes_map(lanes).insert(lanes[i].0@, g));
    }
}

impl LaneGenerations {
    pub fn new() -> (l: Self)
        ensures
            l@ == Map::<Seq<char>, u64>::empty(),
    {
        LaneGenerations { lanes: Vec::new() }
    }

    fn position(&self, session_id: &str) -> (out: Option<usize>)
        ensures
            match out {
                Some(i) => i < self.lanes@.len() && self.lanes@[i as int].0@ == session_id@ && forall|j: int|
                    i < j < self.lanes@.len() ==> #[trigger] self.lanes@[j].0@ != session_id@,
                None => forall|j: int| 0 <= j < self.lanes@.len() ==> #[trigger] self.lanes@[j].0@ != session_id@,
            },
    {
        let mut i: usize = self.lanes.len();
        while i > 0
            invariant
                i <= self.lanes@.len(),
                forall|j: int| i <= j < self.lanes@.len() ==> #[trigger] self.lanes@[j].0@ != session_id@,
            decreases i,
        {
            if str_eq(self.lanes[i - 1].0.as_str(), session_id) {
                return Some(i - 1);
            }
            i = i - 1;
        }
        None
    }

    /// The current generation of a session's lane.
    pub fn generation(&self, session_id: &str) -> (g: u64)
        ensures
            g == generation_in(self@, session_id@),
    {
        match self.position(session_id) {
            Some(i) => {
                proof {
                    lemma_lane_lookup(self.lanes@, i as int);
                }
                self.lanes[i].1
            },
            None => {
                proof {
                    lemma_lane_absent(self.lanes@, session_id@);
                }
                1
            },
        }
    }

    /// A marker of the session's current generation.
    pub fn marker(&self, session_id: &str) -> (m: LaneMarker)
        ensures
            m.session_id@ == session_id@,
            m.generation == generation_in(self@, session_id@),
    {
        LaneMarker { session_id: session_id.to_owned(), generation: self.generation(session_id) }
    }

    /// Whether a marker still names its lane's current generation.
    pub fn is_current(&self, marker: &LaneMarker) -> (b: bool)
        ensures
            b == (generation_in(self@, marker.session_id@) == marker.generation),
    {
        self.generation(marker.session_id.as_str()) == marker.generation
    }

    /// Checks, once the lane is held, that it was entered at the current generation.
    pub fn check_entry(&self, session_id: &str, entered_generation: u64) -> (out: Result<(), LaneError>)
        ensures
            match out {
                Ok(_) => generation_in(self@, session_id@) == entered_generation,
                Err(e) => generation_in(self@, session_id@) != entered_generation && e == LaneError::StaleGeneration,
            },
    {
        if self.generation(session_id) != entered_generation {
            Err(LaneError::StaleGeneration)
        } else {
            Ok(())
        }
    }

    /// Moves the session's lane to its next generation (saturating) and returns its marker;
    /// every other lane keeps its generation.
    pub fn reset(&mut self, session_id: &str) -> (m: LaneMarker)
        ensures
            m.session_id@ == session_id@,
            m.generation == saturating_next(generation_in(old(self)@, session_id@)),
            final(self)@ == old(self)@.insert(session_id@, m.generation),
    {
        let current = self.generation(session_id);
        let next = if current == u64::MAX { current } else { current + 1 };
        match self.position(session_id) {
            Some(i) => {
                let ghost before = self.lanes@;
                let key = self.lanes[i].0.clone();
                self.lanes.set(i, (key, next));
                proof {
                    lemma_lanes_map_update(before, i as int, next);
                    assert(self.lanes@ =~= before.update(i as int, (before[i as int].0, next)));
                }
            },
            None => {
                let ghost before = self.lanes@;
                self.lanes.push((session_id.to_owned(), next));
                assert(self.lanes@.drop_last() =~= before);
            },
        }
        LaneMarker { session_id: session_id.to_owned(), generation: next }
    }
}

proof fn lemma_lane_lookup(lanes: Seq<(String, u64)>, i: int)
    requires
        0 <= i < lanes.len(),
        forall|j: int| i < j < lanes.len() ==> #[trigger] lanes[j].0@ != lanes[i].0@,
    ensures
        lanes_map(lanes).dom().contains(lanes[i].0@),
        lanes_map(lanes)[lanes[i].0@] == lanes[i].1,
    decreases lanes.len(),
{
    if i < lanes.len() - 1 {
        let d = lanes.drop_last();
        assert forall|j: int| i < j < d.len() implies #[trigger] d[j].0@ != d[i].0@ by {
            assert(d[j] == lanes[j]);
        }
        lemma_lane_lookup(d, i);
        assert(lanes[lanes.len() - 1].0@ != lanes[i].0@);
    }
}

proof fn lemma_lane_absent(lanes: Seq<(String, u64)>, s: Seq<char>)
    requires
        forall|j: int| 0 <= j < lanes.len() ==> #[trigger] lanes[j].0@ != s,
    ensures
        !lanes_map(lanes).dom().contains(s),
    decreases lanes.len(),
{
    if lanes.len() > 0 {
        let d = lanes.drop_last();
        assert forall|j: int| 0 <= j < d.len() implies #[trigger] d[j].0@ != s by {
            assert(d[j] == lanes[j]);
        }
        lemma_lane_absent(d, s);
        assert(lanes[lanes.len() - 1].0@ != s);
    }
}

/// Resetting a lane fences every marker taken before: none of them is current afterwards,
/// while the marker the reset returns is (for a lane below the last generation).
pub proof fn reset_fences_old_markers(lanes: Map<Seq<char>, u64>, session: Seq<char>, old_generation: u64)
    requires
        old_generation == generation_in(lanes, session),
        old_generation < u64::MAX,
    ensures
        ({
            let next = saturating_next(generation_in(lanes, session));
            let after = lanes.insert(session, next);
            &&& generation_in(after, session) != old_generation
            &&& generation_in(after, session) == next
        }),
{
}

/// A reset leaves the generation of every other session's lane as it was.
pub proof fn reset_leaves_other_lanes(lanes: Map<Seq<char>, u64>, session: Seq<char>, other: Seq<char>, g: u64)
    requires
        other != session,
    ensures
        generation_in(lanes.insert(session, g), other) == generation_in(lanes, other),
{
}

// ---------------------------------------------------------------------------------------------
// Launching
// ---------------------------------------------------------------------------------------------

/// When a Run asks before acting.
#[derive(PartialEq, Eq, Structural, Clone, Copy, Debug)]
pub enum ApprovalPolicy {
    OnlyWhenNeeded,
    NeverPrompt,
}

/// The permission level and approval policy a launched Run gets: Plan mode is read-only
/// whatever the policy grants; full access and unattended Runs never prompt.
pub open spec fn launch_permissions_of(
    behavior: BehaviorMode,
    level: PermissionProfile,
    mode: crate::security::AuthorityMode,
) -> (PermissionProfile, ApprovalPolicy) {
    let effective = if behavior == BehaviorMode::Plan { PermissionProfile::ReadOnly } else { level };
    (
        effective,
        if effective == PermissionProfile::FullAccess || mode == crate::security::AuthorityMode::Unattended {
            ApprovalPolicy::NeverPrompt
        } else {
            ApprovalPolicy::OnlyWhenNeeded
        },
    )
}

pub fn launch_permissions(
    behavior: BehaviorMode,
    level: PermissionProfile,
    mode: crate::security::AuthorityMode,
) -> (out: (PermissionProfile, ApprovalPolicy))
    ensures
        out == launch_permissions_of(behavior, level, mode),
{
    let effective = if behavior == BehaviorMode::Plan { PermissionProfile::ReadOnly } else { level };
    let approval = if effective == PermissionProfile::FullAccess || mode == crate::security::AuthorityMode::Unattended {
        ApprovalPolicy::NeverPrompt
    } else {
        ApprovalPolicy::OnlyWhenNeeded
    };
    (effective, approval)
}

/// A Plan-mode Run is read-only and an unattended Run never waits for an approval, whatever
/// policy it was launched with.
pub proof fn plan_runs_are_read_only_and_unattended_runs_never_prompt(
    behavior: BehaviorMode,
    level: PermissionProfile,
    mode: crate::security::AuthorityMode,
)
    ensures
        behavior == BehaviorMode::Plan ==> launch_permissions_of(behavior, level, mode).0 == PermissionProfile::ReadOnly,
        mode == crate::security::AuthorityMode::Unattended ==> launch_permissions_of(behavior, level, mode).1
            == ApprovalPolicy::NeverPrompt,
{
}

/// The identities a Run request carries, which must agree before the Run executes.
#[derive(Debug)]
pub struct RunLineage {
    pub run_id: String,
    pub run_session_id: String,
    pub run_entry_profile: EntryProfile,
    pub run_workload_override: Option<WorkloadKind>,
    pub session_id: String,
    pub session_entry_profile: EntryProfile,
    pub request_workload_override: Option<WorkloadKind>,
    pub grants_session_id: String,
    pub grants_run_id: Option<String>,
}

/// The Run belongs to the session, keeps its entry profile and workload, and its grants were
/// issued to this session and this Run.
pub open spec fn lineage_matches(l: RunLineage) -> bool {
    &&& l.run_session_id@ == l.session_id@
    &&& l.run_entry_profile == l.session_entry_profile
    &&& l.run_workload_override == l.request_workload_override
    &&& l.grants_session_id@ == l.session_id@
    &&& l.grants_run_id matches Some(r) && r@ == l.run_id@
}

/// Checks a Run request's lineage before it executes.
pub fn validate_run_lineage(lineage: &RunLineage) -> (out: Result<(), String>)
    ensures
        out is Ok <==> lineage_matches(*lineage),
        out matches Err(m) ==> m@ == "AgentRunRequest lineage or immutable snapshots do not match"@,
{
    let grants_run = match &lineage.grants_run_id {
        Some(r) => str_eq(r.as_str(), lineage.run_id.as_str()),
        None => false,
    };
    if !str_eq(lineage.run_session_id.as_str(), lineage.session_id.as_str())
        || lineage.run_entry_profile != lineage.session_entry_profile
        || lineage.run_workload_override != lineage.request_workload_override
        || !str_eq(lineage.grants_session_id.as_str(), lineage.session_id.as_str()) || !grants_run
    {
        return Err("AgentRunRequest lineage or immutable snapshots do not match".to_owned());
    }
    Ok(())
}

// ---------------------------------------------------------------------------------------------
// Executing a Run
// ---------------------------------------------------------------------------------------------

/// The registration a Run executes under must be its own: same generation, same session.
pub fn registration_matches(
    active_generation: u64,
    active_session_id: &str,
    run_generation: u64,
    run_session_id: &str,
) -> (out: bool)
    ensures
        out == (active_generation == run_generation && active_session_id@ == run_session_id@),
{
    active_generation == run_generation && str_eq(active_session_id, run_session_id)
}

/// How the compaction before a Run ended.
#[derive(Debug)]
pub enum PreRunCompaction {
    /// A new checkpoint was installed.
    Installed,
    /// No compaction was needed.
    NotNeeded,
    Failed(crate::compaction_flow::CompactionError),
}

/// The checkpoint a Run starts from.
#[derive(Debug)]
pub enum CheckpointChoice {
    /// Review Runs start without one.
    NoCheckpoint,
    /// The checkpoint just installed.
    Installed,
    /// The latest stored checkpoint, if any.
    Latest,
    /// The latest stored checkpoint, after recording this `context.compaction_failed` payload.
    LatestAfterFailure(JsonValue),
    /// The Run was cancelled while compacting.
    Cancelled,
}

/// Review Runs do not compact. Otherwise a new checkpoint is used; without one the latest
/// stored checkpoint is; a cancelled compaction stops the Run; any other failure is recorded
/// with its code and the Run continues from the previous checkpoint or the raw tail.
pub fn checkpoint_choice(review: bool, outcome: PreRunCompaction) -> (out: CheckpointChoice)
    ensures
        review ==> out is NoCheckpoint,
        !review ==> match outcome {
            PreRunCompaction::Installed => out is Installed,
            PreRunCompaction::NotNeeded => out is Latest,
            PreRunCompaction::Failed(e) => if e matches crate::compaction_flow::CompactionError::Runtime(
                crate::compaction_flow::ModelRuntimeErrorKind::Cancelled,
            ) {
                out is Cancelled
            } else {
                out matches CheckpointChoice::LatestAfterFailure(p) && json_view(p) == JsonView::Object(
                    seq![
                        ("code"@, JsonView::Str(crate::compaction_flow::failure_code_of(e))),
                        ("fallback"@, JsonView::Str("previous_checkpoint_or_raw_tail"@)),
                    ],
                )
            },
        },
{
    if review {
        return CheckpointChoice::NoCheckpoint;
    }
    match outcome {
        PreRunCompaction::Installed => CheckpointChoice::Installed,
        PreRunCompaction::NotNeeded => CheckpointChoice::Latest,
        PreRunCompaction::Failed(e) => {
            let (cancelled, code) = crate::compaction_flow::failure_record(&e);
            if cancelled {
                return CheckpointChoice::Cancelled;
            }
            let members = vec![
                ("code".to_owned(), JsonValue::String(code)),
                ("fallback".to_owned(), JsonValue::String("previous_checkpoint_or_raw_tail".to_owned())),
            ];
            let ghost ms = members@;
            proof {
                crate::budget::lemma_members_view(ms);
            }
            let payload = JsonValue::Object(members);
            assert(crate::json::members_view(ms) =~= seq![
                ("code"@, JsonView::Str(crate::compaction_flow::failure_code_of(e))),
                ("fallback"@, JsonView::Str("previous_checkpoint_or_raw_tail"@)),
            ]);
            CheckpointChoice::LatestAfterFailure(payload)
        },
    }
}

/// A Run that succeeded after its session lane was reset reports the stale generation instead.
pub fn lane_checked_result<E>(lane_current: bool, result: Result<(), E>, stale: E) -> (out: Result<(), E>)
    ensures
        out == (if !lane_current && result is Ok { Err(stale) } else { result }),
{
    if !lane_current && result.is_ok() {
        Err(stale)
    } else {
        result
    }
}

} // verus!
